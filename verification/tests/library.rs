use raytracing::bvh::{split_span, SpanSplit};
use raytracing::camera::{render, write_ppm_header};
use raytracing::color::write_color;
use raytracing::helper::random_i32_in_range;
use raytracing::image::RTWImage;
use raytracing::material::ScatterRecord;
use raytracing::pdf::SpherePDF;
use raytracing::hittable_list::random_index;
use raytracing::perlin::{shuffle_with_targets, Perlin};
use raytracing::ray::Ray;
use raytracing::texture::{checker_is_even, ImageTexture, SolidColor};

fn color_text(r: i32, g: i32, b: i32) -> String {
    let mut out: Vec<u8> = Vec::new();
    write_color(&mut out, r, g, b);
    String::from_utf8(out).unwrap()
}

#[test]
fn random_i32_stays_in_range() {
    for _ in 0..1000 {
        let r = random_i32_in_range(-3, 4);
        assert!((-3..=4).contains(&r));
    }
}

#[test]
fn random_i32_single_value_range() {
    for _ in 0..20 {
        assert_eq!(random_i32_in_range(7, 7), 7);
    }
}

#[test]
fn random_i32_reaches_more_than_the_lower_bound() {
    let mut seen_other = false;
    let mut seen_max = false;
    for _ in 0..2000 {
        let r = random_i32_in_range(0, 3);
        if r != 0 {
            seen_other = true;
        }
        if r == 3 {
            seen_max = true;
        }
    }
    assert!(seen_other);
    assert!(seen_max);
}

#[test]
fn random_i32_full_range_does_not_panic() {
    let _ = random_i32_in_range(i32::MIN, i32::MAX);
}

#[test]
fn write_color_formats_bytes() {
    assert_eq!(color_text(0, 0, 0), "0 0 0\n");
    assert_eq!(color_text(255, 128, 7), "255 128 7\n");
    assert_eq!(color_text(10, 100, 99), "10 100 99\n");
}

#[test]
fn write_color_negative_and_extreme_values() {
    assert_eq!(color_text(-12, 0, 1), "-12 0 1\n");
    assert_eq!(
        color_text(i32::MIN, i32::MAX, -1),
        "-2147483648 2147483647 -1\n"
    );
}

#[test]
fn write_color_appends_after_existing_text() {
    let mut out: Vec<u8> = b"P3\n".to_vec();
    write_color(&mut out, 1, 2, 3);
    write_color(&mut out, 40, 50, 60);
    assert_eq!(String::from_utf8(out).unwrap(), "P3\n1 2 3\n40 50 60\n");
}

#[test]
fn ppm_header_text() {
    let mut out: Vec<u8> = Vec::new();
    write_ppm_header(&mut out, 600, 600);
    assert_eq!(String::from_utf8(out).unwrap(), "P3\n600 600\n255\n");
    let mut out: Vec<u8> = Vec::new();
    write_ppm_header(&mut out, 100, 56);
    assert_eq!(String::from_utf8(out).unwrap(), "P3\n100 56\n255\n");
}

fn identity_gradients() -> Vec<usize> {
    (0..256).collect()
}

#[test]
fn perlin_corner_hits_every_gradient_along_an_axis() {
    let p = Perlin::new(identity_gradients());
    let mut seen = vec![false; 256];
    for i in 0..256 {
        let c = p.corner(i, 0, 0);
        assert!(c < 256);
        assert!(!seen[c]);
        seen[c] = true;
    }
    assert!(seen.iter().all(|&s| s));
}

#[test]
fn perlin_corner_repeats_every_256_points() {
    let p = Perlin::new(identity_gradients());
    for (i, j, k) in [(0, 0, 0), (5, -7, 300), (-1000, 17, 255), (i32::MAX, i32::MIN, 3)] {
        let c = p.corner(i, j, k);
        assert_eq!(p.corner(i.wrapping_add(256), j, k), c);
        assert_eq!(p.corner(i, j.wrapping_add(256), k), c);
        assert_eq!(p.corner(i, j, k.wrapping_add(256)), c);
        assert_eq!(p.corner(i.wrapping_sub(256), j, k.wrapping_add(512)), c);
    }
}

#[test]
fn perlin_tables_are_shuffled() {
    // The chance that all of 20 freshly shuffled lattices keep corner(i, 0, 0) in order is nil.
    let mut some_shuffled = false;
    for _ in 0..20 {
        let p = Perlin::new(identity_gradients());
        let base = p.corner(0, 0, 0);
        if (0..256).any(|i| p.corner(i, 0, 0) != (i as usize) ^ base) {
            some_shuffled = true;
        }
    }
    assert!(some_shuffled);
}

#[test]
fn ray_accessors() {
    let mut r = Ray::new([1.0, 2.0, 3.0], [0.0, 0.0, -1.0]);
    assert_eq!(*r.origin(), [1.0, 2.0, 3.0]);
    assert_eq!(*r.direction(), [0.0, 0.0, -1.0]);
    r.origin_mut()[1] = 5.0;
    assert_eq!(*r.origin(), [1.0, 5.0, 3.0]);
    assert_eq!(*r.direction(), [0.0, 0.0, -1.0]);
    *r.direction_mut() = [1.0, 1.0, 1.0];
    assert_eq!(*r.direction(), [1.0, 1.0, 1.0]);
    assert_eq!(*r.origin(), [1.0, 5.0, 3.0]);
}

#[test]
fn image_rejects_wrong_texel_count() {
    assert!(RTWImage::from_pixels(2, 2, vec![0u8; 3]).is_none());
    assert!(RTWImage::from_pixels(2, 2, vec![0u8; 5]).is_none());
    assert!(RTWImage::<u8>::from_pixels(0, 5, vec![]).is_some());
}

#[test]
fn image_texels_are_row_major() {
    let img = RTWImage::from_pixels(3, 2, vec![10, 11, 12, 20, 21, 22]).unwrap();
    assert_eq!(img.width(), 3);
    assert_eq!(img.height(), 2);
    assert_eq!(img.pixel_data(0, 0), 10);
    assert_eq!(img.pixel_data(2, 0), 12);
    assert_eq!(img.pixel_data(0, 1), 20);
    assert_eq!(img.pixel_data(1, 1), 21);
}

#[test]
fn image_texture_holds_its_image() {
    let img = RTWImage::from_pixels(1, 1, vec![[0.5f32, 0.25, 1.0]]).unwrap();
    let tex = ImageTexture::new(img);
    assert_eq!(tex.image().width(), 1);
    assert_eq!(tex.image().pixel_data(0, 0), [0.5f32, 0.25, 1.0]);
}

#[test]
fn solid_color_is_constant() {
    let c = SolidColor::new(&[0.73f64, 0.73, 0.73]);
    assert_eq!(c.albedo(), [0.73, 0.73, 0.73]);
    assert_eq!(c.clone().albedo(), [0.73, 0.73, 0.73]);
}

#[test]
fn scatter_record_fields() {
    let rec = ScatterRecord {
        attenuation: [1.0f64, 1.0, 1.0],
        scattered: Ray::new([0.0f64, 0.0, 0.0], [0.0, 1.0, 0.0]),
    };
    assert_eq!(rec.attenuation, [1.0, 1.0, 1.0]);
    assert_eq!(*rec.scattered.direction(), [0.0, 1.0, 0.0]);
    let _ = SpherePDF;
}

#[test]
fn color_text_of_each_byte_value_is_distinct() {
    let mut seen = std::collections::HashSet::new();
    for v in -300..=300 {
        assert!(seen.insert(color_text(v, 0, 0)));
    }
}

#[test]
fn split_span_cases() {
    assert_eq!(split_span(0, 1), SpanSplit::Single);
    assert_eq!(split_span(4, 5), SpanSplit::Single);
    assert_eq!(split_span(0, 2), SpanSplit::Pair);
    assert_eq!(split_span(0, 3), SpanSplit::Halves(1));
    assert_eq!(split_span(0, 10), SpanSplit::Halves(5));
    assert_eq!(split_span(3, 10), SpanSplit::Halves(6));
}

#[test]
fn split_span_halves_shrink() {
    for start in 0..20usize {
        for end in start + 3..start + 40 {
            match split_span(start, end) {
                SpanSplit::Halves(mid) => assert!(start < mid && mid < end),
                other => panic!("unexpected {:?}", other),
            }
        }
    }
}

#[test]
fn render_writes_rows_top_down() {
    let mut out: Vec<u8> = Vec::new();
    let calls = std::cell::RefCell::new(Vec::new());
    render(&mut out, 3, 2, |i: i32, j: i32| {
        calls.borrow_mut().push((i, j));
        (i, j, 10 * j + i)
    });
    assert_eq!(
        String::from_utf8(out).unwrap(),
        "P3\n3 2\n255\n0 0 0\n1 0 1\n2 0 2\n0 1 10\n1 1 11\n2 1 12\n"
    );
    assert_eq!(
        calls.into_inner(),
        vec![(0, 0), (1, 0), (2, 0), (0, 1), (1, 1), (2, 1)]
    );
}

#[test]
fn render_of_empty_image_is_header_only() {
    let mut out: Vec<u8> = Vec::new();
    render(&mut out, 0, 4, |_i: i32, _j: i32| -> (i32, i32, i32) { panic!("no pixels") });
    assert_eq!(String::from_utf8(out).unwrap(), "P3\n0 4\n255\n");
}

#[test]
fn shuffle_with_targets_applies_swaps_from_the_end() {
    let mut p = vec![0usize, 1, 2, 3];
    shuffle_with_targets(&mut p, &vec![0, 0, 1, 0]);
    assert_eq!(p, vec![2, 3, 1, 0]);
}

#[test]
fn shuffle_with_own_positions_keeps_order() {
    let mut p: Vec<usize> = (10..20).collect();
    let targets: Vec<usize> = (0..10).collect();
    shuffle_with_targets(&mut p, &targets);
    assert_eq!(p, (10..20).collect::<Vec<usize>>());
}

#[test]
fn shuffle_with_targets_reverses_with_zero_targets_on_two() {
    let mut p = vec![7usize, 9];
    shuffle_with_targets(&mut p, &vec![0, 0]);
    assert_eq!(p, vec![9, 7]);
    let mut empty: Vec<usize> = Vec::new();
    shuffle_with_targets(&mut empty, &Vec::new());
    assert!(empty.is_empty());
}

#[test]
fn perlin_from_identity_targets_hashes_by_xor() {
    let own: Vec<usize> = (0..256).collect();
    let p = Perlin::from_targets(identity_gradients(), &own, &own, &own);
    for (i, j, k) in [(0, 0, 0), (1, 2, 4), (255, 1, 0), (-1, 3, 7), (300, 256, 512)] {
        let expected = ((i & 255) ^ (j & 255) ^ (k & 255)) as usize;
        assert_eq!(p.corner(i, j, k), expected);
    }
}

#[test]
fn perlin_from_targets_swaps_first_entries() {
    // Only position 1 moves: it is exchanged with position 0.
    let mut tx: Vec<usize> = (0..256).collect();
    tx[1] = 0;
    let own: Vec<usize> = (0..256).collect();
    let p = Perlin::from_targets(identity_gradients(), &tx, &own, &own);
    assert_eq!(p.corner(0, 0, 0), 1);
    assert_eq!(p.corner(1, 0, 0), 0);
    assert_eq!(p.corner(2, 0, 0), 2);
}

#[test]
fn perlin_clone_keeps_tables() {
    let p = Perlin::new(identity_gradients());
    let q = p.clone();
    for i in 0..256 {
        assert_eq!(p.corner(i, 3, -9), q.corner(i, 3, -9));
    }
}

#[test]
fn checker_parity() {
    assert!(checker_is_even(0, 0, 0));
    assert!(!checker_is_even(1, 0, 0));
    assert!(!checker_is_even(-1, 0, 0));
    assert!(checker_is_even(-1, -1, 2));
    assert!(!checker_is_even(-3, 1, 1));
    assert!(checker_is_even(i32::MAX, 1, i32::MIN + 0));
}

#[test]
fn random_index_stays_below_len() {
    for _ in 0..500 {
        assert!(random_index(5) < 5);
    }
    assert_eq!(random_index(1), 0);
    let mut seen = [false; 3];
    for _ in 0..500 {
        seen[random_index(3)] = true;
    }
    assert!(seen.iter().all(|&s| s));
}

#[test]
fn image_and_ray_clone_and_compare() {
    let img = RTWImage::from_pixels(2, 1, vec![3u8, 4]).unwrap();
    let copy = img.clone();
    assert_eq!(copy.width(), 2);
    assert_eq!(copy.pixel_data(1, 0), 4);
    let tex = ImageTexture::new(copy).clone();
    assert_eq!(tex.image().pixel_data(0, 0), 3);
    let r = Ray::new([1.0, 2.0, 3.0], [0.0, 0.0, 1.0]);
    assert!(r.clone() == r);
    assert!(Ray::new([1.0, 2.0, 3.0], [0.0, 1.0, 0.0]) != r);
}
