# raytracing

A path tracer in the style of "Ray Tracing in One Weekend" that renders a
Cornell box to standard output as a plain PPM image.

- `src/` is the verified library: the parts of the renderer that work on
  integers and containers. Random integer choice (`helper`), the Perlin
  lattice tables and their corner lookup (`perlin`), the split decision of the
  bounding volume hierarchy (`bvh`), the PPM text encoding and the row-major
  render driver (`color`, `camera`), and the ray, image, texture and scatter
  record containers, generic over the renderer's vector and texel types.
- `app/` is the renderer itself: vectors, intervals, bounding boxes, shapes,
  materials, textures, densities and the camera, all of which compute with
  `f64`, plus image file loading and the program's `main`.
- `tests/` runs the library on concrete values.
