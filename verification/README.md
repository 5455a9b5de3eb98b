# image2

Image processing over interleaved pixel buffers of any value type and color.

## Layout

- `src/` is the verified library. Every function there carries a contract that Verus proves:
  - `geom`: points, sizes and regions;
  - `color`: color spaces (channel count, alpha channel, name);
  - `meta`, `image`, `data`: pixel addressing, image storage, pixel and row access, region copies;
  - `histogram`: bin counts, first minimum and maximum bins;
  - `schedule`: how filters are grouped into pipeline stages, what each stage reads and
    feeds on, and how asynchronous filters walk the output image, poll by poll;
  - `image_data`: the header of memory-mapped image files;
  - `hash`: content hashes (Hamming distance, hexadecimal form);
  - `io`: value type names, the color and dimension checks of image reading, and the command
    arguments, output parsing and checks around ImageMagick/GraphicsMagick.
  Public proof functions whose names start with `law_` state the properties that tie several
  operations together (what a read gives back of a write, how pixel offsets decode, how pipeline
  stages cover the filters, how header encoding round-trips, ...).
- `app/` is ordinary Rust around the library: floating-point pixel arithmetic and color
  conversions, filters, kernels and transforms, hashing of pixel brightness, running
  ImageMagick/GraphicsMagick, memory-mapped files and serializable copies of the geometry types.
- `tests/` exercises the library on concrete values.

## Not included

- The OpenImageIO backend (`ImageInput`, `ImageOutput`, `ImageSpec` and their attributes) binds
  the OpenImageIO C++ library through the `cpp` crate and a build script, neither of which can
  be built with this crate. I/O goes through ImageMagick/GraphicsMagick only. The decisions that
  backend makes when reading an image (`io::read_as`, `io::check_read_dimensions`) are kept and
  verified, ready for such a reader.
- Memory-mapped images are copied into ordinary image buffers (`app/mmap.rs`); changes reach
  the file when `Mmap::store` is called, since viewing mapped bytes as typed values takes
  `unsafe` code, which the verified library does not contain.
- A whole-image filter (such as a kernel or a transform) ends its pipeline stage and reads the
  stage's input image; the per-pixel filters of a stage compose pixel by pixel.
