# vulkan_engine

The bookkeeping of a small Vulkan engine, written in Verus and verified:
the functions in `src/` carry contracts that Verus proves. The exceptions
are the few functions marked `#[verifier::external_body]`, which call the
`spirv-layout` crate or the standard library: their contracts are trusted
(each one's doc comment says what it claims), not proved.

## Layout

- `src/assets/mesh_parser.rs`: the Wavefront `.obj` reader (lines, faces,
  index triplets, groups) and the mesh builder that turns faces into
  triangles.
- `src/ve_shader_reflect.rs`, `src/spirv.rs`: descriptor set bindings of
  SPIR-V shaders (read with the `spirv-layout` crate) and merging the
  interfaces of several shader stages.
- `src/scene/material.rs`: the material properties that a shader interface
  exposes, and where a value written to one goes.
- `src/renderer/`: instances of a model kept behind handles, with the visible
  ones first; subdividing a triangle mesh; the descriptor set cache with its
  ring of frames; device, queue family, present mode, surface format and
  swapchain image count choices.
- `src/input.rs`, `src/window.rs`: held keys across frames, and the cursor
  capture that follows the window focus.
- `src/math/`, `src/crystal/`: small fixed-size matrix and vector types.
- `tests/`: tests of the library on concrete values.
- `app/`: a command-line front end: loads `.obj` files, prints the material
  properties of a pair of SPIR-V shaders, and refines an icosahedron into a
  sphere. File access and floating-point vertex data live there.
