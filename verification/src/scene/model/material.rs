//! The layout of the uniform data and textures that a material binds.
use vstd::prelude::*;

verus! {

/// A uniform block of `size` bytes.
pub struct UniformData {
    pub size: usize,
}

/// A texture binding.
pub struct TextureData {}

/// One binding of a shader layout.
pub enum UniformLayoutBinding {
    Uniform(UniformData),
    Texture(TextureData),
}

impl From<UniformData> for UniformLayoutBinding {
    fn from(value: UniformData) -> (r: Self) {
        UniformLayoutBinding::Uniform(value)
    }
}

impl vstd::std_specs::convert::FromSpecImpl<UniformData> for UniformLayoutBinding {
    open spec fn obeys_from_spec() -> bool {
        true
    }

    open spec fn from_spec(value: UniformData) -> Self {
        UniformLayoutBinding::Uniform(value)
    }
}

impl From<TextureData> for UniformLayoutBinding {
    fn from(value: TextureData) -> (r: Self) {
        UniformLayoutBinding::Texture(value)
    }
}

impl vstd::std_specs::convert::FromSpecImpl<TextureData> for UniformLayoutBinding {
    open spec fn obeys_from_spec() -> bool {
        true
    }

    open spec fn from_spec(value: TextureData) -> Self {
        UniformLayoutBinding::Texture(value)
    }
}

/// The bindings of a shader, in binding order.
pub struct ShaderLayout {
    bindings: Vec<UniformLayoutBinding>,
}

} // verus!
