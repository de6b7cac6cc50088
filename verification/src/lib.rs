pub mod assets;
pub mod window;
pub mod crystal;
pub mod debug;
pub mod engine;
pub mod input;
pub mod math;
pub mod mesh;
pub mod renderer;
pub mod scene;
pub mod spirv;
pub mod text;
pub mod ve_shader_reflect;
