//! Linear algebra, resource registries and loop protocol of a small 3D renderer.
pub mod algebra;
pub mod camera;
pub mod frame;
pub mod layout;
pub mod log;
pub mod mat;
pub mod model;
pub mod model_file;
pub mod names;
pub mod shader;
pub mod transform;
pub mod vec;

pub use camera::{CameraSystem, MouseLook};
pub use mat::{Mat, Mat2, Mat2x3, Mat2x4, Mat3, Mat3x2, Mat3x4, Mat4, Mat4x2, Mat4x3};
pub use model::{Model, ModelManager};
pub use shader::{ShaderManager, TextureManager};
pub use transform::{scale2, scale3, tranlate2, tranlate3};
pub use vec::{Vec2, Vec3, Vec4};
