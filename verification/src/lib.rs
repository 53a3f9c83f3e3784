pub mod canvas;
pub mod color;
pub mod laws;
pub mod intersect;
pub mod intersection;
pub mod material;
pub mod matrix;
pub mod object;
pub mod point_light;
pub mod ray;
pub mod scalar;
pub mod tuple;

pub use scalar::Scalar;
pub use tuple::Tuple;
