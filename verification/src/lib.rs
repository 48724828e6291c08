pub mod camera;
pub mod collidable;
pub mod color;
pub mod material;
pub mod point;
pub mod ray;
pub mod render;
pub mod utility;
