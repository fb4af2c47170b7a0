pub mod camera;
pub mod color;
pub mod fixed;
pub mod sphere;
pub mod hittable;
pub mod hittable_list;
pub mod material;
pub mod ray;
pub mod utility;
pub mod vec3;
