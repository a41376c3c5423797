//! A small ray tracer over exact fixed-point arithmetic.
//!
//! A scene of spheres is rendered by casting one ray per pixel from a fixed
//! observer, resolving nearest-surface intersections, bouncing reflected rays,
//! and accumulating diffuse lighting into a final color. All coordinates are
//! scaled integers (see [`fixed::SCALE`]), so every stage of the pipeline has
//! an exact, machine-checked contract and rendering is fully deterministic.

pub mod fixed;
pub mod geom3d;
pub mod sphere3d;
pub mod render;
pub mod scene;

pub use fixed::SCALE;
pub use geom3d::Point;
pub use geom3d::Unit;
pub use geom3d::Vect;
pub use geom3d::x_reflexion;
pub use sphere3d::Sphere3D;
pub use render::RayState;
pub use render::TraceStatus;
pub use render::add_color;
pub use render::bounce;
pub use render::color;
pub use render::first_collision;
pub use render::trace_step;
pub use scene::ConfigError;
pub use scene::RenderConfig;
pub use scene::Scene;
pub use scene::SphereConfig;
pub use scene::create_image;
pub use scene::screen_to_space;
