//! The rendering engines: the shared intersection and light-transport core,
//! and the renderers built on it.

pub mod kernel;
pub mod multi_threaded;
pub mod simple_renderer;
pub mod single_threaded;

pub use multi_threaded::MultiThreadedRenderer;
pub use simple_renderer::SimpleRenderer;
pub use single_threaded::SingleThreadedRenderer;
