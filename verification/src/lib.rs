//! Non-blocking two-dimensional line plots: a producer submits plot
//! requests over a first-in first-out task queue, and a single driver owns
//! every window, consumes the requests, and redraws on a polling cycle
//! until the user closes the windows. The bounds resolver, the coordinate
//! mapper, the per-window draw plan, the queue, and the driver's and the
//! producer handle's decisions all live here; an embedder supplies the
//! windowing backend, performs the draw plans, and runs the threads.

pub mod bounds;
pub mod driver;
pub mod mapper;
pub mod plot;
pub mod plotter;
pub mod queue;
pub mod request;
