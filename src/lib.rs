//! Core of a mass screenshotting tool for remote-display protocols: the
//! protocol filter, the remote-framebuffer pixel decoder, the capture
//! session's decisions, the per-protocol worker pool and the outcome records.

pub mod argparse;
pub mod frame;
pub mod pixel;
pub mod pool;
pub mod raster;
pub mod report;
pub mod session;
pub mod target;
pub mod text;
