//! The decision core of a lean consensus node.
pub mod chain;
pub mod clock;
pub mod clock_laws;
pub mod keyed;
pub mod net;
pub mod primitives;
pub mod report;
pub mod report_laws;
pub mod text;
pub mod text_laws;
