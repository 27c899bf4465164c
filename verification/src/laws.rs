//! The laws of the flows: what holds of whole runs, whatever the outside
//! world answers. Each law is a proof function; its doc comment states it in
//! words.

pub mod dispatch;
pub mod lifecycle;
pub mod relay;
