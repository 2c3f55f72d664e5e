//! Command handlers of a small desktop application: a greeting and the
//! sizing of a window, stated and proved apart from the host that runs them.

pub mod dimension;
pub mod greeting;
pub mod resize;
