//! Process monitor core: text helpers, the process table pipeline, the
//! refresh scheduler and the window surface lifecycle.
pub mod text;
pub mod order;
pub mod table;
pub mod scheduler;
pub mod surface;
pub mod view;
