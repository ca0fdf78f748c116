//! Turns an API description into client stub modules, one per path, and an
//! index module that exposes them through nested accessors.
pub mod model;
pub mod ordered;
pub mod text;
pub mod summary;
pub mod render;
pub mod tree;
