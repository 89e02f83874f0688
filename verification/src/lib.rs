//! A file-descriptor layer over an in-memory file system, in the style of the
//! 9P / WASI host interface: descriptors carry rights and offsets, and every
//! request is answered with an error number.

pub mod flags;
pub mod types;
pub mod filesystem;
pub mod paths;
pub mod clock;
pub mod v9p;
pub mod laws;
