//! Implementations of the ports that live in the library: in-memory
//! doubles for exercising the commands without git or a file system.
pub mod testing;
