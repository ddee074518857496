//! Front end of a compiler: a session that holds one source, a per-line
//! scanner, and a coordinator that merges per-line results in line order.

pub mod text;
pub mod token;
pub mod scanner;
pub mod coordinator;
pub mod compiler;
pub mod laws;
