//! Client-side pieces of a service framework: name resolution results with
//! their protocol graphs, resolvers, and a vectored send primitive for
//! stream sockets.

pub mod endpoint;
pub mod resolve;
pub mod sys;
pub mod tvm;
