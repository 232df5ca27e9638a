//! AI-native system calls: the registries behind the cognitive operations,
//! the distributed operations and the dispatch of requests.

pub mod dispatch;
pub mod distributed;
pub mod operations;
