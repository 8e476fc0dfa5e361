//! Linked lists, from a plain stack to a deque, each with a sequence as its
//! mathematical model and every operation proved against that model.

pub mod first;
pub mod fourth;
pub mod laws;
pub mod model;
pub mod second;
pub mod third;
