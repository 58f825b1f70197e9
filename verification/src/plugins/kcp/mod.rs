//! The bookkeeping of a KCP listener: conversation numbers, sessions and
//! the rules by which a session sends, receives and wakes its waiters.

pub mod listener;
pub mod packet;
pub mod session;
pub mod skcp;
