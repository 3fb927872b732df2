//! The persistent R session: the markers of its response protocol and the
//! reading of its responses.

pub mod protocol;
pub mod session;
