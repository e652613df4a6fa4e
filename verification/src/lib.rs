//! Finding out which process listens on a TCP port, from the text that a
//! socket-listing utility prints.

pub mod decimal;
pub mod lookup;
pub mod port;
pub mod report;
pub mod text;
