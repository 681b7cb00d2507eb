pub mod pointer;
pub mod scroll;
