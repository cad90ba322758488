//! A dictionary lookup client's core: it reads entries out of a dictionary
//! service's JSON answer, renders them as terminal text, and decides whether
//! that text goes to the terminal or through a pager.

pub mod batch;
pub mod entry;
pub mod json;
pub mod pager;
pub mod render;
pub mod session;
pub mod style;
pub mod text;
