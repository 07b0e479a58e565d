//! Edit distance between two sequences, computed three ways, and a small
//! file-and-folder tree whose nodes can serve as sequence elements.

pub mod levenshtein;
pub mod model;
pub mod multilevel_list;
pub mod script;
