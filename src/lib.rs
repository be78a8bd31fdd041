//! Layout of a one-line tab bar: which tabs fit in the columns of a terminal,
//! which are folded into "N more" markers, and how the line is composed.

pub mod part;
pub mod paint;
pub mod line;
pub mod tab;
pub mod guarantees;
pub mod plugin;
