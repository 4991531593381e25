//! Display model of a terminal diff viewer: how a file diff is laid out in the
//! unified and the side-by-side view, which lines a selection stands for, how
//! syntax highlighting is cached and merged, and which options steer it.

pub mod components;
pub mod model;
pub mod options;
pub mod queue;
pub mod string_utils;
pub mod ui;
