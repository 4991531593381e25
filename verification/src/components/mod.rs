//! The diff component and the parts it is made of.

pub mod action_laws;
pub mod command_laws;
pub mod diff;
pub mod diff_actions;
pub mod diff_commands;
pub mod diff_display;
pub mod diff_draw;
pub mod diff_laws;
pub mod diff_render;
pub mod diff_text;
pub mod diff_update;
pub mod diff_wrap;
pub mod drawing_laws;
pub mod layout_laws;
pub mod pairing_laws;
pub mod selection;
pub mod selection_laws;
pub mod view_laws;
