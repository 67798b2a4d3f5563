pub mod navigation;
pub mod input;
pub mod feedback;
pub mod modals;
pub mod log_navigation;
pub mod log_view;
pub mod diff_search;
pub mod commands;
pub mod styled;
pub mod diff_renderer;
pub mod diff_view;
pub mod status_view;
pub mod inline_diff;
pub mod console;
pub mod help;

use vstd::prelude::*;

verus! {

/// The screen the application shows.
#[derive(Debug, Clone, Copy, PartialEq, Eq, Structural)]
pub enum ViewType {
    Status,
    Log,
}

} // verus!
