//! State of the interactive terminal surface. Rendering and key handling
//! live with the terminal collaborator; the plain state it displays and the
//! widgets' data live here.

pub mod widgets;

use vstd::prelude::*;
use vstd::string::StringExecFns;
use vstd::view::View as _;

verus! {

/// Current view in the terminal surface.
#[derive(Debug, Clone, Copy, PartialEq, Eq, Structural)]
pub enum View {
    /// Main dashboard.
    Dashboard,
    /// List of drift issues.
    Issues,
    /// Detailed issue view.
    IssueDetail,
    /// Fix editor.
    FixEditor,
    /// Documentation browser.
    Docs,
    /// Help screen.
    Help,
}

/// Application state of the terminal surface.
#[derive(Debug, Clone)]
pub struct AppState {
    /// Current view.
    pub view: View,
    /// Selected issue index.
    pub selected_issue: usize,
    /// Selected doc or symbol index.
    pub selected_doc: usize,
    /// Scroll offset for lists.
    pub scroll_offset: usize,
    /// Input buffer for editing.
    pub input_buffer: String,
    /// Whether in input mode.
    pub input_mode: bool,
    /// Search query for docs.
    pub search_query: String,
    /// Status message, if any.
    pub status_message: Option<String>,
}

impl Default for AppState {
    /// The initial state: the dashboard, nothing selected, nothing typed.
    fn default() -> (r: AppState)
        ensures
            r.view is Dashboard,
            r.selected_issue == 0,
            r.selected_doc == 0,
            r.scroll_offset == 0,
            r.input_buffer@.len() == 0,
            !r.input_mode,
            r.search_query@.len() == 0,
            r.status_message is None,
    {
        AppState {
            view: View::Dashboard,
            selected_issue: 0,
            selected_doc: 0,
            scroll_offset: 0,
            input_buffer: String::new(),
            input_mode: false,
            search_query: String::new(),
            status_message: None,
        }
    }
}

} // verus!
