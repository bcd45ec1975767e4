use vstd::prelude::*;

verus! {

/// Which of the two panes is meant.
#[derive(PartialEq, Eq, Structural, Clone, Copy, Debug)]
pub enum PaneType {
    Left,
    Right,
}

/// The interaction mode: exactly one is active at a time.
#[derive(Debug)]
pub enum Mode {
    /// Browsing the active pane.
    Filer,
    /// Visual multi-selection mode (anchor index for selection range)
    Visual { anchor: usize },
    /// Reading a text file, scrolled down by `offset` lines.
    Viewer { content: String, title: String, offset: u16 },
    /// Waiting for a yes or no before deleting `items`.
    ConfirmDelete { items: Vec<String> },
    /// Search mode: prompt for a query and jump to matching entries
    Search { query: String },
    /// Rename mode: inline editing of the selected filename
    Rename { original: String, buffer: String },
    /// Sort mode: choose a sort order for the file list
    Sort { selected: usize },
}

/// A key press, as the dispatcher tells keys apart.
#[derive(PartialEq, Eq, Structural, Clone, Copy, Debug)]
pub enum Key {
    Char(char),
    Enter,
    Esc,
    Backspace,
    Up,
    Down,
    Other,
}

/// Work that a key press leaves for the caller: file-system and terminal
/// effects that the session itself does not perform.
#[derive(Debug)]
pub enum Action {
    Nothing,
    /// Leave the program.
    Quit,
    /// Read the pane's directory again and hand the listing to `refresh`.
    Reload { pane: PaneType },
    /// Read the file as text; if that succeeds, hand it to `open_viewer`.
    OpenFile { path: String, title: String },
    /// Show the image full-screen until dismissed.
    ShowImage { path: String },
    /// Delete each path, recursively for directories, then reload the active pane.
    Delete { paths: Vec<String> },
    /// Copy each source into `dest_dir` under its own name, recursively for
    /// directories and overwriting what is there, then reload the active pane.
    Paste { sources: Vec<String>, dest_dir: String },
    /// Rename the file at `path` to `new_name` in the same directory, then
    /// reload the active pane and select `new_name`.
    Rename { path: String, new_name: String },
}

/// The mode, with text as characters.
pub enum ModeView {
    Filer,
    Visual { anchor: nat },
    Viewer { content: Seq<char>, title: Seq<char>, offset: nat },
    ConfirmDelete { items: Seq<String> },
    Search { query: Seq<char> },
    Rename { original: Seq<char>, buffer: Seq<char> },
    Sort { selected: nat },
}

/// An action, with text as characters.
pub enum ActionView {
    Nothing,
    Quit,
    Reload { pane: PaneType },
    OpenFile { path: Seq<char>, title: Seq<char> },
    ShowImage { path: Seq<char> },
    Delete { paths: Seq<String> },
    Paste { sources: Seq<String>, dest_dir: Seq<char> },
    Rename { path: Seq<char>, new_name: Seq<char> },
}

impl View for Mode {
    type V = ModeView;

    open spec fn view(&self) -> ModeView {
        match self {
            Mode::Filer => ModeView::Filer,
            Mode::Visual { anchor } => ModeView::Visual { anchor: *anchor as nat },
            Mode::Viewer { content, title, offset } => ModeView::Viewer {
                content: content@,
                title: title@,
                offset: *offset as nat,
            },
            Mode::ConfirmDelete { items } => ModeView::ConfirmDelete { items: items@ },
            Mode::Search { query } => ModeView::Search { query: query@ },
            Mode::Rename { original, buffer } => ModeView::Rename {
                original: original@,
                buffer: buffer@,
            },
            Mode::Sort { selected } => ModeView::Sort { selected: *selected as nat },
        }
    }
}

impl View for Action {
    type V = ActionView;

    open spec fn view(&self) -> ActionView {
        match self {
            Action::Nothing => ActionView::Nothing,
            Action::Quit => ActionView::Quit,
            Action::Reload { pane } => ActionView::Reload { pane: *pane },
            Action::OpenFile { path, title } => ActionView::OpenFile { path: path@, title: title@ },
            Action::ShowImage { path } => ActionView::ShowImage { path: path@ },
            Action::Delete { paths } => ActionView::Delete { paths: paths@ },
            Action::Paste { sources, dest_dir } => ActionView::Paste {
                sources: sources@,
                dest_dir: dest_dir@,
            },
            Action::Rename { path, new_name } => ActionView::Rename {
                path: path@,
                new_name: new_name@,
            },
        }
    }
}

} // verus!
