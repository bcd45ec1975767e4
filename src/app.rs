use vstd::prelude::*;

use crate::listing::{sorted_by, Entry, SortBy};
use crate::mode::{Action, ActionView, Key, Mode, ModeView, PaneType};
use crate::pane::{
    apply_sort, cursor_down, cursor_up, find_match, is_image, lowered_names, toggle_mark, Pane,
};
use crate::text::{lower_of, parent_dir, pop_char, push_char};
use crate::transition::{
    active_of, confirm_step, copy_step, filer_step, open_step, parent_step, rename_step,
    search_step, sort_step, step, switched, to_bottom, to_top, viewer_step, visual_step,
    with_active, with_mode, AppView, InputState, PaneView,
};
use crate::viewer::max_offset_exec;

verus! {

/// The session: two panes, the active one, the mode and the clipboard.
pub struct App {
    pub left: Pane,
    pub right: Pane,
    pub active: PaneType,
    pub mode: Mode,
    pub clipboard: Vec<String>,
}

impl App {
    /// The session with its text as characters.
    pub open spec fn view(&self) -> AppView {
        AppView {
            left: self.left.view(),
            right: self.right.view(),
            active: self.active,
            mode: self.mode@,
            clipboard: self.clipboard@,
        }
    }

    /// Both panes are well formed.
    pub open spec fn wf(&self) -> bool {
        self.left.wf() && self.right.wf()
    }

    /// The pane that keys act on.
    pub open spec fn active_pane(&self) -> Pane {
        match self.active {
            PaneType::Left => self.left,
            PaneType::Right => self.right,
        }
    }

    /// A session browsing `cwd` in both panes, the left one active; each pane
    /// is given the listing read for it.
    pub fn new(cwd: String, left_entries: Vec<Entry>, right_entries: Vec<Entry>) -> (app: App)
        ensures
            app.wf(),
            app.view().left.items == sorted_by(left_entries@, SortBy::Name),
            app.view().right.items == sorted_by(right_entries@, SortBy::Name),
            app.left.selected == 0 && app.right.selected == 0,
            app.left.marked@.len() == 0 && app.right.marked@.len() == 0,
            app.left.current_dir@ == cwd@ && app.right.current_dir@ == cwd@,
            app.active == PaneType::Left,
            app.mode is Filer,
            app.clipboard@.len() == 0,
    {
        let right_dir = cwd.clone();
        App {
            left: Pane::new(cwd, left_entries),
            right: Pane::new(right_dir, right_entries),
            active: PaneType::Left,
            mode: Mode::Filer,
            clipboard: Vec::new(),
        }
    }

    /// The active pane.
    pub fn current_pane(&self) -> (r: &Pane)
        ensures
            *r == self.active_pane(),
    {
        match self.active {
            PaneType::Left => &self.left,
            PaneType::Right => &self.right,
        }
    }

    /// The active pane, to change in place.
    pub fn current_pane_mut(&mut self) -> (r: &mut Pane)
        ensures
            *r == old(self).active_pane(),
            final(self).active == old(self).active,
            final(self).mode == old(self).mode,
            final(self).clipboard == old(self).clipboard,
            old(self).active == PaneType::Left ==> final(self).left == *final(r) && final(self).right == old(self).right,
            old(self).active == PaneType::Right ==> final(self).right == *final(r) && final(self).left == old(self).left,
    {
        match self.active {
            PaneType::Left => &mut self.left,
            PaneType::Right => &mut self.right,
        }
    }

    /// Makes the other pane the active one.
    pub fn switch_pane(&mut self)
        requires
            old(self).wf(),
        ensures
            final(self).wf(),
            final(self).view() == switched(old(self).view()),
    {
        self.active = match self.active {
            PaneType::Left => PaneType::Right,
            PaneType::Right => PaneType::Left,
        };
    }

    /// Moves the cursor of the active pane up by one, stopping at the first entry.
    pub fn on_up(&mut self)
        requires
            old(self).wf(),
        ensures
            final(self).wf(),
            final(self).view() == with_active(
                old(self).view(),
                PaneView {
                    selected: cursor_up(active_of(old(self).view()).selected, 1),
                    ..active_of(old(self).view())
                },
            ),
    {
        self.current_pane_mut().move_cursor(false, 1);
    }

    /// Moves the cursor of the active pane down by one, stopping at the last entry.
    pub fn on_down(&mut self)
        requires
            old(self).wf(),
        ensures
            final(self).wf(),
            final(self).view() == with_active(
                old(self).view(),
                PaneView {
                    selected: cursor_down(
                        active_of(old(self).view()).selected,
                        1,
                        active_of(old(self).view()).items.len(),
                    ),
                    ..active_of(old(self).view())
                },
            ),
    {
        self.current_pane_mut().move_cursor(true, 1);
    }

    /// Moves the active pane to the parent of its directory, if there is one;
    /// the caller then reloads the pane.
    pub fn on_left(&mut self) -> (a: Action)
        requires
            old(self).wf(),
        ensures
            final(self).wf(),
            (final(self).view(), a@) == parent_step(old(self).view()),
    {
        let active = self.active;
        let pane = self.current_pane_mut();
        match parent_dir(pane.current_dir.as_str()) {
            Some(d) => {
                pane.current_dir = d;
                Action::Reload { pane: active }
            },
            None => Action::Nothing,
        }
    }

    /// Opens the entry under the cursor of the active pane: a directory
    /// becomes the pane's directory, to be reloaded; a file is to be read
    /// and shown as text.
    pub fn on_enter(&mut self) -> (a: Action)
        requires
            old(self).wf(),
        ensures
            final(self).wf(),
            (final(self).view(), a@) == open_step(old(self).view()),
    {
        let active = self.active;
        let pane = self.current_pane_mut();
        if pane.selected < pane.items.len() {
            let sel = pane.selected;
            let path = pane.items[sel].path.clone();
            if pane.items[sel].is_dir {
                pane.current_dir = path;
                Action::Reload { pane: active }
            } else {
                Action::OpenFile { path, title: pane.items[sel].name.clone() }
            }
        } else {
            Action::Nothing
        }
    }

    /// Shows `content` in the text viewer, from its first line.
    pub fn open_viewer(&mut self, content: String, title: String)
        requires
            old(self).wf(),
        ensures
            final(self).wf(),
            final(self).view() == with_mode(
                old(self).view(),
                ModeView::Viewer { content: content@, title: title@, offset: 0 },
            ),
    {
        self.mode = Mode::Viewer { content, title, offset: 0 };
    }
}

impl App {
    /// Hands the mode out, leaving the browser mode in its place.
    fn take_mode(&mut self) -> (m: Mode)
        ensures
            m == old(self).mode,
            final(self).mode is Filer,
            final(self).left == old(self).left,
            final(self).right == old(self).right,
            final(self).active == old(self).active,
            final(self).clipboard == old(self).clipboard,
    {
        let mut m = Mode::Filer;
        core::mem::swap(&mut m, &mut self.mode);
        m
    }

    /// `gg`: the top of the text in the viewer, else the first entry.
    fn jump_top(&mut self)
        requires
            old(self).wf(),
        ensures
            final(self).wf(),
            final(self).view() == to_top(old(self).view()),
    {
        match self.take_mode() {
            Mode::Viewer { content, title, offset } => {
                self.mode = Mode::Viewer { content, title, offset: 0 };
            },
            m => {
                self.mode = m;
                self.current_pane_mut().jump_to_top();
            },
        }
    }

    /// `G`: the bottom of the text in the viewer, else the last entry.
    fn jump_bottom(&mut self, height: usize)
        requires
            old(self).wf(),
        ensures
            final(self).wf(),
            final(self).view() == to_bottom(old(self).view(), height as nat),
    {
        match self.take_mode() {
            Mode::Viewer { content, title, offset } => {
                let most = max_offset_exec(content.as_str(), height);
                self.mode = Mode::Viewer { content, title, offset: most as u16 };
            },
            m => {
                self.mode = m;
                self.current_pane_mut().jump_to_bottom();
            },
        }
    }

    fn filer_key(&mut self, key: Key, count: usize) -> (a: Action)
        requires
            old(self).wf(),
            old(self).mode is Filer,
        ensures
            final(self).wf(),
            (final(self).view(), a@) == filer_step(old(self).view(), key, count as nat),
    {
        match key {
            Key::Char('j') => {
                self.current_pane_mut().move_cursor(true, count);
                Action::Nothing
            },
            Key::Char('k') => {
                self.current_pane_mut().move_cursor(false, count);
                Action::Nothing
            },
            Key::Char('x') => {
                let targets = self.current_pane().resolved_targets();
                if targets.len() > 0 {
                    self.mode = Mode::ConfirmDelete { items: targets };
                }
                Action::Nothing
            },
            Key::Char('X') => {
                let targets = self.current_pane().resolved_targets();
                if targets.len() > 0 {
                    Action::Delete { paths: targets }
                } else {
                    Action::Nothing
                }
            },
            Key::Enter => {
                let pane = self.current_pane();
                if pane.selected < pane.items.len() && is_image(pane.items[pane.selected].path.as_str()) {
                    let path = pane.items[pane.selected].path.clone();
                    self.switch_pane();
                    Action::ShowImage { path }
                } else {
                    self.on_enter()
                }
            },
            Key::Char('h') => {
                if self.active == PaneType::Left {
                    self.on_left()
                } else {
                    self.switch_pane();
                    Action::Nothing
                }
            },
            Key::Char('l') => {
                if self.active == PaneType::Left {
                    self.switch_pane();
                    Action::Nothing
                } else {
                    self.on_left()
                }
            },
            Key::Char('V') => {
                let pane = self.current_pane_mut();
                let anchor = pane.selected;
                pane.mark_range(anchor);
                self.mode = Mode::Visual { anchor };
                Action::Nothing
            },
            Key::Char('/') => {
                self.mode = Mode::Search { query: String::new() };
                Action::Nothing
            },
            Key::Char('r') => {
                let pane = self.current_pane();
                if pane.selected < pane.items.len() {
                    let name = pane.items[pane.selected].name.clone();
                    self.mode = Mode::Rename { original: name.clone(), buffer: name };
                }
                Action::Nothing
            },
            Key::Char('s') => {
                self.mode = Mode::Sort { selected: 0 };
                Action::Nothing
            },
            Key::Char('v') => {
                toggle_mark(self.current_pane_mut());
                Action::Nothing
            },
            Key::Char('y') => {
                copy_selection(self);
                Action::Nothing
            },
            Key::Char('p') => paste(self),
            _ => Action::Nothing,
        }
    }

    fn visual_key(&mut self, anchor: usize, key: Key, count: usize) -> (a: Action)
        requires
            old(self).wf(),
            old(self).mode == (Mode::Visual { anchor }),
        ensures
            final(self).wf(),
            (final(self).view(), a@) == visual_step(old(self).view(), anchor as nat, key, count as nat),
    {
        match key {
            Key::Char('j') | Key::Char('k') => {
                let pane = self.current_pane_mut();
                pane.move_cursor(key == Key::Char('j'), count);
                pane.mark_range(anchor);
            },
            Key::Char('V') | Key::Esc => {
                self.mode = Mode::Filer;
            },
            _ => {},
        }
        Action::Nothing
    }

    fn viewer_key(&mut self, key: Key, count: usize, height: usize) -> (a: Action)
        requires
            old(self).wf(),
            old(self).mode is Viewer,
        ensures
            final(self).wf(),
            (final(self).view(), a@) == viewer_step(
                old(self).view(),
                old(self).mode->Viewer_content@,
                old(self).mode->Viewer_title@,
                old(self).mode->Viewer_offset as nat,
                key,
                count as nat,
                height as nat,
            ),
    {
        match self.take_mode() {
            Mode::Viewer { content, title, offset } => {
                match key {
                    Key::Char('j') | Key::Char('k') => {
                        let most = max_offset_exec(content.as_str(), height);
                        let o = offset as usize;
                        let n = if key == Key::Char('j') {
                            if o >= most || count >= most - o {
                                most
                            } else {
                                o + count
                            }
                        } else {
                            let up = if o >= count {
                                o - count
                            } else {
                                0
                            };
                            if up > most {
                                most
                            } else {
                                up
                            }
                        };
                        self.mode = Mode::Viewer { content, title, offset: n as u16 };
                    },
                    Key::Enter | Key::Esc => {},
                    _ => {
                        self.mode = Mode::Viewer { content, title, offset };
                    },
                }
            },
            m => {
                self.mode = m;
            },
        }
        Action::Nothing
    }

    fn confirm_key(&mut self, key: Key) -> (a: Action)
        requires
            old(self).wf(),
            old(self).mode is ConfirmDelete,
        ensures
            final(self).wf(),
            (final(self).view(), a@) == confirm_step(old(self).view(), old(self).mode->ConfirmDelete_items@, key),
    {
        match self.take_mode() {
            Mode::ConfirmDelete { items } => match key {
                Key::Char('y') | Key::Enter => Action::Delete { paths: items },
                Key::Char('n') | Key::Esc => Action::Nothing,
                _ => {
                    self.mode = Mode::ConfirmDelete { items };
                    Action::Nothing
                },
            },
            m => {
                self.mode = m;
                Action::Nothing
            },
        }
    }

    fn search_key(&mut self, key: Key) -> (a: Action)
        requires
            old(self).wf(),
            old(self).mode is Search,
        ensures
            final(self).wf(),
            (final(self).view(), a@) == search_step(old(self).view(), old(self).mode->Search_query@, key),
    {
        match self.take_mode() {
            Mode::Search { query } => {
                match key {
                    Key::Enter | Key::Esc => {},
                    _ => {
                        let mut q = query;
                        match key {
                            Key::Char(c) => push_char(&mut q, c),
                            Key::Backspace => pop_char(&mut q),
                            _ => {},
                        }
                        let pane = self.current_pane_mut();
                        let found = find_match(pane.items.as_slice(), q.as_str(), pane.selected);
                        proof {
                            crate::pane::lemma_wrap_scan_in_range(
                                lowered_names(pane.items@),
                                lower_of(q@),
                                pane.selected as nat,
                                1,
                            );
                        }
                        if let Some(i) = found {
                            pane.selected = i;
                        }
                        self.mode = Mode::Search { query: q };
                    },
                }
            },
            m => {
                self.mode = m;
            },
        }
        Action::Nothing
    }

    fn rename_key(&mut self, key: Key) -> (a: Action)
        requires
            old(self).wf(),
            old(self).mode is Rename,
        ensures
            final(self).wf(),
            (final(self).view(), a@) == rename_step(
                old(self).view(),
                old(self).mode->Rename_original@,
                old(self).mode->Rename_buffer@,
                key,
            ),
    {
        match self.take_mode() {
            Mode::Rename { original, buffer } => {
                let mut buffer = buffer;
                match key {
                    Key::Char(c) => {
                        push_char(&mut buffer, c);
                        self.mode = Mode::Rename { original, buffer };
                        Action::Nothing
                    },
                    Key::Backspace => {
                        pop_char(&mut buffer);
                        self.mode = Mode::Rename { original, buffer };
                        Action::Nothing
                    },
                    Key::Enter => {
                        let pane = self.current_pane();
                        if pane.selected < pane.items.len() {
                            Action::Rename { path: pane.items[pane.selected].path.clone(), new_name: buffer }
                        } else {
                            Action::Nothing
                        }
                    },
                    Key::Esc => Action::Nothing,
                    _ => {
                        self.mode = Mode::Rename { original, buffer };
                        Action::Nothing
                    },
                }
            },
            m => {
                self.mode = m;
                Action::Nothing
            },
        }
    }

    fn sort_key(&mut self, selected: usize, key: Key) -> (a: Action)
        requires
            old(self).wf(),
            old(self).mode == (Mode::Sort { selected }),
        ensures
            final(self).wf(),
            (final(self).view(), a@) == sort_step(old(self).view(), selected as nat, key),
    {
        match key {
            Key::Down | Key::Char('j') => {
                self.mode = Mode::Sort { selected: (selected % 4 + 1) % 4 };
            },
            Key::Up | Key::Char('k') => {
                self.mode = Mode::Sort { selected: (selected % 4 + 3) % 4 };
            },
            Key::Enter => {
                apply_sort(self.current_pane_mut(), SortBy::from_index(selected));
                self.mode = Mode::Filer;
            },
            Key::Esc => {
                self.mode = Mode::Filer;
            },
            _ => {},
        }
        Action::Nothing
    }

    /// Handles one key press against the session; `input` carries the repeat
    /// count and a pending `g` from one press to the next, and `view_height`
    /// is the number of text lines the viewer shows. What the press leaves
    /// for the caller to do is returned.
    pub fn handle_key(&mut self, input: &mut InputState, key: Key, view_height: usize) -> (a: Action)
        requires
            old(self).wf(),
        ensures
            final(self).wf(),
            (final(self).view(), *final(input), a@) == step(
                old(self).view(),
                *old(input),
                key,
                view_height as nat,
            ),
    {
        if key == Key::Char('q') {
            input.prefix = 0;
            input.pending_g = false;
            return Action::Quit;
        }
        let counting = match self.mode {
            Mode::Filer => true,
            Mode::Viewer { .. } => true,
            _ => false,
        };
        if counting {
            if let Key::Char(c) = key {
                if '0' <= c && c <= '9' {
                    let d = (c as u32 - '0' as u32) as usize;
                    let p = input.prefix;
                    let next = if p > (usize::MAX - d) / 10 {
                        usize::MAX
                    } else {
                        p * 10 + d
                    };
                    proof {
                        let x = (usize::MAX - d) as int;
                        assert(p > x / 10 <==> p * 10 > x) by (nonlinear_arith)
                            requires x >= 0;
                    }
                    input.prefix = next;
                    input.pending_g = false;
                    return Action::Nothing;
                }
            }
        }
        let count = if input.prefix > 0 {
            input.prefix
        } else {
            1
        };
        let was_g = input.pending_g;
        input.prefix = 0;
        input.pending_g = false;
        if counting && key == Key::Char('g') {
            if was_g {
                self.jump_top();
            } else {
                input.pending_g = true;
            }
            return Action::Nothing;
        }
        if counting && key == Key::Char('G') {
            self.jump_bottom(view_height);
            return Action::Nothing;
        }
        match self.mode {
            Mode::Filer => self.filer_key(key, count),
            Mode::Visual { anchor } => self.visual_key(anchor, key, count),
            Mode::Viewer { .. } => self.viewer_key(key, count, view_height),
            Mode::ConfirmDelete { .. } => self.confirm_key(key),
            Mode::Search { .. } => self.search_key(key),
            Mode::Rename { .. } => self.rename_key(key),
            Mode::Sort { selected } => self.sort_key(selected, key),
        }
    }
}

/// Copies the targets of the active pane into the clipboard, replacing what it
/// held, and clears the pane's marks.
pub fn copy_selection(app: &mut App)
    requires
        old(app).wf(),
    ensures
        final(app).wf(),
        final(app).view() == copy_step(old(app).view()),
{
    let items = app.current_pane().resolved_targets();
    app.current_pane_mut().marked = Vec::new();
    app.clipboard = items;
}

/// What pasting asks for: the clipboard's paths, copied into the active
/// pane's directory.
pub fn paste(app: &App) -> (a: Action)
    ensures
        a@ == (ActionView::Paste { sources: app.clipboard@, dest_dir: app.active_pane().current_dir@ }),
{
    Action::Paste { sources: app.clipboard.clone(), dest_dir: app.current_pane().current_dir.clone() }
}

} // verus!
