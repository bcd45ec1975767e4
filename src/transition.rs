use vstd::prelude::*;

use crate::listing::{sort_by_at, sorted_by, Entry};
use crate::mode::{ActionView, Key, ModeView, PaneType};
use crate::pane::{
    cursor_down, cursor_up, lowered_names, next_match, path_is_image, target_paths, toggled,
    visual_marks, Pane,
};
use crate::text::{lower_of, parent_of};
use crate::viewer::max_offset;

verus! {

/// A pane as the session's transitions see it.
pub struct PaneView {
    pub items: Seq<Entry>,
    pub selected: nat,
    pub dir: Seq<char>,
    pub marked: Seq<usize>,
}

/// The whole session as its transitions see it.
pub struct AppView {
    pub left: PaneView,
    pub right: PaneView,
    pub active: PaneType,
    pub mode: ModeView,
    pub clipboard: Seq<String>,
}

/// What the dispatcher carries from one key press to the next: the repeat
/// count typed so far (0 for none) and whether a first `g` waits for a second.
#[derive(PartialEq, Eq, Structural, Clone, Copy, Debug)]
pub struct InputState {
    pub prefix: usize,
    pub pending_g: bool,
}

impl Pane {
    /// The pane with its text as characters.
    pub open spec fn view(&self) -> PaneView {
        PaneView {
            items: self.items@,
            selected: self.selected as nat,
            dir: self.current_dir@,
            marked: self.marked@,
        }
    }
}

/// The pane that keys act on.
pub open spec fn active_of(s: AppView) -> PaneView {
    match s.active {
        PaneType::Left => s.left,
        PaneType::Right => s.right,
    }
}

/// The session with `p` in place of the active pane.
pub open spec fn with_active(s: AppView, p: PaneView) -> AppView {
    match s.active {
        PaneType::Left => AppView { left: p, ..s },
        PaneType::Right => AppView { right: p, ..s },
    }
}

/// The other pane.
pub open spec fn other(p: PaneType) -> PaneType {
    match p {
        PaneType::Left => PaneType::Right,
        PaneType::Right => PaneType::Left,
    }
}

/// The session with the other pane active.
pub open spec fn switched(s: AppView) -> AppView {
    AppView { active: other(s.active), ..s }
}

/// The session in mode `m`.
pub open spec fn with_mode(s: AppView, m: ModeView) -> AppView {
    AppView { mode: m, ..s }
}

/// The digit a key stands for, if it is one.
pub open spec fn digit_of(key: Key) -> Option<nat> {
    match key {
        Key::Char(c) => if '0' <= c <= '9' {
            Some((c as u32 - '0' as u32) as nat)
        } else {
            None
        },
        _ => None,
    }
}

/// The repeat count with one more digit typed, stopping at the largest count.
pub open spec fn with_digit(prefix: nat, d: nat) -> nat {
    if prefix * 10 + d > usize::MAX {
        usize::MAX as nat
    } else {
        prefix * 10 + d
    }
}

/// Modes in which digits build a repeat count and `gg` / `G` jump.
pub open spec fn counts_keys(m: ModeView) -> bool {
    m is Filer || m is Viewer
}

/// `gg`: the first entry, or the top of the text.
pub open spec fn to_top(s: AppView) -> AppView {
    match s.mode {
        ModeView::Viewer { content, title, offset } => with_mode(
            s,
            ModeView::Viewer { content, title, offset: 0 },
        ),
        _ => with_active(s, PaneView { selected: 0, ..active_of(s) }),
    }
}

/// `G`: the last entry, or the bottom of the text.
pub open spec fn to_bottom(s: AppView, height: nat) -> AppView {
    match s.mode {
        ModeView::Viewer { content, title, offset } => with_mode(
            s,
            ModeView::Viewer { content, title, offset: max_offset(content, height) },
        ),
        _ => {
            let p = active_of(s);
            with_active(
                s,
                PaneView {
                    selected: if p.items.len() == 0 {
                        0
                    } else {
                        (p.items.len() - 1) as nat
                    },
                    ..p
                },
            )
        },
    }
}

/// `h` on the left pane, `l` on the right: up to the parent directory, if any.
pub open spec fn parent_step(s: AppView) -> (AppView, ActionView) {
    let p = active_of(s);
    match parent_of(p.dir) {
        Some(d) => (with_active(s, PaneView { dir: d, ..p }), ActionView::Reload { pane: s.active }),
        None => (s, ActionView::Nothing),
    }
}

/// Opening the entry under the cursor: a directory is entered, another file
/// is opened as text.
pub open spec fn open_step(s: AppView) -> (AppView, ActionView) {
    let p = active_of(s);
    if p.selected < p.items.len() {
        let e = p.items[p.selected as int];
        if e.is_dir {
            (with_active(s, PaneView { dir: e.path@, ..p }), ActionView::Reload { pane: s.active })
        } else {
            (s, ActionView::OpenFile { path: e.path@, title: e.name@ })
        }
    } else {
        (s, ActionView::Nothing)
    }
}

/// Enter in the browser: an image is shown, from the other pane; anything
/// else is opened.
pub open spec fn enter_step(s: AppView) -> (AppView, ActionView) {
    let p = active_of(s);
    if p.selected < p.items.len() && path_is_image(p.items[p.selected as int].path@) {
        (switched(s), ActionView::ShowImage { path: p.items[p.selected as int].path@ })
    } else {
        open_step(s)
    }
}

/// `y`: the targets go to the clipboard and the marks are cleared.
pub open spec fn copy_step(s: AppView) -> AppView {
    let p = active_of(s);
    AppView {
        clipboard: target_paths(p.items, p.selected, p.marked),
        ..with_active(s, PaneView { marked: Seq::empty(), ..p })
    }
}

/// A key in the browser, repeated `count` times where that means anything.
pub open spec fn filer_step(s: AppView, key: Key, count: nat) -> (AppView, ActionView) {
    let p = active_of(s);
    let targets = target_paths(p.items, p.selected, p.marked);
    match key {
        Key::Char('j') => (
            with_active(s, PaneView { selected: cursor_down(p.selected, count, p.items.len()), ..p }),
            ActionView::Nothing,
        ),
        Key::Char('k') => (
            with_active(s, PaneView { selected: cursor_up(p.selected, count), ..p }),
            ActionView::Nothing,
        ),
        Key::Char('x') => if targets.len() == 0 {
            (s, ActionView::Nothing)
        } else {
            (with_mode(s, ModeView::ConfirmDelete { items: targets }), ActionView::Nothing)
        },
        Key::Char('X') => if targets.len() == 0 {
            (s, ActionView::Nothing)
        } else {
            (s, ActionView::Delete { paths: targets })
        },
        Key::Enter => enter_step(s),
        Key::Char('h') => if s.active == PaneType::Left {
            parent_step(s)
        } else {
            (switched(s), ActionView::Nothing)
        },
        Key::Char('l') => if s.active == PaneType::Left {
            (switched(s), ActionView::Nothing)
        } else {
            parent_step(s)
        },
        Key::Char('V') => (
            with_mode(
                with_active(
                    s,
                    PaneView {
                        marked: visual_marks(p.selected, p.selected, p.items.len()),
                        ..p
                    },
                ),
                ModeView::Visual { anchor: p.selected },
            ),
            ActionView::Nothing,
        ),
        Key::Char('/') => (with_mode(s, ModeView::Search { query: Seq::empty() }), ActionView::Nothing),
        Key::Char('r') => if p.selected < p.items.len() {
            let name = p.items[p.selected as int].name@;
            (with_mode(s, ModeView::Rename { original: name, buffer: name }), ActionView::Nothing)
        } else {
            (s, ActionView::Nothing)
        },
        Key::Char('s') => (with_mode(s, ModeView::Sort { selected: 0 }), ActionView::Nothing),
        Key::Char('v') => if p.items.len() > 0 {
            (
                with_active(
                    s,
                    PaneView { marked: toggled(p.marked, p.selected as usize), ..p },
                ),
                ActionView::Nothing,
            )
        } else {
            (s, ActionView::Nothing)
        },
        Key::Char('y') => (copy_step(s), ActionView::Nothing),
        Key::Char('p') => (s, ActionView::Paste { sources: s.clipboard, dest_dir: p.dir }),
        _ => (s, ActionView::Nothing),
    }
}

/// A key in visual selection: moving the cursor marks the range from the anchor.
pub open spec fn visual_step(s: AppView, anchor: nat, key: Key, count: nat) -> (AppView, ActionView) {
    let p = active_of(s);
    match key {
        Key::Char('j') | Key::Char('k') => {
            let sel = if key == Key::Char('j') {
                cursor_down(p.selected, count, p.items.len())
            } else {
                cursor_up(p.selected, count)
            };
            (
                with_active(
                    s,
                    PaneView { selected: sel, marked: visual_marks(anchor, sel, p.items.len()), ..p },
                ),
                ActionView::Nothing,
            )
        },
        Key::Char('V') | Key::Esc => (with_mode(s, ModeView::Filer), ActionView::Nothing),
        _ => (s, ActionView::Nothing),
    }
}

/// A key in the text viewer: scrolling stays between the top and `max_offset`.
pub open spec fn viewer_step(
    s: AppView,
    content: Seq<char>,
    title: Seq<char>,
    offset: nat,
    key: Key,
    count: nat,
    height: nat,
) -> (AppView, ActionView) {
    let most = max_offset(content, height);
    match key {
        Key::Char('j') | Key::Char('k') => {
            let o = if key == Key::Char('j') {
                offset + count
            } else {
                cursor_up(offset, count)
            };
            (
                with_mode(
                    s,
                    ModeView::Viewer { content, title, offset: if o > most { most } else { o } },
                ),
                ActionView::Nothing,
            )
        },
        Key::Enter | Key::Esc => (with_mode(s, ModeView::Filer), ActionView::Nothing),
        _ => (s, ActionView::Nothing),
    }
}

/// The cursor after a search for `query`: on the next match, if any.
pub open spec fn search_jump(p: PaneView, query: Seq<char>) -> PaneView {
    if query.len() == 0 {
        p
    } else {
        match next_match(lowered_names(p.items), lower_of(query), p.selected) {
            Some(i) => PaneView { selected: i, ..p },
            None => p,
        }
    }
}

/// A key while searching: the query is edited, and the cursor jumps to the
/// next entry that matches it; Enter and Esc end the search.
pub open spec fn search_step(s: AppView, query: Seq<char>, key: Key) -> (AppView, ActionView) {
    match key {
        Key::Enter | Key::Esc => (with_mode(s, ModeView::Filer), ActionView::Nothing),
        _ => {
            let q = match key {
                Key::Char(c) => query.push(c),
                Key::Backspace => if query.len() > 0 {
                    query.drop_last()
                } else {
                    query
                },
                _ => query,
            };
            (
                with_active(with_mode(s, ModeView::Search { query: q }), search_jump(active_of(s), q)),
                ActionView::Nothing,
            )
        },
    }
}

/// A key while renaming: the new name is edited; Enter asks for the rename of
/// the entry under the cursor, Esc drops it.
pub open spec fn rename_step(s: AppView, original: Seq<char>, buffer: Seq<char>, key: Key) -> (
    AppView,
    ActionView,
) {
    let p = active_of(s);
    match key {
        Key::Char(c) => (
            with_mode(s, ModeView::Rename { original, buffer: buffer.push(c) }),
            ActionView::Nothing,
        ),
        Key::Backspace => (
            with_mode(
                s,
                ModeView::Rename {
                    original,
                    buffer: if buffer.len() > 0 {
                        buffer.drop_last()
                    } else {
                        buffer
                    },
                },
            ),
            ActionView::Nothing,
        ),
        Key::Enter => (
            with_mode(s, ModeView::Filer),
            if p.selected < p.items.len() {
                ActionView::Rename { path: p.items[p.selected as int].path@, new_name: buffer }
            } else {
                ActionView::Nothing
            },
        ),
        Key::Esc => (with_mode(s, ModeView::Filer), ActionView::Nothing),
        _ => (s, ActionView::Nothing),
    }
}

/// A key in the sort menu: the highlight cycles through the four criteria;
/// Enter sorts the active pane by the highlighted one.
pub open spec fn sort_step(s: AppView, selected: nat, key: Key) -> (AppView, ActionView) {
    let p = active_of(s);
    match key {
        Key::Down | Key::Char('j') => (
            with_mode(s, ModeView::Sort { selected: (selected % 4 + 1) % 4 }),
            ActionView::Nothing,
        ),
        Key::Up | Key::Char('k') => (
            with_mode(s, ModeView::Sort { selected: (selected % 4 + 3) % 4 }),
            ActionView::Nothing,
        ),
        Key::Enter => (
            with_mode(
                with_active(
                    s,
                    PaneView {
                        items: sorted_by(p.items, sort_by_at(selected)),
                        selected: 0,
                        marked: Seq::empty(),
                        ..p
                    },
                ),
                ModeView::Filer,
            ),
            ActionView::Nothing,
        ),
        Key::Esc => (with_mode(s, ModeView::Filer), ActionView::Nothing),
        _ => (s, ActionView::Nothing),
    }
}

/// A key while a deletion waits for confirmation.
pub open spec fn confirm_step(s: AppView, items: Seq<String>, key: Key) -> (AppView, ActionView) {
    match key {
        Key::Char('y') | Key::Enter => (with_mode(s, ModeView::Filer), ActionView::Delete { paths: items }),
        Key::Char('n') | Key::Esc => (with_mode(s, ModeView::Filer), ActionView::Nothing),
        _ => (s, ActionView::Nothing),
    }
}

/// A key handed to the active mode, with the repeat count in force.
pub open spec fn mode_step(s: AppView, key: Key, count: nat, height: nat) -> (AppView, ActionView) {
    match s.mode {
        ModeView::Filer => filer_step(s, key, count),
        ModeView::Visual { anchor } => visual_step(s, anchor, key, count),
        ModeView::Viewer { content, title, offset } => viewer_step(
            s,
            content,
            title,
            offset,
            key,
            count,
            height,
        ),
        ModeView::ConfirmDelete { items } => confirm_step(s, items, key),
        ModeView::Search { query } => search_step(s, query, key),
        ModeView::Rename { original, buffer } => rename_step(s, original, buffer, key),
        ModeView::Sort { selected } => sort_step(s, selected, key),
    }
}

/// One key press: `q` quits from anywhere; in the browser and the viewer,
/// digits build a repeat count and `gg` / `G` jump; every other key goes to
/// the active mode and uses up the count. A first `g` only waits for the
/// next key, and any other key drops it.
pub open spec fn step(s: AppView, inp: InputState, key: Key, height: nat) -> (
    AppView,
    InputState,
    ActionView,
) {
    let cleared = InputState { prefix: 0, pending_g: false };
    if key == Key::Char('q') {
        (s, cleared, ActionView::Quit)
    } else if counts_keys(s.mode) && digit_of(key) is Some {
        (
            s,
            InputState {
                prefix: with_digit(inp.prefix as nat, digit_of(key)->0) as usize,
                pending_g: false,
            },
            ActionView::Nothing,
        )
    } else {
        let count = if inp.prefix > 0 {
            inp.prefix as nat
        } else {
            1nat
        };
        if counts_keys(s.mode) && key == Key::Char('g') {
            if inp.pending_g {
                (to_top(s), cleared, ActionView::Nothing)
            } else {
                (s, InputState { prefix: 0, pending_g: true }, ActionView::Nothing)
            }
        } else if counts_keys(s.mode) && key == Key::Char('G') {
            (to_bottom(s, height), cleared, ActionView::Nothing)
        } else {
            let (t, a) = mode_step(s, key, count, height);
            (t, cleared, a)
        }
    }
}

/// `gg` needs two presses of `g` in a row: after `g` and another key, no `g`
/// is pending, and in the browser or the viewer a second `g` only waits
/// again, leaving the session as it is.
pub proof fn lemma_interrupted_gg(s: AppView, inp: InputState, other: Key, height: nat)
    requires
        other != Key::Char('g'),
    ensures
        ({
            let (s1, i1, a1) = step(s, inp, Key::Char('g'), height);
            let (s2, i2, a2) = step(s1, i1, other, height);
            let (s3, i3, a3) = step(s2, i2, Key::Char('g'), height);
            !i2.pending_g && (counts_keys(s2.mode) ==> s3 == s2)
        }),
{
}

} // verus!
