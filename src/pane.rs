use vstd::prelude::*;

use crate::listing::{sort_entries, sorted_by, Entry, SortBy};
use crate::text::{
    chars_of, contains_chars, extension_of, has_substring, lower_of, lowercase, path_extension,
    seq_eq_exec,
};

verus! {

/// Index sequences in strictly increasing order: a set of indices, listed once each.
pub open spec fn increasing(s: Seq<usize>) -> bool {
    forall|i: int, j: int| 0 <= i < j < s.len() ==> s[i] < s[j]
}

/// One half of the dual-pane view: a listing with a cursor and marks.
pub struct Pane {
    pub items: Vec<Entry>,
    pub selected: usize,
    pub current_dir: String,
    pub marked: Vec<usize>,
}

/// Where the cursor lands after moving down `count` entries: it stops at the last entry.
pub open spec fn cursor_down(sel: nat, count: nat, len: nat) -> nat {
    if len == 0 {
        sel
    } else if sel + count >= len {
        (len - 1) as nat
    } else {
        sel + count
    }
}

/// Where the cursor lands after moving up `count` entries: it stops at the first entry.
pub open spec fn cursor_up(sel: nat, count: nat) -> nat {
    if sel >= count {
        (sel - count) as nat
    } else {
        0
    }
}

/// The cursor after a sequence of moves, each down or up by a count.
pub open spec fn after_moves(sel: nat, len: nat, moves: Seq<(bool, nat)>) -> nat
    decreases moves.len(),
{
    if moves.len() == 0 {
        sel
    } else {
        let before = after_moves(sel, len, moves.drop_last());
        let (down, count) = moves.last();
        if down {
            cursor_down(before, count, len)
        } else {
            cursor_up(before, count)
        }
    }
}

/// However the cursor is moved, it stays on an entry of the listing: it
/// neither wraps around nor leaves either end.
pub proof fn lemma_moves_stay_in_range(sel: nat, len: nat, moves: Seq<(bool, nat)>)
    requires
        sel < len,
    ensures
        after_moves(sel, len, moves) < len,
    decreases moves.len(),
{
    if moves.len() > 0 {
        lemma_moves_stay_in_range(sel, len, moves.drop_last());
    }
}

/// The indices `lo..=hi`, ascending.
pub open spec fn index_range(lo: nat, hi: nat) -> Seq<usize> {
    if lo > hi {
        Seq::empty()
    } else {
        Seq::new((hi - lo + 1) as nat, |k: int| (lo + k) as usize)
    }
}

/// The marks of a visual selection: the indices from the nearer to the
/// farther of anchor and cursor, both ends included, that the listing has.
pub open spec fn visual_marks(anchor: nat, sel: nat, len: nat) -> Seq<usize> {
    if len == 0 {
        Seq::empty()
    } else {
        let lo = if anchor <= sel { anchor } else { sel };
        let hi = if anchor <= sel { sel } else { anchor };
        index_range(lo, if hi < len { hi } else { (len - 1) as nat })
    }
}

/// The range of a visual selection is the closed interval between anchor and
/// cursor, whichever of the two comes first.
pub proof fn lemma_visual_range(anchor: usize, sel: usize, len: usize)
    requires
        anchor < len,
        sel < len,
    ensures
        visual_marks(anchor as nat, sel as nat, len as nat) == visual_marks(sel as nat, anchor as nat, len as nat),
        increasing(visual_marks(anchor as nat, sel as nat, len as nat)),
        forall|i: usize|
            visual_marks(anchor as nat, sel as nat, len as nat).contains(i) <==> ((anchor <= i <= sel) || (sel <= i
                <= anchor)),
{
    let m = visual_marks(anchor as nat, sel as nat, len as nat);
    let lo = if anchor <= sel { anchor } else { sel };
    assert forall|i: usize| m.contains(i) <==> ((anchor <= i <= sel) || (sel <= i <= anchor)) by {
        if lo <= i <= (if anchor <= sel { sel } else { anchor }) {
            assert(m[i - lo] == i);
        }
        if m.contains(i) {
            let k = choose|k: int| 0 <= k < m.len() && m[k] == i;
            assert(m[k] == lo + k);
        }
    }
    assert forall|i: int, j: int| 0 <= i < j < m.len() implies m[i] < m[j] by {
        assert(m[i] == lo + i && m[j] == lo + j);
    }
}

/// The position of the first mark at or past `sel`.
pub open spec fn mark_pos(m: Seq<usize>, sel: usize) -> nat
    decreases m.len(),
{
    if m.len() == 0 || m[0] >= sel {
        0
    } else {
        1 + mark_pos(m.drop_first(), sel)
    }
}

/// The marks with `sel` taken out if it is there, else put in its place.
pub open spec fn toggled(m: Seq<usize>, sel: usize) -> Seq<usize> {
    let p = mark_pos(m, sel) as int;
    if p < m.len() && m[p] == sel {
        m.remove(p)
    } else {
        m.insert(p, sel)
    }
}

proof fn lemma_mark_pos(m: Seq<usize>, sel: usize, pos: int)
    requires
        0 <= pos <= m.len(),
        forall|k: int| 0 <= k < pos ==> m[k] < sel,
        pos < m.len() ==> m[pos] >= sel,
    ensures
        mark_pos(m, sel) == pos,
    decreases m.len(),
{
    if m.len() > 0 && pos > 0 {
        lemma_mark_pos(m.drop_first(), sel, pos - 1);
    }
}

/// The paths that copy and delete act on: those of the marked entries where
/// any are marked, else that of the entry under the cursor, if there is one.
pub open spec fn target_paths(items: Seq<Entry>, selected: nat, marked: Seq<usize>) -> Seq<String> {
    if marked.len() > 0 {
        marked.map_values(|i: usize| items[i as int].path)
    } else if selected < items.len() {
        seq![items[selected as int].path]
    } else {
        Seq::empty()
    }
}

/// The characters of each string.
pub open spec fn string_views(s: Seq<String>) -> Seq<Seq<char>> {
    s.map_values(|x: String| x@)
}

/// The lower-cased names of the entries.
pub open spec fn lowered_names(items: Seq<Entry>) -> Seq<Seq<char>> {
    items.map_values(|e: Entry| lower_of(e.name@))
}

/// The first match when scanning from `start + i` onwards, wrapping around,
/// up to `start + len`.
pub open spec fn wrap_scan(names: Seq<Seq<char>>, q: Seq<char>, start: nat, i: nat) -> Option<nat>
    decreases names.len() + 1 - i,
{
    if names.len() == 0 || i > names.len() {
        None
    } else {
        let idx = (start + i) % names.len();
        if has_substring(names[idx as int], q) {
            Some(idx)
        } else {
            wrap_scan(names, q, start, i + 1)
        }
    }
}

/// The next name after position `start`, wrapping around, that contains `q`.
pub open spec fn next_match(names: Seq<Seq<char>>, q: Seq<char>, start: nat) -> Option<nat> {
    wrap_scan(names, q, start, 1)
}

/// The extensions, in lower case, of the files shown as images.
pub open spec fn is_image_ext(e: Seq<char>) -> bool {
    e == "png"@ || e == "jpg"@ || e == "jpeg"@ || e == "gif"@ || e == "bmp"@ || e == "tiff"@
        || e == "tif"@ || e == "webp"@
}

/// A path whose extension, lower-cased, is that of an image.
pub open spec fn path_is_image(p: Seq<char>) -> bool {
    match extension_of(p) {
        Some(e) => is_image_ext(lower_of(e)),
        None => false,
    }
}

impl Pane {
    /// The cursor is on an entry (at 0 when there is none), and the marks
    /// are entries of the listing, each listed once, in ascending order.
    pub open spec fn wf(&self) -> bool {
        &&& (if self.items.len() == 0 {
            self.selected == 0
        } else {
            self.selected < self.items.len()
        })
        &&& increasing(self.marked@)
        &&& forall|k: int| 0 <= k < self.marked.len() ==> self.marked@[k] < self.items.len()
    }

    /// A pane on `path` showing `entries` sorted by name, the cursor on the first.
    pub fn new(path: String, entries: Vec<Entry>) -> (p: Pane)
        ensures
            p.wf(),
            p.items@ == sorted_by(entries@, SortBy::Name),
            p.selected == 0,
            p.marked@.len() == 0,
            p.current_dir == path,
    {
        Pane { items: sort_entries(entries, SortBy::Name), selected: 0, current_dir: path, marked: Vec::new() }
    }

    /// Shows `entries`, the directory's listing read anew, sorted by name.
    /// Cursor and marks referred to the old listing: the cursor goes back to
    /// the first entry and the marks are cleared.
    pub fn refresh(&mut self, entries: Vec<Entry>)
        ensures
            final(self).wf(),
            final(self).items@ == sorted_by(entries@, SortBy::Name),
            final(self).selected == 0,
            final(self).marked@ == Seq::<usize>::empty(),
            final(self).current_dir == old(self).current_dir,
    {
        self.items = sort_entries(entries, SortBy::Name);
        self.selected = 0;
        self.marked = Vec::new();
        assert(self.marked@ == Seq::<usize>::empty());
    }

    /// Shows `entries` sorted by name, as `refresh` does, with the cursor on
    /// the first entry named `name` if there is one: after a rename, the
    /// renamed entry stays under the cursor.
    pub fn refresh_selecting(&mut self, entries: Vec<Entry>, name: &str)
        ensures
            final(self).wf(),
            final(self).items@ == sorted_by(entries@, SortBy::Name),
            final(self).marked@ == Seq::<usize>::empty(),
            final(self).current_dir == old(self).current_dir,
            (exists|i: int| 0 <= i < final(self).items.len() && final(self).items@[i].name@ == name@) ==> {
                &&& final(self).items@[final(self).selected as int].name@ == name@
                &&& forall|j: int| 0 <= j < final(self).selected ==> final(self).items@[j].name@ != name@
            },
            !(exists|i: int| 0 <= i < final(self).items.len() && final(self).items@[i].name@ == name@) ==> final(self).selected == 0,
    {
        self.refresh(entries);
        self.select_name(name);
    }

    /// Moves the cursor `count` entries down, or up, stopping at either end.
    pub fn move_cursor(&mut self, down: bool, count: usize)
        requires
            old(self).wf(),
        ensures
            final(self).wf(),
            final(self).selected == (if down {
                cursor_down(old(self).selected as nat, count as nat, old(self).items.len() as nat)
            } else {
                cursor_up(old(self).selected as nat, count as nat)
            }),
            final(self).items == old(self).items,
            final(self).marked == old(self).marked,
            final(self).current_dir == old(self).current_dir,
    {
        let len = self.items.len();
        if down {
            if len > 0 {
                if count >= len - self.selected {
                    self.selected = len - 1;
                } else {
                    self.selected = self.selected + count;
                }
            }
        } else if self.selected >= count {
            self.selected = self.selected - count;
        } else {
            self.selected = 0;
        }
    }

    /// Puts the cursor on the first entry.
    pub fn jump_to_top(&mut self)
        requires
            old(self).wf(),
        ensures
            final(self).wf(),
            final(self).selected == 0,
            final(self).items == old(self).items,
            final(self).marked == old(self).marked,
            final(self).current_dir == old(self).current_dir,
    {
        self.selected = 0;
    }

    /// Puts the cursor on the last entry.
    pub fn jump_to_bottom(&mut self)
        requires
            old(self).wf(),
        ensures
            final(self).wf(),
            final(self).selected == (if old(self).items.len() == 0 {
                0
            } else {
                old(self).items.len() - 1
            }),
            final(self).items == old(self).items,
            final(self).marked == old(self).marked,
            final(self).current_dir == old(self).current_dir,
    {
        if self.items.len() == 0 {
            self.selected = 0;
        } else {
            self.selected = self.items.len() - 1;
        }
    }

    /// The paths that copy and delete act on: the marked entries' where any
    /// are marked, else that of the entry under the cursor, else none.
    pub fn resolved_targets(&self) -> (r: Vec<String>)
        requires
            self.wf(),
        ensures
            r@ == target_paths(self.items@, self.selected as nat, self.marked@),
    {
        let mut r: Vec<String> = Vec::new();
        if self.marked.len() > 0 {
            let mut k: usize = 0;
            while k < self.marked.len()
                invariant
                    self.wf(),
                    k <= self.marked.len(),
                    r@ == self.marked@.take(k as int).map_values(|i: usize| self.items@[i as int].path),
                decreases self.marked.len() - k,
            {
                let i = self.marked[k];
                r.push(self.items[i].path.clone());
                proof {
                    assert(self.marked@.take(k + 1) == self.marked@.take(k as int).push(i));
                }
                k = k + 1;
            }
            assert(self.marked@.take(self.marked.len() as int) == self.marked@);
        } else if self.selected < self.items.len() {
            r.push(self.items[self.selected].path.clone());
        }
        r
    }

    /// Marks exactly the indices between `anchor` and the cursor.
    pub fn mark_range(&mut self, anchor: usize)
        requires
            old(self).wf(),
        ensures
            final(self).wf(),
            final(self).marked@ == visual_marks(anchor as nat, old(self).selected as nat, old(self).items.len() as nat),
            final(self).items == old(self).items,
            final(self).selected == old(self).selected,
            final(self).current_dir == old(self).current_dir,
    {
        let len = self.items.len();
        let mut m: Vec<usize> = Vec::new();
        if len > 0 {
            let sel = self.selected;
            let lo = if anchor <= sel { anchor } else { sel };
            let hi0 = if anchor <= sel { sel } else { anchor };
            let hi = if hi0 < len { hi0 } else { len - 1 };
            let ghost want = visual_marks(anchor as nat, sel as nat, len as nat);
            assert(want == index_range(lo as nat, hi as nat));
            let mut i: usize = lo;
            while i <= hi
                invariant
                    lo <= hi + 1,
                    lo <= i <= hi + 1,
                    hi < len,
                    m@ == index_range(lo as nat, hi as nat).take(i - lo),
                decreases hi + 1 - i,
            {
                m.push(i);
                proof {
                    assert(index_range(lo as nat, hi as nat).take(i + 1 - lo) == index_range(lo as nat, hi as nat).take(i - lo).push(i));
                }
                i = i + 1;
            }
            assert(index_range(lo as nat, hi as nat).take(hi + 1 - lo) == index_range(lo as nat, hi as nat));
        }
        self.marked = m;
    }

    /// Puts the cursor on the first entry named `name`, if there is one.
    pub fn select_name(&mut self, name: &str)
        requires
            old(self).wf(),
        ensures
            final(self).wf(),
            (exists|i: int| 0 <= i < old(self).items.len() && old(self).items@[i].name@ == name@) ==> {
                &&& final(self).items@[final(self).selected as int].name@ == name@
                &&& forall|j: int| 0 <= j < final(self).selected ==> old(self).items@[j].name@ != name@
            },
            !(exists|i: int| 0 <= i < old(self).items.len() && old(self).items@[i].name@ == name@) ==> final(self).selected == old(self).selected,
            final(self).items == old(self).items,
            final(self).marked == old(self).marked,
            final(self).current_dir == old(self).current_dir,
    {
        let want = chars_of(name);
        let mut i: usize = 0;
        while i < self.items.len()
            invariant
                self.wf(),
                self.items == old(self).items,
                self.selected == old(self).selected,
                self.marked == old(self).marked,
                self.current_dir == old(self).current_dir,
                want@ == name@,
                i <= self.items.len(),
                forall|j: int| 0 <= j < i ==> self.items@[j].name@ != name@,
            decreases self.items.len() - i,
        {
            let have = chars_of(self.items[i].name.as_str());
            if seq_eq_exec(&have, &want) {
                self.selected = i;
                return;
            }
            i = i + 1;
        }
    }
}

/// Sorts the pane's listing by `by`. Positions change, so the cursor goes
/// back to the first entry and the marks are cleared.
pub fn apply_sort(pane: &mut Pane, by: SortBy)
    ensures
        final(pane).wf(),
        final(pane).items@ == sorted_by(old(pane).items@, by),
        final(pane).selected == 0,
        final(pane).marked@ == Seq::<usize>::empty(),
        final(pane).current_dir == old(pane).current_dir,
{
    let mut items: Vec<Entry> = Vec::new();
    core::mem::swap(&mut items, &mut pane.items);
    pane.items = sort_entries(items, by);
    pane.selected = 0;
    pane.marked = Vec::new();
    assert(pane.marked@ == Seq::<usize>::empty());
}

/// A match found by scanning is a position of the listing.
pub proof fn lemma_wrap_scan_in_range(names: Seq<Seq<char>>, q: Seq<char>, start: nat, i: nat)
    ensures
        wrap_scan(names, q, start, i) matches Some(k) ==> k < names.len(),
    decreases names.len() + 1 - i,
{
    if names.len() > 0 && i <= names.len() {
        lemma_wrap_scan_in_range(names, q, start, i + 1);
    }
}

/// Flips whether the entry under the cursor is marked.
pub fn toggle_mark(pane: &mut Pane)
    requires
        old(pane).wf(),
    ensures
        final(pane).wf(),
        old(pane).items.len() > 0 ==> forall|i: usize|
            final(pane).marked@.contains(i) == (old(pane).marked@.contains(i) != (i == old(pane).selected)),
        old(pane).items.len() > 0 ==> final(pane).marked@ == toggled(old(pane).marked@, old(pane).selected),
        old(pane).items.len() == 0 ==> final(pane).marked == old(pane).marked,
        final(pane).items == old(pane).items,
        final(pane).selected == old(pane).selected,
        final(pane).current_dir == old(pane).current_dir,
{
    if pane.items.len() == 0 {
        return;
    }
    let sel = pane.selected;
    let mut pos: usize = 0;
    while pos < pane.marked.len() && pane.marked[pos] < sel
        invariant
            pane.wf(),
            sel == pane.selected,
            pos <= pane.marked.len(),
            forall|k: int| 0 <= k < pos ==> pane.marked@[k] < sel,
        decreases pane.marked.len() - pos,
    {
        pos = pos + 1;
    }
    let ghost before = pane.marked@;
    proof {
        lemma_mark_pos(before, sel, pos as int);
    }
    if pos < pane.marked.len() && pane.marked[pos] == sel {
        pane.marked.remove(pos);
        proof {
            assert forall|i: usize| pane.marked@.contains(i) == (before.contains(i) != (i == sel)) by {
                if before.contains(i) && i != sel {
                    let k = choose|k: int| 0 <= k < before.len() && before[k] == i;
                    if k < pos {
                        assert(pane.marked@[k] == i);
                    } else {
                        assert(pane.marked@[k - 1] == i);
                    }
                }
                if pane.marked@.contains(i) {
                    let k = choose|k: int| 0 <= k < pane.marked@.len() && pane.marked@[k] == i;
                    if k < pos {
                        assert(before[k] == i);
                    } else {
                        assert(before[k + 1] == i);
                    }
                }
            }
        }
    } else {
        pane.marked.insert(pos, sel);
        proof {
            assert forall|i: usize| pane.marked@.contains(i) == (before.contains(i) != (i == sel)) by {
                if before.contains(i) {
                    let k = choose|k: int| 0 <= k < before.len() && before[k] == i;
                    if k < pos {
                        assert(pane.marked@[k] == i);
                    } else {
                        assert(pane.marked@[k + 1] == i);
                    }
                }
                if i == sel {
                    assert(pane.marked@[pos as int] == i);
                }
                if pane.marked@.contains(i) && i != sel {
                    let k = choose|k: int| 0 <= k < pane.marked@.len() && pane.marked@[k] == i;
                    if k < pos {
                        assert(before[k] == i);
                    } else {
                        assert(before[k - 1] == i);
                    }
                }
            }
        }
    }
}

/// The next entry after `start`, wrapping around, whose name, given here
/// already lower-cased, contains `query`.
pub fn find_match_folded(names: &Vec<String>, query: &str, start: usize) -> (r: Option<usize>)
    ensures
        r == (match next_match(string_views(names@), query@, start as nat) {
            Some(i) => Some(i as usize),
            None => None::<usize>,
        }),
{
    let ghost ns = string_views(names@);
    let total = names.len();
    if total == 0 {
        return None;
    }
    let q = chars_of(query);
    let base = start % total;
    let mut i: usize = 0;
    while i < total
        invariant
            total == names.len(),
            total == ns.len(),
            ns == string_views(names@),
            q@ == query@,
            base == start % total,
            0 <= i <= total,
            next_match(ns, query@, start as nat) == wrap_scan(ns, query@, start as nat, (i + 1) as nat),
        decreases total - i,
    {
        let step = i + 1;
        let idx = if step >= total - base {
            step - (total - base)
        } else {
            base + step
        };
        proof {
            vstd::arithmetic::div_mod::lemma_add_mod_noop_right(step as int, start as int, total as int);
            if step >= total - base {
                vstd::arithmetic::div_mod::lemma_mod_add_multiples_vanish(idx as int, total as int);
            }
            vstd::arithmetic::div_mod::lemma_small_mod(idx as nat, total as nat);
            assert(idx == (start + step) % (total as int));
        }
        let name = chars_of(names[idx].as_str());
        if contains_chars(&name, &q) {
            return Some(idx);
        }
        i = i + 1;
    }
    None
}

/// The next entry after `start`, wrapping around, whose name contains `query`,
/// both compared in lower case; none for an empty query.
pub fn find_match(entries: &[Entry], query: &str, start: usize) -> (r: Option<usize>)
    ensures
        r == (if query@.len() == 0 {
            None::<usize>
        } else {
            match next_match(lowered_names(entries@), lower_of(query@), start as nat) {
                Some(i) => Some(i as usize),
                None => None::<usize>,
            }
        }),
{
    if chars_of(query).len() == 0 {
        return None;
    }
    let q = lowercase(query);
    let mut names: Vec<String> = Vec::new();
    let mut k: usize = 0;
    while k < entries.len()
        invariant
            k <= entries@.len(),
            names.len() == k,
            string_views(names@) == lowered_names(entries@).take(k as int),
        decreases entries@.len() - k,
    {
        let n = lowercase(entries[k].name.as_str());
        let ghost before = names@;
        names.push(n);
        proof {
            assert forall|j: int| 0 <= j <= k implies #[trigger] string_views(names@)[j] == lowered_names(entries@).take(k + 1)[j] by {
                if j < k {
                    assert(names@[j] == before[j]);
                    assert(string_views(before)[j] == lowered_names(entries@).take(k as int)[j]);
                }
            }
            assert(string_views(names@) =~= lowered_names(entries@).take(k + 1));
        }
        k = k + 1;
    }
    assert(lowered_names(entries@).take(entries@.len() as int) =~= lowered_names(entries@));
    find_match_folded(&names, q.as_str(), start)
}

/// Whether a lower-cased extension is that of an image.
pub fn is_image_extension(ext: &str) -> (r: bool)
    ensures
        r == is_image_ext(ext@),
{
    let e = chars_of(ext);
    seq_eq_exec(&e, &chars_of("png")) || seq_eq_exec(&e, &chars_of("jpg")) || seq_eq_exec(&e, &chars_of("jpeg"))
        || seq_eq_exec(&e, &chars_of("gif")) || seq_eq_exec(&e, &chars_of("bmp")) || seq_eq_exec(&e, &chars_of("tiff"))
        || seq_eq_exec(&e, &chars_of("tif")) || seq_eq_exec(&e, &chars_of("webp"))
}

/// Whether the path names an image, by its extension in any case.
pub fn is_image(path: &str) -> (r: bool)
    ensures
        r == path_is_image(path@),
{
    match path_extension(path) {
        Some(ext) => {
            let lower = lowercase(ext.as_str());
            is_image_extension(lower.as_str())
        },
        None => false,
    }
}

} // verus!
