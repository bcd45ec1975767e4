use vstd::prelude::*;

use crate::text::{
    chars_le, chars_le_exec, chars_of, lemma_chars_le_antisymmetric, lemma_chars_le_total,
    lemma_chars_le_transitive, lower_of, lowercase, seq_eq_exec,
};

verus! {

/// One member of a directory, as it was when the directory was read.
///
/// Times count nanoseconds from the Unix epoch; a time that the file system
/// could not give is 0, the epoch itself.
pub struct Entry {
    pub name: String,
    pub path: String,
    pub is_dir: bool,
    pub size: u64,
    pub modified: i128,
    pub created: i128,
    pub executable: bool,
}

/// Criteria for sorting the file list.
#[derive(PartialEq, Eq, Structural, Clone, Copy, Debug)]
pub enum SortBy {
    Modified,
    Created,
    Size,
    Name,
}

/// The criterion at a position of the sort menu: modified, created, size, name.
pub open spec fn sort_by_at(i: nat) -> SortBy {
    if i == 0 {
        SortBy::Modified
    } else if i == 1 {
        SortBy::Created
    } else if i == 2 {
        SortBy::Size
    } else {
        SortBy::Name
    }
}

impl SortBy {
    /// The criterion at position `i` of the sort menu; positions past the
    /// last one mean sorting by name.
    pub fn from_index(i: usize) -> (r: SortBy)
        ensures
            r == sort_by_at(i as nat),
    {
        if i == 0 {
            SortBy::Modified
        } else if i == 1 {
            SortBy::Created
        } else if i == 2 {
            SortBy::Size
        } else {
            SortBy::Name
        }
    }
}

/// The primary key of an entry under a criterion; smaller keys come first.
/// Size sorts the largest first, and sorting by name has no primary key.
pub open spec fn primary_key(e: Entry, by: SortBy) -> int {
    match by {
        SortBy::Modified => e.modified as int,
        SortBy::Created => e.created as int,
        SortBy::Size => -(e.size as int),
        SortBy::Name => 0,
    }
}

/// Name order: the lower-cased names ascending, and where those are equal,
/// the names themselves.
pub open spec fn names_le(a: Entry, b: Entry) -> bool {
    if lower_of(a.name@) != lower_of(b.name@) {
        chars_le(lower_of(a.name@), lower_of(b.name@))
    } else {
        chars_le(a.name@, b.name@)
    }
}

/// `a` may stand before `b` in a listing sorted by `by`.
pub open spec fn entry_le(a: Entry, b: Entry, by: SortBy) -> bool {
    primary_key(a, by) < primary_key(b, by) || (primary_key(a, by) == primary_key(b, by)
        && names_le(a, b))
}

/// Each entry may stand before every later one.
pub open spec fn is_sorted(s: Seq<Entry>, by: SortBy) -> bool {
    forall|i: int, j: int| 0 <= i < j < s.len() ==> entry_le(#[trigger] s[i], #[trigger] s[j], by)
}

/// No two entries share a name, as in one directory.
pub open spec fn names_distinct(s: Seq<Entry>) -> bool {
    forall|i: int, j: int| 0 <= i < j < s.len() ==> (#[trigger] s[i]).name@ != (#[trigger] s[j]).name@
}

/// `e` placed after the leading entries that may stand before it.
pub open spec fn insert_sorted(s: Seq<Entry>, e: Entry, by: SortBy) -> Seq<Entry>
    decreases s.len(),
{
    if s.len() == 0 {
        seq![e]
    } else if entry_le(s[0], e, by) {
        seq![s[0]] + insert_sorted(s.drop_first(), e, by)
    } else {
        seq![e] + s
    }
}

/// The listing sorted by `by`: each entry in turn placed after those before
/// it that may stand before it, so that entries of equal rank keep their order.
pub open spec fn sorted_by(s: Seq<Entry>, by: SortBy) -> Seq<Entry>
    decreases s.len(),
{
    if s.len() == 0 {
        s
    } else {
        insert_sorted(sorted_by(s.drop_last(), by), s.last(), by)
    }
}

pub proof fn lemma_entry_le_total(a: Entry, b: Entry, by: SortBy)
    ensures
        entry_le(a, b, by) || entry_le(b, a, by),
{
    lemma_chars_le_total(lower_of(a.name@), lower_of(b.name@));
    lemma_chars_le_total(a.name@, b.name@);
}

pub proof fn lemma_entry_le_transitive(a: Entry, b: Entry, c: Entry, by: SortBy)
    requires
        entry_le(a, b, by),
        entry_le(b, c, by),
    ensures
        entry_le(a, c, by),
{
    let (la, lb, lc) = (lower_of(a.name@), lower_of(b.name@), lower_of(c.name@));
    if primary_key(a, by) == primary_key(b, by) && primary_key(b, by) == primary_key(c, by) {
        if la != lb && lb != lc {
            lemma_chars_le_transitive(la, lb, lc);
            if la == lc {
                lemma_chars_le_antisymmetric(la, lb);
            }
        } else if la != lb {
            assert(la != lc);
        } else if lb != lc {
            assert(la != lc);
        } else {
            lemma_chars_le_transitive(a.name@, b.name@, c.name@);
        }
    }
}

/// Entries that may each stand before the other have the same name.
pub proof fn lemma_entry_le_antisymmetric(a: Entry, b: Entry, by: SortBy)
    requires
        entry_le(a, b, by),
        entry_le(b, a, by),
    ensures
        a.name@ == b.name@,
        primary_key(a, by) == primary_key(b, by),
{
    if lower_of(a.name@) != lower_of(b.name@) {
        lemma_chars_le_antisymmetric(lower_of(a.name@), lower_of(b.name@));
    } else {
        lemma_chars_le_antisymmetric(a.name@, b.name@);
    }
}

/// The position at which `insert_sorted` places `e`.
pub open spec fn insert_pos(s: Seq<Entry>, e: Entry, by: SortBy) -> nat
    decreases s.len(),
{
    if s.len() == 0 {
        0
    } else if entry_le(s[0], e, by) {
        1 + insert_pos(s.drop_first(), e, by)
    } else {
        0
    }
}

proof fn lemma_insert_pos(s: Seq<Entry>, e: Entry, by: SortBy)
    ensures
        insert_pos(s, e, by) <= s.len(),
        insert_sorted(s, e, by) == s.insert(insert_pos(s, e, by) as int, e),
        forall|k: int| 0 <= k < insert_pos(s, e, by) ==> entry_le(#[trigger] s[k], e, by),
        insert_pos(s, e, by) < s.len() ==> !entry_le(s[insert_pos(s, e, by) as int], e, by),
    decreases s.len(),
{
    if s.len() > 0 {
        if entry_le(s[0], e, by) {
            let t = s.drop_first();
            lemma_insert_pos(t, e, by);
            assert(insert_sorted(s, e, by) == s.insert(insert_pos(s, e, by) as int, e));
            assert forall|k: int| 0 <= k < insert_pos(s, e, by) implies entry_le(#[trigger] s[k], e, by) by {
                if k > 0 {
                    assert(s[k] == t[k - 1]);
                }
            }
        } else {
            assert(insert_sorted(s, e, by) == s.insert(0, e));
        }
    } else {
        assert(insert_sorted(s, e, by) == s.insert(0, e));
    }
}

/// The first position whose entry may not stand before `e` is where
/// `insert_sorted` places it.
proof fn lemma_insert_at(s: Seq<Entry>, e: Entry, by: SortBy, pos: int)
    requires
        0 <= pos <= s.len(),
        forall|k: int| 0 <= k < pos ==> entry_le(#[trigger] s[k], e, by),
        pos < s.len() ==> !entry_le(s[pos], e, by),
    ensures
        insert_sorted(s, e, by) == s.insert(pos, e),
{
    lemma_insert_pos(s, e, by);
    let p = insert_pos(s, e, by) as int;
    if p < pos {
        assert(entry_le(s[p], e, by));
    } else if pos < p {
        assert(entry_le(s[pos], e, by));
    }
}

proof fn lemma_insert_sorted_keeps_order(s: Seq<Entry>, e: Entry, by: SortBy)
    requires
        is_sorted(s, by),
    ensures
        is_sorted(insert_sorted(s, e, by), by),
        insert_sorted(s, e, by).to_multiset() == s.to_multiset().insert(e),
{
    broadcast use vstd::seq_lib::to_multiset_insert;

    lemma_insert_pos(s, e, by);
    let p = insert_pos(s, e, by) as int;
    let r = insert_sorted(s, e, by);
    if p < s.len() {
        lemma_entry_le_total(s[p], e, by);
    }
    assert forall|k: int| p <= k < s.len() implies entry_le(e, #[trigger] s[k], by) by {
        lemma_entry_le_total(s[p], e, by);
        if k > p {
            lemma_entry_le_transitive(e, s[p], s[k], by);
        }
    }
    assert forall|i: int, j: int| 0 <= i < j < r.len() implies entry_le(#[trigger] r[i], #[trigger] r[j], by) by {
        if j < p {
        } else if j == p {
        } else if i < p {
            lemma_entry_le_transitive(s[i], e, s[j - 1], by);
        } else if i == p {
        } else {
            assert(r[i] == s[i - 1] && r[j] == s[j - 1]);
        }
    }
}

/// What `sorted_by` gives is in order and holds the same entries.
pub proof fn lemma_sorted_by(s: Seq<Entry>, by: SortBy)
    ensures
        is_sorted(sorted_by(s, by), by),
        sorted_by(s, by).to_multiset() == s.to_multiset(),
    decreases s.len(),
{
    broadcast use vstd::seq_lib::to_multiset_build;

    if s.len() > 0 {
        lemma_sorted_by(s.drop_last(), by);
        lemma_insert_sorted_keeps_order(sorted_by(s.drop_last(), by), s.last(), by);
        assert(s == s.drop_last().push(s.last()));
    }
}

/// A listing already in order is left as it is.
pub proof fn lemma_sorted_by_in_order(s: Seq<Entry>, by: SortBy)
    requires
        is_sorted(s, by),
    ensures
        sorted_by(s, by) == s,
    decreases s.len(),
{
    if s.len() > 0 {
        let t = s.drop_last();
        assert(is_sorted(t, by));
        lemma_sorted_by_in_order(t, by);
        lemma_insert_at(t, s.last(), by, t.len() as int);
        assert(t.insert(t.len() as int, s.last()) == s);
    }
}

/// Sorting twice by the same criterion gives the order that sorting once gave.
pub proof fn lemma_sort_idempotent(s: Seq<Entry>, by: SortBy)
    ensures
        sorted_by(sorted_by(s, by), by) == sorted_by(s, by),
{
    lemma_sorted_by(s, by);
    lemma_sorted_by_in_order(sorted_by(s, by), by);
}

/// Two listings in order that hold the same entries, no two of them with the
/// same name, are the same listing: the order depends on the contents alone.
pub proof fn lemma_sorted_unique(a: Seq<Entry>, b: Seq<Entry>, by: SortBy)
    requires
        is_sorted(a, by),
        is_sorted(b, by),
        a.to_multiset() == b.to_multiset(),
        names_distinct(a),
    ensures
        a == b,
    decreases a.len(),
{
    broadcast use vstd::seq_lib::to_multiset_remove;
    broadcast use vstd::seq_lib::group_to_multiset_ensures;
    broadcast use vstd::multiset::group_multiset_axioms;

    if a.len() == 0 {
        assert(b.len() == 0);
        assert(a == b);
    } else {
        assert(a.to_multiset().count(a[0]) > 0);
        assert(b.contains(a[0]));
        let j = choose|j: int| 0 <= j < b.len() && b[j] == a[0];
        assert(b.to_multiset().count(b[0]) > 0);
        assert(a.contains(b[0]));
        let k = choose|k: int| 0 <= k < a.len() && a[k] == b[0];
        lemma_entry_le_total(a[0], a[0], by);
        if j > 0 {
            assert(entry_le(b[0], b[j], by));
        }
        if k > 0 {
            assert(entry_le(a[0], a[k], by));
        }
        lemma_entry_le_antisymmetric(a[0], b[0], by);
        assert(k == 0);
        assert(a.remove(0) == a.drop_first());
        assert(b.remove(0) == b.drop_first());
        assert(names_distinct(a.drop_first()));
        lemma_sorted_unique(a.drop_first(), b.drop_first(), by);
        assert(a == seq![a[0]] + a.drop_first());
        assert(b == seq![b[0]] + b.drop_first());
    }
}

/// Renaming an entry and naming it back leaves the directory with the entries
/// it had, read back in whatever order: sorted by name, the listing is the one
/// from before.
pub proof fn lemma_rename_round_trip(before: Seq<Entry>, after: Seq<Entry>)
    requires
        after.to_multiset() == before.to_multiset(),
        names_distinct(before),
    ensures
        sorted_by(after, SortBy::Name) == sorted_by(before, SortBy::Name),
{
    lemma_sorted_by(before, SortBy::Name);
    lemma_sorted_by(after, SortBy::Name);
    let a = sorted_by(before, SortBy::Name);
    lemma_names_distinct_permutation(before, a);
    lemma_sorted_unique(a, sorted_by(after, SortBy::Name), SortBy::Name);
}

proof fn lemma_names_distinct_permutation(s: Seq<Entry>, t: Seq<Entry>)
    requires
        names_distinct(s),
        t.to_multiset() == s.to_multiset(),
    ensures
        names_distinct(t),
{
    broadcast use vstd::seq_lib::group_to_multiset_ensures;
    broadcast use vstd::multiset::group_multiset_axioms;

    assert forall|i: int, j: int| 0 <= i < j < t.len() implies (#[trigger] t[i]).name@ != (#[trigger] t[j]).name@ by {
        if t[i].name@ == t[j].name@ {
            assert(t.contains(t[i]));
            assert(t.contains(t[j]));
            assert(t.to_multiset().count(t[i]) > 0);
            assert(t.to_multiset().count(t[j]) > 0);
            assert(s.contains(t[i]));
            assert(s.contains(t[j]));
            let x = choose|x: int| 0 <= x < s.len() && s[x] == t[i];
            let y = choose|y: int| 0 <= y < s.len() && s[y] == t[j];
            assert(x == y);
            assert(t[i] == t[j]);
            assert(t.to_multiset().count(t[i]) >= 2) by {
                lemma_count_two(t, i, j);
            }
            lemma_count_at_most_one(s, x);
        }
    }
}

proof fn lemma_count_two(t: Seq<Entry>, i: int, j: int)
    requires
        0 <= i < j < t.len(),
        t[i] == t[j],
    ensures
        t.to_multiset().count(t[i]) >= 2,
{
    broadcast use vstd::seq_lib::to_multiset_remove;
    broadcast use vstd::seq_lib::group_to_multiset_ensures;
    broadcast use vstd::multiset::group_multiset_axioms;

    let u = t.remove(j);
    assert(u[i] == t[i]);
    assert(u.contains(t[i]));
    assert(u.to_multiset().count(t[i]) > 0);
}

proof fn lemma_count_at_most_one(s: Seq<Entry>, x: int)
    requires
        0 <= x < s.len(),
        names_distinct(s),
    ensures
        s.to_multiset().count(s[x]) == 1,
{
    broadcast use vstd::seq_lib::to_multiset_remove;
    broadcast use vstd::seq_lib::group_to_multiset_ensures;
    broadcast use vstd::multiset::group_multiset_axioms;

    let u = s.remove(x);
    assert(!u.contains(s[x])) by {
        if u.contains(s[x]) {
            let y = choose|y: int| 0 <= y < u.len() && u[y] == s[x];
            if y < x {
                assert(s[y] == s[x]);
            } else {
                assert(s[y + 1] == s[x]);
            }
        }
    }
    assert(u.to_multiset().count(s[x]) == 0);
    assert(s.contains(s[x]));
    assert(s.to_multiset().count(s[x]) > 0);
}

/// The names of an entry as the name order compares them.
struct NameKey {
    lower: Vec<char>,
    name: Vec<char>,
}

impl NameKey {
    spec fn of(self, e: Entry) -> bool {
        self.lower@ == lower_of(e.name@) && self.name@ == e.name@
    }
}

fn name_key(e: &Entry) -> (k: NameKey)
    ensures
        k.of(*e),
{
    let lower = lowercase(e.name.as_str());
    NameKey { lower: chars_of(lower.as_str()), name: chars_of(e.name.as_str()) }
}

fn entry_le_exec(a: &Entry, ka: &NameKey, b: &Entry, kb: &NameKey, by: SortBy) -> (r: bool)
    requires
        ka.of(*a),
        kb.of(*b),
    ensures
        r == entry_le(*a, *b, by),
{
    let (before, tie) = match by {
        SortBy::Modified => (a.modified < b.modified, a.modified == b.modified),
        SortBy::Created => (a.created < b.created, a.created == b.created),
        SortBy::Size => (a.size > b.size, a.size == b.size),
        SortBy::Name => (false, true),
    };
    if before {
        true
    } else if !tie {
        false
    } else if !seq_eq_exec(&ka.lower, &kb.lower) {
        chars_le_exec(&ka.lower, &kb.lower)
    } else {
        chars_le_exec(&ka.name, &kb.name)
    }
}

/// The entries sorted by `by`; entries of equal rank keep their order.
pub fn sort_entries(items: Vec<Entry>, by: SortBy) -> (r: Vec<Entry>)
    ensures
        r@ == sorted_by(items@, by),
{
    let ghost all = items@;
    let mut rest = items;
    let mut out: Vec<Entry> = Vec::new();
    let mut keys: Vec<NameKey> = Vec::new();
    while rest.len() > 0
        invariant
            rest.len() <= all.len(),
            rest@ == all.skip(all.len() - rest.len()),
            out@ == sorted_by(all.take(all.len() - rest.len()), by),
            keys.len() == out.len(),
            forall|j: int| 0 <= j < out.len() ==> (#[trigger] keys@[j]).of(out@[j]),
        decreases rest.len(),
    {
        let ghost done = all.len() - rest.len();
        let e = rest.remove(0);
        assert(e == all[done]);
        let k = name_key(&e);
        let mut pos: usize = 0;
        while pos < out.len() && entry_le_exec(&out[pos], &keys[pos], &e, &k, by)
            invariant
                pos <= out.len(),
                keys.len() == out.len(),
                forall|j: int| 0 <= j < out.len() ==> (#[trigger] keys@[j]).of(out@[j]),
                k.of(e),
                forall|j: int| 0 <= j < pos ==> entry_le(#[trigger] out@[j], e, by),
            decreases out.len() - pos,
        {
            pos = pos + 1;
        }
        proof {
            lemma_insert_at(out@, e, by, pos as int);
            let t = all.take(done + 1);
            assert(t.drop_last() == all.take(done));
            assert(t.last() == e);
        }
        let ghost keys_before = keys@;
        let ghost out_before = out@;
        out.insert(pos, e);
        keys.insert(pos, k);
        proof {
            assert forall|j: int| 0 <= j < out.len() implies (#[trigger] keys@[j]).of(out@[j]) by {
                if j > pos {
                    assert(keys@[j] == keys_before[j - 1]);
                    assert(out@[j] == out_before[j - 1]);
                    assert(keys_before[j - 1].of(out_before[j - 1]));
                } else if j < pos {
                    assert(keys_before[j].of(out_before[j]));
                }
            }
            assert(rest@ == all.skip(all.len() - rest.len()));
        }
    }
    assert(all.take(all.len() as int) == all);
    out
}

} // verus!
