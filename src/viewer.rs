use vstd::prelude::*;

verus! {

/// The number of line breaks in `s`.
pub open spec fn count_newlines(s: Seq<char>) -> nat
    decreases s.len(),
{
    if s.len() == 0 {
        0
    } else {
        count_newlines(s.drop_last()) + if s.last() == '\n' {
            1nat
        } else {
            0nat
        }
    }
}

/// The number of lines of a text: one per line break, and one more for text
/// after the last line break.
pub open spec fn line_count(s: Seq<char>) -> nat {
    count_newlines(s) + if s.len() > 0 && s.last() != '\n' {
        1nat
    } else {
        0nat
    }
}

/// How far a text can scroll in a view of `height` lines: to where its last
/// line is at the bottom of the view, and no farther than an offset can count.
pub open spec fn max_offset(content: Seq<char>, height: nat) -> nat {
    let lines = line_count(content);
    let m = if lines > height {
        (lines - height) as nat
    } else {
        0nat
    };
    if m > u16::MAX {
        u16::MAX as nat
    } else {
        m
    }
}

/// The number of lines of a text, as `line_count` counts them.
pub fn count_lines(s: &str) -> (n: usize)
    ensures
        n == line_count(s@),
{
    broadcast use vstd::string::group_string_axioms;

    let total = s.unicode_len();
    let mut n: usize = 0;
    let mut last_newline = true;
    for c in it: s.chars()
        invariant
            it.seq() == s@,
            total == s@.len(),
            n == count_newlines(it.seq().take(it.index() as int)),
            n + (if last_newline { 0int } else { 1int }) <= it.index(),
            last_newline == (it.index() == 0 || s@[it.index() - 1] == '\n'),
    {
        proof {
            let t = it.seq().take(it.index() + 1);
            assert(t.drop_last() == it.seq().take(it.index() as int));
        }
        if c == '\n' {
            n = n + 1;
        }
        last_newline = c == '\n';
    }
    assert(s@.take(s@.len() as int) == s@);
    if last_newline {
        n
    } else {
        n + 1
    }
}

/// The farthest offset a text can be scrolled to in a view of `height` lines.
pub fn max_offset_exec(content: &str, height: usize) -> (r: usize)
    ensures
        r == max_offset(content@, height as nat),
{
    let lines = count_lines(content);
    let m = if lines > height {
        lines - height
    } else {
        0
    };
    if m > 65535 {
        65535
    } else {
        m
    }
}

} // verus!
