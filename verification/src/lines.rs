//! Lines of a character sequence: where they begin and end, and how they are counted.
use vstd::prelude::*;

use crate::text::lemma_take_full_chars;

verus! {

/// Number of line breaks in `t`.
pub open spec fn count_newlines(t: Seq<char>) -> nat
    decreases t.len(),
{
    if t.len() == 0 {
        0
    } else {
        count_newlines(t.drop_last()) + if t.last() == '\n' {
            1nat
        } else {
            0nat
        }
    }
}

/// First position of the line that holds position `k`: just after the last line break before `k`.
pub open spec fn line_begin(t: Seq<char>, k: nat) -> nat
    decreases k,
{
    if k == 0 {
        0
    } else if t[k - 1] == '\n' {
        k
    } else {
        line_begin(t, (k - 1) as nat)
    }
}

/// Position of the first line break at or after `k`, or the length of `t` if there is none.
pub open spec fn line_finish(t: Seq<char>, k: nat) -> nat
    decreases t.len() - k,
{
    if k >= t.len() {
        t.len()
    } else if t[k as int] == '\n' {
        k
    } else {
        line_finish(t, k + 1)
    }
}

/// First position of line number `n` (counting from 0): just after the `n`-th line break,
/// or the length of `t` when there are fewer than `n` line breaks.
pub open spec fn line_start_of(t: Seq<char>, n: nat) -> nat
    decreases t.len(),
{
    if n == 0 {
        0
    } else if t.len() == 0 || count_newlines(t.drop_last()) < n {
        t.len()
    } else {
        line_start_of(t.drop_last(), n)
    }
}

/// The smaller of two numbers.
pub open spec fn nat_min(a: nat, b: nat) -> nat {
    if a <= b {
        a
    } else {
        b
    }
}

/// Counting one more character.
pub proof fn lemma_count_take_succ(t: Seq<char>, i: int)
    requires
        0 <= i < t.len(),
    ensures
        count_newlines(t.take(i + 1)) == count_newlines(t.take(i)) + if t[i] == '\n' {
            1nat
        } else {
            0nat
        },
{
    assert(t.take(i + 1).drop_last() =~= t.take(i));
}

/// Counts of prefixes grow with the prefix.
pub proof fn lemma_count_take_mono(t: Seq<char>, j: int, k: int)
    requires
        0 <= j <= k <= t.len(),
    ensures
        count_newlines(t.take(j)) <= count_newlines(t.take(k)),
    decreases k - j,
{
    if j < k {
        lemma_count_take_mono(t, j, k - 1);
        lemma_count_take_succ(t, k - 1);
    }
}

/// Where the `n`-th line break sits at position `j - 1`, line `n` starts at `j`.
pub proof fn lemma_line_start_found(t: Seq<char>, n: nat, j: int)
    requires
        n >= 1,
        1 <= j <= t.len(),
        count_newlines(t.take(j)) == n,
        count_newlines(t.take(j - 1)) < n,
    ensures
        line_start_of(t, n) == j,
    decreases t.len(),
{
    if t.len() == j {
        assert(t.drop_last() =~= t.take(j - 1));
    } else {
        let d = t.drop_last();
        assert(d.take(j) =~= t.take(j));
        assert(d.take(j - 1) =~= t.take(j - 1));
        lemma_count_take_mono(d, j, d.len() as int);
        lemma_take_full_chars(d);
        lemma_line_start_found(d, n, j);
    }
}

/// With fewer than `n` line breaks, line `n` starts at the end.
pub proof fn lemma_line_start_missing(t: Seq<char>, n: nat)
    requires
        n >= 1,
        count_newlines(t) < n,
    ensures
        line_start_of(t, n) == t.len(),
{
}

/// Line `n` starts within the sequence.
pub proof fn lemma_line_start_bound(t: Seq<char>, n: nat)
    ensures
        line_start_of(t, n) <= t.len(),
    decreases t.len(),
{
    if n != 0 && t.len() != 0 && count_newlines(t.drop_last()) >= n {
        lemma_line_start_bound(t.drop_last(), n);
    }
}

/// The end of a line lies between its start and the end of the sequence.
pub proof fn lemma_line_finish_bound(t: Seq<char>, k: nat)
    requires
        k <= t.len(),
    ensures
        k <= line_finish(t, k) <= t.len(),
    decreases t.len() - k,
{
    if k < t.len() && t[k as int] != '\n' {
        lemma_line_finish_bound(t, k + 1);
    }
}

/// The start of a line lies at or before the position.
pub proof fn lemma_line_begin_bound(t: Seq<char>, k: nat)
    ensures
        line_begin(t, k) <= k,
    decreases k,
{
    if k != 0 && t[k - 1] != '\n' {
        lemma_line_begin_bound(t, (k - 1) as nat);
    }
}

/// A position where a line starts: the beginning, or just after a line break.
pub open spec fn is_line_start(t: Seq<char>, s: nat) -> bool {
    s <= t.len() && (s == 0 || t[s - 1] == '\n')
}

/// No line break in `t[i..j)`.
pub open spec fn no_break(t: Seq<char>, i: int, j: int) -> bool {
    forall|x: int| i <= x < j ==> #[trigger] t[x] != '\n'
}

/// `line_begin` gives a line start.
pub proof fn lemma_line_begin_is_start(t: Seq<char>, k: nat)
    requires
        k <= t.len(),
    ensures
        is_line_start(t, line_begin(t, k)),
        no_break(t, line_begin(t, k) as int, k as int),
        line_begin(t, k) <= k,
    decreases k,
{
    if k != 0 && t[k - 1] != '\n' {
        lemma_line_begin_is_start(t, (k - 1) as nat);
    }
}

/// Equal counts at `i` and `j` mean no line break in between.
pub proof fn lemma_equal_counts_no_break(t: Seq<char>, i: int, j: int)
    requires
        0 <= i <= j <= t.len(),
        count_newlines(t.take(i)) == count_newlines(t.take(j)),
    ensures
        no_break(t, i, j),
{
    assert forall|x: int| i <= x < j implies #[trigger] t[x] != '\n' by {
        lemma_count_take_mono(t, i, x);
        lemma_count_take_succ(t, x);
        lemma_count_take_mono(t, x + 1, j);
    }
}

/// No line break in between means equal counts.
pub proof fn lemma_no_break_equal_counts(t: Seq<char>, i: int, j: int)
    requires
        0 <= i <= j <= t.len(),
        no_break(t, i, j),
    ensures
        count_newlines(t.take(i)) == count_newlines(t.take(j)),
    decreases j - i,
{
    if i < j {
        lemma_no_break_equal_counts(t, i, j - 1);
        lemma_count_take_succ(t, j - 1);
    }
}

/// The end of a line is its first line break.
pub proof fn lemma_line_finish_first_break(t: Seq<char>, s: nat)
    requires
        s <= t.len(),
    ensures
        no_break(t, s as int, line_finish(t, s) as int),
        line_finish(t, s) < t.len() ==> t[line_finish(t, s) as int] == '\n',
    decreases t.len() - s,
{
    lemma_line_finish_bound(t, s);
    if s < t.len() && t[s as int] != '\n' {
        lemma_line_finish_first_break(t, s + 1);
    }
}

/// A line break at `j`, with none in `[s, j)`, ends the line at `j`; with none in `[s, j)` at
/// all, the line ends at or after `j`.
pub proof fn lemma_line_finish_at(t: Seq<char>, s: nat, j: nat)
    requires
        s <= j <= t.len(),
        no_break(t, s as int, j as int),
    ensures
        j <= line_finish(t, s),
        j < t.len() && t[j as int] == '\n' ==> line_finish(t, s) == j,
    decreases j - s,
{
    lemma_line_finish_bound(t, s);
    if s < j {
        assert(t[s as int] != '\n');
        lemma_line_finish_at(t, s + 1, j);
    }
}

/// Within a line, positions share its start and its count of line breaks.
pub proof fn lemma_within_line(t: Seq<char>, s: nat, p: nat)
    requires
        is_line_start(t, s),
        s <= p <= line_finish(t, s),
    ensures
        line_begin(t, p) == s,
        count_newlines(t.take(p as int)) == count_newlines(t.take(s as int)),
    decreases p - s,
{
    lemma_line_finish_first_break(t, s);
    lemma_line_finish_bound(t, s);
    if p > s {
        assert(t[p - 1] != '\n');
        lemma_within_line(t, s, (p - 1) as nat);
        lemma_count_take_succ(t, p - 1);
    }
}

/// Line `n`, when there are at least `n` line breaks, starts just after the `n`-th.
pub proof fn lemma_line_start_of_props(t: Seq<char>, n: nat)
    requires
        n <= count_newlines(t),
    ensures
        is_line_start(t, line_start_of(t, n)),
        count_newlines(t.take(line_start_of(t, n) as int)) == n,
    decreases t.len(),
{
    if n == 0 {
        assert(t.take(0) =~= Seq::<char>::empty());
    } else if t.len() == 0 || count_newlines(t.drop_last()) < n {
        lemma_take_full_chars(t);
    } else {
        let d = t.drop_last();
        lemma_line_start_of_props(d, n);
        let r = line_start_of(d, n);
        lemma_line_start_bound(d, n);
        assert(d.take(r as int) =~= t.take(r as int));
    }
}

/// The line holding `k` is line number "breaks before `k`", and starts where `line_begin` says.
pub proof fn lemma_line_of_position(t: Seq<char>, k: nat)
    requires
        k <= t.len(),
    ensures
        line_start_of(t, count_newlines(t.take(k as int))) == line_begin(t, k),
        count_newlines(t.take(line_begin(t, k) as int)) == count_newlines(t.take(k as int)),
        k <= line_finish(t, line_begin(t, k)),
{
    lemma_line_begin_is_start(t, k);
    let b = line_begin(t, k);
    lemma_line_begin_bound(t, k);
    lemma_no_break_equal_counts(t, b as int, k as int);
    lemma_line_finish_at(t, b, k);
    let n = count_newlines(t.take(k as int));
    if b >= 1 {
        lemma_count_take_succ(t, b - 1);
        lemma_line_start_found(t, n, b as int);
    } else {
        assert(t.take(0) =~= Seq::<char>::empty());
    }
}

/// Line `n` starts after `n` line breaks.
pub fn line_start(s: &Vec<char>, line_idx: usize) -> (r: usize)
    ensures
        r == line_start_of(s@, line_idx as nat),
        r <= s.len(),
{
    proof {
        lemma_line_start_bound(s@, line_idx as nat);
    }
    if line_idx == 0 {
        return 0;
    }
    let mut current_line: usize = 0;
    let mut i: usize = 0;
    while i < s.len()
        invariant
            i <= s.len(),
            line_idx > 0,
            current_line == count_newlines(s@.take(i as int)),
            current_line < line_idx,
            line_start_of(s@, line_idx as nat) <= s.len(),
        decreases s.len() - i,
    {
        proof {
            lemma_count_take_succ(s@, i as int);
        }
        if s[i] == '\n' {
            current_line += 1;
            if current_line == line_idx {
                proof {
                    lemma_line_start_found(s@, line_idx as nat, i + 1);
                }
                return i + 1;
            }
        }
        i += 1;
    }
    proof {
        lemma_take_full_chars(s@);
        lemma_line_start_missing(s@, line_idx as nat);
    }
    s.len()
}

/// The end of the line that starts at `start`: the next line break, or the end.
pub fn line_end(s: &Vec<char>, start: usize) -> (r: usize)
    requires
        start <= s.len(),
    ensures
        r == line_finish(s@, start as nat),
        start <= r <= s.len(),
{
    proof {
        lemma_line_finish_bound(s@, start as nat);
    }
    let mut i: usize = start;
    while i < s.len()
        invariant
            start <= i <= s.len(),
            line_finish(s@, start as nat) == line_finish(s@, i as nat),
        decreases s.len() - i,
    {
        if s[i] == '\n' {
            return i;
        }
        i += 1;
    }
    s.len()
}

/// The first position of the line holding `idx`.
fn line_begin_at(s: &Vec<char>, idx: usize) -> (r: usize)
    requires
        idx <= s.len(),
    ensures
        r == line_begin(s@, idx as nat),
        r <= idx,
{
    proof {
        lemma_line_begin_bound(s@, idx as nat);
    }
    let mut b: usize = idx;
    while b > 0 && s[b - 1] != '\n'
        invariant
            b <= idx <= s.len(),
            line_begin(s@, idx as nat) == line_begin(s@, b as nat),
        decreases b,
    {
        b -= 1;
    }
    b
}

/// The bounds of the line holding `idx`: its first position and the position of its end.
pub fn line_bounds_at(s: &Vec<char>, idx: usize) -> (r: (usize, usize))
    requires
        idx <= s.len(),
    ensures
        r.0 == line_begin(s@, idx as nat),
        r.1 == line_finish(s@, idx as nat),
        r.0 <= idx <= r.1 <= s.len(),
{
    let start = line_begin_at(s, idx);
    let end = line_end(s, idx);
    (start, end)
}

/// The line number of position `idx` and its column, both counted in characters.
pub fn line_col_at(s: &Vec<char>, idx: usize) -> (r: (usize, usize))
    requires
        idx <= s.len(),
    ensures
        r.0 == count_newlines(s@.take(idx as int)),
        r.1 == idx - line_begin(s@, idx as nat),
{
    let mut line: usize = 0;
    let mut i: usize = 0;
    while i < idx
        invariant
            i <= idx <= s.len(),
            line == count_newlines(s@.take(i as int)),
            line <= i,
        decreases idx - i,
    {
        proof {
            lemma_count_take_succ(s@, i as int);
        }
        if s[i] == '\n' {
            line += 1;
        }
        i += 1;
    }
    let start = line_begin_at(s, idx);
    (line, idx - start)
}

/// The position `col` characters into the line `[line_start, line_end)`, or its end if the line is shorter.
pub fn pos_at_visual_col(s: &Vec<char>, line_start: usize, line_end: usize, col: usize) -> (r: usize)
    requires
        line_start <= line_end <= s.len(),
    ensures
        r == nat_min((line_start + col) as nat, line_end as nat),
{
    let mut pos: usize = line_start;
    let mut current_col: usize = 0;
    while pos < line_end && current_col < col
        invariant
            line_start <= pos <= line_end,
            current_col == pos - line_start,
            current_col <= col,
        decreases line_end - pos,
    {
        pos += 1;
        current_col += 1;
    }
    pos
}

} // verus!
