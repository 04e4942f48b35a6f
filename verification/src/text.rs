//! Source-text model: lines, editor coordinates, byte offsets (points), and
//! identifier expansion around a column.
//!
//! A source buffer is a byte sequence; lines are 1-based and delimited by
//! newline bytes, columns are 0-based byte offsets within a line. A point is
//! a 0-based byte offset into the whole buffer.

use vstd::prelude::*;

verus! {

/// The newline byte that delimits lines.
pub open spec fn nl_byte() -> u8 {
    10u8
}

/// Bytes that may form an identifier: ASCII letters, digits and underscore.
pub open spec fn is_ident_byte(b: u8) -> bool {
    (97u8 <= b && b <= 122u8) || (65u8 <= b && b <= 90u8) || (48u8 <= b && b <= 57u8) || b == 95u8
}

/// Executable test for `is_ident_byte`.
pub fn ident_byte(b: u8) -> (r: bool)
    ensures
        r == is_ident_byte(b),
{
    (97u8 <= b && b <= 122u8) || (65u8 <= b && b <= 90u8) || (48u8 <= b && b <= 57u8) || b == 95u8
}

/// Index of the first newline at or after `i`, or `src.len()` if none.
pub open spec fn next_newline(src: Seq<u8>, i: int) -> int
    decreases src.len() - i,
{
    if i < 0 || i >= src.len() {
        src.len() as int
    } else if src[i] == nl_byte() {
        i
    } else {
        next_newline(src, i + 1)
    }
}

pub proof fn lemma_next_newline(src: Seq<u8>, i: int)
    requires
        0 <= i <= src.len(),
    ensures
        i <= next_newline(src, i) <= src.len(),
        forall|j: int| i <= j < next_newline(src, i) ==> src[j] != nl_byte(),
        next_newline(src, i) < src.len() ==> src[next_newline(src, i)] == nl_byte(),
    decreases src.len() - i,
{
    if i < src.len() && src[i] != nl_byte() {
        lemma_next_newline(src, i + 1);
    }
}

/// `next_newline` is determined by the first newline position: if no newline
/// occurs in `[i, k)` and `k` is the end or a newline, the scan stops at `k`.
pub proof fn lemma_next_newline_is(src: Seq<u8>, i: int, k: int)
    requires
        0 <= i <= k <= src.len(),
        forall|j: int| i <= j < k ==> src[j] != nl_byte(),
        k < src.len() ==> src[k] == nl_byte(),
    ensures
        next_newline(src, i) == k,
    decreases k - i,
{
    if i < k {
        lemma_next_newline_is(src, i + 1, k);
    }
}

/// Byte offset at which 1-based line `line` starts. If the buffer has fewer
/// lines, the result exceeds `src.len()`.
pub open spec fn line_start(src: Seq<u8>, line: nat) -> int
    decreases line,
{
    if line <= 1 {
        0
    } else {
        let p = line_start(src, (line - 1) as nat);
        if p > src.len() {
            p
        } else {
            next_newline(src, p) + 1
        }
    }
}

/// Line `line` is present in the buffer.
pub open spec fn line_exists(src: Seq<u8>, line: nat) -> bool {
    line >= 1 && line_start(src, line) <= src.len()
}

/// End (exclusive) of line `line`: the next newline or the end of the buffer.
pub open spec fn line_end(src: Seq<u8>, line: nat) -> int {
    next_newline(src, line_start(src, line))
}

/// The bytes of line `line`, without its newline.
pub open spec fn line_text(src: Seq<u8>, line: nat) -> Seq<u8> {
    src.subrange(line_start(src, line), line_end(src, line))
}

pub proof fn lemma_line_bounds(src: Seq<u8>, line: nat)
    requires
        line_exists(src, line),
    ensures
        0 <= line_start(src, line) <= line_end(src, line) <= src.len(),
        forall|j: int| line_start(src, line) <= j < line_end(src, line) ==> src[j] != nl_byte(),
{
    lemma_line_start_nonneg(src, line);
    lemma_next_newline(src, line_start(src, line));
}

pub proof fn lemma_line_start_nonneg(src: Seq<u8>, line: nat)
    ensures
        line_start(src, line) >= 0,
    decreases line,
{
    if line > 1 {
        lemma_line_start_nonneg(src, (line - 1) as nat);
        if line_start(src, (line - 1) as nat) <= src.len() {
            lemma_next_newline(src, line_start(src, (line - 1) as nat));
        }
    }
}

/// Line starts are monotone in the line number.
pub proof fn lemma_line_start_monotone(src: Seq<u8>, l1: nat, l2: nat)
    requires
        l1 <= l2,
    ensures
        line_start(src, l1) <= line_start(src, l2),
    decreases l2 - l1,
{
    if l1 < l2 {
        lemma_line_start_monotone(src, l1, (l2 - 1) as nat);
        let p = line_start(src, (l2 - 1) as nat);
        lemma_line_start_nonneg(src, (l2 - 1) as nat);
        if p <= src.len() {
            lemma_next_newline(src, p);
        }
    }
}

/// Number of newline bytes in `s`.
pub open spec fn count_newlines(s: Seq<u8>) -> nat
    decreases s.len(),
{
    if s.len() == 0 {
        0
    } else {
        count_newlines(s.drop_last()) + if s.last() == nl_byte() {
            1nat
        } else {
            0nat
        }
    }
}

pub proof fn lemma_count_newlines_concat(a: Seq<u8>, b: Seq<u8>)
    ensures
        count_newlines(a + b) == count_newlines(a) + count_newlines(b),
    decreases b.len(),
{
    if b.len() == 0 {
        assert(a + b =~= a);
    } else {
        lemma_count_newlines_concat(a, b.drop_last());
        assert((a + b).drop_last() =~= a + b.drop_last());
    }
}

pub proof fn lemma_count_newlines_none(s: Seq<u8>)
    requires
        forall|j: int| 0 <= j < s.len() ==> s[j] != nl_byte(),
    ensures
        count_newlines(s) == 0,
    decreases s.len(),
{
    if s.len() > 0 {
        lemma_count_newlines_none(s.drop_last());
    }
}

/// A (line, column) pair addresses a position inside the buffer: the line is
/// present and the column does not pass the end of that line.
pub open spec fn coords_valid(src: Seq<u8>, line: nat, col: nat) -> bool {
    line_exists(src, line) && col <= line_end(src, line) - line_start(src, line)
}

/// The point (byte offset) addressed by a (line, column) pair.
pub open spec fn point_of_coords(src: Seq<u8>, line: nat, col: nat) -> int {
    line_start(src, line) + col
}

/// The 1-based line containing `point`: one more than the number of newlines
/// before it, so a point on a newline byte belongs to the line it ends.
pub open spec fn line_of_point(src: Seq<u8>, point: int) -> nat {
    count_newlines(src.take(point)) + 1
}

/// The 0-based column of `point` within its line.
pub open spec fn col_of_point(src: Seq<u8>, point: int) -> int {
    point - line_start(src, line_of_point(src, point))
}

/// The start of an existing line is preceded by exactly `line - 1` newlines.
pub proof fn lemma_newlines_before_line_start(src: Seq<u8>, line: nat)
    requires
        line_exists(src, line),
    ensures
        count_newlines(src.take(line_start(src, line))) == line - 1,
    decreases line,
{
    if line <= 1 {
        assert(src.take(0) =~= Seq::<u8>::empty());
    } else {
        let prev = (line - 1) as nat;
        lemma_line_start_monotone(src, prev, line);
        lemma_line_start_nonneg(src, prev);
        let p = line_start(src, prev);
        assert(line_exists(src, prev));
        lemma_newlines_before_line_start(src, prev);
        let e = next_newline(src, p);
        lemma_next_newline(src, p);
        // line_start(src, line) == e + 1 <= src.len(), so e < src.len() and
        // src[e] is a newline; the bytes in [p, e) are not newlines.
        assert(src.take(e + 1) =~= src.take(p) + src.subrange(p, e) + src.subrange(e, e + 1));
        lemma_count_newlines_concat(src.take(p) + src.subrange(p, e), src.subrange(e, e + 1));
        lemma_count_newlines_concat(src.take(p), src.subrange(p, e));
        lemma_count_newlines_none(src.subrange(p, e));
        let last = src.subrange(e, e + 1);
        assert(e + 1 == line_start(src, line));
        assert(e < src.len());
        assert(src[e] == nl_byte());
        assert(last.len() == 1 && last.last() == src[e]);
        assert(last.drop_last() =~= Seq::<u8>::empty());
        assert(count_newlines(last) == count_newlines(Seq::<u8>::empty()) + 1);
        assert(count_newlines(last) == 1);
    }
}

/// Converting a valid (line, column) pair to a point and back returns the
/// same pair.
pub proof fn lemma_coords_roundtrip(src: Seq<u8>, line: nat, col: nat)
    requires
        coords_valid(src, line, col),
    ensures
        point_of_coords(src, line, col) <= src.len(),
        line_of_point(src, point_of_coords(src, line, col)) == line,
        col_of_point(src, point_of_coords(src, line, col)) == col,
{
    let p = line_start(src, line);
    let e = line_end(src, line);
    let point = p + col;
    lemma_line_bounds(src, line);
    lemma_newlines_before_line_start(src, line);
    assert(src.take(point) =~= src.take(p) + src.subrange(p, point));
    lemma_count_newlines_concat(src.take(p), src.subrange(p, point));
    lemma_count_newlines_none(src.subrange(p, point));
    assert(count_newlines(src.take(point)) == line - 1);
    assert(line_of_point(src, point) == line);
}

/// Scan for the next newline at or after `i`.
pub fn next_nl_from(src: &Vec<u8>, i: usize) -> (r: usize)
    requires
        i <= src@.len(),
    ensures
        r == next_newline(src@, i as int),
        i <= r <= src@.len(),
{
    proof {
        lemma_next_newline(src@, i as int);
    }
    let mut j = i;
    while j < src.len()
        invariant
            i <= j <= src@.len(),
            next_newline(src@, i as int) == next_newline(src@, j as int),
        decreases src@.len() - j,
    {
        if src[j] == 10u8 {
            return j;
        }
        j = j + 1;
    }
    j
}

/// Find the start offset of 1-based line `linenum`, or `None` if the buffer
/// has fewer lines.
pub fn find_line_start(src: &Vec<u8>, linenum: usize) -> (r: Option<usize>)
    ensures
        match r {
            Some(p) => line_exists(src@, linenum as nat) && p == line_start(
                src@,
                linenum as nat,
            ),
            None => !line_exists(src@, linenum as nat),
        },
{
    if linenum == 0 {
        return None;
    }
    let mut l: usize = 1;
    let mut pos: usize = 0;
    while l < linenum
        invariant
            1 <= l <= linenum,
            pos == line_start(src@, l as nat),
            pos <= src@.len(),
        decreases linenum - l,
    {
        let e = next_nl_from(src, pos);
        if e == src.len() {
            proof {
                assert(line_start(src@, (l + 1) as nat) == src@.len() + 1);
                lemma_line_start_monotone(src@, (l + 1) as nat, linenum as nat);
            }
            return None;
        }
        pos = e + 1;
        l = l + 1;
    }
    Some(pos)
}

/// The text of 1-based line `linenum`, without its newline; `None` if the
/// buffer has fewer lines.
pub fn get_line(src: &Vec<u8>, linenum: usize) -> (r: Option<Vec<u8>>)
    ensures
        match r {
            Some(l) => line_exists(src@, linenum as nat) && l@ == line_text(src@, linenum as nat),
            None => !line_exists(src@, linenum as nat),
        },
{
    match find_line_start(src, linenum) {
        None => None,
        Some(start) => {
            let end = next_nl_from(src, start);
            let mut out: Vec<u8> = Vec::new();
            let mut i = start;
            while i < end
                invariant
                    start <= i <= end,
                    end <= src@.len(),
                    out@ == src@.subrange(start as int, i as int),
                decreases end - i,
            {
                out.push(src[i]);
                proof {
                    assert(out@ =~= src@.subrange(start as int, i + 1));
                }
                i = i + 1;
            }
            proof {
                assert(out@ =~= line_text(src@, linenum as nat));
            }
            Some(out)
        },
    }
}

/// Convert a 1-based line and 0-based column to a byte offset; `None` when
/// the pair does not address a position in the buffer.
pub fn coords_to_point(src: &Vec<u8>, linenum: usize, charnum: usize) -> (r: Option<usize>)
    ensures
        match r {
            Some(p) => coords_valid(src@, linenum as nat, charnum as nat) && p == point_of_coords(
                src@,
                linenum as nat,
                charnum as nat,
            ),
            None => !coords_valid(src@, linenum as nat, charnum as nat),
        },
{
    match find_line_start(src, linenum) {
        None => None,
        Some(start) => {
            let end = next_nl_from(src, start);
            if charnum <= end - start {
                Some(start + charnum)
            } else {
                None
            }
        },
    }
}

/// Convert a byte offset back to a 1-based line and 0-based column.
pub fn point_to_coords(src: &Vec<u8>, point: usize) -> (r: (usize, usize))
    requires
        point <= src@.len(),
        src@.len() < usize::MAX,
    ensures
        r.0 == line_of_point(src@, point as int),
        r.1 == col_of_point(src@, point as int),
{
    let mut i: usize = 0;
    let mut line: usize = 1;
    let mut start: usize = 0;
    proof {
        assert(src@.take(0) =~= Seq::<u8>::empty());
    }
    while i < point
        invariant
            0 <= i <= point <= src@.len() < usize::MAX,
            line == count_newlines(src@.take(i as int)) + 1,
            line <= i + 1,
            start == line_start(src@, line as nat),
            start <= i,
            forall|j: int| start <= j < i ==> src@[j] != nl_byte(),
        decreases point - i,
    {
        proof {
            assert(src@.take(i + 1).drop_last() =~= src@.take(i as int));
        }
        if src[i] == 10u8 {
            proof {
                lemma_next_newline_is(src@, start as int, i as int);
            }
            line = line + 1;
            start = i + 1;
        }
        i = i + 1;
    }
    proof {
        lemma_newlines_before_line_start(src@, line as nat);
    }
    (line, point - start)
}

/// `s` holds no newline byte.
pub open spec fn no_nl(s: Seq<u8>) -> bool {
    forall|j: int| 0 <= j < s.len() ==> s[j] != nl_byte()
}

pub proof fn lemma_no_nl_concat(a: Seq<u8>, b: Seq<u8>)
    requires
        no_nl(a),
        no_nl(b),
    ensures
        no_nl(a + b),
{
    assert forall|j: int| 0 <= j < (a + b).len() implies (a + b)[j] != nl_byte() by {
        if j < a.len() {
            assert((a + b)[j] == a[j]);
        } else {
            assert((a + b)[j] == b[j - a.len()]);
        }
    }
}

/// A newline-free byte string followed by one newline is a single line.
pub proof fn lemma_single_line_of(x: Seq<u8>)
    requires
        no_nl(x),
    ensures
        is_single_line(x + seq![nl_byte()]),
{
    let s = x + seq![nl_byte()];
    assert(s.last() == nl_byte());
    assert forall|j: int| 0 <= j < s.len() - 1 implies s[j] != nl_byte() by {
        assert(s[j] == x[j]);
    }
}

/// One newline-terminated line holding no other newline.
pub open spec fn is_single_line(s: Seq<u8>) -> bool {
    s.len() > 0 && s.last() == nl_byte() && forall|j: int| 0 <= j < s.len() - 1 ==> s[j] != nl_byte()
}

/// Split a buffer into its lines, each kept with its terminating newline;
/// a final unterminated line is kept as it stands.
pub open spec fn split_lines(s: Seq<u8>) -> Seq<Seq<u8>>
    decreases s.len(),
    via split_lines_decreases
{
    if s.len() == 0 {
        Seq::empty()
    } else {
        let e = next_newline(s, 0);
        if e >= s.len() {
            seq![s]
        } else {
            seq![s.take(e + 1)] + split_lines(s.skip(e + 1))
        }
    }
}

#[via_fn]
proof fn split_lines_decreases(s: Seq<u8>) {
    if s.len() > 0 {
        lemma_next_newline(s, 0);
    }
}

/// A single line splits into itself alone.
pub proof fn lemma_split_single_line(a: Seq<u8>)
    requires
        is_single_line(a),
    ensures
        split_lines(a) =~= seq![a],
{
    lemma_next_newline_is(a, 0, a.len() - 1);
    assert(a.take(a.len() as int - 1 + 1) =~= a);
    assert(a.skip(a.len() as int) =~= Seq::<u8>::empty());
    assert(split_lines(Seq::<u8>::empty()) =~= Seq::<Seq<u8>>::empty());
}

/// Splitting a buffer that starts with a whole line yields that line and
/// then the split of the rest.
pub proof fn lemma_split_lines_step(a: Seq<u8>, b: Seq<u8>)
    requires
        is_single_line(a),
    ensures
        split_lines(a + b) =~= seq![a] + split_lines(b),
{
    let s = a + b;
    assert(forall|j: int| 0 <= j < a.len() - 1 ==> s[j] != nl_byte());
    assert(s[a.len() - 1] == nl_byte());
    lemma_next_newline_is(s, 0, a.len() - 1);
    assert(s.take(a.len() as int) =~= a);
    assert(s.skip(a.len() as int) =~= b);
}

/// Splitting the concatenation of single lines followed by a tail yields
/// those lines and then the split of the tail.
pub proof fn lemma_split_lines_concat(recs: Seq<Seq<u8>>, tail: Seq<u8>)
    requires
        forall|i: int| 0 <= i < recs.len() ==> is_single_line(#[trigger] recs[i]),
    ensures
        split_lines(recs.flatten() + tail) =~= recs + split_lines(tail),
    decreases recs.len(),
{
    if recs.len() == 0 {
        assert(recs.flatten() + tail =~= tail);
    } else {
        lemma_split_lines_concat(recs.drop_first(), tail);
        assert(recs.flatten() == recs.first() + recs.drop_first().flatten());
        assert(recs.flatten() + tail =~= recs.first() + (recs.drop_first().flatten() + tail));
        lemma_split_lines_step(recs.first(), recs.drop_first().flatten() + tail);
        assert(seq![recs.first()] + (recs.drop_first() + split_lines(tail)) =~= recs + split_lines(
            tail,
        ));
    }
}

/// Copy the bytes of `s` in `[i, j)`.
pub fn copy_range(s: &Vec<u8>, i: usize, j: usize) -> (r: Vec<u8>)
    requires
        i <= j <= s@.len(),
    ensures
        r@ == s@.subrange(i as int, j as int),
{
    let mut out: Vec<u8> = Vec::new();
    let mut k = i;
    proof {
        assert(out@ =~= s@.subrange(i as int, i as int));
    }
    while k < j
        invariant
            i <= k <= j <= s@.len(),
            out@ == s@.subrange(i as int, k as int),
        decreases j - k,
    {
        out.push(s[k]);
        proof {
            assert(out@ =~= s@.subrange(i as int, k + 1));
        }
        k = k + 1;
    }
    out
}

/// Start of the identifier run ending at `pos`: the least column from which
/// every byte up to `pos` is an identifier byte.
pub open spec fn ident_start(line: Seq<u8>, pos: int) -> int
    decreases pos,
{
    if pos <= 0 {
        0
    } else if is_ident_byte(line[pos - 1]) {
        ident_start(line, pos - 1)
    } else {
        pos
    }
}

/// End of the identifier run starting at `pos`: the greatest column up to
/// which every byte from `pos` on is an identifier byte.
pub open spec fn ident_end(line: Seq<u8>, pos: int) -> int
    decreases line.len() - pos,
{
    if pos < 0 || pos >= line.len() {
        line.len() as int
    } else if is_ident_byte(line[pos]) {
        ident_end(line, pos + 1)
    } else {
        pos
    }
}

/// Start of the identifier prefix at column `pos`: the cursor anchors the
/// expansion, so a cursor not on an identifier byte yields the empty range
/// `[pos, pos)`.
pub open spec fn prefix_start(line: Seq<u8>, pos: int) -> int {
    if 0 <= pos < line.len() && is_ident_byte(line[pos]) {
        ident_start(line, pos)
    } else {
        pos
    }
}

/// End of the identifier prefix at column `pos`; see `prefix_start`.
pub open spec fn prefix_end(line: Seq<u8>, pos: int) -> int {
    if 0 <= pos < line.len() && is_ident_byte(line[pos]) {
        ident_end(line, pos)
    } else {
        pos
    }
}

/// The expanded prefix range `[start, end)` around a column holds identifier
/// bytes only and is maximal: the byte at `end`, if any, is not an
/// identifier byte, and when the range is non-empty, neither is the byte
/// before `start`. (An empty range sits directly at the cursor, so the byte
/// before it may still belong to an identifier.)
pub proof fn lemma_ident_range(line: Seq<u8>, pos: int)
    requires
        0 <= pos <= line.len(),
    ensures
        0 <= prefix_start(line, pos) <= pos <= prefix_end(line, pos) <= line.len(),
        forall|i: int|
            prefix_start(line, pos) <= i < prefix_end(line, pos) ==> is_ident_byte(line[i]),
        prefix_start(line, pos) < prefix_end(line, pos) <==> (pos < line.len() && is_ident_byte(
            line[pos],
        )),
        prefix_end(line, pos) < line.len() ==> !is_ident_byte(line[prefix_end(line, pos)]),
        prefix_start(line, pos) < prefix_end(line, pos) && prefix_start(line, pos) > 0
            ==> !is_ident_byte(line[prefix_start(line, pos) - 1]),
{
    lemma_ident_start(line, pos);
    lemma_ident_end(line, pos);
    if pos < line.len() && is_ident_byte(line[pos]) {
        assert(ident_end(line, pos) >= pos + 1);
    }
}

proof fn lemma_ident_start(line: Seq<u8>, pos: int)
    requires
        0 <= pos <= line.len(),
    ensures
        0 <= ident_start(line, pos) <= pos,
        forall|i: int| ident_start(line, pos) <= i < pos ==> is_ident_byte(line[i]),
        ident_start(line, pos) > 0 ==> !is_ident_byte(line[ident_start(line, pos) - 1]),
    decreases pos,
{
    if pos > 0 && is_ident_byte(line[pos - 1]) {
        lemma_ident_start(line, pos - 1);
    }
}

proof fn lemma_ident_end(line: Seq<u8>, pos: int)
    requires
        0 <= pos <= line.len(),
    ensures
        pos <= ident_end(line, pos) <= line.len(),
        forall|i: int| pos <= i < ident_end(line, pos) ==> is_ident_byte(line[i]),
        ident_end(line, pos) < line.len() ==> !is_ident_byte(line[ident_end(line, pos)]),
    decreases line.len() - pos,
{
    if pos < line.len() && is_ident_byte(line[pos]) {
        lemma_ident_end(line, pos + 1);
    }
}

/// At the end of a line there is no byte under the cursor, so the expanded
/// prefix is empty: start and end both equal the line length.
pub proof fn lemma_ident_range_at_line_end(line: Seq<u8>)
    ensures
        prefix_start(line, line.len() as int) == line.len(),
        prefix_end(line, line.len() as int) == line.len(),
{
}

/// Expand left and right over identifier bytes from the byte under the
/// cursor; a cursor not on an identifier byte yields the empty range at the
/// cursor column.
pub fn expand_ident(line: &Vec<u8>, pos: usize) -> (r: (usize, usize))
    requires
        pos <= line@.len(),
    ensures
        r.0 == prefix_start(line@, pos as int),
        r.1 == prefix_end(line@, pos as int),
        r.0 <= pos <= r.1 <= line@.len(),
{
    proof {
        lemma_ident_range(line@, pos as int);
        lemma_ident_start(line@, pos as int);
        lemma_ident_end(line@, pos as int);
    }
    if pos >= line.len() || !ident_byte(line[pos]) {
        return (pos, pos);
    }
    let mut start = pos;
    while start > 0 && ident_byte(line[start - 1])
        invariant
            0 <= start <= pos <= line@.len(),
            ident_start(line@, pos as int) == ident_start(line@, start as int),
        decreases start,
    {
        start = start - 1;
    }
    let mut end = pos;
    while end < line.len() && ident_byte(line[end])
        invariant
            pos <= end <= line@.len(),
            ident_end(line@, pos as int) == ident_end(line@, end as int),
        decreases line@.len() - end,
    {
        end = end + 1;
    }
    (start, end)
}

} // verus!
