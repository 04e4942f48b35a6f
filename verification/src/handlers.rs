//! Output assembly for the four query handlers.
//!
//! Each handler's output is a byte string assembled from the records of
//! `record`: the positional completion handlers emit a prefix record, then
//! the match records in the order given, then the terminator; definition
//! lookup emits at most one match record and the terminator; the prefix
//! handler emits the prefix record alone; name-mode completion emits the
//! match records alone. The match records themselves are rendered by
//! `record::render_match` and `record::render_match_with_snippet` from what
//! the resolution engine returned.

use vstd::prelude::*;

use crate::numfmt::dec_rep;
use crate::numfmt::lemma_dec_rep_digits;
use crate::ascii::txt_match_tag;
use crate::ascii::txt_prefix_tag;
use crate::record::append_bytes;
use crate::record::comma;
use crate::record::kind_text;
use crate::record::match_record;
use crate::record::semi;
use crate::record::snippet_record;
use crate::record::Match;
use crate::record::MatchKind;
use crate::record::end_record;
use crate::record::prefix_record;
use crate::record::render_end;
use crate::record::render_prefix;
use crate::text::coords_valid;
use crate::text::is_single_line;
use crate::text::lemma_no_nl_concat;
use crate::text::lemma_single_line_of;
use crate::text::no_nl;
use crate::text::split_lines;
use crate::text::prefix_end;
use crate::text::prefix_start;
use crate::text::copy_range;
use crate::text::get_line;
use crate::text::lemma_ident_range;
use crate::text::line_text;

verus! {

/// The prefix record for a (line, column) position in a source buffer: the
/// expanded identifier range around the column of that line, and the text
/// inside the range.
pub open spec fn prefix_out(src: Seq<u8>, line: nat, col: nat) -> Seq<u8> {
    let lt = line_text(src, line);
    let s = prefix_start(lt, col as int);
    let e = prefix_end(lt, col as int);
    prefix_record(s as nat, e as nat, lt.subrange(s, e))
}

/// The output of the `prefix` handler: exactly one prefix record. Nothing is
/// produced when the (line, column) pair does not address a position in the
/// buffer.
pub fn prefix_output(src: &Vec<u8>, linenum: usize, charnum: usize) -> (r: Option<Vec<u8>>)
    ensures
        match r {
            Some(v) => coords_valid(src@, linenum as nat, charnum as nat) && v@ == prefix_out(
                src@,
                linenum as nat,
                charnum as nat,
            ),
            None => !coords_valid(src@, linenum as nat, charnum as nat),
        },
{
    match get_line(src, linenum) {
        None => None,
        Some(line) => {
            proof {
                crate::text::lemma_line_bounds(src@, linenum as nat);
                assert(line@.len() == crate::text::line_end(src@, linenum as nat)
                    - crate::text::line_start(src@, linenum as nat));
            }
            if charnum > line.len() {
                return None;
            }
            let (start, end) = crate::text::expand_ident(&line, charnum);
            let text = copy_range(&line, start, end);
            Some(render_prefix(start, end, &text))
        },
    }
}

/// The output of positional `complete` and `complete-with-snippet`: the
/// prefix record, then the given match records in order, then the
/// terminator. Nothing is produced when the (line, column) pair does not
/// address a position in the buffer.
pub open spec fn complete_out(src: Seq<u8>, line: nat, col: nat, recs: Seq<Seq<u8>>) -> Seq<u8> {
    prefix_out(src, line, col) + recs.flatten() + end_record()
}

pub fn complete_output(src: &Vec<u8>, linenum: usize, charnum: usize, recs: &Vec<Vec<u8>>) -> (r:
    Option<Vec<u8>>)
    ensures
        match r {
            Some(v) => coords_valid(src@, linenum as nat, charnum as nat) && v@ == complete_out(
                src@,
                linenum as nat,
                charnum as nat,
                recs.deep_view(),
            ),
            None => !coords_valid(src@, linenum as nat, charnum as nat),
        },
{
    match prefix_output(src, linenum, charnum) {
        None => None,
        Some(mut out) => {
            let ghost rv = recs.deep_view();
            let mut i: usize = 0;
            proof {
                assert(rv.take(0).flatten() =~= Seq::<u8>::empty());
                assert(out@ =~= prefix_out(src@, linenum as nat, charnum as nat) + rv.take(
                    0,
                ).flatten());
            }
            while i < recs.len()
                invariant
                    0 <= i <= recs@.len(),
                    rv == recs.deep_view(),
                    rv.len() == recs@.len(),
                    out@ == prefix_out(src@, linenum as nat, charnum as nat) + rv.take(
                        i as int,
                    ).flatten(),
                decreases recs@.len() - i,
            {
                append_bytes(&mut out, &recs[i]);
                proof {
                    assert(recs[i as int]@ == rv[i as int]);
                    rv.take(i as int).lemma_flatten_push(rv[i as int]);
                    assert(rv.take(i as int).push(rv[i as int]) =~= rv.take(i + 1));
                    assert(out@ =~= prefix_out(src@, linenum as nat, charnum as nat) + rv.take(
                        i + 1,
                    ).flatten());
                }
                i = i + 1;
            }
            let endv = render_end();
            append_bytes(&mut out, &endv);
            proof {
                assert(rv.take(rv.len() as int) =~= rv);
                assert(out@ =~= complete_out(src@, linenum as nat, charnum as nat, rv));
            }
            Some(out)
        },
    }
}

/// The output of `find-definition`: the match record, if the engine found a
/// definition, then the terminator.
pub open spec fn find_definition_out(rec: Option<Seq<u8>>) -> Seq<u8> {
    match rec {
        Some(r) => r + end_record(),
        None => end_record(),
    }
}

pub fn find_definition_output(rec: &Option<Vec<u8>>) -> (r: Vec<u8>)
    ensures
        r@ == find_definition_out(
            match rec {
                Some(v) => Some(v@),
                None => None,
            },
        ),
{
    let mut out: Vec<u8> = Vec::new();
    match rec {
        Some(v) => {
            append_bytes(&mut out, v);
        },
        None => {
        },
    }
    let endv = render_end();
    append_bytes(&mut out, &endv);
    proof {
        assert(Seq::<u8>::empty() + end_record() =~= end_record());
    }
    out
}

/// The output of name-mode completion: the given match records in order and
/// nothing else — no prefix record and no terminator.
pub fn name_mode_output(recs: &Vec<Vec<u8>>) -> (r: Vec<u8>)
    ensures
        r@ == recs.deep_view().flatten(),
{
    let ghost rv = recs.deep_view();
    let mut out: Vec<u8> = Vec::new();
    let mut i: usize = 0;
    proof {
        assert(rv.take(0).flatten() =~= Seq::<u8>::empty());
        assert(out@ =~= rv.take(0).flatten());
    }
    while i < recs.len()
        invariant
            0 <= i <= recs@.len(),
            rv == recs.deep_view(),
            rv.len() == recs@.len(),
            out@ == rv.take(i as int).flatten(),
        decreases recs@.len() - i,
    {
        append_bytes(&mut out, &recs[i]);
        proof {
            assert(recs[i as int]@ == rv[i as int]);
            rv.take(i as int).lemma_flatten_push(rv[i as int]);
            assert(rv.take(i as int).push(rv[i as int]) =~= rv.take(i + 1));
            assert(out@ =~= rv.take(i + 1).flatten());
        }
        i = i + 1;
    }
    proof {
        assert(rv.take(rv.len() as int) =~= rv);
    }
    out
}

// ---------------------------------------------------------------------------
// Shape of the emitted output
// ---------------------------------------------------------------------------
/// A prefix record whose text holds no newline is a single output line.
pub proof fn lemma_prefix_record_single_line(start: nat, end: nat, text: Seq<u8>)
    requires
        no_nl(text),
    ensures
        is_single_line(prefix_record(start, end, text)),
{
    lemma_dec_rep_digits(start);
    lemma_dec_rep_digits(end);
    let x = txt_prefix_tag() + dec_rep(start) + comma() + dec_rep(end) + comma() + text;
    assert(no_nl(txt_prefix_tag()));
    assert(no_nl(dec_rep(start)));
    assert(no_nl(dec_rep(end)));
    assert(no_nl(comma()));
    lemma_no_nl_concat(txt_prefix_tag(), dec_rep(start));
    lemma_no_nl_concat(txt_prefix_tag() + dec_rep(start), comma());
    lemma_no_nl_concat(txt_prefix_tag() + dec_rep(start) + comma(), dec_rep(end));
    lemma_no_nl_concat(txt_prefix_tag() + dec_rep(start) + comma() + dec_rep(end), comma());
    lemma_no_nl_concat(txt_prefix_tag() + dec_rep(start) + comma() + dec_rep(end) + comma(), text);
    lemma_single_line_of(x);
    assert(prefix_record(start, end, text) =~= x + seq![10u8]);
}

/// Every match-kind name is newline-free.
pub proof fn lemma_kind_text_no_nl(k: MatchKind)
    ensures
        no_nl(kind_text(k)),
{
}

/// A plain match record whose fields hold no newline is a single output
/// line.
pub proof fn lemma_match_record_single_line(m: Match, line: nat, col: nat)
    requires
        no_nl(m.matchstr@),
        no_nl(m.filepath@),
        no_nl(m.contextstr@),
    ensures
        is_single_line(match_record(m, line, col)),
{
    lemma_dec_rep_digits(line);
    lemma_dec_rep_digits(col);
    lemma_kind_text_no_nl(m.kind);
    let x = txt_match_tag() + m.matchstr@ + comma() + dec_rep(line) + comma() + dec_rep(col)
        + comma() + m.filepath@ + comma() + kind_text(m.kind) + comma() + m.contextstr@;
    assert(no_nl(txt_match_tag()));
    assert(no_nl(comma()));
    lemma_no_nl_concat(txt_match_tag(), m.matchstr@);
    lemma_no_nl_concat(txt_match_tag() + m.matchstr@, comma());
    lemma_no_nl_concat(txt_match_tag() + m.matchstr@ + comma(), dec_rep(line));
    lemma_no_nl_concat(txt_match_tag() + m.matchstr@ + comma() + dec_rep(line), comma());
    lemma_no_nl_concat(
        txt_match_tag() + m.matchstr@ + comma() + dec_rep(line) + comma(),
        dec_rep(col),
    );
    lemma_no_nl_concat(
        txt_match_tag() + m.matchstr@ + comma() + dec_rep(line) + comma() + dec_rep(col),
        comma(),
    );
    lemma_no_nl_concat(
        txt_match_tag() + m.matchstr@ + comma() + dec_rep(line) + comma() + dec_rep(col) + comma(),
        m.filepath@,
    );
    lemma_no_nl_concat(
        txt_match_tag() + m.matchstr@ + comma() + dec_rep(line) + comma() + dec_rep(col) + comma()
            + m.filepath@,
        comma(),
    );
    lemma_no_nl_concat(
        txt_match_tag() + m.matchstr@ + comma() + dec_rep(line) + comma() + dec_rep(col) + comma()
            + m.filepath@ + comma(),
        kind_text(m.kind),
    );
    lemma_no_nl_concat(
        txt_match_tag() + m.matchstr@ + comma() + dec_rep(line) + comma() + dec_rep(col) + comma()
            + m.filepath@ + comma() + kind_text(m.kind),
        comma(),
    );
    lemma_no_nl_concat(
        txt_match_tag() + m.matchstr@ + comma() + dec_rep(line) + comma() + dec_rep(col) + comma()
            + m.filepath@ + comma() + kind_text(m.kind) + comma(),
        m.contextstr@,
    );
    lemma_single_line_of(x);
    assert(match_record(m, line, col) =~= x + seq![10u8]);
}

/// A snippet match record whose fields hold no newline is a single output
/// line.
pub proof fn lemma_snippet_record_single_line(m: Match, line: nat, col: nat)
    requires
        no_nl(m.matchstr@),
        no_nl(m.snippet@),
        no_nl(m.filepath@),
        no_nl(m.contextstr@),
    ensures
        is_single_line(snippet_record(m, line, col)),
{
    lemma_dec_rep_digits(line);
    lemma_dec_rep_digits(col);
    lemma_kind_text_no_nl(m.kind);
    let x = txt_match_tag() + m.matchstr@ + semi() + m.snippet@ + semi() + dec_rep(line) + semi()
        + dec_rep(col) + semi() + m.filepath@ + semi() + kind_text(m.kind) + semi()
        + m.contextstr@;
    assert(no_nl(txt_match_tag()));
    assert(no_nl(semi()));
    lemma_no_nl_concat(txt_match_tag(), m.matchstr@);
    lemma_no_nl_concat(txt_match_tag() + m.matchstr@, semi());
    lemma_no_nl_concat(txt_match_tag() + m.matchstr@ + semi(), m.snippet@);
    lemma_no_nl_concat(txt_match_tag() + m.matchstr@ + semi() + m.snippet@, semi());
    lemma_no_nl_concat(
        txt_match_tag() + m.matchstr@ + semi() + m.snippet@ + semi(),
        dec_rep(line),
    );
    lemma_no_nl_concat(
        txt_match_tag() + m.matchstr@ + semi() + m.snippet@ + semi() + dec_rep(line),
        semi(),
    );
    lemma_no_nl_concat(
        txt_match_tag() + m.matchstr@ + semi() + m.snippet@ + semi() + dec_rep(line) + semi(),
        dec_rep(col),
    );
    lemma_no_nl_concat(
        txt_match_tag() + m.matchstr@ + semi() + m.snippet@ + semi() + dec_rep(line) + semi()
            + dec_rep(col),
        semi(),
    );
    lemma_no_nl_concat(
        txt_match_tag() + m.matchstr@ + semi() + m.snippet@ + semi() + dec_rep(line) + semi()
            + dec_rep(col) + semi(),
        m.filepath@,
    );
    lemma_no_nl_concat(
        txt_match_tag() + m.matchstr@ + semi() + m.snippet@ + semi() + dec_rep(line) + semi()
            + dec_rep(col) + semi() + m.filepath@,
        semi(),
    );
    lemma_no_nl_concat(
        txt_match_tag() + m.matchstr@ + semi() + m.snippet@ + semi() + dec_rep(line) + semi()
            + dec_rep(col) + semi() + m.filepath@ + semi(),
        kind_text(m.kind),
    );
    lemma_no_nl_concat(
        txt_match_tag() + m.matchstr@ + semi() + m.snippet@ + semi() + dec_rep(line) + semi()
            + dec_rep(col) + semi() + m.filepath@ + semi() + kind_text(m.kind),
        semi(),
    );
    lemma_no_nl_concat(
        txt_match_tag() + m.matchstr@ + semi() + m.snippet@ + semi() + dec_rep(line) + semi()
            + dec_rep(col) + semi() + m.filepath@ + semi() + kind_text(m.kind) + semi(),
        m.contextstr@,
    );
    lemma_single_line_of(x);
    assert(snippet_record(m, line, col) =~= x + seq![10u8]);
}

/// The terminator record is a single output line.
pub proof fn lemma_end_record_single_line()
    ensures
        is_single_line(end_record()),
{
}

/// The expanded prefix text of a position inside a source buffer is
/// newline-free, so the prefix record of the `prefix` handler is exactly one
/// output line: its own record and nothing else.
pub proof fn lemma_prefix_out_one_record(src: Seq<u8>, line: nat, col: nat)
    requires
        coords_valid(src, line, col),
    ensures
        is_single_line(prefix_out(src, line, col)),
        split_lines(prefix_out(src, line, col)) == seq![prefix_out(src, line, col)],
{
    let lt = line_text(src, line);
    crate::text::lemma_line_bounds(src, line);
    assert(no_nl(lt));
    lemma_ident_range(lt, col as int);
    let s = prefix_start(lt, col as int);
    let e = prefix_end(lt, col as int);
    assert forall|j: int| 0 <= j < (lt.subrange(s, e)).len() implies lt.subrange(s, e)[j]
        != crate::text::nl_byte() by {
        assert(lt.subrange(s, e)[j] == lt[s + j]);
    }
    lemma_prefix_record_single_line(s as nat, e as nat, lt.subrange(s, e));
    crate::text::lemma_split_single_line(prefix_out(src, line, col));
}

/// Line structure of positional completion output: one prefix record first,
/// the given match records in order strictly between, and one terminator
/// record last, provided each given record is a single line.
pub proof fn lemma_complete_out_lines(src: Seq<u8>, line: nat, col: nat, recs: Seq<Seq<u8>>)
    requires
        coords_valid(src, line, col),
        forall|i: int| 0 <= i < recs.len() ==> is_single_line(#[trigger] recs[i]),
    ensures
        split_lines(complete_out(src, line, col, recs)) == seq![prefix_out(src, line, col)] + recs
            + seq![end_record()],
{
    let p = prefix_out(src, line, col);
    lemma_prefix_out_one_record(src, line, col);
    lemma_end_record_single_line();
    assert(complete_out(src, line, col, recs) =~= p + (recs.flatten() + end_record()));
    crate::text::lemma_split_lines_step(p, recs.flatten() + end_record());
    crate::text::lemma_split_lines_concat(recs, end_record());
    crate::text::lemma_split_single_line(end_record());
    assert(seq![p] + (recs + seq![end_record()]) =~= seq![p] + recs + seq![end_record()]);
}

/// Line structure of definition lookup output: the match record, if any,
/// then one terminator record.
pub proof fn lemma_find_definition_out_lines(rec: Option<Seq<u8>>)
    requires
        rec is Some ==> is_single_line(rec->0),
    ensures
        split_lines(find_definition_out(rec)) == (match rec {
            Some(r) => seq![r, end_record()],
            None => seq![end_record()],
        }),
{
    lemma_end_record_single_line();
    crate::text::lemma_split_single_line(end_record());
    match rec {
        Some(r) => {
            crate::text::lemma_split_lines_step(r, end_record());
            assert(seq![r] + seq![end_record()] =~= seq![r, end_record()]);
        },
        None => {},
    }
}

/// Substituting a source buffer changes at most the prefix record of
/// positional completion output: past their prefix records, the outputs over
/// any two buffers agree, so the match records — and the file paths inside
/// them — do not depend on the buffer that was completed against.
pub proof fn lemma_substitute_keeps_match_records(
    src1: Seq<u8>,
    src2: Seq<u8>,
    line: nat,
    col: nat,
    recs: Seq<Seq<u8>>,
)
    ensures
        complete_out(src1, line, col, recs).skip(prefix_out(src1, line, col).len() as int)
            == complete_out(src2, line, col, recs).skip(prefix_out(src2, line, col).len() as int),
{
    assert(complete_out(src1, line, col, recs).skip(prefix_out(src1, line, col).len() as int)
        =~= recs.flatten() + end_record());
    assert(complete_out(src2, line, col, recs).skip(prefix_out(src2, line, col).len() as int)
        =~= recs.flatten() + end_record());
}

/// Positional completion output is a function of the effective source, the
/// coordinates, and the match records alone: two runs over equal inputs
/// yield byte-identical output.
pub proof fn lemma_complete_out_deterministic(
    src: Seq<u8>,
    line: nat,
    col: nat,
    recs: Seq<Seq<u8>>,
    o1: Seq<u8>,
    o2: Seq<u8>,
)
    requires
        o1 == complete_out(src, line, col, recs),
        o2 == complete_out(src, line, col, recs),
    ensures
        o1 == o2,
{
}

/// With no match records — an unknown leading segment — name-mode output is
/// empty: no match lines, no prefix record, no terminator.
pub proof fn lemma_name_mode_empty(recs: Seq<Seq<u8>>)
    requires
        recs.len() == 0,
    ensures
        recs.flatten() == Seq::<u8>::empty(),
{
}

/// A `::` separator starts at `i`.
pub open spec fn sep_at(s: Seq<u8>, i: int) -> bool {
    0 <= i && i + 2 <= s.len() && s[i] == 58u8 && s[i + 1] == 58u8
}

/// Index of the first `::` separator at or after `i`, or `s.len()` if none.
pub open spec fn first_sep(s: Seq<u8>, i: int) -> int
    decreases s.len() - i,
{
    if i < 0 || i + 2 > s.len() {
        s.len() as int
    } else if s[i] == 58u8 && s[i + 1] == 58u8 {
        i
    } else {
        first_sep(s, i + 1)
    }
}

pub proof fn lemma_first_sep(s: Seq<u8>, i: int)
    requires
        0 <= i <= s.len(),
    ensures
        i <= first_sep(s, i) <= s.len(),
        forall|j: int| i <= j < first_sep(s, i) ==> !sep_at(s, j),
        first_sep(s, i) < s.len() ==> sep_at(s, first_sep(s, i)),
    decreases s.len() - i,
{
    if i + 2 <= s.len() && !(s[i] == 58u8 && s[i + 1] == 58u8) {
        lemma_first_sep(s, i + 1);
    }
}

/// The `::`-separated segments of the suffix of `s` from `pos`. Every name
/// yields at least one (possibly empty) segment.
pub open spec fn fqn_split_from(s: Seq<u8>, pos: int) -> Seq<Seq<u8>>
    recommends
        0 <= pos <= s.len(),
    decreases s.len() - pos,
    via fqn_split_decreases
{
    let e = first_sep(s, pos);
    if pos < 0 || e >= s.len() {
        seq![s.subrange(pos, s.len() as int)]
    } else {
        seq![s.subrange(pos, e)] + fqn_split_from(s, e + 2)
    }
}

#[via_fn]
proof fn fqn_split_decreases(s: Seq<u8>, pos: int) {
    if 0 <= pos <= s.len() {
        lemma_first_sep(s, pos);
    }
}

/// The `::`-separated segments of a fully-qualified name.
pub open spec fn fqn_split(s: Seq<u8>) -> Seq<Seq<u8>> {
    fqn_split_from(s, 0)
}

/// A name splits into a single segment exactly when it holds no `::`
/// separator; name-mode completion then emits the file-search matches
/// directly, with no further segment walk.
pub proof fn lemma_fqn_single_segment(s: Seq<u8>)
    ensures
        fqn_split(s).len() == 1 <==> (forall|j: int| !sep_at(s, j)),
{
    lemma_first_sep(s, 0);
    if first_sep(s, 0) < s.len() {
        assert(sep_at(s, first_sep(s, 0)));
        assert(fqn_split_from(s, first_sep(s, 0) + 2).len() >= 1);
    }
}

/// Split a fully-qualified name on `::`.
pub fn split_fqn(name: &Vec<u8>) -> (r: Vec<Vec<u8>>)
    ensures
        r.deep_view() == fqn_split(name@),
        r@.len() >= 1,
{
    let mut segs: Vec<Vec<u8>> = Vec::new();
    let mut pos: usize = 0;
    proof {
        assert(segs.deep_view() =~~= Seq::<Seq<u8>>::empty());
    }
    loop
        invariant_except_break
            pos <= name@.len(),
            fqn_split(name@) == segs.deep_view() + fqn_split_from(name@, pos as int),
        invariant
            pos <= name@.len(),
        ensures
            segs.deep_view() == fqn_split(name@),
            segs@.len() >= 1,
        decreases name@.len() - pos,
    {
        let e = find_sep(name, pos);
        let seg = copy_range(name, pos, e);
        let ghost dv0 = segs.deep_view();
        let ghost segv = seg.deep_view();
        proof {
            assert(segv =~= seg@);
        }
        segs.push(seg);
        proof {
            assert(segs.deep_view() =~~= dv0.push(segv));
        }
        if e == name.len() {
            proof {
                assert(fqn_split_from(name@, pos as int) =~= seq![
                    name@.subrange(pos as int, name@.len() as int),
                ]);
                assert(segs.deep_view() =~~= fqn_split(name@));
            }
            break ;
        }
        proof {
            assert(fqn_split_from(name@, pos as int) =~= seq![
                name@.subrange(pos as int, e as int),
            ] + fqn_split_from(name@, e + 2));
            assert(fqn_split(name@) =~= segs.deep_view() + fqn_split_from(name@, e + 2));
        }
        pos = e + 2;
    }
    segs
}

/// Scan for the next `::` separator at or after `i`.
fn find_sep(s: &Vec<u8>, i: usize) -> (r: usize)
    requires
        i <= s@.len(),
    ensures
        r == first_sep(s@, i as int),
        i <= r <= s@.len(),
        r < s@.len() ==> r + 2 <= s@.len(),
{
    proof {
        lemma_first_sep(s@, i as int);
    }
    let mut j = i;
    while j < s.len() && j + 1 < s.len()
        invariant
            i <= j <= s@.len(),
            first_sep(s@, i as int) == first_sep(s@, j as int),
        decreases s@.len() - j,
    {
        if s[j] == 58u8 && s[j + 1] == 58u8 {
            return j;
        }
        j = j + 1;
    }
    s.len()
}

} // verus!
