//! The command grammar and the daemon-input tokenizer.
//!
//! An invocation is a vector of argument tokens, the command word first. In
//! daemon mode one line of standard input carries one invocation: the line
//! is split on single spaces and each token is trimmed of surrounding
//! whitespace. The grammar:
//!
//! - `daemon`
//! - `prefix <linenum> <charnum> <fname>`
//! - `complete <linenum> <charnum> <fname> [--substitute-file <path>]`
//! - `complete <fully-qualified-name>`
//! - `complete-with-snippet`, with the same two shapes as `complete`
//! - `find-definition <linenum> <charnum> <fname> [--substitute-file <path>]`
//! - `-h` / `--help` / `--version`
//!
//! Line and character numbers are non-negative decimal integers.

use vstd::prelude::*;

use crate::ascii::is_kw_complete;
use crate::ascii::is_kw_complete_with_snippet;
use crate::ascii::is_kw_daemon;
use crate::ascii::is_kw_find_definition;
use crate::ascii::is_kw_help_long;
use crate::ascii::is_kw_help_short;
use crate::ascii::is_kw_prefix;
use crate::ascii::is_kw_substitute_file;
use crate::ascii::is_kw_version;
use crate::ascii::txt_kw_complete;
use crate::ascii::txt_kw_complete_with_snippet;
use crate::ascii::txt_kw_daemon;
use crate::ascii::txt_kw_find_definition;
use crate::ascii::txt_kw_help_long;
use crate::ascii::txt_kw_help_short;
use crate::ascii::txt_kw_prefix;
use crate::ascii::txt_kw_substitute_file;
use crate::ascii::txt_kw_version;
use crate::numfmt::all_digits;
use crate::numfmt::dec_val;
use crate::numfmt::parse_usize;
use crate::text::copy_range;

verus! {

// ---------------------------------------------------------------------------
// Trimming and splitting of daemon input lines
// ---------------------------------------------------------------------------
/// ASCII whitespace as trimmed from daemon tokens: space, tab, carriage
/// return, newline.
pub open spec fn is_ws(b: u8) -> bool {
    b == 32u8 || b == 9u8 || b == 13u8 || b == 10u8
}

/// Executable test for `is_ws`.
pub fn ws_byte(b: u8) -> (r: bool)
    ensures
        r == is_ws(b),
{
    b == 32u8 || b == 9u8 || b == 13u8 || b == 10u8
}

/// `s` without trailing whitespace.
pub open spec fn trim_end_spec(s: Seq<u8>) -> Seq<u8>
    decreases s.len(),
{
    if s.len() > 0 && is_ws(s.last()) {
        trim_end_spec(s.drop_last())
    } else {
        s
    }
}

/// `s` without leading whitespace.
pub open spec fn trim_start_spec(s: Seq<u8>) -> Seq<u8>
    decreases s.len(),
{
    if s.len() > 0 && is_ws(s.first()) {
        trim_start_spec(s.drop_first())
    } else {
        s
    }
}

/// `s` without surrounding whitespace.
pub open spec fn trim_spec(s: Seq<u8>) -> Seq<u8> {
    trim_start_spec(trim_end_spec(s))
}

/// Trim surrounding whitespace.
pub fn trim(s: &Vec<u8>) -> (r: Vec<u8>)
    ensures
        r@ == trim_spec(s@),
{
    let mut j = s.len();
    proof {
        assert(s@.take(s@.len() as int) =~= s@);
    }
    while j > 0 && ws_byte(s[j - 1])
        invariant
            0 <= j <= s@.len(),
            trim_end_spec(s@) == trim_end_spec(s@.take(j as int)),
        decreases j,
    {
        proof {
            assert(s@.take(j as int).drop_last() =~= s@.take(j - 1));
        }
        j = j - 1;
    }
    proof {
        if j == 0 {
            assert(s@.take(0) =~= Seq::<u8>::empty());
        }
        assert(trim_end_spec(s@) == s@.take(j as int));
        assert(s@.subrange(0, j as int) =~= s@.take(j as int));
    }
    let mut i: usize = 0;
    while i < j && ws_byte(s[i])
        invariant
            0 <= i <= j <= s@.len(),
            trim_start_spec(s@.take(j as int)) == trim_start_spec(
                s@.subrange(i as int, j as int),
            ),
        decreases j - i,
    {
        proof {
            assert(s@.subrange(i as int, j as int).drop_first() =~= s@.subrange(i + 1, j as int));
        }
        i = i + 1;
    }
    proof {
        assert(trim_start_spec(s@.subrange(i as int, j as int)) == s@.subrange(i as int, j as int));
    }
    copy_range(s, i, j)
}

/// Index of the first space at or after `i`, or `s.len()` if none.
pub open spec fn first_sp(s: Seq<u8>, i: int) -> int
    decreases s.len() - i,
{
    if i < 0 || i >= s.len() {
        s.len() as int
    } else if s[i] == 32u8 {
        i
    } else {
        first_sp(s, i + 1)
    }
}

pub proof fn lemma_first_sp(s: Seq<u8>, i: int)
    requires
        0 <= i <= s.len(),
    ensures
        i <= first_sp(s, i) <= s.len(),
        forall|j: int| i <= j < first_sp(s, i) ==> s[j] != 32u8,
        first_sp(s, i) < s.len() ==> s[first_sp(s, i)] == 32u8,
    decreases s.len() - i,
{
    if i < s.len() && s[i] != 32u8 {
        lemma_first_sp(s, i + 1);
    }
}

/// Split the suffix of `s` from `pos` on single spaces. Every buffer yields
/// at least one (possibly empty) segment.
pub open spec fn split_sp_from(s: Seq<u8>, pos: int) -> Seq<Seq<u8>>
    recommends
        0 <= pos <= s.len(),
    decreases s.len() - pos,
    via split_sp_decreases
{
    let e = first_sp(s, pos);
    if pos < 0 || e >= s.len() {
        seq![s.subrange(pos, s.len() as int)]
    } else {
        seq![s.subrange(pos, e)] + split_sp_from(s, e + 1)
    }
}

#[via_fn]
proof fn split_sp_decreases(s: Seq<u8>, pos: int) {
    if 0 <= pos <= s.len() {
        lemma_first_sp(s, pos);
    }
}

/// Trim every token of a split.
pub open spec fn trim_all(ts: Seq<Seq<u8>>) -> Seq<Seq<u8>> {
    ts.map_values(|t: Seq<u8>| trim_spec(t))
}

/// The token vector of one daemon input line: split on single spaces, each
/// token trimmed.
pub open spec fn tokenize_spec(s: Seq<u8>) -> Seq<Seq<u8>> {
    trim_all(split_sp_from(s, 0))
}

/// Scan for the next space at or after `i`.
fn find_sp(s: &Vec<u8>, i: usize) -> (r: usize)
    requires
        i <= s@.len(),
    ensures
        r == first_sp(s@, i as int),
        i <= r <= s@.len(),
{
    proof {
        lemma_first_sp(s@, i as int);
    }
    let mut j = i;
    while j < s.len()
        invariant
            i <= j <= s@.len(),
            first_sp(s@, i as int) == first_sp(s@, j as int),
        decreases s@.len() - j,
    {
        if s[j] == 32u8 {
            return j;
        }
        j = j + 1;
    }
    j
}

/// Split one daemon input line into trimmed tokens.
pub fn tokenize(line: &Vec<u8>) -> (r: Vec<Vec<u8>>)
    ensures
        r.deep_view() == tokenize_spec(line@),
        r@.len() >= 1,
{
    let mut toks: Vec<Vec<u8>> = Vec::new();
    let mut pos: usize = 0;
    proof {
        assert(toks.deep_view() =~~= Seq::<Seq<u8>>::empty());
    }
    loop
        invariant_except_break
            pos <= line@.len(),
            tokenize_spec(line@) == toks.deep_view() + trim_all(split_sp_from(line@, pos as int)),
        invariant
            pos <= line@.len(),
        ensures
            toks.deep_view() == tokenize_spec(line@),
            toks@.len() >= 1,
        decreases line@.len() - pos,
    {
        let e = find_sp(line, pos);
        let seg = copy_range(line, pos, e);
        let tok = trim(&seg);
        let ghost dv0 = toks.deep_view();
        let ghost tokv = tok.deep_view();
        proof {
            assert(tokv =~= tok@);
        }
        toks.push(tok);
        proof {
            assert(toks.deep_view() =~~= dv0.push(tokv));
        }
        if e == line.len() {
            proof {
                assert(split_sp_from(line@, pos as int) =~= seq![
                    line@.subrange(pos as int, line@.len() as int),
                ]);
                assert(trim_all(split_sp_from(line@, pos as int)) =~= seq![
                    trim_spec(line@.subrange(pos as int, line@.len() as int)),
                ]);
                assert(toks.deep_view() =~~= tokenize_spec(line@));
            }
            break ;
        }
        proof {
            assert(split_sp_from(line@, pos as int) =~= seq![line@.subrange(pos as int, e as int)]
                + split_sp_from(line@, e + 1));
            assert(trim_all(split_sp_from(line@, pos as int)) =~= seq![
                trim_spec(line@.subrange(pos as int, e as int)),
            ] + trim_all(split_sp_from(line@, e + 1)));
            assert(tokenize_spec(line@) =~= toks.deep_view() + trim_all(
                split_sp_from(line@, e + 1),
            ));
        }
        pos = e + 1;
    }
    toks
}

/// A token free of whitespace bytes.
pub open spec fn clean_token(t: Seq<u8>) -> bool {
    forall|j: int| 0 <= j < t.len() ==> !is_ws(t[j])
}

/// Tokens joined with single spaces: a one-shot argument vector written as
/// one daemon input line.
pub open spec fn join_sp(toks: Seq<Seq<u8>>) -> Seq<u8>
    decreases toks.len(),
{
    if toks.len() == 0 {
        Seq::empty()
    } else if toks.len() == 1 {
        toks[0]
    } else {
        toks[0] + seq![32u8] + join_sp(toks.drop_first())
    }
}

/// `first_sp` is determined by the first space position.
proof fn lemma_first_sp_is(s: Seq<u8>, i: int, k: int)
    requires
        0 <= i <= k <= s.len(),
        forall|j: int| i <= j < k ==> s[j] != 32u8,
        k < s.len() ==> s[k] == 32u8,
    ensures
        first_sp(s, i) == k,
    decreases k - i,
{
    if i < k {
        lemma_first_sp_is(s, i + 1, k);
    }
}

/// Trimming a whitespace-free token returns it unchanged.
pub proof fn lemma_trim_clean(t: Seq<u8>)
    requires
        clean_token(t),
    ensures
        trim_spec(t) == t,
{
}

proof fn lemma_split_join(s: Seq<u8>, pos: int, toks: Seq<Seq<u8>>)
    requires
        0 <= pos <= s.len(),
        s.skip(pos) == join_sp(toks),
        toks.len() >= 1,
        forall|i: int| 0 <= i < toks.len() ==> clean_token(#[trigger] toks[i]),
    ensures
        trim_all(split_sp_from(s, pos)) == toks,
    decreases toks.len(),
{
    let t0 = toks[0];
    if toks.len() == 1 {
        assert(s.skip(pos) == t0);
        assert(s.len() - pos == t0.len());
        assert forall|j: int| pos <= j < s.len() implies s[j] != 32u8 by {
            assert(s[j] == s.skip(pos)[j - pos]);
            assert(!is_ws(t0[j - pos]));
        }
        lemma_first_sp_is(s, pos, s.len() as int);
        assert(s.subrange(pos, s.len() as int) =~= t0);
        lemma_trim_clean(t0);
        assert(trim_all(split_sp_from(s, pos)) =~= toks);
    } else {
        let rest = toks.drop_first();
        let rj = join_sp(rest);
        let e = pos + t0.len();
        assert(s.skip(pos) == t0 + seq![32u8] + rj);
        assert(s.len() - pos == t0.len() + 1 + rj.len());
        assert forall|j: int| pos <= j < e implies s[j] != 32u8 by {
            assert(s[j] == s.skip(pos)[j - pos]);
            assert(s.skip(pos)[j - pos] == t0[j - pos]);
            assert(!is_ws(t0[j - pos]));
        }
        assert(s[e] == s.skip(pos)[t0.len() as int]);
        assert(s[e] == 32u8);
        lemma_first_sp_is(s, pos, e);
        assert(s.subrange(pos, e) =~= t0);
        assert forall|j: int| 0 <= j < rj.len() implies s.skip(e + 1)[j] == rj[j] by {
            assert(s.skip(e + 1)[j] == s[e + 1 + j]);
            assert(s[e + 1 + j] == s.skip(pos)[t0.len() + 1 + j]);
            assert(s.skip(pos)[t0.len() + 1 + j] == rj[j]);
        }
        assert(s.skip(e + 1) =~= rj);
        assert(rest.len() >= 1);
        lemma_split_join(s, e + 1, rest);
        assert(split_sp_from(s, pos) == seq![s.subrange(pos, e)] + split_sp_from(s, e + 1));
        lemma_trim_clean(t0);
        assert(trim_all(seq![s.subrange(pos, e)] + split_sp_from(s, e + 1)) =~= seq![t0]
            + trim_all(split_sp_from(s, e + 1)));
        assert(seq![t0] + rest =~= toks);
    }
}

/// Daemon mode and one-shot mode decode alike: a daemon input line that
/// joins a one-shot argument vector with single spaces tokenizes back to
/// exactly that vector, so the same command — and hence byte-identical
/// output — follows in both modes.
pub proof fn lemma_daemon_line_tokenizes_to_argv(toks: Seq<Seq<u8>>)
    requires
        toks.len() >= 1,
        forall|i: int| 0 <= i < toks.len() ==> clean_token(#[trigger] toks[i]),
    ensures
        tokenize_spec(join_sp(toks)) == toks,
        parse_spec(tokenize_spec(join_sp(toks))) == parse_spec(toks),
{
    let s = join_sp(toks);
    assert(s.skip(0) =~= s);
    lemma_split_join(s, 0, toks);
}

// ---------------------------------------------------------------------------
// The command grammar
// ---------------------------------------------------------------------------
/// A decoded invocation, in executable form.
pub enum Command {
    Daemon,
    Prefix { linenum: usize, charnum: usize, fname: Vec<u8> },
    Complete {
        linenum: usize,
        charnum: usize,
        fname: Vec<u8>,
        substitute: Option<Vec<u8>>,
        with_snippet: bool,
    },
    CompleteName { name: Vec<u8>, with_snippet: bool },
    FindDefinition { linenum: usize, charnum: usize, fname: Vec<u8>, substitute: Option<Vec<u8>> },
    Help,
    Version,
}

/// A decoded invocation, in mathematical form; the meaning of a token
/// vector under the grammar.
pub enum CommandModel {
    Daemon,
    Prefix { linenum: nat, charnum: nat, fname: Seq<u8> },
    Complete {
        linenum: nat,
        charnum: nat,
        fname: Seq<u8>,
        substitute: Option<Seq<u8>>,
        with_snippet: bool,
    },
    CompleteName { name: Seq<u8>, with_snippet: bool },
    FindDefinition { linenum: nat, charnum: nat, fname: Seq<u8>, substitute: Option<Seq<u8>> },
    Help,
    Version,
}

/// The mathematical form of a decoded invocation.
pub open spec fn cmd_view(c: Command) -> CommandModel {
    match c {
        Command::Daemon => CommandModel::Daemon,
        Command::Prefix { linenum, charnum, fname } => CommandModel::Prefix {
            linenum: linenum as nat,
            charnum: charnum as nat,
            fname: fname@,
        },
        Command::Complete { linenum, charnum, fname, substitute, with_snippet } => {
            CommandModel::Complete {
                linenum: linenum as nat,
                charnum: charnum as nat,
                fname: fname@,
                substitute: match substitute {
                    Some(p) => Some(p@),
                    None => None,
                },
                with_snippet,
            }
        },
        Command::CompleteName { name, with_snippet } => CommandModel::CompleteName {
            name: name@,
            with_snippet,
        },
        Command::FindDefinition { linenum, charnum, fname, substitute } => {
            CommandModel::FindDefinition {
                linenum: linenum as nat,
                charnum: charnum as nat,
                fname: fname@,
                substitute: match substitute {
                    Some(p) => Some(p@),
                    None => None,
                },
            }
        },
        Command::Help => CommandModel::Help,
        Command::Version => CommandModel::Version,
    }
}

/// A token that reads as a non-negative machine integer.
pub open spec fn is_num(t: Seq<u8>) -> bool {
    t.len() > 0 && all_digits(t) && dec_val(t) <= usize::MAX
}

/// The positional operands `<linenum> <charnum> <fname>` with an optional
/// trailing `--substitute-file <path>`.
pub open spec fn pos_args_spec(toks: Seq<Seq<u8>>) -> Option<
    (nat, nat, Seq<u8>, Option<Seq<u8>>),
> {
    if toks.len() == 4 && is_num(toks[1]) && is_num(toks[2]) {
        Some((dec_val(toks[1]) as nat, dec_val(toks[2]) as nat, toks[3], None))
    } else if toks.len() == 6 && is_num(toks[1]) && is_num(toks[2]) && toks[4]
        == txt_kw_substitute_file() {
        Some((dec_val(toks[1]) as nat, dec_val(toks[2]) as nat, toks[3], Some(toks[5])))
    } else {
        None
    }
}

/// The meaning of a token vector under the command grammar, or nothing if
/// it matches no command shape.
pub open spec fn parse_spec(toks: Seq<Seq<u8>>) -> Option<CommandModel> {
    if toks.len() == 0 {
        None
    } else if toks.len() == 1 && toks[0] == txt_kw_daemon() {
        Some(CommandModel::Daemon)
    } else if toks.len() == 1 && (toks[0] == txt_kw_help_short() || toks[0]
        == txt_kw_help_long()) {
        Some(CommandModel::Help)
    } else if toks.len() == 1 && toks[0] == txt_kw_version() {
        Some(CommandModel::Version)
    } else if toks[0] == txt_kw_prefix() {
        if toks.len() == 4 && is_num(toks[1]) && is_num(toks[2]) {
            Some(
                CommandModel::Prefix {
                    linenum: dec_val(toks[1]) as nat,
                    charnum: dec_val(toks[2]) as nat,
                    fname: toks[3],
                },
            )
        } else {
            None
        }
    } else if toks[0] == txt_kw_complete() || toks[0] == txt_kw_complete_with_snippet() {
        let ws = toks[0] == txt_kw_complete_with_snippet();
        if toks.len() == 2 && toks[1].len() > 0 {
            Some(CommandModel::CompleteName { name: toks[1], with_snippet: ws })
        } else {
            match pos_args_spec(toks) {
                Some((l, c, f, s)) => Some(
                    CommandModel::Complete {
                        linenum: l,
                        charnum: c,
                        fname: f,
                        substitute: s,
                        with_snippet: ws,
                    },
                ),
                None => None,
            }
        }
    } else if toks[0] == txt_kw_find_definition() {
        match pos_args_spec(toks) {
            Some((l, c, f, s)) => Some(
                CommandModel::FindDefinition { linenum: l, charnum: c, fname: f, substitute: s },
            ),
            None => None,
        }
    } else {
        None
    }
}

/// Copy a byte vector.
fn copy_bytes(s: &Vec<u8>) -> (r: Vec<u8>)
    ensures
        r@ == s@,
{
    let r = copy_range(s, 0, s.len());
    proof {
        assert(s@.subrange(0, s@.len() as int) =~= s@);
    }
    r
}

/// Decode the positional operands, with the optional substitute file.
fn parse_pos_args(toks: &Vec<Vec<u8>>) -> (r: Option<(usize, usize, Vec<u8>, Option<Vec<u8>>)>)
    requires
        toks@.len() >= 1,
    ensures
        match r {
            Some((l, c, f, s)) => pos_args_spec(toks.deep_view()) == Some(
                (
                    l as nat,
                    c as nat,
                    f@,
                    match s {
                        Some(p) => Some(p@),
                        None => None,
                    },
                ),
            ),
            None => pos_args_spec(toks.deep_view()) is None,
        },
{
    proof {
        assert forall|i: int| 0 <= i < toks@.len() implies toks.deep_view()[i] == #[trigger] toks@[i]@ by {
            assert(toks.deep_view()[i] =~= toks@[i]@);
        }
    }
    if toks.len() != 4 && toks.len() != 6 {
        return None;
    }
    let l = match parse_usize(&toks[1]) {
        Some(v) => v,
        None => {
            return None;
        },
    };
    let c = match parse_usize(&toks[2]) {
        Some(v) => v,
        None => {
            return None;
        },
    };
    let f = copy_bytes(&toks[3]);
    if toks.len() == 4 {
        return Some((l, c, f, None));
    }
    if !is_kw_substitute_file(&toks[4]) {
        return None;
    }
    let s = copy_bytes(&toks[5]);
    Some((l, c, f, Some(s)))
}

/// Decode a token vector under the command grammar.
pub fn parse_command(toks: &Vec<Vec<u8>>) -> (r: Option<Command>)
    ensures
        match r {
            Some(c) => parse_spec(toks.deep_view()) == Some(cmd_view(c)),
            None => parse_spec(toks.deep_view()) is None,
        },
{
    proof {
        assert forall|i: int| 0 <= i < toks@.len() implies toks.deep_view()[i] == #[trigger] toks@[i]@ by {
            assert(toks.deep_view()[i] =~= toks@[i]@);
        }
    }
    if toks.len() == 0 {
        return None;
    }
    if toks.len() == 1 {
        if is_kw_daemon(&toks[0]) {
            return Some(Command::Daemon);
        }
        if is_kw_help_short(&toks[0]) || is_kw_help_long(&toks[0]) {
            return Some(Command::Help);
        }
        if is_kw_version(&toks[0]) {
            return Some(Command::Version);
        }
        return None;
    }
    if is_kw_prefix(&toks[0]) {
        if toks.len() != 4 {
            return None;
        }
        let l = match parse_usize(&toks[1]) {
            Some(v) => v,
            None => {
                return None;
            },
        };
        let c = match parse_usize(&toks[2]) {
            Some(v) => v,
            None => {
                return None;
            },
        };
        let f = copy_bytes(&toks[3]);
        return Some(Command::Prefix { linenum: l, charnum: c, fname: f });
    }
    let is_plain = is_kw_complete(&toks[0]);
    let is_snip = is_kw_complete_with_snippet(&toks[0]);
    if is_plain || is_snip {
        if toks.len() == 2 {
            if toks[1].len() > 0 {
                let name = copy_bytes(&toks[1]);
                return Some(Command::CompleteName { name, with_snippet: is_snip });
            }
            return None;
        }
        return match parse_pos_args(toks) {
            Some((l, c, f, s)) => Some(
                Command::Complete {
                    linenum: l,
                    charnum: c,
                    fname: f,
                    substitute: s,
                    with_snippet: is_snip,
                },
            ),
            None => None,
        };
    }
    if is_kw_find_definition(&toks[0]) {
        return match parse_pos_args(toks) {
            Some((l, c, f, s)) => Some(
                Command::FindDefinition { linenum: l, charnum: c, fname: f, substitute: s },
            ),
            None => None,
        };
    }
    None
}

} // verus!
