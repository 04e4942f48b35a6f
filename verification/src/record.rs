//! Match records and the textual record shapes the driver emits.
//!
//! A match is a resolved symbol occurrence handed to the driver by the
//! resolution engine: identifier, byte offset, file, kind, context line, and
//! an editor-insertable snippet. The driver renders each match as one output
//! line; fields are emitted verbatim, with fixed separators and no escaping.

use vstd::prelude::*;

use crate::ascii::push_end_rec;
use crate::ascii::push_kind_const;
use crate::ascii::push_kind_crate;
use crate::ascii::push_kind_enum;
use crate::ascii::push_kind_enum_variant;
use crate::ascii::push_kind_fn_arg;
use crate::ascii::push_kind_function;
use crate::ascii::push_kind_if_let;
use crate::ascii::push_kind_impl;
use crate::ascii::push_kind_let;
use crate::ascii::push_kind_macro;
use crate::ascii::push_kind_match_arm;
use crate::ascii::push_kind_module;
use crate::ascii::push_kind_static;
use crate::ascii::push_kind_struct;
use crate::ascii::push_kind_struct_field;
use crate::ascii::push_kind_trait;
use crate::ascii::push_kind_type;
use crate::ascii::push_match_tag;
use crate::ascii::push_prefix_tag;
use crate::ascii::txt_end_rec;
use crate::ascii::txt_kind_const;
use crate::ascii::txt_kind_crate;
use crate::ascii::txt_kind_enum;
use crate::ascii::txt_kind_enum_variant;
use crate::ascii::txt_kind_fn_arg;
use crate::ascii::txt_kind_function;
use crate::ascii::txt_kind_if_let;
use crate::ascii::txt_kind_impl;
use crate::ascii::txt_kind_let;
use crate::ascii::txt_kind_macro;
use crate::ascii::txt_kind_match_arm;
use crate::ascii::txt_kind_module;
use crate::ascii::txt_kind_static;
use crate::ascii::txt_kind_struct;
use crate::ascii::txt_kind_struct_field;
use crate::ascii::txt_kind_trait;
use crate::ascii::txt_kind_type;
use crate::ascii::txt_match_tag;
use crate::ascii::txt_prefix_tag;
use crate::numfmt::dec_rep;
use crate::numfmt::fmt_usize;
use crate::text::col_of_point;
use crate::text::line_of_point;
use crate::text::point_to_coords;

verus! {

/// A single comma, the field separator of plain match records.
pub open spec fn comma() -> Seq<u8> {
    seq![44u8]
}

/// A single semicolon, the field separator of snippet match records.
pub open spec fn semi() -> Seq<u8> {
    seq![59u8]
}

/// A single newline, the record terminator.
pub open spec fn nl() -> Seq<u8> {
    seq![10u8]
}

/// The kind of declaration a match resolved to. Its textual form in records
/// is the variant name.
#[derive(Clone, Copy, PartialEq, Eq, Structural)]
pub enum MatchKind {
    Struct,
    Module,
    MatchArm,
    Function,
    Crate,
    Let,
    IfLet,
    StructField,
    Impl,
    Enum,
    EnumVariant,
    Type,
    FnArg,
    Trait,
    Const,
    Static,
    Macro,
}

/// Textual form of a match kind.
pub open spec fn kind_text(k: MatchKind) -> Seq<u8> {
    match k {
        MatchKind::Struct => txt_kind_struct(),
        MatchKind::Module => txt_kind_module(),
        MatchKind::MatchArm => txt_kind_match_arm(),
        MatchKind::Function => txt_kind_function(),
        MatchKind::Crate => txt_kind_crate(),
        MatchKind::Let => txt_kind_let(),
        MatchKind::IfLet => txt_kind_if_let(),
        MatchKind::StructField => txt_kind_struct_field(),
        MatchKind::Impl => txt_kind_impl(),
        MatchKind::Enum => txt_kind_enum(),
        MatchKind::EnumVariant => txt_kind_enum_variant(),
        MatchKind::Type => txt_kind_type(),
        MatchKind::FnArg => txt_kind_fn_arg(),
        MatchKind::Trait => txt_kind_trait(),
        MatchKind::Const => txt_kind_const(),
        MatchKind::Static => txt_kind_static(),
        MatchKind::Macro => txt_kind_macro(),
    }
}

/// Append the textual form of a match kind.
pub fn push_kind(out: &mut Vec<u8>, k: MatchKind)
    ensures
        final (out)@ == old(out)@ + kind_text(k),
{
    match k {
        MatchKind::Struct => push_kind_struct(out),
        MatchKind::Module => push_kind_module(out),
        MatchKind::MatchArm => push_kind_match_arm(out),
        MatchKind::Function => push_kind_function(out),
        MatchKind::Crate => push_kind_crate(out),
        MatchKind::Let => push_kind_let(out),
        MatchKind::IfLet => push_kind_if_let(out),
        MatchKind::StructField => push_kind_struct_field(out),
        MatchKind::Impl => push_kind_impl(out),
        MatchKind::Enum => push_kind_enum(out),
        MatchKind::EnumVariant => push_kind_enum_variant(out),
        MatchKind::Type => push_kind_type(out),
        MatchKind::FnArg => push_kind_fn_arg(out),
        MatchKind::Trait => push_kind_trait(out),
        MatchKind::Const => push_kind_const(out),
        MatchKind::Static => push_kind_static(out),
        MatchKind::Macro => push_kind_macro(out),
    }
}

/// A resolved symbol occurrence as the engine reports it. The file path
/// names the file the symbol was found in; the point is a byte offset into
/// that file's current contents. The snippet is the engine's editor-ready
/// expansion and is used only by the snippet record shape.
pub struct Match {
    pub matchstr: Vec<u8>,
    pub point: usize,
    pub filepath: Vec<u8>,
    pub kind: MatchKind,
    pub contextstr: Vec<u8>,
    pub snippet: Vec<u8>,
}

/// The plain match record:
/// `MATCH <matchstr>,<line>,<col>,<filepath>,<kind>,<contextstr>` and a
/// newline.
pub open spec fn match_record(m: Match, line: nat, col: nat) -> Seq<u8> {
    txt_match_tag() + m.matchstr@ + comma() + dec_rep(line) + comma() + dec_rep(col) + comma()
        + m.filepath@ + comma() + kind_text(m.kind) + comma() + m.contextstr@ + nl()
}

/// The snippet match record:
/// `MATCH <matchstr>;<snippet>;<line>;<col>;<filepath>;<kind>;<contextstr>`
/// and a newline.
pub open spec fn snippet_record(m: Match, line: nat, col: nat) -> Seq<u8> {
    txt_match_tag() + m.matchstr@ + semi() + m.snippet@ + semi() + dec_rep(line) + semi() + dec_rep(
        col,
    ) + semi() + m.filepath@ + semi() + kind_text(m.kind) + semi() + m.contextstr@ + nl()
}

/// The prefix record: `PREFIX <start>,<end>,<text>` and a newline.
pub open spec fn prefix_record(start: nat, end: nat, text: Seq<u8>) -> Seq<u8> {
    txt_prefix_tag() + dec_rep(start) + comma() + dec_rep(end) + comma() + text + nl()
}

/// The terminator record: `END` and a newline.
pub open spec fn end_record() -> Seq<u8> {
    txt_end_rec()
}

/// Append a whole byte vector.
pub fn append_bytes(out: &mut Vec<u8>, s: &Vec<u8>)
    ensures
        final (out)@ == old(out)@ + s@,
{
    let mut i: usize = 0;
    proof {
        assert(out@ =~= old(out)@ + s@.take(0));
    }
    while i < s.len()
        invariant
            0 <= i <= s@.len(),
            out@ == old(out)@ + s@.take(i as int),
        decreases s@.len() - i,
    {
        out.push(s[i]);
        proof {
            assert(out@ =~= old(out)@ + s@.take(i + 1));
        }
        i = i + 1;
    }
    proof {
        assert(out@ =~= old(out)@ + s@);
    }
}

/// Render a match in the plain record shape, inverse-mapping its point
/// against the contents of its own file; nothing is rendered when the point
/// lies outside those contents.
pub fn render_match(m: &Match, file_src: &Vec<u8>) -> (r: Option<Vec<u8>>)
    requires
        m.matchstr@.len() > 0,
        file_src@.len() < usize::MAX,
    ensures
        match r {
            Some(v) => m.point <= file_src@.len() && v@ == match_record(
                *m,
                line_of_point(file_src@, m.point as int),
                col_of_point(file_src@, m.point as int) as nat,
            ),
            None => m.point > file_src@.len(),
        },
{
    if m.point > file_src.len() {
        return None;
    }
    let (line, col) = point_to_coords(file_src, m.point);
    let mut out: Vec<u8> = Vec::new();
    push_match_tag(&mut out);
    append_bytes(&mut out, &m.matchstr);
    out.push(44);
    let lb = fmt_usize(line);
    append_bytes(&mut out, &lb);
    out.push(44);
    let cb = fmt_usize(col);
    append_bytes(&mut out, &cb);
    out.push(44);
    append_bytes(&mut out, &m.filepath);
    out.push(44);
    push_kind(&mut out, m.kind);
    out.push(44);
    append_bytes(&mut out, &m.contextstr);
    out.push(10);
    proof {
        assert(out@ =~= match_record(
            *m,
            line_of_point(file_src@, m.point as int),
            col_of_point(file_src@, m.point as int) as nat,
        ));
    }
    Some(out)
}

/// Render a match in the snippet record shape; as `render_match`, but with
/// the snippet field and semicolon separators.
pub fn render_match_with_snippet(m: &Match, file_src: &Vec<u8>) -> (r: Option<Vec<u8>>)
    requires
        m.matchstr@.len() > 0,
        file_src@.len() < usize::MAX,
    ensures
        match r {
            Some(v) => m.point <= file_src@.len() && v@ == snippet_record(
                *m,
                line_of_point(file_src@, m.point as int),
                col_of_point(file_src@, m.point as int) as nat,
            ),
            None => m.point > file_src@.len(),
        },
{
    if m.point > file_src.len() {
        return None;
    }
    let (line, col) = point_to_coords(file_src, m.point);
    let mut out: Vec<u8> = Vec::new();
    push_match_tag(&mut out);
    append_bytes(&mut out, &m.matchstr);
    out.push(59);
    append_bytes(&mut out, &m.snippet);
    out.push(59);
    let lb = fmt_usize(line);
    append_bytes(&mut out, &lb);
    out.push(59);
    let cb = fmt_usize(col);
    append_bytes(&mut out, &cb);
    out.push(59);
    append_bytes(&mut out, &m.filepath);
    out.push(59);
    push_kind(&mut out, m.kind);
    out.push(59);
    append_bytes(&mut out, &m.contextstr);
    out.push(10);
    proof {
        assert(out@ =~= snippet_record(
            *m,
            line_of_point(file_src@, m.point as int),
            col_of_point(file_src@, m.point as int) as nat,
        ));
    }
    Some(out)
}

/// Render the prefix record for an expanded identifier range.
pub fn render_prefix(start: usize, end: usize, text: &Vec<u8>) -> (r: Vec<u8>)
    ensures
        r@ == prefix_record(start as nat, end as nat, text@),
{
    let mut out: Vec<u8> = Vec::new();
    push_prefix_tag(&mut out);
    let sb = fmt_usize(start);
    append_bytes(&mut out, &sb);
    out.push(44);
    let eb = fmt_usize(end);
    append_bytes(&mut out, &eb);
    out.push(44);
    append_bytes(&mut out, text);
    out.push(10);
    proof {
        assert(out@ =~= prefix_record(start as nat, end as nat, text@));
    }
    out
}

/// Render the terminator record.
pub fn render_end() -> (r: Vec<u8>)
    ensures
        r@ == end_record(),
{
    let mut out: Vec<u8> = Vec::new();
    push_end_rec(&mut out);
    proof {
        assert(out@ =~= end_record());
    }
    out
}

} // verus!
