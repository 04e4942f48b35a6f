//! Fixed byte texts of the external surface: record tags, the terminator,
//! match-kind names, and command keywords.

use vstd::prelude::*;

verus! {

/// The byte text "PREFIX ".
pub open spec fn txt_prefix_tag() -> Seq<u8> {
    seq![80u8, 82u8, 69u8, 70u8, 73u8, 88u8, 32u8]
}

/// Append the byte text of `txt_prefix_tag` to `out`.
pub fn push_prefix_tag(out: &mut Vec<u8>)
    ensures
        final(out)@ == old(out)@ + txt_prefix_tag(),
{
    out.push(80);
    out.push(82);
    out.push(69);
    out.push(70);
    out.push(73);
    out.push(88);
    out.push(32);
    proof {
        assert(out@ =~= old(out)@ + txt_prefix_tag());
    }
}

/// The byte text "MATCH ".
pub open spec fn txt_match_tag() -> Seq<u8> {
    seq![77u8, 65u8, 84u8, 67u8, 72u8, 32u8]
}

/// Append the byte text of `txt_match_tag` to `out`.
pub fn push_match_tag(out: &mut Vec<u8>)
    ensures
        final(out)@ == old(out)@ + txt_match_tag(),
{
    out.push(77);
    out.push(65);
    out.push(84);
    out.push(67);
    out.push(72);
    out.push(32);
    proof {
        assert(out@ =~= old(out)@ + txt_match_tag());
    }
}

/// The byte text "END\n".
pub open spec fn txt_end_rec() -> Seq<u8> {
    seq![69u8, 78u8, 68u8, 10u8]
}

/// Append the byte text of `txt_end_rec` to `out`.
pub fn push_end_rec(out: &mut Vec<u8>)
    ensures
        final(out)@ == old(out)@ + txt_end_rec(),
{
    out.push(69);
    out.push(78);
    out.push(68);
    out.push(10);
    proof {
        assert(out@ =~= old(out)@ + txt_end_rec());
    }
}

/// The byte text "Struct".
pub open spec fn txt_kind_struct() -> Seq<u8> {
    seq![83u8, 116u8, 114u8, 117u8, 99u8, 116u8]
}

/// Append the byte text of `txt_kind_struct` to `out`.
pub fn push_kind_struct(out: &mut Vec<u8>)
    ensures
        final(out)@ == old(out)@ + txt_kind_struct(),
{
    out.push(83);
    out.push(116);
    out.push(114);
    out.push(117);
    out.push(99);
    out.push(116);
    proof {
        assert(out@ =~= old(out)@ + txt_kind_struct());
    }
}

/// The byte text "Module".
pub open spec fn txt_kind_module() -> Seq<u8> {
    seq![77u8, 111u8, 100u8, 117u8, 108u8, 101u8]
}

/// Append the byte text of `txt_kind_module` to `out`.
pub fn push_kind_module(out: &mut Vec<u8>)
    ensures
        final(out)@ == old(out)@ + txt_kind_module(),
{
    out.push(77);
    out.push(111);
    out.push(100);
    out.push(117);
    out.push(108);
    out.push(101);
    proof {
        assert(out@ =~= old(out)@ + txt_kind_module());
    }
}

/// The byte text "MatchArm".
pub open spec fn txt_kind_match_arm() -> Seq<u8> {
    seq![77u8, 97u8, 116u8, 99u8, 104u8, 65u8, 114u8, 109u8]
}

/// Append the byte text of `txt_kind_match_arm` to `out`.
pub fn push_kind_match_arm(out: &mut Vec<u8>)
    ensures
        final(out)@ == old(out)@ + txt_kind_match_arm(),
{
    out.push(77);
    out.push(97);
    out.push(116);
    out.push(99);
    out.push(104);
    out.push(65);
    out.push(114);
    out.push(109);
    proof {
        assert(out@ =~= old(out)@ + txt_kind_match_arm());
    }
}

/// The byte text "Function".
pub open spec fn txt_kind_function() -> Seq<u8> {
    seq![70u8, 117u8, 110u8, 99u8, 116u8, 105u8, 111u8, 110u8]
}

/// Append the byte text of `txt_kind_function` to `out`.
pub fn push_kind_function(out: &mut Vec<u8>)
    ensures
        final(out)@ == old(out)@ + txt_kind_function(),
{
    out.push(70);
    out.push(117);
    out.push(110);
    out.push(99);
    out.push(116);
    out.push(105);
    out.push(111);
    out.push(110);
    proof {
        assert(out@ =~= old(out)@ + txt_kind_function());
    }
}

/// The byte text "Crate".
pub open spec fn txt_kind_crate() -> Seq<u8> {
    seq![67u8, 114u8, 97u8, 116u8, 101u8]
}

/// Append the byte text of `txt_kind_crate` to `out`.
pub fn push_kind_crate(out: &mut Vec<u8>)
    ensures
        final(out)@ == old(out)@ + txt_kind_crate(),
{
    out.push(67);
    out.push(114);
    out.push(97);
    out.push(116);
    out.push(101);
    proof {
        assert(out@ =~= old(out)@ + txt_kind_crate());
    }
}

/// The byte text "Let".
pub open spec fn txt_kind_let() -> Seq<u8> {
    seq![76u8, 101u8, 116u8]
}

/// Append the byte text of `txt_kind_let` to `out`.
pub fn push_kind_let(out: &mut Vec<u8>)
    ensures
        final(out)@ == old(out)@ + txt_kind_let(),
{
    out.push(76);
    out.push(101);
    out.push(116);
    proof {
        assert(out@ =~= old(out)@ + txt_kind_let());
    }
}

/// The byte text "IfLet".
pub open spec fn txt_kind_if_let() -> Seq<u8> {
    seq![73u8, 102u8, 76u8, 101u8, 116u8]
}

/// Append the byte text of `txt_kind_if_let` to `out`.
pub fn push_kind_if_let(out: &mut Vec<u8>)
    ensures
        final(out)@ == old(out)@ + txt_kind_if_let(),
{
    out.push(73);
    out.push(102);
    out.push(76);
    out.push(101);
    out.push(116);
    proof {
        assert(out@ =~= old(out)@ + txt_kind_if_let());
    }
}

/// The byte text "StructField".
pub open spec fn txt_kind_struct_field() -> Seq<u8> {
    seq![83u8, 116u8, 114u8, 117u8, 99u8, 116u8, 70u8, 105u8, 101u8, 108u8, 100u8]
}

/// Append the byte text of `txt_kind_struct_field` to `out`.
pub fn push_kind_struct_field(out: &mut Vec<u8>)
    ensures
        final(out)@ == old(out)@ + txt_kind_struct_field(),
{
    out.push(83);
    out.push(116);
    out.push(114);
    out.push(117);
    out.push(99);
    out.push(116);
    out.push(70);
    out.push(105);
    out.push(101);
    out.push(108);
    out.push(100);
    proof {
        assert(out@ =~= old(out)@ + txt_kind_struct_field());
    }
}

/// The byte text "Impl".
pub open spec fn txt_kind_impl() -> Seq<u8> {
    seq![73u8, 109u8, 112u8, 108u8]
}

/// Append the byte text of `txt_kind_impl` to `out`.
pub fn push_kind_impl(out: &mut Vec<u8>)
    ensures
        final(out)@ == old(out)@ + txt_kind_impl(),
{
    out.push(73);
    out.push(109);
    out.push(112);
    out.push(108);
    proof {
        assert(out@ =~= old(out)@ + txt_kind_impl());
    }
}

/// The byte text "Enum".
pub open spec fn txt_kind_enum() -> Seq<u8> {
    seq![69u8, 110u8, 117u8, 109u8]
}

/// Append the byte text of `txt_kind_enum` to `out`.
pub fn push_kind_enum(out: &mut Vec<u8>)
    ensures
        final(out)@ == old(out)@ + txt_kind_enum(),
{
    out.push(69);
    out.push(110);
    out.push(117);
    out.push(109);
    proof {
        assert(out@ =~= old(out)@ + txt_kind_enum());
    }
}

/// The byte text "EnumVariant".
pub open spec fn txt_kind_enum_variant() -> Seq<u8> {
    seq![69u8, 110u8, 117u8, 109u8, 86u8, 97u8, 114u8, 105u8, 97u8, 110u8, 116u8]
}

/// Append the byte text of `txt_kind_enum_variant` to `out`.
pub fn push_kind_enum_variant(out: &mut Vec<u8>)
    ensures
        final(out)@ == old(out)@ + txt_kind_enum_variant(),
{
    out.push(69);
    out.push(110);
    out.push(117);
    out.push(109);
    out.push(86);
    out.push(97);
    out.push(114);
    out.push(105);
    out.push(97);
    out.push(110);
    out.push(116);
    proof {
        assert(out@ =~= old(out)@ + txt_kind_enum_variant());
    }
}

/// The byte text "Type".
pub open spec fn txt_kind_type() -> Seq<u8> {
    seq![84u8, 121u8, 112u8, 101u8]
}

/// Append the byte text of `txt_kind_type` to `out`.
pub fn push_kind_type(out: &mut Vec<u8>)
    ensures
        final(out)@ == old(out)@ + txt_kind_type(),
{
    out.push(84);
    out.push(121);
    out.push(112);
    out.push(101);
    proof {
        assert(out@ =~= old(out)@ + txt_kind_type());
    }
}

/// The byte text "FnArg".
pub open spec fn txt_kind_fn_arg() -> Seq<u8> {
    seq![70u8, 110u8, 65u8, 114u8, 103u8]
}

/// Append the byte text of `txt_kind_fn_arg` to `out`.
pub fn push_kind_fn_arg(out: &mut Vec<u8>)
    ensures
        final(out)@ == old(out)@ + txt_kind_fn_arg(),
{
    out.push(70);
    out.push(110);
    out.push(65);
    out.push(114);
    out.push(103);
    proof {
        assert(out@ =~= old(out)@ + txt_kind_fn_arg());
    }
}

/// The byte text "Trait".
pub open spec fn txt_kind_trait() -> Seq<u8> {
    seq![84u8, 114u8, 97u8, 105u8, 116u8]
}

/// Append the byte text of `txt_kind_trait` to `out`.
pub fn push_kind_trait(out: &mut Vec<u8>)
    ensures
        final(out)@ == old(out)@ + txt_kind_trait(),
{
    out.push(84);
    out.push(114);
    out.push(97);
    out.push(105);
    out.push(116);
    proof {
        assert(out@ =~= old(out)@ + txt_kind_trait());
    }
}

/// The byte text "Const".
pub open spec fn txt_kind_const() -> Seq<u8> {
    seq![67u8, 111u8, 110u8, 115u8, 116u8]
}

/// Append the byte text of `txt_kind_const` to `out`.
pub fn push_kind_const(out: &mut Vec<u8>)
    ensures
        final(out)@ == old(out)@ + txt_kind_const(),
{
    out.push(67);
    out.push(111);
    out.push(110);
    out.push(115);
    out.push(116);
    proof {
        assert(out@ =~= old(out)@ + txt_kind_const());
    }
}

/// The byte text "Static".
pub open spec fn txt_kind_static() -> Seq<u8> {
    seq![83u8, 116u8, 97u8, 116u8, 105u8, 99u8]
}

/// Append the byte text of `txt_kind_static` to `out`.
pub fn push_kind_static(out: &mut Vec<u8>)
    ensures
        final(out)@ == old(out)@ + txt_kind_static(),
{
    out.push(83);
    out.push(116);
    out.push(97);
    out.push(116);
    out.push(105);
    out.push(99);
    proof {
        assert(out@ =~= old(out)@ + txt_kind_static());
    }
}

/// The byte text "Macro".
pub open spec fn txt_kind_macro() -> Seq<u8> {
    seq![77u8, 97u8, 99u8, 114u8, 111u8]
}

/// Append the byte text of `txt_kind_macro` to `out`.
pub fn push_kind_macro(out: &mut Vec<u8>)
    ensures
        final(out)@ == old(out)@ + txt_kind_macro(),
{
    out.push(77);
    out.push(97);
    out.push(99);
    out.push(114);
    out.push(111);
    proof {
        assert(out@ =~= old(out)@ + txt_kind_macro());
    }
}

/// The byte text "daemon".
pub open spec fn txt_kw_daemon() -> Seq<u8> {
    seq![100u8, 97u8, 101u8, 109u8, 111u8, 110u8]
}

/// Whether `t` is exactly the byte text of `txt_kw_daemon`.
pub fn is_kw_daemon(t: &Vec<u8>) -> (r: bool)
    ensures
        r == (t@ == txt_kw_daemon()),
{
    let mut eq = t.len() == 6;
    if eq {
        eq = t[0] == 100 && t[1] == 97 && t[2] == 101 && t[3] == 109 && t[4] == 111 && t[5] == 110;
    }
    proof {
        if eq {
            assert(t@ =~= txt_kw_daemon());
        }
    }
    eq
}

/// The byte text "prefix".
pub open spec fn txt_kw_prefix() -> Seq<u8> {
    seq![112u8, 114u8, 101u8, 102u8, 105u8, 120u8]
}

/// Whether `t` is exactly the byte text of `txt_kw_prefix`.
pub fn is_kw_prefix(t: &Vec<u8>) -> (r: bool)
    ensures
        r == (t@ == txt_kw_prefix()),
{
    let mut eq = t.len() == 6;
    if eq {
        eq = t[0] == 112 && t[1] == 114 && t[2] == 101 && t[3] == 102 && t[4] == 105 && t[5] == 120;
    }
    proof {
        if eq {
            assert(t@ =~= txt_kw_prefix());
        }
    }
    eq
}

/// The byte text "complete".
pub open spec fn txt_kw_complete() -> Seq<u8> {
    seq![99u8, 111u8, 109u8, 112u8, 108u8, 101u8, 116u8, 101u8]
}

/// Whether `t` is exactly the byte text of `txt_kw_complete`.
pub fn is_kw_complete(t: &Vec<u8>) -> (r: bool)
    ensures
        r == (t@ == txt_kw_complete()),
{
    let mut eq = t.len() == 8;
    if eq {
        eq = t[0] == 99 && t[1] == 111 && t[2] == 109 && t[3] == 112 && t[4] == 108 && t[5] == 101 && t[6] == 116 && t[7] == 101;
    }
    proof {
        if eq {
            assert(t@ =~= txt_kw_complete());
        }
    }
    eq
}

/// The byte text "complete-with-snippet".
pub open spec fn txt_kw_complete_with_snippet() -> Seq<u8> {
    seq![99u8, 111u8, 109u8, 112u8, 108u8, 101u8, 116u8, 101u8, 45u8, 119u8, 105u8, 116u8, 104u8, 45u8, 115u8, 110u8, 105u8, 112u8, 112u8, 101u8, 116u8]
}

/// Whether `t` is exactly the byte text of `txt_kw_complete_with_snippet`.
pub fn is_kw_complete_with_snippet(t: &Vec<u8>) -> (r: bool)
    ensures
        r == (t@ == txt_kw_complete_with_snippet()),
{
    let mut eq = t.len() == 21;
    if eq {
        eq = t[0] == 99 && t[1] == 111 && t[2] == 109 && t[3] == 112 && t[4] == 108 && t[5] == 101 && t[6] == 116 && t[7] == 101 && t[8] == 45 && t[9] == 119 && t[10] == 105 && t[11] == 116 && t[12] == 104 && t[13] == 45 && t[14] == 115 && t[15] == 110 && t[16] == 105 && t[17] == 112 && t[18] == 112 && t[19] == 101 && t[20] == 116;
    }
    proof {
        if eq {
            assert(t@ =~= txt_kw_complete_with_snippet());
        }
    }
    eq
}

/// The byte text "find-definition".
pub open spec fn txt_kw_find_definition() -> Seq<u8> {
    seq![102u8, 105u8, 110u8, 100u8, 45u8, 100u8, 101u8, 102u8, 105u8, 110u8, 105u8, 116u8, 105u8, 111u8, 110u8]
}

/// Whether `t` is exactly the byte text of `txt_kw_find_definition`.
pub fn is_kw_find_definition(t: &Vec<u8>) -> (r: bool)
    ensures
        r == (t@ == txt_kw_find_definition()),
{
    let mut eq = t.len() == 15;
    if eq {
        eq = t[0] == 102 && t[1] == 105 && t[2] == 110 && t[3] == 100 && t[4] == 45 && t[5] == 100 && t[6] == 101 && t[7] == 102 && t[8] == 105 && t[9] == 110 && t[10] == 105 && t[11] == 116 && t[12] == 105 && t[13] == 111 && t[14] == 110;
    }
    proof {
        if eq {
            assert(t@ =~= txt_kw_find_definition());
        }
    }
    eq
}

/// The byte text "-h".
pub open spec fn txt_kw_help_short() -> Seq<u8> {
    seq![45u8, 104u8]
}

/// Whether `t` is exactly the byte text of `txt_kw_help_short`.
pub fn is_kw_help_short(t: &Vec<u8>) -> (r: bool)
    ensures
        r == (t@ == txt_kw_help_short()),
{
    let mut eq = t.len() == 2;
    if eq {
        eq = t[0] == 45 && t[1] == 104;
    }
    proof {
        if eq {
            assert(t@ =~= txt_kw_help_short());
        }
    }
    eq
}

/// The byte text "--help".
pub open spec fn txt_kw_help_long() -> Seq<u8> {
    seq![45u8, 45u8, 104u8, 101u8, 108u8, 112u8]
}

/// Whether `t` is exactly the byte text of `txt_kw_help_long`.
pub fn is_kw_help_long(t: &Vec<u8>) -> (r: bool)
    ensures
        r == (t@ == txt_kw_help_long()),
{
    let mut eq = t.len() == 6;
    if eq {
        eq = t[0] == 45 && t[1] == 45 && t[2] == 104 && t[3] == 101 && t[4] == 108 && t[5] == 112;
    }
    proof {
        if eq {
            assert(t@ =~= txt_kw_help_long());
        }
    }
    eq
}

/// The byte text "--version".
pub open spec fn txt_kw_version() -> Seq<u8> {
    seq![45u8, 45u8, 118u8, 101u8, 114u8, 115u8, 105u8, 111u8, 110u8]
}

/// Whether `t` is exactly the byte text of `txt_kw_version`.
pub fn is_kw_version(t: &Vec<u8>) -> (r: bool)
    ensures
        r == (t@ == txt_kw_version()),
{
    let mut eq = t.len() == 9;
    if eq {
        eq = t[0] == 45 && t[1] == 45 && t[2] == 118 && t[3] == 101 && t[4] == 114 && t[5] == 115 && t[6] == 105 && t[7] == 111 && t[8] == 110;
    }
    proof {
        if eq {
            assert(t@ =~= txt_kw_version());
        }
    }
    eq
}

/// The byte text "--substitute-file".
pub open spec fn txt_kw_substitute_file() -> Seq<u8> {
    seq![45u8, 45u8, 115u8, 117u8, 98u8, 115u8, 116u8, 105u8, 116u8, 117u8, 116u8, 101u8, 45u8, 102u8, 105u8, 108u8, 101u8]
}

/// Whether `t` is exactly the byte text of `txt_kw_substitute_file`.
pub fn is_kw_substitute_file(t: &Vec<u8>) -> (r: bool)
    ensures
        r == (t@ == txt_kw_substitute_file()),
{
    let mut eq = t.len() == 17;
    if eq {
        eq = t[0] == 45 && t[1] == 45 && t[2] == 115 && t[3] == 117 && t[4] == 98 && t[5] == 115 && t[6] == 116 && t[7] == 105 && t[8] == 116 && t[9] == 117 && t[10] == 116 && t[11] == 101 && t[12] == 45 && t[13] == 102 && t[14] == 105 && t[15] == 108 && t[16] == 101;
    }
    proof {
        if eq {
            assert(t@ =~= txt_kw_substitute_file());
        }
    }
    eq
}

} // verus!
