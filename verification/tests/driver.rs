//! End-to-end scenarios and unit tests of the driver library, exercised on
//! concrete byte values.

use racer_driver::command::{parse_command, tokenize, Command};
use racer_driver::env_check::{check_src_root, first_src_path, SrcRootStatus};
use racer_driver::handlers::{
    complete_output, find_definition_output, name_mode_output, prefix_output, split_fqn,
};
use racer_driver::numfmt::{fmt_usize, parse_usize};
use racer_driver::record::{render_end, render_match, render_match_with_snippet, Match, MatchKind};
use racer_driver::text::{coords_to_point, expand_ident, get_line, point_to_coords};

fn v(s: &str) -> Vec<u8> {
    s.as_bytes().to_vec()
}

fn mk_match(matchstr: &str, point: usize, filepath: &str, kind: MatchKind, ctx: &str) -> Match {
    Match {
        matchstr: v(matchstr),
        point,
        filepath: v(filepath),
        kind,
        contextstr: v(ctx),
        snippet: Vec::new(),
    }
}

#[test]
fn prefix_mid_identifier() {
    // line 1 of foo.rs is `let hello = 1;`; column 7 sits inside `hello`.
    let src = v("let hello = 1;\n");
    let out = prefix_output(&src, 1, 7).unwrap();
    assert_eq!(out, v("PREFIX 4,9,hello\n"));
}

#[test]
fn prefix_empty_at_whitespace() {
    let src = v("let hello = 1;\n");
    let out = prefix_output(&src, 1, 3).unwrap();
    assert_eq!(out, v("PREFIX 3,3,\n"));
}

#[test]
fn complete_with_zero_matches() {
    let src = v("// empty\n");
    let recs: Vec<Vec<u8>> = Vec::new();
    let out = complete_output(&src, 1, 0, &recs).unwrap();
    assert_eq!(out, v("PREFIX 0,0,\nEND\n"));
}

#[test]
fn find_definition_not_found() {
    let out = find_definition_output(&None);
    assert_eq!(out, v("END\n"));
}

#[test]
fn find_definition_found() {
    let file = v("fn hello() {}\n");
    let m = mk_match("hello", 3, "foo.rs", MatchKind::Function, "fn hello() {}");
    let rec = render_match(&m, &file).unwrap();
    let out = find_definition_output(&Some(rec));
    assert_eq!(out, v("MATCH hello,1,3,foo.rs,Function,fn hello() {}\nEND\n"));
}

#[test]
fn daemon_two_commands() {
    // Two daemon lines; outputs must concatenate in order, identical to the
    // two one-shot invocations.
    let src = v("let hello = 1;\n");
    let mut out: Vec<u8> = Vec::new();
    for line in [v("prefix 1 7 foo.rs\n"), v("prefix 1 3 foo.rs\n")] {
        let toks = tokenize(&line);
        match parse_command(&toks).unwrap() {
            Command::Prefix { linenum, charnum, fname } => {
                assert_eq!(fname, v("foo.rs"));
                out.extend(prefix_output(&src, linenum, charnum).unwrap());
            },
            _ => panic!("expected a prefix command"),
        }
    }
    assert_eq!(out, v("PREFIX 4,9,hello\nPREFIX 3,3,\n"));
}

#[test]
fn daemon_line_equals_one_shot_invocation() {
    // The same command, once as an argument vector and once as a daemon
    // input line, produces byte-identical output.
    let src = v("let hello = 1;
");
    let argv = vec![v("prefix"), v("1"), v("7"), v("foo.rs")];
    let one_shot = match parse_command(&argv).unwrap() {
        Command::Prefix { linenum, charnum, .. } => prefix_output(&src, linenum, charnum).unwrap(),
        _ => panic!("expected a prefix command"),
    };
    let toks = tokenize(&v("prefix 1 7 foo.rs
"));
    assert_eq!(toks, argv);
    let daemon = match parse_command(&toks).unwrap() {
        Command::Prefix { linenum, charnum, .. } => prefix_output(&src, linenum, charnum).unwrap(),
        _ => panic!("expected a prefix command"),
    };
    assert_eq!(one_shot, daemon);
}

#[test]
fn fully_qualified_single_segment() {
    // `complete std`: one segment, so the file-search matches are emitted
    // directly — no PREFIX record and no END record.
    let segs = split_fqn(&v("std"));
    assert_eq!(segs, vec![v("std")]);
    let file = v("pub mod std;\n");
    let m1 = mk_match("std", 8, "lib.rs", MatchKind::Module, "pub mod std;");
    let r1 = render_match(&m1, &file).unwrap();
    let out = name_mode_output(&vec![r1]);
    assert_eq!(out, v("MATCH std,1,8,lib.rs,Module,pub mod std;\n"));
    assert!(!out.windows(7).any(|w| w == b"PREFIX "));
    assert!(!out.windows(4).any(|w| w == b"END\n"));
}

#[test]
fn fully_qualified_unknown_segment_emits_nothing() {
    // Unknown leading segment: the file search yields nothing, and the
    // output is empty.
    let out = name_mode_output(&Vec::new());
    assert_eq!(out, Vec::<u8>::new());
}

#[test]
fn split_fqn_segments() {
    assert_eq!(split_fqn(&v("std::io::Read")), vec![v("std"), v("io"), v("Read")]);
    assert_eq!(split_fqn(&v("one")), vec![v("one")]);
    assert_eq!(split_fqn(&v("a::")), vec![v("a"), v("")]);
    assert_eq!(split_fqn(&v("")), vec![v("")]);
}

#[test]
fn prefix_at_end_of_line() {
    // Column at the line end after a non-identifier byte: empty prefix with
    // start and end both at the line length.
    let src = v("let hello = 1;\n");
    let out = prefix_output(&src, 1, 14).unwrap();
    assert_eq!(out, v("PREFIX 14,14,\n"));
}

#[test]
fn prefix_out_of_range_is_refused() {
    let src = v("let hello = 1;\n");
    assert!(prefix_output(&src, 1, 15).is_none());
    assert!(prefix_output(&src, 3, 0).is_none());
    // Lines are 1-based: line 0 addresses nothing.
    assert!(prefix_output(&src, 0, 0).is_none());
    assert!(coords_to_point(&src, 0, 0).is_none());
    assert!(get_line(&src, 0).is_none());
}

#[test]
fn coords_point_roundtrip() {
    let src = v("fn main() {\n    let x = 1;\n}\n");
    // (4, 0) is the empty position after the final newline.
    for (line, col) in [(1usize, 0usize), (1, 11), (2, 4), (2, 14), (3, 0), (3, 1), (4, 0)] {
        let p = coords_to_point(&src, line, col).unwrap();
        assert_eq!(point_to_coords(&src, p), (line, col));
    }
    // Column just past a line's end is rejected; so is a missing line.
    assert!(coords_to_point(&src, 1, 12).is_none());
    assert!(coords_to_point(&src, 4, 1).is_none());
    assert!(coords_to_point(&src, 5, 0).is_none());
}

#[test]
fn coords_to_point_counts_bytes() {
    let src = v("ab\ncd\n");
    assert_eq!(coords_to_point(&src, 1, 0), Some(0));
    assert_eq!(coords_to_point(&src, 1, 2), Some(2));
    assert_eq!(coords_to_point(&src, 2, 0), Some(3));
    assert_eq!(coords_to_point(&src, 2, 2), Some(5));
}

#[test]
fn get_line_reads_lines() {
    let src = v("first\nsecond\n");
    assert_eq!(get_line(&src, 1), Some(v("first")));
    assert_eq!(get_line(&src, 2), Some(v("second")));
    assert_eq!(get_line(&src, 3), Some(v("")));
    assert_eq!(get_line(&src, 4), None);
    let unterminated = v("only");
    assert_eq!(get_line(&unterminated, 1), Some(v("only")));
    assert_eq!(get_line(&unterminated, 2), None);
}

#[test]
fn expand_ident_ranges() {
    let line = v("let hello = 1;");
    assert_eq!(expand_ident(&line, 7), (4, 9));
    assert_eq!(expand_ident(&line, 4), (4, 9));
    assert_eq!(expand_ident(&line, 8), (4, 9));
    // The cursor anchors the expansion: at whitespace just after an
    // identifier the prefix is empty.
    assert_eq!(expand_ident(&line, 9), (9, 9));
    assert_eq!(expand_ident(&line, 3), (3, 3));
    // At the end of a line there is no byte under the cursor.
    assert_eq!(expand_ident(&v("abc"), 3), (3, 3));
    let line2 = v("a_1+b");
    assert_eq!(expand_ident(&line2, 1), (0, 3));
    assert_eq!(expand_ident(&line2, 4), (4, 5));
}

#[test]
fn fmt_usize_exact() {
    assert_eq!(fmt_usize(0), v("0"));
    assert_eq!(fmt_usize(7), v("7"));
    assert_eq!(fmt_usize(10), v("10"));
    assert_eq!(fmt_usize(12345), v("12345"));
}

#[test]
fn parse_usize_exact() {
    assert_eq!(parse_usize(&v("0")), Some(0));
    assert_eq!(parse_usize(&v("42")), Some(42));
    assert_eq!(parse_usize(&v("007")), Some(7));
    assert_eq!(parse_usize(&v("")), None);
    assert_eq!(parse_usize(&v("4x")), None);
    assert_eq!(parse_usize(&v("-1")), None);
    assert_eq!(parse_usize(&v("99999999999999999999999999")), None);
    assert_eq!(parse_usize(&fmt_usize(987654321)), Some(987654321));
}

#[test]
fn render_match_with_snippet_record() {
    let file = v("fn foo(x: u8) {}\n");
    let mut m = mk_match("foo", 3, "src.rs", MatchKind::Function, "fn foo(x: u8) {}");
    m.snippet = v("foo(${1:x})");
    let rec = render_match_with_snippet(&m, &file).unwrap();
    assert_eq!(rec, v("MATCH foo;foo(${1:x});1;3;src.rs;Function;fn foo(x: u8) {}\n"));
}

#[test]
fn render_match_point_out_of_range() {
    let file = v("short\n");
    let m = mk_match("x", 99, "src.rs", MatchKind::Let, "let x = 1;");
    assert!(render_match(&m, &file).is_none());
}

#[test]
fn render_match_kinds() {
    let file = v("zz\n");
    let cases = [
        (MatchKind::Struct, "Struct"),
        (MatchKind::Module, "Module"),
        (MatchKind::Enum, "Enum"),
        (MatchKind::EnumVariant, "EnumVariant"),
        (MatchKind::Trait, "Trait"),
        (MatchKind::Macro, "Macro"),
        (MatchKind::StructField, "StructField"),
        (MatchKind::Crate, "Crate"),
        (MatchKind::Let, "Let"),
        (MatchKind::IfLet, "IfLet"),
        (MatchKind::MatchArm, "MatchArm"),
        (MatchKind::Impl, "Impl"),
        (MatchKind::Type, "Type"),
        (MatchKind::FnArg, "FnArg"),
        (MatchKind::Const, "Const"),
        (MatchKind::Static, "Static"),
        (MatchKind::Function, "Function"),
    ];
    for (kind, name) in cases {
        let m = mk_match("zz", 0, "f.rs", kind, "c");
        let rec = render_match(&m, &file).unwrap();
        let expected = format!("MATCH zz,1,0,f.rs,{},c\n", name);
        assert_eq!(rec, expected.into_bytes());
    }
}

#[test]
fn complete_output_with_matches() {
    let src = v("st\n");
    let file = v("struct Thing;\n");
    let m = mk_match("Thing", 7, "t.rs", MatchKind::Struct, "struct Thing;");
    let rec = render_match(&m, &file).unwrap();
    let out = complete_output(&src, 1, 1, &vec![rec]).unwrap();
    assert_eq!(out, v("PREFIX 0,2,st\nMATCH Thing,1,7,t.rs,Struct,struct Thing;\nEND\n"));
}

#[test]
fn complete_output_repeats_identically() {
    let src = v("abc\n");
    let recs: Vec<Vec<u8>> = Vec::new();
    let a = complete_output(&src, 1, 1, &recs).unwrap();
    let b = complete_output(&src, 1, 1, &recs).unwrap();
    assert_eq!(a, b);
}

#[test]
fn substitute_changes_prefix_only() {
    // The same match records against two different effective sources: the
    // match lines and the terminator are byte-identical; only the prefix
    // record may differ.
    let file = v("struct Thing;\n");
    let m = mk_match("Thing", 7, "t.rs", MatchKind::Struct, "struct Thing;");
    let rec = render_match(&m, &file).unwrap();
    let out1 = complete_output(&v("th\n"), 1, 2, &vec![rec.clone()]).unwrap();
    let out2 = complete_output(&v("xx yy\n"), 1, 1, &vec![rec]).unwrap();
    let tail1 = &out1[out1.iter().position(|&b| b == b'\n').unwrap() + 1..];
    let tail2 = &out2[out2.iter().position(|&b| b == b'\n').unwrap() + 1..];
    assert_eq!(tail1, tail2);
    assert!(tail1.ends_with(b"END\n"));
}

#[test]
fn end_record_exact() {
    assert_eq!(render_end(), v("END\n"));
}

#[test]
fn tokenize_daemon_lines() {
    assert_eq!(tokenize(&v("prefix 1 7 foo.rs\n")), vec![v("prefix"), v("1"), v("7"), v("foo.rs")]);
    assert_eq!(tokenize(&v("daemon")), vec![v("daemon")]);
    assert_eq!(tokenize(&v("a  b")), vec![v("a"), v(""), v("b")]);
    assert_eq!(tokenize(&v(" x \n")), vec![v(""), v("x"), v("")]);
    assert_eq!(tokenize(&v("")), vec![v("")]);
}

fn parse_line(line: &str) -> Option<Command> {
    let toks: Vec<Vec<u8>> = line.split(' ').map(|t| v(t)).collect();
    parse_command(&toks)
}

#[test]
fn parse_commands() {
    assert!(matches!(parse_line("daemon"), Some(Command::Daemon)));
    assert!(matches!(parse_line("-h"), Some(Command::Help)));
    assert!(matches!(parse_line("--help"), Some(Command::Help)));
    assert!(matches!(parse_line("--version"), Some(Command::Version)));
    match parse_line("prefix 1 7 foo.rs") {
        Some(Command::Prefix { linenum, charnum, fname }) => {
            assert_eq!((linenum, charnum, fname), (1, 7, v("foo.rs")));
        },
        other => panic!("bad decode: {:?}", other.is_some()),
    }
    match parse_line("complete 2 3 a.rs") {
        Some(Command::Complete { linenum, charnum, fname, substitute, with_snippet }) => {
            assert_eq!((linenum, charnum), (2, 3));
            assert_eq!(fname, v("a.rs"));
            assert!(substitute.is_none());
            assert!(!with_snippet);
        },
        other => panic!("bad decode: {:?}", other.is_some()),
    }
    match parse_line("complete 2 3 a.rs --substitute-file b.rs") {
        Some(Command::Complete { substitute, with_snippet, .. }) => {
            assert_eq!(substitute, Some(v("b.rs")));
            assert!(!with_snippet);
        },
        other => panic!("bad decode: {:?}", other.is_some()),
    }
    match parse_line("complete-with-snippet 2 3 a.rs") {
        Some(Command::Complete { with_snippet, .. }) => assert!(with_snippet),
        other => panic!("bad decode: {:?}", other.is_some()),
    }
    match parse_line("complete std::io") {
        Some(Command::CompleteName { name, with_snippet }) => {
            assert_eq!(name, v("std::io"));
            assert!(!with_snippet);
        },
        other => panic!("bad decode: {:?}", other.is_some()),
    }
    match parse_line("complete-with-snippet std") {
        Some(Command::CompleteName { name, with_snippet }) => {
            assert_eq!(name, v("std"));
            assert!(with_snippet);
        },
        other => panic!("bad decode: {:?}", other.is_some()),
    }
    match parse_line("find-definition 9 0 m.rs") {
        Some(Command::FindDefinition { linenum, charnum, fname, substitute }) => {
            assert_eq!((linenum, charnum, fname), (9, 0, v("m.rs")));
            assert!(substitute.is_none());
        },
        other => panic!("bad decode: {:?}", other.is_some()),
    }
}

#[test]
fn parse_rejects_malformed_invocations() {
    assert!(parse_line("frobnicate").is_none());
    assert!(parse_line("").is_none());
    assert!(parse_line("prefix 1 7").is_none());
    assert!(parse_line("prefix x 7 foo.rs").is_none());
    assert!(parse_line("prefix 1 7 foo.rs extra").is_none());
    assert!(parse_line("complete").is_none());
    assert!(parse_line("complete 1 2").is_none());
    assert!(parse_line("complete 1 2 f.rs --wrong-flag s.rs").is_none());
    assert!(parse_line("find-definition std").is_none());
    assert!(parse_line("daemon extra").is_none());
    assert!(parse_line("prefix 99999999999999999999999999 0 f.rs").is_none());
}

#[test]
fn src_root_check_verdicts() {
    assert_eq!(check_src_root(false, false, false), SrcRootStatus::Unset);
    assert_eq!(check_src_root(true, false, false), SrcRootStatus::RootMissing);
    assert_eq!(check_src_root(true, true, false), SrcRootStatus::StdlibMissing);
    assert_eq!(check_src_root(true, true, true), SrcRootStatus::Usable);
}

#[test]
fn first_src_path_takes_first_entry() {
    assert_eq!(first_src_path(&v("/a/src:/b/src")), v("/a/src"));
    assert_eq!(first_src_path(&v("/only")), v("/only"));
    assert_eq!(first_src_path(&v(":/b")), v(""));
    assert_eq!(first_src_path(&v("")), v(""));
}
