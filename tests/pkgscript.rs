use pkg::pkgscript::{Instruction, Parser, ScriptError};

#[test]
fn parses_package_as_and_publish() {
    let script = Parser::parse("PACKAGE sources/foo-1.0.0/bin/foo AS foo\nPUBLISH foo").unwrap();
    assert_eq!(script.body.len(), 2);
    match &script.body[0] {
        Instruction::Package { source, target } => {
            assert_eq!(source, "sources/foo-1.0.0/bin/foo");
            assert_eq!(target.as_deref(), Some("foo"));
        }
        other => panic!("unexpected {:?}", other),
    }
    match &script.body[1] {
        Instruction::Publish { target } => assert_eq!(target, "foo"),
        other => panic!("unexpected {:?}", other),
    }
}

#[test]
fn package_without_target() {
    let script = Parser::parse("  PACKAGE bin/tool\n\n").unwrap();
    assert_eq!(script.body.len(), 1);
    assert!(matches!(&script.body[0], Instruction::Package { source, target: None } if source == "bin/tool"));
}

#[test]
fn empty_script_has_no_instructions() {
    assert_eq!(Parser::parse("").unwrap().body.len(), 0);
    assert_eq!(Parser::parse(" \t\n").unwrap().body.len(), 0);
}

#[test]
fn any_unicode_whitespace_separates() {
    let script = Parser::parse("PUBLISH\u{3000}a\u{2028}PUBLISH\tb").unwrap();
    assert_eq!(script.body.len(), 2);
    assert!(matches!(&script.body[1], Instruction::Publish { target } if target == "b"));
}

#[test]
fn unknown_instruction_is_refused() {
    let r = Parser::parse("PACKAGE a\nCOPY b c");
    assert!(matches!(r, Err(ScriptError::UnknownInstruction { ref name }) if name == "COPY"));
}

#[test]
fn missing_paths_are_refused() {
    assert!(matches!(Parser::parse("PUBLISH"), Err(ScriptError::MissingPath { ref after }) if after == "PUBLISH"));
    assert!(matches!(Parser::parse("PACKAGE"), Err(ScriptError::MissingPath { ref after }) if after == "PACKAGE"));
    assert!(matches!(Parser::parse("PACKAGE a AS"), Err(ScriptError::MissingPath { ref after }) if after == "AS"));
}

#[test]
fn instruction_descriptions() {
    let script = Parser::parse("PACKAGE a AS b PACKAGE c PUBLISH b").unwrap();
    let lines: Vec<String> = script.body.iter().map(|i| i.describe()).collect();
    assert_eq!(lines, vec!["PACKAGE 'a' AS 'b'", "PACKAGE 'c'", "PUBLISH 'b'"]);
}
