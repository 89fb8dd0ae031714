//! Cursor-to-token resolution tests: both extraction modes, expansion in
//! the middle of a token, register-offset and relative-addressing syntax,
//! and malformed positions.

use asm_lsp::text::{resolve_word, WordMode};

fn chars(s: &str) -> Vec<char> {
    s.chars().collect()
}

fn text(v: &Vec<char>) -> String {
    v.iter().collect()
}

fn cursor(src: &str) -> (Vec<char>, usize, usize) {
    let idx = src.find("<cursor>").expect("no cursor marker");
    let clean: String = format!("{}{}", &src[..idx], &src[idx + "<cursor>".len()..]);
    let before = &src[..idx];
    let line = before.matches('\n').count();
    let col = before.rsplit('\n').next().unwrap().chars().count();
    (clean.chars().collect(), line, col)
}

fn word_at(src: &str, mode: WordMode) -> String {
    let (doc, line, col) = cursor(src);
    text(&resolve_word(&doc, mode, line, col))
}

#[test]
fn resolves_word_at_line_start() {
    assert_eq!(word_at("<cursor>MOVLPS", WordMode::Identifier), "MOVLPS");
}

#[test]
fn resolves_word_with_cursor_mid_token() {
    assert_eq!(word_at("push<cursor>q\t%rbp", WordMode::Identifier), "pushq");
}

#[test]
fn register_offset_syntax_resolves_to_the_register() {
    // context disambiguation: the token inside -20(%rbp) is rbp, not the
    // offset or the whole expression
    assert_eq!(
        word_at("\tmovl\t%edi, -20(%r<cursor>bp)", WordMode::Identifier),
        "rbp"
    );
}

#[test]
fn relative_addressing_resolves_to_the_register() {
    assert_eq!(
        word_at("\tleaq\t_ZSt4cout(%<cursor>rip), %rdi", WordMode::Identifier),
        "rip"
    );
}

#[test]
fn identifier_mode_stops_at_the_dot() {
    assert_eq!(word_at("\t.f<cursor>ile\t\"a.cpp", WordMode::Identifier), "file");
}

#[test]
fn file_mode_keeps_the_dot() {
    assert_eq!(word_at("\t.f<cursor>ile\t\"a.cpp", WordMode::FileToken), ".file");
}

#[test]
fn file_mode_keeps_a_filename_whole() {
    assert_eq!(word_at("\t.file\t\"a.c<cursor>pp\"", WordMode::FileToken), "\"a.cpp\"");
}

#[test]
fn mangled_symbols_resolve_whole() {
    assert_eq!(
        word_at("\tleaq\t_ZSt4c<cursor>out(%rip), %rdi", WordMode::Identifier),
        "_ZSt4cout"
    );
}

#[test]
fn second_line_positions_resolve() {
    assert_eq!(
        word_at("main:\n\tpu<cursor>shq\t%rbp", WordMode::Identifier),
        "pushq"
    );
}

#[test]
fn line_out_of_range_yields_the_empty_token() {
    let doc = chars("only one line");
    assert_eq!(text(&resolve_word(&doc, WordMode::Identifier, 3, 0)), "");
}

#[test]
fn column_out_of_range_yields_the_empty_token() {
    let doc = chars("ab");
    assert_eq!(text(&resolve_word(&doc, WordMode::Identifier, 0, 10)), "");
}

#[test]
fn cursor_on_whitespace_yields_the_empty_token() {
    assert_eq!(word_at("mov <cursor> eax", WordMode::Identifier), "");
}

#[test]
fn empty_document_yields_the_empty_token() {
    let doc: Vec<char> = Vec::new();
    assert_eq!(text(&resolve_word(&doc, WordMode::Identifier, 0, 0)), "");
}
