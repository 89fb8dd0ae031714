//! Completion tests over fixture candidate lists: trigger-character
//! classification, lexical-context classification, and prefix narrowing.

use asm_lsp::complete::{get_comp_resp, CompletionItem, CompletionKind, CompletionTrigger};

fn chars(s: &str) -> Vec<char> {
    s.chars().collect()
}

fn cursor(src: &str) -> (Vec<char>, usize, usize) {
    let idx = src.find("<cursor>").expect("no cursor marker");
    let clean: String = format!("{}{}", &src[..idx], &src[idx + "<cursor>".len()..]);
    let before = &src[..idx];
    let line = before.matches('\n').count();
    let col = before.rsplit('\n').next().unwrap().chars().count();
    (clean.chars().collect(), line, col)
}

fn items(labels: &[&str], kind: CompletionKind) -> Vec<CompletionItem> {
    labels.iter().map(|l| CompletionItem { label: chars(l), kind }).collect()
}

fn fixture_instr_items() -> Vec<CompletionItem> {
    items(
        &["sub", "shr", "movq", "pushq", "leaq", "LD", "ld", "LDI", "ldi", "CP", "cp"],
        CompletionKind::Operation,
    )
}

fn fixture_dir_items() -> Vec<CompletionItem> {
    items(&[".file", ".FILE", ".text", ".globl"], CompletionKind::Operation)
}

fn fixture_reg_items() -> Vec<CompletionItem> {
    items(&["rbp", "rsp", "rip", "edi", "A", "B", "HL"], CompletionKind::Register)
}

fn complete(source: &str, trigger: CompletionTrigger) -> Vec<CompletionItem> {
    let (text, line, col) = cursor(source);
    get_comp_resp(
        &text,
        line,
        col,
        trigger,
        &fixture_instr_items(),
        &fixture_dir_items(),
        &fixture_reg_items(),
    )
}

fn assert_all_kind(resp: &Vec<CompletionItem>, kind: CompletionKind) {
    assert!(!resp.is_empty());
    for item in resp {
        assert!(item.kind == kind);
    }
}

fn assert_instruction_comps(source: &str, trigger: CompletionTrigger) {
    let resp = complete(source, trigger);
    assert_all_kind(&resp, CompletionKind::Operation);
}

fn assert_register_comps(source: &str, trigger: CompletionTrigger) {
    let resp = complete(source, trigger);
    assert_all_kind(&resp, CompletionKind::Register);
}

fn assert_directive_comps(source: &str, trigger: CompletionTrigger) {
    let resp = complete(source, trigger);
    assert_all_kind(&resp, CompletionKind::Operation);
}

#[test]
fn handle_autocomplete_x86_x86_64_it_provides_instr_comps_one_character_start() {
    assert_instruction_comps("s<cursor>", CompletionTrigger::Invoked);
}

#[test]
fn handle_autocomplete_x86_x86_64_it_provides_reg_comps_after_percent_symbol() {
    assert_register_comps("pushq %<cursor>", CompletionTrigger::Character('%'));
}

#[test]
fn handle_autocomplete_x86_x86_64_it_provides_reg_comps_in_existing_reg_arg_1() {
    assert_register_comps("pushq %rb<cursor>", CompletionTrigger::Invoked);
}

#[test]
fn handle_autocomplete_x86_x86_64_it_provides_reg_comps_in_existing_reg_arg_2() {
    assert_register_comps("	movq	%rs<cursor>, %rbp", CompletionTrigger::Invoked);
}

#[test]
fn handle_autocomplete_x86_x86_64_it_provides_reg_comps_in_existing_reg_arg_3() {
    assert_register_comps("	movq	%rsp, %rb<cursor>", CompletionTrigger::Invoked);
}

#[test]
fn handle_autocomplete_x86_x86_64_it_provides_reg_comps_in_existing_offset_arg() {
    assert_register_comps("	movl	%edi, -20(%r<cursor>)", CompletionTrigger::Invoked);
}

#[test]
fn handle_autocomplete_x86_x86_64_it_provides_reg_comps_in_existing_relative_addressing_arg() {
    assert_register_comps("	leaq	_ZSt4cout(%ri<cursor>), %rdi", CompletionTrigger::Invoked);
}

#[test]
fn handle_autocomplete_gas_it_provides_directive_completes_1() {
    assert_directive_comps("	.fi<cursor>", CompletionTrigger::Invoked);
}

#[test]
fn handle_autocomplete_gas_it_provides_directive_completes_2() {
    assert_directive_comps("	.fil<cursor>	\"a.cpp\"", CompletionTrigger::Invoked);
}

#[test]
fn handle_autocomplete_gas_it_provides_directive_completes_3() {
    assert_directive_comps(".<cursor>", CompletionTrigger::Character('.'));
}

#[test]
fn handle_autocomplete_z80_it_provides_instr_comps_one_character_start() {
    assert_instruction_comps("L<cursor>", CompletionTrigger::Invoked);
}

#[test]
fn handle_autocomplete_z80_it_provides_reg_comps_after_one_character() {
    assert_register_comps("pushq %<cursor>", CompletionTrigger::Character('%'));
}

#[test]
fn handle_autocomplete_z80_it_provides_reg_comps_in_existing_reg_arg_1() {
    assert_register_comps("LD A<cursor>", CompletionTrigger::Invoked);
}

#[test]
fn handle_autocomplete_z80_it_provides_reg_comps_in_existing_reg_arg_2() {
    assert_register_comps(
        "        LD H<cursor>, DATA     ;STARTING ADDRESS OF DATA STRING",
        CompletionTrigger::Invoked,
    );
}

#[test]
fn handle_autocomplete_z80_it_provides_reg_comps_in_existing_reg_arg_3() {
    assert_register_comps(
        "        CP (H<cursor>)         ;COMPARE MEMORY CONTENTS WITH",
        CompletionTrigger::Invoked,
    );
}

#[test]
fn register_sigil_trigger_returns_the_whole_register_list() {
    let resp = complete("pushq %<cursor>", CompletionTrigger::Character('%'));
    assert_eq!(resp.len(), fixture_reg_items().len());
    assert_all_kind(&resp, CompletionKind::Register);
}

#[test]
fn directive_sigil_trigger_returns_the_whole_directive_list() {
    let resp = complete(".<cursor>", CompletionTrigger::Character('.'));
    assert_eq!(resp.len(), fixture_dir_items().len());
    assert_all_kind(&resp, CompletionKind::Operation);
}

#[test]
fn mnemonic_prefix_narrows_the_candidates() {
    let resp = complete("s<cursor>", CompletionTrigger::Invoked);
    let labels: Vec<String> = resp.iter().map(|c| c.label.iter().collect()).collect();
    assert_eq!(labels, vec!["sub".to_string(), "shr".to_string()]);
}

#[test]
fn directive_prefix_narrows_to_directives() {
    let resp = complete("	.fi<cursor>", CompletionTrigger::Invoked);
    let labels: Vec<String> = resp.iter().map(|c| c.label.iter().collect()).collect();
    assert_eq!(labels, vec![".file".to_string()]);
}

#[test]
fn empty_prefix_yields_the_full_union() {
    let resp = complete("<cursor>", CompletionTrigger::Invoked);
    assert_eq!(resp.len(), fixture_instr_items().len() + fixture_dir_items().len());
}

#[test]
fn malformed_position_yields_no_candidates() {
    let resp = get_comp_resp(
        &chars("one line"),
        7,
        0,
        CompletionTrigger::Invoked,
        &fixture_instr_items(),
        &fixture_dir_items(),
        &fixture_reg_items(),
    );
    assert!(resp.is_empty());
}
