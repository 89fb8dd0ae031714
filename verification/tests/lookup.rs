//! Index and filter tests: primary-over-alias binding, case-invariant
//! lookup, and configuration filtering.

use asm_lsp::complete::{get_completes, CompletionKind};
use asm_lsp::filter::{instr_filter_targets, instr_filter_targets_all};
use asm_lsp::index::{populate_name_to_instruction_map, NameIndex, Target};
use asm_lsp::store::build_doc_store;
use asm_lsp::types::{
    Arch, Assembler, Assemblers, Instruction, InstructionForm, InstructionSets, TargetConfig,
};

fn chars(s: &str) -> Vec<char> {
    s.chars().collect()
}

fn instruction(name: &str, arch: Arch) -> Instruction {
    Instruction {
        name: chars(name),
        alt_names: vec![chars(&name.to_uppercase()), chars(&name.to_lowercase())],
        summary: chars("summary"),
        url: None,
        arch: Some(arch),
        forms: Vec::new(),
    }
}

fn blank_form() -> InstructionForm {
    InstructionForm {
        gas_name: None,
        go_name: None,
        z80_name: None,
        mmx_mode: None,
        xmm_mode: None,
        cancelling_inputs: None,
        nacl_version: None,
        nacl_zero_extends_outputs: None,
        isa: None,
        operands: Vec::new(),
        z80_form: None,
        z80_opcode: None,
        z80_timing: None,
        urls: Vec::new(),
    }
}

fn all_targets() -> TargetConfig {
    TargetConfig {
        assemblers: Assemblers { gas: true, go: true, z80: true },
        instruction_sets: InstructionSets { x86: true, x86_64: true, z80: true },
    }
}

#[test]
fn primary_name_beats_a_later_alias() {
    // "mova" is the primary name of the first entry and an alias of the
    // second: lookup must return the first, whatever the insertion order
    // of the alias
    let a = instruction("mova", Arch::X86);
    let mut b = instruction("movb", Arch::X86);
    b.alt_names.push(chars("mova"));
    let mut index = NameIndex::new();
    populate_name_to_instruction_map(Arch::X86, &vec![a, b], &mut index);
    assert_eq!(index.lookup(Target::Arch(Arch::X86), &chars("mova")), Some(0));
    assert_eq!(index.lookup(Target::Arch(Arch::X86), &chars("movb")), Some(1));
}

#[test]
fn primary_name_beats_an_earlier_alias() {
    let mut b = instruction("movb", Arch::X86);
    b.alt_names.push(chars("mova"));
    let a = instruction("mova", Arch::X86);
    let mut index = NameIndex::new();
    populate_name_to_instruction_map(Arch::X86, &vec![b, a], &mut index);
    assert_eq!(index.lookup(Target::Arch(Arch::X86), &chars("mova")), Some(1));
}

#[test]
fn lookup_is_case_invariant() {
    let store = build_doc_store(
        vec![instruction("MovQ", Arch::X86)],
        Vec::new(),
        Vec::new(),
        Vec::new(),
        Vec::new(),
        Vec::new(),
        Vec::new(),
    );
    let as_written = store.lookup_instruction(Arch::X86, &chars("MovQ")).unwrap();
    assert_eq!(as_written.name, chars("MovQ"));
    let upper = store.lookup_instruction(Arch::X86, &chars("MOVQ")).unwrap();
    assert_eq!(upper.name, chars("MovQ"));
    let lower = store.lookup_instruction(Arch::X86, &chars("movq")).unwrap();
    assert_eq!(lower.name, chars("MovQ"));
}

#[test]
fn architectures_are_distinct_index_keys() {
    let store = build_doc_store(
        vec![instruction("movq", Arch::X86)],
        vec![instruction("movq", Arch::X86_64)],
        Vec::new(),
        Vec::new(),
        Vec::new(),
        Vec::new(),
        Vec::new(),
    );
    let x86 = store.lookup_instruction(Arch::X86, &chars("movq")).unwrap();
    assert_eq!(x86.arch, Some(Arch::X86));
    let x86_64 = store.lookup_instruction(Arch::X86_64, &chars("movq")).unwrap();
    assert_eq!(x86_64.arch, Some(Arch::X86_64));
    assert!(store.lookup_instruction(Arch::Z80, &chars("movq")).is_none());
}

#[test]
fn filtering_with_everything_enabled_drops_no_form() {
    let mut instr = instruction("movq", Arch::X86);
    let mut f1 = blank_form();
    f1.gas_name = Some(chars("movq"));
    let mut f2 = blank_form();
    f2.go_name = Some(chars("MOVQ"));
    instr.forms.push(f1);
    instr.forms.push(f2);
    let filtered = instr_filter_targets(instr, &all_targets());
    assert_eq!(filtered.forms.len(), 2);
    assert_eq!(filtered.forms[0].gas_name, Some(chars("movq")));
    assert_eq!(filtered.forms[1].go_name, Some(chars("MOVQ")));
}

#[test]
fn filtering_twice_equals_filtering_once() {
    let mut config = all_targets();
    config.assemblers.go = false;
    let mut instr = instruction("movq", Arch::X86);
    let mut f1 = blank_form();
    f1.gas_name = Some(chars("movq"));
    f1.go_name = Some(chars("MOVQ"));
    let mut f2 = blank_form();
    f2.go_name = Some(chars("MOVQ"));
    instr.forms.push(f1);
    instr.forms.push(f2);
    let once = instr_filter_targets(instr, &config);
    assert_eq!(once.forms.len(), 1);
    assert_eq!(once.forms[0].gas_name, Some(chars("movq")));
    assert_eq!(once.forms[0].go_name, None);
    let twice = instr_filter_targets(once, &config);
    assert_eq!(twice.forms.len(), 1);
    assert_eq!(twice.forms[0].gas_name, Some(chars("movq")));
    assert_eq!(twice.forms[0].go_name, None);
}

#[test]
fn instructions_without_surviving_forms_are_dropped() {
    let mut config = all_targets();
    config.assemblers.go = false;
    let mut keeps = instruction("adda", Arch::X86);
    let mut f = blank_form();
    f.gas_name = Some(chars("adda"));
    keeps.forms.push(f);
    let mut goes = instruction("addb", Arch::X86);
    let mut g = blank_form();
    g.go_name = Some(chars("ADDB"));
    goes.forms.push(g);
    let kept = instr_filter_targets_all(vec![keeps, goes], &config);
    assert_eq!(kept.len(), 1);
    assert_eq!(kept[0].name, chars("adda"));
}

#[test]
fn case_variants_resolve_after_ingestion() {
    // the case-variant alias names an ingested instruction carries come
    // from real case conversion: both variants must reach the entry
    let xml = "<InstructionSet name=\"x86\">\
        <Instruction name=\"MovLpS\" summary=\"m\"></Instruction>\
        </InstructionSet>";
    let instrs = asm_lsp::parser::populate_instructions(&chars(xml)).unwrap();
    let store = build_doc_store(
        instrs,
        Vec::new(),
        Vec::new(),
        Vec::new(),
        Vec::new(),
        Vec::new(),
        Vec::new(),
    );
    assert!(store.lookup_instruction(Arch::X86, &chars("MovLpS")).is_some());
    assert!(store.lookup_instruction(Arch::X86, &chars("MOVLPS")).is_some());
    assert!(store.lookup_instruction(Arch::X86, &chars("movlps")).is_some());
    assert!(store.lookup_instruction(Arch::X86, &chars("MoVlPs")).is_none());
}

#[test]
fn form_display_names_resolve_to_their_instruction() {
    // each form's assembler display name is an alias of its instruction
    let mut push = instruction("PUSH", Arch::X86);
    let mut f = blank_form();
    f.gas_name = Some(chars("pushq"));
    f.go_name = Some(chars("PUSHQ"));
    push.forms.push(f);
    let store = build_doc_store(
        vec![push],
        Vec::new(),
        Vec::new(),
        Vec::new(),
        Vec::new(),
        Vec::new(),
        Vec::new(),
    );
    let by_gas = store.lookup_instruction(Arch::X86, &chars("pushq")).unwrap();
    assert_eq!(by_gas.name, chars("PUSH"));
    let by_go = store.lookup_instruction(Arch::X86, &chars("PUSHQ")).unwrap();
    assert_eq!(by_go.name, chars("PUSH"));
    assert!(store.lookup_instruction(Arch::X86, &chars("pushw")).is_none());
}

#[test]
fn completion_candidates_include_form_display_names() {
    let mut push = instruction("PUSH", Arch::X86);
    let mut f = blank_form();
    f.gas_name = Some(chars("pushq"));
    push.forms.push(f);
    let store = build_doc_store(
        vec![push],
        Vec::new(),
        Vec::new(),
        Vec::new(),
        Vec::new(),
        Vec::new(),
        Vec::new(),
    );
    let items = get_completes(&store.names_to_instructions, CompletionKind::Operation);
    let labels: Vec<String> = items.iter().map(|c| c.label.iter().collect()).collect();
    assert!(labels.contains(&"PUSH".to_string()));
    assert!(labels.contains(&"push".to_string()));
    assert!(labels.contains(&"pushq".to_string()));
}

#[test]
fn directive_index_is_keyed_by_assembler() {
    let store = build_doc_store(
        Vec::new(),
        Vec::new(),
        Vec::new(),
        Vec::new(),
        Vec::new(),
        Vec::new(),
        vec![asm_lsp::types::Directive {
            name: chars(".file"),
            signatures: Vec::new(),
            alt_names: vec![chars(".FILE")],
            url: None,
            description: chars("d"),
            deprecated: false,
            assembler: Some(Assembler::Gas),
        }],
    );
    assert!(store.lookup_directive(Assembler::Gas, &chars(".file")).is_some());
    assert!(store.lookup_directive(Assembler::Gas, &chars(".FILE")).is_some());
    assert!(store.lookup_directive(Assembler::Go, &chars(".file")).is_none());
}
