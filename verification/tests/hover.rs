//! Hover tests over a small fixture store: instruction, register and
//! directive documents, merge order across architectures, and the
//! demangling fallback.

use asm_lsp::hover::{get_hover_resp, HoverResult};
use asm_lsp::store::{build_doc_store, DocStore};
use asm_lsp::text::{resolve_word, WordMode};
use asm_lsp::types::{
    Arch, Assembler, Directive, Instruction, InstructionForm, Operand, Register, Z80Timing,
};

fn chars(s: &str) -> Vec<char> {
    s.chars().collect()
}

fn text(v: &Vec<char>) -> String {
    v.iter().collect()
}

fn cursor(src: &str) -> (Vec<char>, usize, usize) {
    let idx = src.find("<cursor>").expect("no cursor marker");
    let clean: String = format!("{}{}", &src[..idx], &src[idx + "<cursor>".len()..]);
    let before = &src[..idx];
    let line = before.matches('\n').count();
    let col = before.rsplit('\n').next().unwrap().chars().count();
    (clean.chars().collect(), line, col)
}

fn blank_instruction(name: &str, summary: &str, arch: Arch) -> Instruction {
    Instruction {
        name: chars(name),
        alt_names: vec![chars(&name.to_uppercase()), chars(&name.to_lowercase())],
        summary: chars(summary),
        url: None,
        arch: Some(arch),
        forms: Vec::new(),
    }
}

fn blank_form() -> InstructionForm {
    InstructionForm {
        gas_name: None,
        go_name: None,
        z80_name: None,
        mmx_mode: None,
        xmm_mode: None,
        cancelling_inputs: None,
        nacl_version: None,
        nacl_zero_extends_outputs: None,
        isa: None,
        operands: Vec::new(),
        z80_form: None,
        z80_opcode: None,
        z80_timing: None,
        urls: Vec::new(),
    }
}

fn operand(type_: &str, input: Option<bool>, output: Option<bool>) -> Operand {
    Operand { type_: chars(type_), input, output, extended_size: None }
}

fn movlps(arch: Arch) -> Instruction {
    let mut instr = blank_instruction(
        "MOVLPS",
        "Move Low Packed Single-Precision Floating-Point Values",
        arch,
    );
    instr.url = Some(chars("https://www.felixcloutier.com/x86/movlps"));
    let mut f1 = blank_form();
    f1.gas_name = Some(chars("movlps"));
    f1.go_name = Some(chars("MOVLPS"));
    f1.xmm_mode = Some(chars("SSE"));
    f1.isa = Some(chars("SSE"));
    f1.operands.push(operand("xmm", Some(true), Some(true)));
    f1.operands.push(operand("m64", Some(true), Some(false)));
    let mut f2 = blank_form();
    f2.gas_name = Some(chars("movlps"));
    f2.go_name = Some(chars("MOVLPS"));
    f2.xmm_mode = Some(chars("SSE"));
    f2.isa = Some(chars("SSE"));
    f2.operands.push(operand("m64", Some(false), Some(true)));
    f2.operands.push(operand("xmm", Some(true), Some(false)));
    instr.forms.push(f1);
    instr.forms.push(f2);
    instr
}

fn register(name: &str, desc: &str, reg_type: Option<&str>, width: &str, arch: Arch) -> Register {
    Register {
        name: chars(name),
        alt_names: vec![chars(&name.to_uppercase()), chars(&name.to_lowercase())],
        description: Some(chars(desc)),
        reg_type: reg_type.map(chars),
        width: Some(chars(width)),
        flag_info: Vec::new(),
        arch: Some(arch),
    }
}

fn file_directive() -> Directive {
    Directive {
        name: chars(".file"),
        signatures: vec![chars(".file *string*"), chars(".file *fileno filename*")],
        alt_names: vec![chars(".FILE")],
        url: Some(chars("https://sourceware.org/binutils/docs-2.41/as/File.html")),
        description: chars(
            "This version of the `.file` directive tells `as` that we are about to start a new logical file. When emitting DWARF2 line number information, `.file` assigns filenames to the `.debug_line` file name table.",
        ),
        deprecated: false,
        assembler: Some(Assembler::Gas),
    }
}

fn text_directive() -> Directive {
    Directive {
        name: chars(".text"),
        signatures: vec![chars(".text *subsection*")],
        alt_names: vec![chars(".TEXT")],
        url: Some(chars("https://sourceware.org/binutils/docs-2.41/as/Text.html")),
        description: chars(
            "Tells *as* to assemble the following statements onto the end of the text subsection numbered *subsection*, which is an absolute expression. If *subsection* is omitted, subsection number zero is used.",
        ),
        deprecated: false,
        assembler: Some(Assembler::Gas),
    }
}

fn globl_directive() -> Directive {
    Directive {
        name: chars(".globl"),
        signatures: vec![chars(".globl *symbol*")],
        alt_names: vec![chars(".GLOBL")],
        url: Some(chars("https://sourceware.org/binutils/docs-2.41/as/Global.html")),
        description: chars(
            "`.globl` makes the symbol visible to `ld`. If you define symbol in your partial program, its value is made available to other partial programs that are linked with it.",
        ),
        deprecated: false,
        assembler: Some(Assembler::Gas),
    }
}

fn ldi() -> Instruction {
    let mut instr = blank_instruction(
        "ldi",
        "LoaD and Increment. Copies the byte pointed to by HL to the address pointed to by DE, then adds 1 to DE and HL and subtracts 1 from BC. P/V is set to (BC!=0), i.e. set when non zero.",
        Arch::Z80,
    );
    let mut f = blank_form();
    f.z80_form = Some(chars("LDI"));
    f.z80_timing = Some(Z80Timing {
        z80: chars("16"),
        z80_plus_m1: chars("18"),
        r800: chars("4"),
        r800_plus_wait: chars("18"),
    });
    f.urls.push(chars("https://www.zilog.com/docs/z80/z80cpu_um.pdf#LDI"));
    instr.forms.push(f);
    instr
}

fn fixture_store() -> DocStore {
    let mut b_reg = register(
        "B",
        "General purpose register.",
        Some("General Purpose Register"),
        "8 bits",
        Arch::Z80,
    );
    b_reg.alt_names.push(chars("B'"));
    let hl = register(
        "HL",
        "16-bit accumulator/address register or two 8-bit registers.",
        None,
        "16 bits",
        Arch::Z80,
    );
    build_doc_store(
        vec![movlps(Arch::X86)],
        vec![movlps(Arch::X86_64)],
        vec![ldi()],
        vec![
            register(
                "rbp",
                "Stack Base Pointer",
                Some("General Purpose Register"),
                "64 bits",
                Arch::X86,
            ),
            register("rip", "Instruction Pointer", Some("Pointer Register"), "64 bits", Arch::X86),
        ],
        vec![
            register(
                "rbp",
                "Base Pointer (meant for stack frames)",
                Some("General Purpose Register"),
                "64 bits",
                Arch::X86_64,
            ),
            register(
                "rip",
                "Instruction Pointer. Can only be used in RIP-relative addressing.",
                Some("Pointer Register"),
                "64 bits",
                Arch::X86_64,
            ),
        ],
        vec![b_reg, hl],
        vec![file_directive(), text_directive(), globl_directive()],
    )
}

fn hover_markdown(source: &str, demangled: Option<&str>) -> Option<String> {
    let store = fixture_store();
    let (text_doc, line, col) = cursor(source);
    let word = resolve_word(&text_doc, WordMode::Identifier, line, col);
    let file_word = resolve_word(&text_doc, WordMode::FileToken, line, col);
    match get_hover_resp(&store, &word, &file_word, demangled.map(chars)) {
        Some(HoverResult::Markdown(v)) => Some(text(&v)),
        Some(HoverResult::PlainText(v)) => Some(text(&v)),
        None => None,
    }
}

#[test]
fn handle_hover_x86_x86_64_it_provides_instr_info_no_args() {
    let resp = hover_markdown("<cursor>MOVLPS", None).unwrap();
    assert_eq!(
        resp,
        "MOVLPS [x86]
Move Low Packed Single-Precision Floating-Point Values

## Forms

- *GAS*: movlps | *GO*: MOVLPS | *XMM*: SSE | *ISA*: SSE

  + [xmm]    input = true   output = true
  + [m64]    input = true   output = false
- *GAS*: movlps | *GO*: MOVLPS | *XMM*: SSE | *ISA*: SSE

  + [m64]    input = false  output = true
  + [xmm]    input = true   output = false

More info: https://www.felixcloutier.com/x86/movlps

MOVLPS [x86-64]
Move Low Packed Single-Precision Floating-Point Values

## Forms

- *GAS*: movlps | *GO*: MOVLPS | *XMM*: SSE | *ISA*: SSE

  + [xmm]    input = true   output = true
  + [m64]    input = true   output = false
- *GAS*: movlps | *GO*: MOVLPS | *XMM*: SSE | *ISA*: SSE

  + [m64]    input = false  output = true
  + [xmm]    input = true   output = false

More info: https://www.felixcloutier.com/x86/movlps"
    );
}

#[test]
fn handle_hover_x86_x86_64_it_provides_reg_info_normal() {
    let resp = hover_markdown("	pushq	%r<cursor>bp", None).unwrap();
    assert_eq!(
        resp,
        "RBP [x86]
Stack Base Pointer

Type: General Purpose Register
Width: 64 bits

RBP [x86-64]
Base Pointer (meant for stack frames)

Type: General Purpose Register
Width: 64 bits"
    );
}

#[test]
fn handle_hover_x86_x86_64_it_provides_reg_info_offset() {
    let resp = hover_markdown("	movl	%edi, -20(%r<cursor>bp)", None).unwrap();
    assert!(resp.starts_with("RBP [x86]\nStack Base Pointer"));
}

#[test]
fn handle_hover_gas_it_provides_directive_info_1() {
    let resp = hover_markdown("	.f<cursor>ile	\"a.cpp", None).unwrap();
    assert_eq!(
        resp,
        ".file [Gas]
This version of the `.file` directive tells `as` that we are about to start a new logical file. When emitting DWARF2 line number information, `.file` assigns filenames to the `.debug_line` file name table.

- .file *string*
- .file *fileno filename*

More info: https://sourceware.org/binutils/docs-2.41/as/File.html"
    );
}

#[test]
fn handle_hover_gas_it_provides_directive_info_2() {
    let resp = hover_markdown(".<cursor>text", None).unwrap();
    assert_eq!(
        resp,
        ".text [Gas]
Tells *as* to assemble the following statements onto the end of the text subsection numbered *subsection*, which is an absolute expression. If *subsection* is omitted, subsection number zero is used.

- .text *subsection*

More info: https://sourceware.org/binutils/docs-2.41/as/Text.html"
    );
}

#[test]
fn handle_hover_x86_x86_64_it_provies_reg_info_relative_addressing() {
    let resp = hover_markdown("	leaq	_ZSt4cout(%<cursor>rip), %rdi", None).unwrap();
    assert_eq!(
        resp,
        "RIP [x86]
Instruction Pointer

Type: Pointer Register
Width: 64 bits

RIP [x86-64]
Instruction Pointer. Can only be used in RIP-relative addressing.

Type: Pointer Register
Width: 64 bits"
    );
}

#[test]
fn handle_hover_gas_it_provides_directive_info_3() {
    let resp = hover_markdown("	.glob<cursor>l	main", None).unwrap();
    assert_eq!(
        resp,
        ".globl [Gas]
`.globl` makes the symbol visible to `ld`. If you define symbol in your partial program, its value is made available to other partial programs that are linked with it.

- .globl *symbol*

More info: https://sourceware.org/binutils/docs-2.41/as/Global.html"
    );
}

#[test]
fn handle_hover_z80_it_provides_reg_info_normal() {
    let resp = hover_markdown(
        "        LD H<cursor>L, DATA     ;STARTING ADDRESS OF DATA STRING",
        None,
    )
    .unwrap();
    assert_eq!(
        resp,
        "HL [z80]
16-bit accumulator/address register or two 8-bit registers.

Width: 16 bits"
    );
}

#[test]
fn handle_hover_z80_it_provides_instr_info_no_args() {
    let resp = hover_markdown(
        "        LD<cursor>I             ;MOVE CHARACTER (HL) to (DE)",
        None,
    )
    .unwrap();
    assert_eq!(
        resp,
        "ldi [z80]
LoaD and Increment. Copies the byte pointed to by HL to the address pointed to by DE, then adds 1 to DE and HL and subtracts 1 from BC. P/V is set to (BC!=0), i.e. set when non zero.

## Forms

- *Z80*: LDI

  + Z80: 16, Z80 + M1: 18, R800: 4, R800 + Wait: 18
  + More info: https://www.zilog.com/docs/z80/z80cpu_um.pdf#LDI"
    );
}

#[test]
fn handle_hover_z80_it_provides_reg_info_prime() {
    let resp = hover_markdown("        LD B<cursor>', 132      ;MAXIMUM STRING LENGTH", None)
        .unwrap();
    assert_eq!(
        resp,
        "B [z80]
General purpose register.

Type: General Purpose Register
Width: 8 bits"
    );
}

#[test]
fn handle_hover_it_demangles_cpp_1() {
    let resp = hover_markdown(
        "	call	<cursor>_ZStlsISt11char_traitsIcEERSt13basic_ostreamIcT_ES5_PKc@PLT",
        Some("std::basic_ostream<char, std::char_traits<char> >& std::operator<< <std::char_traits<char> >(std::basic_ostream<char, std::char_traits<char> >&, char const*)"),
    ).unwrap();
    assert_eq!(
        resp,
        "std::basic_ostream<char, std::char_traits<char> >& std::operator<< <std::char_traits<char> >(std::basic_ostream<char, std::char_traits<char> >&, char const*)"
    );
}

#[test]
fn handle_hover_it_demangles_cpp_2() {
    let resp = hover_markdown("	leaq	_ZSt4c<cursor>out(%rip), %rdi", Some("std::cout")).unwrap();
    assert_eq!(resp, "std::cout");
}

#[test]
fn handle_hover_it_demangles_cpp_3() {
    let resp = hover_markdown(
        "	movq	_ZSt4endlIcSt<cursor>11char_traitsIcEERSt13basic_ostreamIT_T0_ES6_@GOTPCREL(%rip), %rax",
        Some("std::basic_ostream<char, std::char_traits<char> >& std::endl<char, std::char_traits<char> >(std::basic_ostream<char, std::char_traits<char> >&)"),
    ).unwrap();
    assert_eq!(
        resp,
        "std::basic_ostream<char, std::char_traits<char> >& std::endl<char, std::char_traits<char> >(std::basic_ostream<char, std::char_traits<char> >&)"
    );
}

#[test]
fn handle_hover_x86_x86_64_it_provides_instr_info_one_reg_arg() {
    // immediate-operand forms render the extended size instead of the
    // input/output flags
    let mut push = blank_instruction("PUSH", "Push Value Onto the Stack", Arch::X86);
    push.url = Some(chars("https://www.felixcloutier.com/x86/push"));
    let mut f1 = blank_form();
    f1.gas_name = Some(chars("pushq"));
    let mut imm = operand("imm8", None, None);
    imm.extended_size = Some(4);
    f1.operands.push(imm);
    let mut f2 = blank_form();
    f2.gas_name = Some(chars("pushw"));
    f2.go_name = Some(chars("PUSHW"));
    f2.operands.push(operand("r16", Some(true), Some(false)));
    push.forms.push(f1);
    push.forms.push(f2);
    let store = build_doc_store(
        vec![push],
        Vec::new(),
        Vec::new(),
        Vec::new(),
        Vec::new(),
        Vec::new(),
        Vec::new(),
    );
    let (text_doc, line, col) = cursor("push<cursor>q	%rbp");
    let word = chars("PUSH");
    let file_word = resolve_word(&text_doc, WordMode::FileToken, line, col);
    let resp = match get_hover_resp(&store, &word, &file_word, None) {
        Some(HoverResult::Markdown(v)) => text(&v),
        _ => panic!("expected a markdown hover"),
    };
    assert_eq!(
        resp,
        "PUSH [x86]
Push Value Onto the Stack

## Forms

- *GAS*: pushq

  + [imm8]   extended-size = 4
- *GAS*: pushw | *GO*: PUSHW

  + [r16]    input = true   output = false

More info: https://www.felixcloutier.com/x86/push"
    );
}

#[test]
fn documentation_wins_over_demangling() {
    // a token that is documented keeps its markdown answer even when the
    // demangler would have had something to say
    let resp = hover_markdown("<cursor>MOVLPS", Some("std::something")).unwrap();
    assert!(resp.starts_with("MOVLPS [x86]"));
}

#[test]
fn unknown_token_without_demangling_yields_no_hover() {
    assert_eq!(hover_markdown("<cursor>NOSUCHTHING", None), None);
}

#[test]
fn empty_document_yields_no_hover() {
    let store = fixture_store();
    let empty = Vec::new();
    let word = resolve_word(&empty, WordMode::Identifier, 5, 3);
    assert_eq!(word.len(), 0);
    let resp = get_hover_resp(&store, &word, &word, None);
    assert!(resp.is_none());
}
