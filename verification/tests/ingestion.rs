//! Ingestion tests: parsing reference documents into the data model, the
//! error cases, entity expansion, and documentation-link attachment.

use asm_lsp::docs::{attach_docs_urls, docs_body_is_valid, docs_fetch_plan, get_x86_docs_url, DocsSource};
use asm_lsp::parser::{populate_directives, populate_instructions, populate_registers, unescape_chars};
use asm_lsp::types::{Arch, Assembler, ParseError};

fn chars(s: &str) -> Vec<char> {
    s.chars().collect()
}

fn text(v: &Vec<char>) -> String {
    v.iter().collect()
}

fn opt_text(v: &Option<Vec<char>>) -> Option<String> {
    v.as_ref().map(|x| x.iter().collect())
}

const INSTR_XML: &str = "<?xml version=\"1.0\" encoding=\"utf-8\"?>\n\
<InstructionSet name=\"x86\">\n\
  <Instruction name=\"ADD\" summary=\"Add\">\n\
    <InstructionForm gas-name=\"addb\" go-name=\"ADDB\" mmx-mode=\"MMX\" xmm-mode=\"SSE\" cancelling-inputs=\"false\">\n\
      <Operand type=\"imm8\" input=\"true\" output=\"false\" extended-size=\"4\" />\n\
      <ISA id=\"SSE2\" />\n\
    </InstructionForm>\n\
  </Instruction>\n\
</InstructionSet>\n";

#[test]
fn parses_one_x86_instruction() {
    let instrs = populate_instructions(&chars(INSTR_XML)).unwrap();
    assert_eq!(instrs.len(), 1);
    let add = &instrs[0];
    assert_eq!(text(&add.name), "ADD");
    assert_eq!(add.alt_names.len(), 2);
    assert_eq!(text(&add.alt_names[0]), "ADD");
    assert_eq!(text(&add.alt_names[1]), "add");
    assert_eq!(text(&add.summary), "Add");
    assert_eq!(add.arch, Some(Arch::X86));
    assert_eq!(add.forms.len(), 1);
    let form = &add.forms[0];
    assert_eq!(opt_text(&form.gas_name), Some("addb".to_string()));
    assert_eq!(opt_text(&form.go_name), Some("ADDB".to_string()));
    assert_eq!(opt_text(&form.mmx_mode), Some("MMX".to_string()));
    assert_eq!(opt_text(&form.xmm_mode), Some("SSE".to_string()));
    assert_eq!(form.cancelling_inputs, Some(false));
    assert_eq!(opt_text(&form.isa), Some("SSE2".to_string()));
    assert_eq!(form.operands.len(), 1);
    let op = &form.operands[0];
    assert_eq!(text(&op.type_), "imm8");
    assert_eq!(op.input, Some(true));
    assert_eq!(op.output, Some(false));
    assert_eq!(op.extended_size, Some(4));
}

#[test]
fn later_instruction_of_same_name_wins() {
    let xml = "<InstructionSet name=\"x86\">\
        <Instruction name=\"X\" summary=\"one\"></Instruction>\
        <Instruction name=\"X\" summary=\"two\"></Instruction>\
        </InstructionSet>";
    let instrs = populate_instructions(&chars(xml)).unwrap();
    assert_eq!(instrs.len(), 1);
    assert_eq!(text(&instrs[0].summary), "two");
}

#[test]
fn parses_z80_form_with_opcode_timing_and_link() {
    let xml = "<InstructionSet name=\"z80\">\n\
      <Instruction name=\"cp\" summary=\"ComPare.\">\n\
        <InstructionForm z80name=\"cp\" form=\"CP (HL)\">\n\
          <Encoding byte=\"BE\"></Encoding>\n\
          <TimingZ80 value=\"7\" />\n\
          <TimingZ80M1 value=\"8\" />\n\
          <TimingR800 value=\"2\" />\n\
          <TimingR800Wait value=\"8\" />\n\
        </InstructionForm>\n\
      </Instruction>\n\
    </InstructionSet>\n";
    let instrs = populate_instructions(&chars(xml)).unwrap();
    assert_eq!(instrs.len(), 1);
    let cp = &instrs[0];
    assert_eq!(cp.arch, Some(Arch::Z80));
    let form = &cp.forms[0];
    assert_eq!(opt_text(&form.z80_name), Some("cp".to_string()));
    assert_eq!(opt_text(&form.z80_form), Some("CP (HL)".to_string()));
    assert_eq!(opt_text(&form.z80_opcode), Some("BE ".to_string()));
    let timing = form.z80_timing.as_ref().unwrap();
    assert_eq!(text(&timing.z80), "7");
    assert_eq!(text(&timing.z80_plus_m1), "8");
    assert_eq!(text(&timing.r800), "2");
    assert_eq!(text(&timing.r800_plus_wait), "8");
    // the form's reference link form-urlencodes the textual form
    assert_eq!(form.urls.len(), 1);
    assert_eq!(
        text(&form.urls[0]),
        "https://www.zilog.com/docs/z80/z80cpu_um.pdf#CP+%28HL%29"
    );
}

#[test]
fn z80_opcode_bytes_accumulate_in_document_order() {
    let xml = "<InstructionSet name=\"z80\">\
      <Instruction name=\"ldi\" summary=\"s\">\
        <InstructionForm z80name=\"ldi\">\
          <Encoding byte=\"ED\"></Encoding><Encoding byte=\"A0\"></Encoding>\
        </InstructionForm>\
      </Instruction></InstructionSet>";
    let instrs = populate_instructions(&chars(xml)).unwrap();
    assert_eq!(opt_text(&instrs[0].forms[0].z80_opcode), Some("ED A0 ".to_string()));
}

#[test]
fn unknown_mmx_mode_is_fatal() {
    let xml = "<InstructionSet name=\"x86\"><Instruction name=\"A\">\
        <InstructionForm mmx-mode=\"NOPE\"></InstructionForm>\
        </Instruction></InstructionSet>";
    assert_eq!(populate_instructions(&chars(xml)).unwrap_err(), ParseError::UnknownMmxMode);
}

#[test]
fn unknown_xmm_mode_is_fatal() {
    let xml = "<InstructionSet name=\"x86\"><Instruction name=\"A\">\
        <InstructionForm xmm-mode=\"NOPE\"></InstructionForm>\
        </Instruction></InstructionSet>";
    assert_eq!(populate_instructions(&chars(xml)).unwrap_err(), ParseError::UnknownXmmMode);
}

#[test]
fn bad_boolean_attribute_is_fatal() {
    let xml = "<InstructionSet name=\"x86\"><Instruction name=\"A\">\
        <InstructionForm cancelling-inputs=\"maybe\"></InstructionForm>\
        </Instruction></InstructionSet>";
    assert_eq!(populate_instructions(&chars(xml)).unwrap_err(), ParseError::BadBool);
}

#[test]
fn unknown_isa_is_fatal() {
    let xml = "<InstructionSet name=\"x86\"><Instruction name=\"A\">\
        <InstructionForm><ISA id=\"NOPE\" /></InstructionForm>\
        </Instruction></InstructionSet>";
    assert_eq!(populate_instructions(&chars(xml)).unwrap_err(), ParseError::UnknownIsa);
}

#[test]
fn unknown_operand_type_is_fatal() {
    let xml = "<InstructionSet name=\"x86\"><Instruction name=\"A\">\
        <InstructionForm><Operand type=\"nope\" /></InstructionForm>\
        </Instruction></InstructionSet>";
    assert_eq!(populate_instructions(&chars(xml)).unwrap_err(), ParseError::UnknownOperandType);
}

#[test]
fn bad_extended_size_is_fatal() {
    let xml = "<InstructionSet name=\"x86\"><Instruction name=\"A\">\
        <InstructionForm><Operand type=\"imm8\" extended-size=\"four\" /></InstructionForm>\
        </Instruction></InstructionSet>";
    assert_eq!(populate_instructions(&chars(xml)).unwrap_err(), ParseError::BadNumber);
}

#[test]
fn bad_timing_is_fatal() {
    let xml = "<InstructionSet name=\"z80\"><Instruction name=\"a\">\
        <InstructionForm><TimingZ80 value=\"fast\" /></InstructionForm>\
        </Instruction></InstructionSet>";
    assert_eq!(populate_instructions(&chars(xml)).unwrap_err(), ParseError::BadTiming);
}

#[test]
fn timing_accepts_single_and_double_counts() {
    let xml = "<InstructionSet name=\"z80\"><Instruction name=\"a\">\
        <InstructionForm><TimingZ80 value=\"19/14\" /></InstructionForm>\
        </Instruction></InstructionSet>";
    let instrs = populate_instructions(&chars(xml)).unwrap();
    let timing = instrs[0].forms[0].z80_timing.as_ref().unwrap();
    assert_eq!(text(&timing.z80), "19/14");
    // unwritten cells keep the zero default
    assert_eq!(text(&timing.r800), "0");
}

#[test]
fn malformed_document_is_fatal() {
    assert_eq!(populate_instructions(&chars("<Instruction name=")).unwrap_err(), ParseError::Xml);
    assert_eq!(populate_registers(&chars("text < more")).unwrap_err(), ParseError::Xml);
}

const REG_XML: &str = "<?xml version=\"1.0\"?>\n\
<InstructionSet name=\"x86-64\">\n\
  <Register name=\"rbp\" altname=\"ebp\" description=\"Base Pointer\" type=\"General Purpose Register\" width=\"64 bits\">\n\
    <Flags>\n\
      <Flag bit=\"0\" label=\"CF\" description=\"carry\" pae=\"yes\" longmode=\"yes\"></Flag>\n\
    </Flags>\n\
  </Register>\n\
</InstructionSet>\n";

#[test]
fn parses_one_register() {
    let regs = populate_registers(&chars(REG_XML)).unwrap();
    assert_eq!(regs.len(), 1);
    let rbp = &regs[0];
    assert_eq!(text(&rbp.name), "rbp");
    assert_eq!(rbp.arch, Some(Arch::X86_64));
    assert_eq!(rbp.alt_names.len(), 3);
    assert_eq!(text(&rbp.alt_names[0]), "RBP");
    assert_eq!(text(&rbp.alt_names[1]), "rbp");
    assert_eq!(text(&rbp.alt_names[2]), "ebp");
    assert_eq!(opt_text(&rbp.description), Some("Base Pointer".to_string()));
    assert_eq!(opt_text(&rbp.reg_type), Some("General Purpose Register".to_string()));
    assert_eq!(opt_text(&rbp.width), Some("64 bits".to_string()));
    assert_eq!(rbp.flag_info.len(), 1);
    assert_eq!(rbp.flag_info[0].bit, 0);
    assert_eq!(text(&rbp.flag_info[0].label), "CF");
}

#[test]
fn unknown_register_class_is_fatal() {
    let xml = "<InstructionSet name=\"x86\">\
        <Register name=\"xx\" type=\"Imaginary Register\"></Register>\
        </InstructionSet>";
    assert_eq!(populate_registers(&chars(xml)).unwrap_err(), ParseError::UnknownRegisterType);
}

#[test]
fn unknown_register_width_is_fatal() {
    let xml = "<InstructionSet name=\"x86\">\
        <Register name=\"xx\" width=\"17 bits\"></Register>\
        </InstructionSet>";
    assert_eq!(populate_registers(&chars(xml)).unwrap_err(), ParseError::UnknownRegisterWidth);
}

#[test]
fn bad_flag_bit_is_fatal() {
    let xml = "<InstructionSet name=\"x86\"><Register name=\"r\">\
        <Flag bit=\"abc\"></Flag></Register></InstructionSet>";
    assert_eq!(populate_registers(&chars(xml)).unwrap_err(), ParseError::BadNumber);
}

const DIR_XML: &str = "<Assembler name=\"gas\">\n\
  <Directive name=\".file\" md_description=\"names &lt;the&gt; file\" deprecated=\"false\" url_fragment=\"File\">\n\
    <Signatures>\n\
      <Signature sig=\".file *string*\"></Signature>\n\
      <Signature sig=\".file *fileno filename*\"></Signature>\n\
    </Signatures>\n\
  </Directive>\n\
</Assembler>\n";

#[test]
fn parses_one_directive() {
    let dirs = populate_directives(&chars(DIR_XML)).unwrap();
    assert_eq!(dirs.len(), 1);
    let file = &dirs[0];
    assert_eq!(text(&file.name), ".file");
    assert_eq!(file.assembler, Some(Assembler::Gas));
    assert_eq!(file.alt_names.len(), 1);
    assert_eq!(text(&file.alt_names[0]), ".FILE");
    // entity references in the description are expanded
    assert_eq!(text(&file.description), "names <the> file");
    assert!(!file.deprecated);
    assert_eq!(
        opt_text(&file.url),
        Some("https://sourceware.org/binutils/docs-2.41/as/File.html".to_string())
    );
    assert_eq!(file.signatures.len(), 2);
    assert_eq!(text(&file.signatures[0]), ".file *string*");
    assert_eq!(text(&file.signatures[1]), ".file *fileno filename*");
}

#[test]
fn unknown_entity_is_fatal() {
    let xml = "<Assembler name=\"gas\">\
        <Directive name=\".x\" md_description=\"&bogus;\"></Directive></Assembler>";
    assert_eq!(populate_directives(&chars(xml)).unwrap_err(), ParseError::BadEntity);
}

#[test]
fn bad_deprecated_flag_is_fatal() {
    let xml = "<Assembler name=\"gas\">\
        <Directive name=\".x\" deprecated=\"perhaps\"></Directive></Assembler>";
    assert_eq!(populate_directives(&chars(xml)).unwrap_err(), ParseError::BadBool);
}

#[test]
fn unescape_expands_the_named_entities() {
    let out = unescape_chars(&chars("a &lt;b&gt; &amp; &quot;c&quot; &apos;d&apos;")).unwrap();
    assert_eq!(text(&out), "a <b> & \"c\" 'd'");
    assert_eq!(unescape_chars(&chars("broken &")), None);
    assert_eq!(unescape_chars(&chars("&shrug;")), None);
}

#[test]
fn unescape_expands_numeric_character_references() {
    let out = unescape_chars(&chars("&#65;&#x41;&#x62;&#10;")).unwrap();
    assert_eq!(text(&out), "AAb\n");
    // an empty reference, a surrogate code point, and an out-of-range
    // value are all invalid
    assert_eq!(unescape_chars(&chars("&#;")), None);
    assert_eq!(unescape_chars(&chars("&#x;")), None);
    assert_eq!(unescape_chars(&chars("&#xD800;")), None);
    assert_eq!(unescape_chars(&chars("&#1114112;")), None);
}

#[test]
fn directive_descriptions_expand_numeric_references() {
    let xml = "<Assembler name=\"gas\">\
        <Directive name=\".x\" md_description=\"a&#32;b\"></Directive></Assembler>";
    let dirs = populate_directives(&chars(xml)).unwrap();
    assert_eq!(text(&dirs[0].description), "a b");
}

#[test]
fn attach_docs_urls_links_instructions_by_exact_name() {
    let xml = "<InstructionSet name=\"x86\">\
        <Instruction name=\"MOVLPS\" summary=\"m\"></Instruction>\
        <Instruction name=\"ADD\" summary=\"a\"></Instruction>\
        <Instruction name=\"SUB\" summary=\"s\"></Instruction>\
        </InstructionSet>";
    let mut instrs = populate_instructions(&chars(xml)).unwrap();
    let body = "<table><td><a href='/x86/movlps'>MOVLPS</a> x</td>\
        <td>desc</td>\
        <td><a href='/x86/add'>ADD</a> y</td>\
        <td>other</td></table>";
    let base = get_x86_docs_url();
    attach_docs_urls(&mut instrs, &base, &chars(body));
    assert_eq!(
        opt_text(&instrs[0].url),
        Some("https://www.felixcloutier.com/x86/movlps".to_string())
    );
    assert_eq!(
        opt_text(&instrs[1].url),
        Some("https://www.felixcloutier.com/x86/add".to_string())
    );
    assert_eq!(instrs[2].url, None);
}

#[test]
fn docs_body_validity_requires_a_table_cell() {
    assert!(docs_body_is_valid(&chars("<td>x</td>")));
    assert!(!docs_body_is_valid(&chars("<p>no table</p>")));
    assert!(!docs_body_is_valid(&chars("")));
}

#[test]
fn docs_fetch_plan_prefers_cache_unless_refreshing() {
    assert_eq!(docs_fetch_plan(false, true, true), DocsSource::ReadCache);
    assert_eq!(docs_fetch_plan(true, true, true), DocsSource::FetchWeb);
    assert_eq!(docs_fetch_plan(false, true, false), DocsSource::FetchWeb);
    assert_eq!(docs_fetch_plan(false, false, false), DocsSource::FetchWeb);
}
