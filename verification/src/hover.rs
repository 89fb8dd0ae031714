//! The hover assembler: rendering one record as markdown, and merging the
//! matches a token finds across architectures into one document.
//!
//! Lookup order is fixed: instructions, then registers, then directives
//! (under the GAS assembler, first with the identifier token and then with
//! the file token); architectures always in the order x86, x86-64, z80.
//! Sections are joined with exactly one blank line: a rendered section
//! never begins or ends with a newline, so no wider gap can arise. Only
//! when every documentation lookup misses does the externally demangled
//! form of the token answer the request, as plain text.

use vstd::prelude::*;

use crate::store::{
    spec_lookup_directive, spec_lookup_instruction, spec_lookup_register, DocStore, DocStoreView,
};
use crate::trusted::{to_upper_chars, upper_of};
use crate::types::{
    arch_label, assembler_label, spec_arch_label, spec_assembler_label, Arch, Assembler, Directive,
    DirectiveView, Instruction, InstructionForm, InstructionFormView, InstructionView, Operand,
    OperandView, Register, RegisterView,
};
use crate::util::{append_chars, append_str, copy_chars, dec_chars, lit_chars, opt_view, spec_dec};

verus! {

/// `n` spaces.
pub open spec fn spec_spaces(n: int) -> Seq<char>
    decreases n,
{
    if n <= 0 {
        Seq::empty()
    } else {
        spec_spaces(n - 1).push(' ')
    }
}

/// The text padded with spaces to width `w` (kept as is when already that
/// wide).
pub open spec fn spec_pad(s: Seq<char>, w: int) -> Seq<char> {
    if s.len() >= w {
        s
    } else {
        s + spec_spaces(w - s.len())
    }
}

/// Append spaces to bring the text to width `w`.
#[verifier::loop_isolation(false)]
fn pad_to(v: Vec<char>, w: usize) -> (r: Vec<char>)
    ensures
        r@ == spec_pad(v@, w as int),
{
    let mut r = v;
    let ghost orig = r@;
    let mut k: usize = 0;
    if r.len() >= w {
        return r;
    }
    proof {
        assert(orig + spec_spaces(0) =~= orig);
    }
    while r.len() < w
        invariant
            r@ == orig + spec_spaces(k as int),
            r@.len() == orig.len() + k,
            r@.len() <= w,
            orig.len() < w,
        decreases w - r@.len(),
    {
        r.push(' ');
        k = k + 1;
        proof {
            assert(orig + spec_spaces(k as int) =~= (orig + spec_spaces(k - 1)).push(' '));
        }
    }
    r
}

pub open spec fn spec_bool_text(b: bool) -> Seq<char> {
    if b {
        "true"@
    } else {
        "false"@
    }
}

fn bool_text(b: bool) -> (r: Vec<char>)
    ensures
        r@ == spec_bool_text(b),
{
    if b {
        lit_chars("true")
    } else {
        lit_chars("false")
    }
}

/// The flag annotations of an operand, each padded to a fixed column when
/// another annotation follows it.
pub open spec fn spec_op_tail(op: OperandView) -> Seq<char> {
    let p_ext = match op.extended_size {
        Some(n) => "extended-size = "@ + spec_dec(n as nat),
        None => Seq::empty(),
    };
    let p_out = match op.output {
        Some(b) => {
            let t = "output = "@ + spec_bool_text(b);
            if p_ext.len() == 0 {
                t
            } else {
                spec_pad(t, 16) + p_ext
            }
        },
        None => p_ext,
    };
    match op.input {
        Some(b) => {
            let t = "input = "@ + spec_bool_text(b);
            if p_out.len() == 0 {
                t
            } else {
                spec_pad(t, 15) + p_out
            }
        },
        None => p_out,
    }
}

/// One operand bullet: the bracketed class, padded when annotations
/// follow, then the annotations.
pub open spec fn spec_opline(op: OperandView) -> Seq<char> {
    let t = "["@ + op.type_ + "]"@;
    let tail = spec_op_tail(op);
    if tail.len() == 0 {
        "  + "@ + t
    } else {
        "  + "@ + spec_pad(t, 9) + tail
    }
}

fn render_op_tail(op: &Operand) -> (r: Vec<char>)
    ensures
        r@ == spec_op_tail(op@),
{
    let p_ext: Vec<char> = match op.extended_size {
        Some(n) => {
            let mut t = lit_chars("extended-size = ");
            let d = dec_chars(n as u64);
            append_chars(&mut t, &d);
            t
        },
        None => Vec::new(),
    };
    proof {
        if op@.extended_size is None {
            assert(p_ext@ =~= Seq::<char>::empty());
        }
    }
    let p_out: Vec<char> = match op.output {
        Some(b) => {
            let mut t = lit_chars("output = ");
            let bt = bool_text(b);
            append_chars(&mut t, &bt);
            if p_ext.len() == 0 {
                t
            } else {
                let mut padded = pad_to(t, 16);
                append_chars(&mut padded, &p_ext);
                padded
            }
        },
        None => p_ext,
    };
    match op.input {
        Some(b) => {
            let mut t = lit_chars("input = ");
            let bt = bool_text(b);
            append_chars(&mut t, &bt);
            if p_out.len() == 0 {
                t
            } else {
                let mut padded = pad_to(t, 15);
                append_chars(&mut padded, &p_out);
                padded
            }
        },
        None => p_out,
    }
}

fn render_opline(op: &Operand) -> (r: Vec<char>)
    ensures
        r@ == spec_opline(op@),
{
    let mut t = lit_chars("[");
    append_chars(&mut t, &op.type_);
    append_str(&mut t, "]");
    let tail = render_op_tail(op);
    let mut out = lit_chars("  + ");
    if tail.len() == 0 {
        append_chars(&mut out, &t);
    } else {
        let padded = pad_to(t, 9);
        append_chars(&mut out, &padded);
        append_chars(&mut out, &tail);
    }
    out
}

/// The operand bullets of a form, one line each.
pub open spec fn spec_oplines(ops: Seq<OperandView>, upto: int) -> Seq<char>
    decreases upto,
{
    if upto <= 0 {
        Seq::empty()
    } else if upto == 1 {
        spec_opline(ops[0])
    } else {
        spec_oplines(ops, upto - 1) + "\n"@ + spec_opline(ops[upto - 1])
    }
}

#[verifier::loop_isolation(false)]
fn render_oplines(ops: &Vec<Operand>) -> (r: Vec<char>)
    ensures
        r@ == spec_oplines(ops@.map_values(|o: Operand| o@), ops@.len() as int),
{
    let ghost views = ops@.map_values(|o: Operand| o@);
    let mut out: Vec<char> = Vec::new();
    let mut i: usize = 0;
    proof {
        assert(out@ =~= spec_oplines(views, 0));
    }
    while i < ops.len()
        invariant
            i <= ops@.len(),
            out@ == spec_oplines(views, i as int),
        decreases ops@.len() - i,
    {
        let line = render_opline(&ops[i]);
        if i > 0 {
            append_str(&mut out, "\n");
        }
        append_chars(&mut out, &line);
        i = i + 1;
    }
    out
}

/// The reference links of a z80 form, one bullet each.
pub open spec fn spec_urllines(urls: Seq<Seq<char>>, upto: int) -> Seq<char>
    decreases upto,
{
    if upto <= 0 {
        Seq::empty()
    } else if upto == 1 {
        "  + More info: "@ + urls[0]
    } else {
        spec_urllines(urls, upto - 1) + "\n  + More info: "@ + urls[upto - 1]
    }
}

#[verifier::loop_isolation(false)]
fn render_urllines(urls: &Vec<Vec<char>>) -> (r: Vec<char>)
    ensures
        r@ == spec_urllines(crate::util::nested_view(*urls), urls@.len() as int),
{
    let ghost views = crate::util::nested_view(*urls);
    let mut out: Vec<char> = Vec::new();
    let mut i: usize = 0;
    proof {
        assert(out@ =~= spec_urllines(views, 0));
    }
    while i < urls.len()
        invariant
            i <= urls@.len(),
            out@ == spec_urllines(views, i as int),
        decreases urls@.len() - i,
    {
        if i > 0 {
            append_str(&mut out, "\n  + More info: ");
        } else {
            append_str(&mut out, "  + More info: ");
        }
        append_chars(&mut out, &urls[i]);
        i = i + 1;
    }
    out
}

/// The timing bullet of a z80 form.
pub open spec fn spec_timing_line(f: InstructionFormView) -> Option<Seq<char>> {
    match f.z80_timing {
        Some(t) => Some(
            "  + Z80: "@ + t.z80 + ", Z80 + M1: "@ + t.z80_plus_m1 + ", R800: "@ + t.r800
                + ", R800 + Wait: "@ + t.r800_plus_wait,
        ),
        None => None,
    }
}

/// The body lines of a form: operand bullets, then the timing bullet, then
/// the reference links, joined one per line.
pub open spec fn spec_form_lines(f: InstructionFormView) -> Seq<char> {
    let a = spec_oplines(f.operands, f.operands.len() as int);
    let ab = match spec_timing_line(f) {
        Some(bl) => if a.len() == 0 {
            bl
        } else {
            a + "\n"@ + bl
        },
        None => a,
    };
    let c = spec_urllines(f.urls, f.urls.len() as int);
    if c.len() == 0 {
        ab
    } else if ab.len() == 0 {
        c
    } else {
        ab + "\n"@ + c
    }
}

/// Add one segment to a form header, separating segments with a bar.
pub open spec fn spec_hdr_add(acc: Seq<char>, seg: Seq<char>) -> Seq<char> {
    if acc.len() == 0 {
        seg
    } else {
        acc + " | "@ + seg
    }
}

fn hdr_add(acc: Vec<char>, seg: Vec<char>) -> (r: Vec<char>)
    ensures
        r@ == spec_hdr_add(acc@, seg@),
{
    if acc.len() == 0 {
        seg
    } else {
        let mut acc = acc;
        append_str(&mut acc, " | ");
        append_chars(&mut acc, &seg);
        acc
    }
}

/// The single-line header of a form: each assembler name, the z80 textual
/// form, the capability modes and the ISA tag, in a fixed order.
pub open spec fn spec_form_header(f: InstructionFormView) -> Seq<char> {
    let h0 = Seq::<char>::empty();
    let h1 = match f.gas_name {
        Some(g) => spec_hdr_add(h0, "*GAS*: "@ + g),
        None => h0,
    };
    let h2 = match f.go_name {
        Some(g) => spec_hdr_add(h1, "*GO*: "@ + g),
        None => h1,
    };
    let h3 = match f.z80_form {
        Some(g) => spec_hdr_add(h2, "*Z80*: "@ + g),
        None => h2,
    };
    let h4 = match f.mmx_mode {
        Some(g) => spec_hdr_add(h3, "*MMX*: "@ + g),
        None => h3,
    };
    let h5 = match f.xmm_mode {
        Some(g) => spec_hdr_add(h4, "*XMM*: "@ + g),
        None => h4,
    };
    match f.isa {
        Some(g) => spec_hdr_add(h5, "*ISA*: "@ + g),
        None => h5,
    }
}

fn seg_text(prefix: &str, name: &Vec<char>) -> (r: Vec<char>)
    ensures
        r@ == prefix@ + name@,
{
    let mut t = lit_chars(prefix);
    append_chars(&mut t, name);
    t
}

fn render_form_header(f: &InstructionForm) -> (r: Vec<char>)
    ensures
        r@ == spec_form_header(f@),
{
    let mut h: Vec<char> = Vec::new();
    proof {
        assert(h@ =~= Seq::<char>::empty());
    }
    if let Some(g) = &f.gas_name {
        h = hdr_add(h, seg_text("*GAS*: ", g));
    }
    if let Some(g) = &f.go_name {
        h = hdr_add(h, seg_text("*GO*: ", g));
    }
    if let Some(g) = &f.z80_form {
        h = hdr_add(h, seg_text("*Z80*: ", g));
    }
    if let Some(g) = &f.mmx_mode {
        h = hdr_add(h, seg_text("*MMX*: ", g));
    }
    if let Some(g) = &f.xmm_mode {
        h = hdr_add(h, seg_text("*XMM*: ", g));
    }
    if let Some(g) = &f.isa {
        h = hdr_add(h, seg_text("*ISA*: ", g));
    }
    h
}

/// One form: its header bullet, then its body lines after one blank line.
pub open spec fn spec_render_form(f: InstructionFormView) -> Seq<char> {
    let hdr = "- "@ + spec_form_header(f);
    let lines = spec_form_lines(f);
    if lines.len() == 0 {
        hdr
    } else {
        hdr + "\n\n"@ + lines
    }
}

fn render_form(f: &InstructionForm) -> (r: Vec<char>)
    ensures
        r@ == spec_render_form(f@),
{
    let mut out = lit_chars("- ");
    let h = render_form_header(f);
    append_chars(&mut out, &h);
    let a = render_oplines(&f.operands);
    let ab: Vec<char> = match &f.z80_timing {
        Some(t) => {
            let mut bl = lit_chars("  + Z80: ");
            append_chars(&mut bl, &t.z80);
            append_str(&mut bl, ", Z80 + M1: ");
            append_chars(&mut bl, &t.z80_plus_m1);
            append_str(&mut bl, ", R800: ");
            append_chars(&mut bl, &t.r800);
            append_str(&mut bl, ", R800 + Wait: ");
            append_chars(&mut bl, &t.r800_plus_wait);
            if a.len() == 0 {
                bl
            } else {
                let mut a2 = a;
                append_str(&mut a2, "\n");
                append_chars(&mut a2, &bl);
                a2
            }
        },
        None => a,
    };
    let c = render_urllines(&f.urls);
    let lines: Vec<char> = if c.len() == 0 {
        ab
    } else if ab.len() == 0 {
        c
    } else {
        let mut ab2 = ab;
        append_str(&mut ab2, "\n");
        append_chars(&mut ab2, &c);
        ab2
    };
    if lines.len() == 0 {
        out
    } else {
        append_str(&mut out, "\n\n");
        append_chars(&mut out, &lines);
        out
    }
}

/// All forms, a single newline between ordinary forms, a blank line after
/// a z80 form (each of its bodies ends in a link bullet, so the blank line
/// keeps the forms apart).
pub open spec fn spec_render_forms(forms: Seq<InstructionFormView>, upto: int) -> Seq<char>
    decreases upto,
{
    if upto <= 0 {
        Seq::empty()
    } else if upto == 1 {
        spec_render_form(forms[0])
    } else {
        let sep: Seq<char> = if forms[upto - 2].z80_form is Some {
            "\n\n"@
        } else {
            "\n"@
        };
        spec_render_forms(forms, upto - 1) + sep + spec_render_form(forms[upto - 1])
    }
}

#[verifier::loop_isolation(false)]
fn render_forms(forms: &Vec<InstructionForm>) -> (r: Vec<char>)
    ensures
        r@ == spec_render_forms(
            forms@.map_values(|f: InstructionForm| f@),
            forms@.len() as int,
        ),
{
    let ghost views = forms@.map_values(|f: InstructionForm| f@);
    let mut out: Vec<char> = Vec::new();
    let mut i: usize = 0;
    proof {
        assert(out@ =~= spec_render_forms(views, 0));
    }
    while i < forms.len()
        invariant
            i <= forms@.len(),
            out@ == spec_render_forms(views, i as int),
        decreases forms@.len() - i,
    {
        if i > 0 {
            if forms[i - 1].z80_form.is_some() {
                append_str(&mut out, "\n\n");
            } else {
                append_str(&mut out, "\n");
            }
        }
        let ft = render_form(&forms[i]);
        append_chars(&mut out, &ft);
        i = i + 1;
    }
    out
}

/// One instruction section: name and architecture, the summary, the forms,
/// and the reference link when the instruction has one.
pub open spec fn spec_render_instruction(x: InstructionView) -> Seq<char> {
    let head = x.name + " ["@ + (match x.arch {
        Some(a) => spec_arch_label(a),
        None => Seq::<char>::empty(),
    }) + "]\n"@ + x.summary + "\n\n## Forms\n\n"@ + spec_render_forms(
        x.forms,
        x.forms.len() as int,
    );
    match x.url {
        Some(u) => head + "\n\nMore info: "@ + u,
        None => head,
    }
}

pub fn render_instruction(x: &Instruction) -> (r: Vec<char>)
    ensures
        r@ == spec_render_instruction(x@),
{
    let mut out = copy_chars(&x.name);
    append_str(&mut out, " [");
    match x.arch {
        Some(a) => {
            let l = arch_label(a);
            append_chars(&mut out, &l);
        },
        None => {
            proof {
                assert(out@ + Seq::<char>::empty() =~= out@);
            }
        },
    }
    append_str(&mut out, "]\n");
    append_chars(&mut out, &x.summary);
    append_str(&mut out, "\n\n## Forms\n\n");
    let ft = render_forms(&x.forms);
    append_chars(&mut out, &ft);
    match &x.url {
        Some(u) => {
            append_str(&mut out, "\n\nMore info: ");
            append_chars(&mut out, u);
        },
        None => {},
    }
    out
}

/// One register section: uppercased name and architecture, the
/// description, and the class and width where known.
pub open spec fn spec_render_register(r: RegisterView) -> Seq<char> {
    let head0 = upper_of(r.name) + " ["@ + (match r.arch {
        Some(a) => spec_arch_label(a),
        None => Seq::<char>::empty(),
    }) + "]\n"@;
    let head = match r.description {
        Some(d) => head0 + d,
        None => head0,
    };
    match r.reg_type {
        Some(t) => {
            let with_type = head + "\n\nType: "@ + t;
            match r.width {
                Some(w) => with_type + "\nWidth: "@ + w,
                None => with_type,
            }
        },
        None => match r.width {
            Some(w) => head + "\n\nWidth: "@ + w,
            None => head,
        },
    }
}

pub fn render_register(r: &Register) -> (res: Vec<char>)
    ensures
        res@ == spec_render_register(r@),
{
    let mut out = to_upper_chars(&r.name);
    append_str(&mut out, " [");
    match r.arch {
        Some(a) => {
            let l = arch_label(a);
            append_chars(&mut out, &l);
        },
        None => {
            proof {
                assert(out@ + Seq::<char>::empty() =~= out@);
            }
        },
    }
    append_str(&mut out, "]\n");
    match &r.description {
        Some(d) => {
            append_chars(&mut out, d);
        },
        None => {},
    }
    match &r.reg_type {
        Some(t) => {
            append_str(&mut out, "\n\nType: ");
            append_chars(&mut out, t);
            match &r.width {
                Some(w) => {
                    append_str(&mut out, "\nWidth: ");
                    append_chars(&mut out, w);
                },
                None => {},
            }
        },
        None => {
            match &r.width {
                Some(w) => {
                    append_str(&mut out, "\n\nWidth: ");
                    append_chars(&mut out, w);
                },
                None => {},
            }
        },
    }
    out
}

/// The usage patterns of a directive, one bullet per line.
pub open spec fn spec_siglines(sigs: Seq<Seq<char>>, upto: int) -> Seq<char>
    decreases upto,
{
    if upto <= 0 {
        Seq::empty()
    } else {
        spec_siglines(sigs, upto - 1) + "\n- "@ + sigs[upto - 1]
    }
}

/// One directive section: name and assembler, the description, the usage
/// patterns after one blank line, and the reference link when present.
pub open spec fn spec_render_directive(d: DirectiveView) -> Seq<char> {
    let head = d.name + " ["@ + (match d.assembler {
        Some(a) => spec_assembler_label(a),
        None => Seq::<char>::empty(),
    }) + "]\n"@ + d.description;
    let with_sigs = if d.signatures.len() == 0 {
        head
    } else {
        head + "\n"@ + spec_siglines(d.signatures, d.signatures.len() as int)
    };
    match d.url {
        Some(u) => with_sigs + "\n\nMore info: "@ + u,
        None => with_sigs,
    }
}

#[verifier::loop_isolation(false)]
pub fn render_directive(d: &Directive) -> (res: Vec<char>)
    ensures
        res@ == spec_render_directive(d@),
{
    let ghost sig_views = crate::util::nested_view(d.signatures);
    let mut out = copy_chars(&d.name);
    append_str(&mut out, " [");
    match d.assembler {
        Some(a) => {
            let l = assembler_label(a);
            append_chars(&mut out, &l);
        },
        None => {
            proof {
                assert(out@ + Seq::<char>::empty() =~= out@);
            }
        },
    }
    append_str(&mut out, "]\n");
    append_chars(&mut out, &d.description);
    if d.signatures.len() > 0 {
        append_str(&mut out, "\n");
        let mut sigs: Vec<char> = Vec::new();
        let mut i: usize = 0;
        proof {
            assert(sigs@ =~= spec_siglines(sig_views, 0));
        }
        while i < d.signatures.len()
            invariant
                i <= d.signatures@.len(),
                sigs@ == spec_siglines(sig_views, i as int),
            decreases d.signatures@.len() - i,
        {
            append_str(&mut sigs, "\n- ");
            append_chars(&mut sigs, &d.signatures[i]);
            i = i + 1;
        }
        append_chars(&mut out, &sigs);
    }
    match &d.url {
        Some(u) => {
            append_str(&mut out, "\n\nMore info: ");
            append_chars(&mut out, u);
        },
        None => {},
    }
    out
}

/// A hover answer: a markdown document assembled from the store, or the
/// demangled plain text of a symbol.
pub enum HoverResult {
    Markdown(Vec<char>),
    PlainText(Vec<char>),
}

pub ghost enum HoverResultView {
    Markdown(Seq<char>),
    PlainText(Seq<char>),
}

impl View for HoverResult {
    type V = HoverResultView;

    open spec fn view(&self) -> HoverResultView {
        match self {
            HoverResult::Markdown(v) => HoverResultView::Markdown(v@),
            HoverResult::PlainText(v) => HoverResultView::PlainText(v@),
        }
    }
}

/// Sections joined with exactly one blank line between them.
pub open spec fn spec_join_sections(secs: Seq<Seq<char>>, upto: int) -> Seq<char>
    decreases upto,
{
    if upto <= 0 {
        Seq::empty()
    } else if upto == 1 {
        secs[0]
    } else {
        spec_join_sections(secs, upto - 1) + "\n\n"@ + secs[upto - 1]
    }
}

/// The instruction sections a token finds, in the fixed architecture
/// order.
pub open spec fn spec_instr_sections(sv: DocStoreView, w: Seq<char>) -> Seq<Seq<char>> {
    let s0 = Seq::<Seq<char>>::empty();
    let s1 = match spec_lookup_instruction(sv, Arch::X86, w) {
        Some(x) => s0.push(spec_render_instruction(x)),
        None => s0,
    };
    let s2 = match spec_lookup_instruction(sv, Arch::X86_64, w) {
        Some(x) => s1.push(spec_render_instruction(x)),
        None => s1,
    };
    match spec_lookup_instruction(sv, Arch::Z80, w) {
        Some(x) => s2.push(spec_render_instruction(x)),
        None => s2,
    }
}

/// The register sections a token finds, in the fixed architecture order.
pub open spec fn spec_register_sections(sv: DocStoreView, w: Seq<char>) -> Seq<Seq<char>> {
    let s0 = Seq::<Seq<char>>::empty();
    let s1 = match spec_lookup_register(sv, Arch::X86, w) {
        Some(x) => s0.push(spec_render_register(x)),
        None => s0,
    };
    let s2 = match spec_lookup_register(sv, Arch::X86_64, w) {
        Some(x) => s1.push(spec_render_register(x)),
        None => s1,
    };
    match spec_lookup_register(sv, Arch::Z80, w) {
        Some(x) => s2.push(spec_render_register(x)),
        None => s2,
    }
}

/// The whole hover answer: instruction matches win, then register
/// matches, then a directive match for the identifier token, then for the
/// file token; only when all of those miss does the demangled text
/// answer, and with nothing demangled there is no answer.
pub open spec fn spec_get_hover(
    sv: DocStoreView,
    w: Seq<char>,
    fw: Seq<char>,
    demangled: Option<Seq<char>>,
) -> Option<HoverResultView> {
    let instr_secs = spec_instr_sections(sv, w);
    if instr_secs.len() > 0 {
        Some(HoverResultView::Markdown(spec_join_sections(instr_secs, instr_secs.len() as int)))
    } else {
        let reg_secs = spec_register_sections(sv, w);
        if reg_secs.len() > 0 {
            Some(HoverResultView::Markdown(spec_join_sections(reg_secs, reg_secs.len() as int)))
        } else {
            match spec_lookup_directive(sv, Assembler::Gas, w) {
                Some(d) => Some(HoverResultView::Markdown(spec_render_directive(d))),
                None => match spec_lookup_directive(sv, Assembler::Gas, fw) {
                    Some(d) => Some(HoverResultView::Markdown(spec_render_directive(d))),
                    None => match demangled {
                        Some(t) => Some(HoverResultView::PlainText(t)),
                        None => None,
                    },
                },
            }
        }
    }
}

#[verifier::loop_isolation(false)]
fn join_sections(secs: &Vec<Vec<char>>) -> (r: Vec<char>)
    ensures
        r@ == spec_join_sections(crate::util::nested_view(*secs), secs@.len() as int),
{
    let ghost views = crate::util::nested_view(*secs);
    let mut out: Vec<char> = Vec::new();
    let mut i: usize = 0;
    proof {
        assert(out@ =~= spec_join_sections(views, 0));
    }
    while i < secs.len()
        invariant
            i <= secs@.len(),
            out@ == spec_join_sections(views, i as int),
        decreases secs@.len() - i,
    {
        if i > 0 {
            append_str(&mut out, "\n\n");
        }
        append_chars(&mut out, &secs[i]);
        i = i + 1;
    }
    out
}

/// Answer a hover request for the token under the cursor. `word` is the
/// identifier token, `file_word` the file token at the same position, and
/// `demangled` whatever the external demangler made of the token — it is
/// consulted only after every documentation lookup has missed.
pub fn get_hover_resp(
    store: &DocStore,
    word: &Vec<char>,
    file_word: &Vec<char>,
    demangled: Option<Vec<char>>,
) -> (r: Option<HoverResult>)
    ensures
        match r {
            Some(h) => spec_get_hover(store@, word@, file_word@, opt_view(demangled)) == Some(h@),
            None => spec_get_hover(store@, word@, file_word@, opt_view(demangled)) is None,
        },
{
    let mut instr_secs: Vec<Vec<char>> = Vec::new();
    if let Some(x) = store.lookup_instruction(Arch::X86, word) {
        instr_secs.push(render_instruction(x));
    }
    if let Some(x) = store.lookup_instruction(Arch::X86_64, word) {
        instr_secs.push(render_instruction(x));
    }
    if let Some(x) = store.lookup_instruction(Arch::Z80, word) {
        instr_secs.push(render_instruction(x));
    }
    proof {
        assert(crate::util::nested_view(instr_secs) =~= spec_instr_sections(store@, word@));
    }
    if instr_secs.len() > 0 {
        return Some(HoverResult::Markdown(join_sections(&instr_secs)));
    }
    let mut reg_secs: Vec<Vec<char>> = Vec::new();
    if let Some(x) = store.lookup_register(Arch::X86, word) {
        reg_secs.push(render_register(x));
    }
    if let Some(x) = store.lookup_register(Arch::X86_64, word) {
        reg_secs.push(render_register(x));
    }
    if let Some(x) = store.lookup_register(Arch::Z80, word) {
        reg_secs.push(render_register(x));
    }
    proof {
        assert(crate::util::nested_view(reg_secs) =~= spec_register_sections(store@, word@));
    }
    if reg_secs.len() > 0 {
        return Some(HoverResult::Markdown(join_sections(&reg_secs)));
    }
    if let Some(d) = store.lookup_directive(Assembler::Gas, word) {
        return Some(HoverResult::Markdown(render_directive(d)));
    }
    if let Some(d) = store.lookup_directive(Assembler::Gas, file_word) {
        return Some(HoverResult::Markdown(render_directive(d)));
    }
    match demangled {
        Some(t) => Some(HoverResult::PlainText(t)),
        None => None,
    }
}

/// Hover merge ordering: a token documented as an instruction under both
/// x86 and x86-64 (and not under z80) yields one document holding the x86
/// section strictly before the x86-64 section, separated by exactly one
/// blank line.
pub proof fn lemma_hover_merge_ordering(
    sv: DocStoreView,
    w: Seq<char>,
    fw: Seq<char>,
    demangled: Option<Seq<char>>,
)
    requires
        spec_lookup_instruction(sv, Arch::X86, w) is Some,
        spec_lookup_instruction(sv, Arch::X86_64, w) is Some,
        spec_lookup_instruction(sv, Arch::Z80, w) is None,
    ensures
        spec_get_hover(sv, w, fw, demangled) == Some(
            HoverResultView::Markdown(
                spec_render_instruction(spec_lookup_instruction(sv, Arch::X86, w)->Some_0) + "\n\n"@
                    + spec_render_instruction(spec_lookup_instruction(sv, Arch::X86_64, w)->Some_0),
            ),
        ),
{
    let a = spec_render_instruction(spec_lookup_instruction(sv, Arch::X86, w)->Some_0);
    let b = spec_render_instruction(spec_lookup_instruction(sv, Arch::X86_64, w)->Some_0);
    let secs = spec_instr_sections(sv, w);
    assert(secs =~= seq![a, b]);
    assert(spec_join_sections(secs, 1) == secs[0]);
    assert(spec_join_sections(secs, 2) == spec_join_sections(secs, 1) + "\n\n"@ + secs[1]);
}

/// Demangling fallback: when every documentation lookup misses — the
/// instruction and register lookups under all three architectures, and
/// the directive lookups with both the identifier token and the file
/// token — the answer is the demangled text as plain text, or nothing
/// when the demangler yields nothing.
pub proof fn lemma_demangling_fallback(
    sv: DocStoreView,
    w: Seq<char>,
    fw: Seq<char>,
    demangled: Option<Seq<char>>,
)
    requires
        spec_lookup_instruction(sv, Arch::X86, w) is None,
        spec_lookup_instruction(sv, Arch::X86_64, w) is None,
        spec_lookup_instruction(sv, Arch::Z80, w) is None,
        spec_lookup_register(sv, Arch::X86, w) is None,
        spec_lookup_register(sv, Arch::X86_64, w) is None,
        spec_lookup_register(sv, Arch::Z80, w) is None,
        spec_lookup_directive(sv, Assembler::Gas, w) is None,
        spec_lookup_directive(sv, Assembler::Gas, fw) is None,
    ensures
        spec_get_hover(sv, w, fw, demangled) == (match demangled {
            Some(t) => Some(HoverResultView::PlainText(t)),
            None => None::<HoverResultView>,
        }),
{
    assert(spec_instr_sections(sv, w) =~= Seq::<Seq<char>>::empty());
    assert(spec_register_sections(sv, w) =~= Seq::<Seq<char>>::empty());
}

/// Documentation precedes demangling: as soon as any lookup hits, the
/// answer is the same markdown document whatever the demangler would have
/// said.
pub proof fn lemma_documentation_precedes_demangling(
    sv: DocStoreView,
    w: Seq<char>,
    fw: Seq<char>,
    demangled: Option<Seq<char>>,
)
    requires
        spec_instr_sections(sv, w).len() > 0 || spec_register_sections(sv, w).len() > 0
            || spec_lookup_directive(sv, Assembler::Gas, w) is Some || spec_lookup_directive(
            sv,
            Assembler::Gas,
            fw,
        ) is Some,
    ensures
        spec_get_hover(sv, w, fw, demangled) == spec_get_hover(sv, w, fw, None),
        spec_get_hover(sv, w, fw, demangled) matches Some(h) && h is Markdown,
{
}

} // verus!
