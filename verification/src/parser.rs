//! Ingestion: building the data model from the reference documents.
//!
//! Each parser is a forward-only walk over the document's tag events with
//! one entity under construction at a time; a closing tag commits the
//! entity into the result, keyed by name, overwriting an earlier entity of
//! the same name. The corpus is fixed and versioned: a malformed document
//! or an unrecognized enumerated value fails the whole ingestion.

use vstd::prelude::*;

use crate::trusted::{lower_of, upper_of, to_lower_chars, to_upper_chars, www_form_encode_chars, www_form_encoded_of};
use crate::types::{
    arch_from_name, assembler_from_name, is_isa_name, is_mmx_mode_name, is_operand_type_name,
    is_register_type_name, is_register_width_name, is_timing_text, is_xmm_mode_name, isa_name_ok,
    mmx_mode_name_ok, operand_type_name_ok, register_type_name_ok, register_width_name_ok,
    spec_arch_from_name, spec_assembler_from_name, timing_text_ok, xmm_mode_name_ok, Arch,
    Assembler, Directive, DirectiveView, Instruction, InstructionForm, InstructionFormView,
    InstructionView, Operand, OperandView, ParseError, Register, RegisterBitInfo,
    RegisterBitInfoView, RegisterView, Z80Timing, Z80TimingView,
};
use crate::util::{
    all_digits, all_hex_digits, append_chars, append_str, chars_eq, chars_eq_str, copy_chars,
    digits_val, hex_digits_val, lemma_find_char_bounds, lit_chars, parse_hex_u64_chars,
    parse_u64_chars, spec_find_char,
};
use crate::xml::{scan_xml, spec_events, XmlAttr, XmlAttrView, XmlEvent, XmlEventKind, XmlEventView};

verus! {

/// The views of a sequence of directives.
pub open spec fn directive_views(s: Seq<Directive>) -> Seq<DirectiveView> {
    s.map_values(|d: Directive| d@)
}

/// The views of a sequence of instructions.
pub open spec fn instruction_views(s: Seq<Instruction>) -> Seq<InstructionView> {
    s.map_values(|x: Instruction| x@)
}

/// The views of a sequence of registers.
pub open spec fn register_views(s: Seq<Register>) -> Seq<RegisterView> {
    s.map_values(|r: Register| r@)
}

/// The views of a sequence of tag events.
pub open spec fn event_views(s: Seq<XmlEvent>) -> Seq<XmlEventView> {
    s.map_values(|e: XmlEvent| e@)
}

/// The views of a sequence of attributes.
pub open spec fn attr_views(s: Seq<XmlAttr>) -> Seq<XmlAttrView> {
    s.map_values(|a: XmlAttr| a@)
}

// ---------------------------------------------------------------------
// Entity references in escaped text
// ---------------------------------------------------------------------
/// Unicode scalar values: every code point up to the largest one, except
/// the surrogate range.
pub open spec fn is_unicode_scalar_value(n: nat) -> bool {
    n < 0xD800 || (0xDFFF < n && n <= 0x10FFFF)
}

/// The character a numeric character reference denotes: `#` followed by
/// decimal digits, or `#x`/`#X` followed by hexadecimal digits, naming a
/// Unicode scalar value.
pub open spec fn spec_numeric_entity_char(body: Seq<char>) -> Option<char> {
    if body.len() >= 2 && (body[1] == 'x' || body[1] == 'X') {
        let hx = body.subrange(2, body.len() as int);
        if hx.len() > 0 && all_hex_digits(hx) && is_unicode_scalar_value(hex_digits_val(hx)) {
            Some((hex_digits_val(hx) as u32) as char)
        } else {
            None
        }
    } else {
        let ds = body.subrange(1, body.len() as int);
        if ds.len() > 0 && all_digits(ds) && is_unicode_scalar_value(digits_val(ds)) {
            Some((digits_val(ds) as u32) as char)
        } else {
            None
        }
    }
}

/// The character a numeric character reference denotes, if any.
fn numeric_entity_char(body: &Vec<char>) -> (r: Option<char>)
    requires
        body@.len() > 0,
    ensures
        r == spec_numeric_entity_char(body@),
{
    if body.len() >= 2 && (body[1] == 'x' || body[1] == 'X') {
        let hx = crate::util::sub_chars(body, 2, body.len());
        match parse_hex_u64_chars(&hx) {
            Some(v) => {
                if v < 0xD800 || (0xDFFF < v && v <= 0x10FFFF) {
                    match char::from_u32(v as u32) {
                        Some(c) => Some(c),
                        None => None,
                    }
                } else {
                    None
                }
            },
            None => None,
        }
    } else {
        let ds = crate::util::sub_chars(body, 1, body.len());
        match parse_u64_chars(&ds) {
            Some(v) => {
                if v < 0xD800 || (0xDFFF < v && v <= 0x10FFFF) {
                    match char::from_u32(v as u32) {
                        Some(c) => Some(c),
                        None => None,
                    }
                } else {
                    None
                }
            },
            None => None,
        }
    }
}

/// The character an entity reference stands for: one of the five named
/// entities, or a numeric character reference.
pub open spec fn spec_entity_char(name: Seq<char>) -> Option<char> {
    if name.len() > 0 && name[0] == '#' {
        spec_numeric_entity_char(name)
    } else if name == "lt"@ {
        Some('<')
    } else if name == "gt"@ {
        Some('>')
    } else if name == "amp"@ {
        Some('&')
    } else if name == "quot"@ {
        Some('"')
    } else if name == "apos"@ {
        Some('\'')
    } else {
        None
    }
}

/// Expand the entity references of escaped text — the five named XML
/// entities and numeric character references; `None` when an ampersand is
/// unterminated or names an unrecognized entity or an invalid code point.
pub open spec fn spec_unescape_from(s: Seq<char>, i: int) -> Option<Seq<char>>
    decreases s.len() - i,
        when 0 <= i <= s.len()
        via spec_unescape_from_dec
{
    if i >= s.len() {
        Some(Seq::empty())
    } else if s[i] != '&' {
        match spec_unescape_from(s, i + 1) {
            None => None,
            Some(rest) => Some(seq![s[i]] + rest),
        }
    } else {
        let k = spec_find_char(s, ';', i + 1);
        if k < 0 {
            None
        } else {
            match spec_entity_char(s.subrange(i + 1, k)) {
                None => None,
                Some(c) => match spec_unescape_from(s, k + 1) {
                    None => None,
                    Some(rest) => Some(seq![c] + rest),
                },
            }
        }
    }
}

#[via_fn]
proof fn spec_unescape_from_dec(s: Seq<char>, i: int) {
    if i < s.len() && s[i] == '&' {
        lemma_find_char_bounds(s, ';', i + 1);
    }
}

pub open spec fn spec_unescape(s: Seq<char>) -> Option<Seq<char>> {
    spec_unescape_from(s, 0)
}

/// Prefix already-expanded text onto the expansion of the rest.
pub open spec fn unescape_prepend(acc: Seq<char>, o: Option<Seq<char>>) -> Option<Seq<char>> {
    match o {
        None => None,
        Some(rest) => Some(acc + rest),
    }
}

/// Expand the entity references of escaped text.
pub fn unescape_chars(s: &Vec<char>) -> (r: Option<Vec<char>>)
    ensures
        match r {
            Some(v) => spec_unescape(s@) == Some(v@),
            None => spec_unescape(s@) is None,
        },
{
    let mut acc: Vec<char> = Vec::new();
    let mut pos: usize = 0;
    proof {
        match spec_unescape_from(s@, 0) {
            None => {},
            Some(rest) => {
                assert(acc@ + rest =~= rest);
            },
        }
    }
    loop
        invariant
            pos <= s@.len(),
            spec_unescape(s@) == unescape_prepend(acc@, spec_unescape_from(s@, pos as int)),
        decreases s@.len() - pos,
    {
        let ghost acc0 = acc@;
        if pos >= s.len() {
            proof {
                assert(acc0 + Seq::<char>::empty() =~= acc0);
            }
            return Some(acc);
        }
        let c = s[pos];
        if c != '&' {
            acc.push(c);
            proof {
                match spec_unescape_from(s@, pos + 1) {
                    None => {},
                    Some(rest) => {
                        assert(acc0 + (seq![c] + rest) =~= acc0.push(c) + rest);
                    },
                }
            }
            pos = pos + 1;
        } else {
            let k = match crate::util::find_char_from(s, ';', pos + 1) {
                Some(k) => k,
                None => {
                    return None;
                },
            };
            let name = crate::util::sub_chars(s, pos + 1, k);
            let e: char = if name.len() > 0 && name[0] == '#' {
                match numeric_entity_char(&name) {
                    Some(c) => c,
                    None => {
                        return None;
                    },
                }
            } else if chars_eq_str(&name, "lt") {
                '<'
            } else if chars_eq_str(&name, "gt") {
                '>'
            } else if chars_eq_str(&name, "amp") {
                '&'
            } else if chars_eq_str(&name, "quot") {
                '"'
            } else if chars_eq_str(&name, "apos") {
                '\''
            } else {
                return None;
            };
            acc.push(e);
            proof {
                match spec_unescape_from(s@, k + 1) {
                    None => {},
                    Some(rest) => {
                        assert(acc0 + (seq![e] + rest) =~= acc0.push(e) + rest);
                    },
                }
            }
            pos = k + 1;
        }
    }
}

// ---------------------------------------------------------------------
// Committing an entity under its name
// ---------------------------------------------------------------------
/// First position among the committed directives holding this name.
pub open spec fn spec_find_directive(done: Seq<DirectiveView>, n: Seq<char>, i: int) -> int
    decreases done.len() - i,
{
    if i < 0 || i >= done.len() {
        -1
    } else if done[i].name == n {
        i
    } else {
        spec_find_directive(done, n, i + 1)
    }
}

/// Commit a finished directive: overwrite the entity of the same name, or
/// append.
pub open spec fn spec_commit_directive(done: Seq<DirectiveView>, x: DirectiveView) -> Seq<
    DirectiveView,
> {
    let k = spec_find_directive(done, x.name, 0);
    if k < 0 {
        done.push(x)
    } else {
        done.update(k, x)
    }
}

#[verifier::loop_isolation(false)]
fn commit_directive(done: &mut Vec<Directive>, x: Directive)
    ensures
        directive_views(final(done)@) == spec_commit_directive(
            directive_views(old(done)@),
            x@,
        ),
{
    let ghost views = directive_views(done@);
    let mut i: usize = 0;
    while i < done.len()
        invariant
            i <= views.len(),
            views == directive_views(done@),
            spec_find_directive(views, x@.name, 0) == spec_find_directive(views, x@.name, i as int),
        decreases views.len() - i,
    {
        if chars_eq(&done[i].name, &x.name) {
            proof {
                assert(views[i as int] == done@[i as int]@);
                assert(views[i as int].name == x@.name);
                assert(spec_find_directive(views, x@.name, i as int) == i);
            }
            done.set(i, x);
            proof {
                assert(directive_views(done@) =~= views.update(i as int, x@));
                assert(spec_commit_directive(views, x@) == views.update(i as int, x@));
            }
            return ;
        }
        proof {
            assert(views[i as int] == done@[i as int]@);
        }
        i = i + 1;
    }
    proof {
        assert(spec_find_directive(views, x@.name, i as int) == -1);
    }
    done.push(x);
    proof {
        assert(directive_views(done@) =~= views.push(x@));
        assert(spec_commit_directive(views, x@) == views.push(x@));
    }
}

// ---------------------------------------------------------------------
// The directive parser
// ---------------------------------------------------------------------
/// Parser state for the directive walk: the committed directives, the
/// directive under construction, and the assembler the document declared.
pub ghost struct DirState {
    pub done: Seq<DirectiveView>,
    pub curr: DirectiveView,
    pub assembler: Option<Assembler>,
}

impl DirState {
    pub open spec fn init() -> DirState {
        DirState {
            done: Seq::empty(),
            curr: Directive::spec_new(),
            assembler: None,
        }
    }
}

/// One attribute of an `Assembler` element: its `name` declares which
/// assembler the document describes.
pub open spec fn spec_assembler_attr(a: Option<Assembler>, at: XmlAttrView) -> Option<Assembler> {
    if at.key == "name"@ {
        spec_assembler_from_name(at.value)
    } else {
        a
    }
}

pub open spec fn spec_assembler_attrs(
    a: Option<Assembler>,
    attrs: Seq<XmlAttrView>,
    upto: int,
) -> Option<Assembler>
    decreases upto,
{
    if upto <= 0 {
        a
    } else {
        spec_assembler_attr(spec_assembler_attrs(a, attrs, upto - 1), attrs[upto - 1])
    }
}

/// One attribute of a `Directive` element.
pub open spec fn spec_directive_attr(d: DirectiveView, at: XmlAttrView) -> Result<
    DirectiveView,
    ParseError,
> {
    if at.key == "name"@ {
        Ok(
            DirectiveView {
                alt_names: d.alt_names.push(upper_of(at.value)),
                name: at.value,
                ..d
            },
        )
    } else if at.key == "md_description"@ {
        match spec_unescape(at.value) {
            None => Err(ParseError::BadEntity),
            Some(t) => Ok(DirectiveView { description: t, ..d }),
        }
    } else if at.key == "deprecated"@ {
        if at.value == "true"@ {
            Ok(DirectiveView { deprecated: true, ..d })
        } else if at.value == "false"@ {
            Ok(DirectiveView { deprecated: false, ..d })
        } else {
            Err(ParseError::BadBool)
        }
    } else if at.key == "url_fragment"@ {
        Ok(
            DirectiveView {
                url: Some("https://sourceware.org/binutils/docs-2.41/as/"@ + at.value + ".html"@),
                ..d
            },
        )
    } else {
        Ok(d)
    }
}

pub open spec fn spec_directive_attrs(d: DirectiveView, attrs: Seq<XmlAttrView>, upto: int) -> Result<
    DirectiveView,
    ParseError,
>
    decreases upto,
{
    if upto <= 0 {
        Ok(d)
    } else {
        match spec_directive_attrs(d, attrs, upto - 1) {
            Err(e) => Err(e),
            Ok(prev) => spec_directive_attr(prev, attrs[upto - 1]),
        }
    }
}

/// If the directive-attribute fold has failed by position `j`, it stays
/// failed through `upto`.
proof fn lemma_directive_attrs_err(
    d: DirectiveView,
    attrs: Seq<XmlAttrView>,
    j: int,
    upto: int,
    e: ParseError,
)
    requires
        0 < j <= upto,
        spec_directive_attrs(d, attrs, j) == Err::<DirectiveView, ParseError>(e),
    ensures
        spec_directive_attrs(d, attrs, upto) == Err::<DirectiveView, ParseError>(e),
    decreases upto - j,
{
    if j < upto {
        lemma_directive_attrs_err(d, attrs, j + 1, upto, e);
    }
}

/// One attribute of a `Signature` element: `sig` appends one usage
/// pattern, with entities expanded.
pub open spec fn spec_signature_attr(d: DirectiveView, at: XmlAttrView) -> Result<
    DirectiveView,
    ParseError,
> {
    if at.key == "sig"@ {
        match spec_unescape(at.value) {
            None => Err(ParseError::BadEntity),
            Some(t) => Ok(DirectiveView { signatures: d.signatures.push(t), ..d }),
        }
    } else {
        Ok(d)
    }
}

pub open spec fn spec_signature_attrs(d: DirectiveView, attrs: Seq<XmlAttrView>, upto: int) -> Result<
    DirectiveView,
    ParseError,
>
    decreases upto,
{
    if upto <= 0 {
        Ok(d)
    } else {
        match spec_signature_attrs(d, attrs, upto - 1) {
            Err(e) => Err(e),
            Ok(prev) => spec_signature_attr(prev, attrs[upto - 1]),
        }
    }
}

/// One event of the directive walk.
pub open spec fn spec_directive_step(st: DirState, ev: XmlEventView) -> Result<
    DirState,
    ParseError,
> {
    match ev.kind {
        XmlEventKind::Start => {
            if ev.name == "Assembler"@ {
                Ok(
                    DirState {
                        assembler: spec_assembler_attrs(
                            st.assembler,
                            ev.attrs,
                            ev.attrs.len() as int,
                        ),
                        ..st
                    },
                )
            } else if ev.name == "Directive"@ {
                let fresh = DirectiveView { assembler: st.assembler, ..Directive::spec_new() };
                match spec_directive_attrs(fresh, ev.attrs, ev.attrs.len() as int) {
                    Err(e) => Err(e),
                    Ok(d) => Ok(DirState { curr: d, ..st }),
                }
            } else if ev.name == "Signature"@ {
                match spec_signature_attrs(st.curr, ev.attrs, ev.attrs.len() as int) {
                    Err(e) => Err(e),
                    Ok(d) => Ok(DirState { curr: d, ..st }),
                }
            } else {
                Ok(st)
            }
        },
        XmlEventKind::Empty => {
            if ev.name == "Signature"@ {
                match spec_signature_attrs(st.curr, ev.attrs, ev.attrs.len() as int) {
                    Err(e) => Err(e),
                    Ok(d) => Ok(DirState { curr: d, ..st }),
                }
            } else {
                Ok(st)
            }
        },
        XmlEventKind::End => {
            if ev.name == "Directive"@ {
                Ok(
                    DirState {
                        done: spec_commit_directive(st.done, st.curr),
                        curr: Directive::spec_new(),
                        ..st
                    },
                )
            } else {
                Ok(st)
            }
        },
    }
}

pub open spec fn spec_directive_fold(events: Seq<XmlEventView>, upto: int) -> Result<
    DirState,
    ParseError,
>
    decreases upto,
{
    if upto <= 0 {
        Ok(DirState::init())
    } else {
        match spec_directive_fold(events, upto - 1) {
            Err(e) => Err(e),
            Ok(st) => spec_directive_step(st, events[upto - 1]),
        }
    }
}

/// The directives a reference document denotes, in first-commit order,
/// the last committed entity of each name winning; or why ingestion
/// failed.
pub open spec fn spec_populate_directives(s: Seq<char>) -> Result<Seq<DirectiveView>, ParseError> {
    match spec_events(s) {
        None => Err(ParseError::Xml),
        Some(evs) => match spec_directive_fold(evs, evs.len() as int) {
            Err(e) => Err(e),
            Ok(st) => Ok(st.done),
        },
    }
}

/// Parse the given document contents and return every assembler directive
/// they describe. The walk is forward-only: one directive is under
/// construction at a time, and its closing tag commits it under its name,
/// overwriting any earlier directive of the same name. Errors are fatal:
/// the corpus is a fixed, versioned input, not user data.
#[verifier::loop_isolation(false)]
pub fn populate_directives(xml_contents: &Vec<char>) -> (r: Result<Vec<Directive>, ParseError>)
    ensures
        match r {
            Ok(directives) => spec_populate_directives(xml_contents@) == Ok::<
                Seq<DirectiveView>,
                ParseError,
            >(directive_views(directives@)),
            Err(e) => spec_populate_directives(xml_contents@) == Err::<Seq<DirectiveView>, ParseError>(e),
        },
{
    let events = match scan_xml(xml_contents) {
        Ok(evs) => evs,
        Err(e) => {
            return Err(e);
        },
    };
    let ghost evs = event_views(events@);
    proof {
        assert(evs =~= events@.map_values(|e: XmlEvent| e@));
    }
    let mut done: Vec<Directive> = Vec::new();
    let mut curr: Directive = Directive::new();
    let mut assembler: Option<Assembler> = None;
    proof {
        assert(directive_views(done@) =~= Seq::<DirectiveView>::empty());
    }
    let mut i: usize = 0;
    while i < events.len()
        invariant
            i <= evs.len(),
            evs == event_views(events@),
            spec_directive_fold(evs, i as int) == Ok::<DirState, ParseError>(
                DirState {
                    done: directive_views(done@),
                    curr: curr@,
                    assembler: assembler,
                },
            ),
        decreases evs.len() - i,
    {
        let ghost st = DirState {
            done: directive_views(done@),
            curr: curr@,
            assembler: assembler,
        };
        let ev = &events[i];
        let ghost evv = evs[i as int];
        proof {
            assert(evv == ev@);
            assert(evv.attrs =~= attr_views(ev.attrs@));
        }
        let kind = ev.kind;
        match kind {
            XmlEventKind::Start => {
                if chars_eq_str(&ev.name, "Assembler") {
                    let mut j: usize = 0;
                    while j < ev.attrs.len()
                        invariant
                            j <= ev.attrs@.len(),
                            evv.attrs == attr_views(ev.attrs@),
                            assembler == spec_assembler_attrs(st.assembler, evv.attrs, j as int),
                        decreases ev.attrs@.len() - j,
                    {
                        if chars_eq_str(&ev.attrs[j].key, "name") {
                            assembler = assembler_from_name(&ev.attrs[j].value);
                        }
                        j = j + 1;
                    }
                } else if chars_eq_str(&ev.name, "Directive") {
                    let mut d = Directive::new();
                    d.assembler = assembler;
                    let mut j: usize = 0;
                    while j < ev.attrs.len()
                        invariant
                            j <= ev.attrs@.len(),
                            evv.attrs == attr_views(ev.attrs@),
                            spec_directive_attrs(
                                DirectiveView { assembler: st.assembler, ..Directive::spec_new() },
                                evv.attrs,
                                j as int,
                            ) == Ok::<DirectiveView, ParseError>(d@),
                            st.assembler == assembler,
                        decreases ev.attrs@.len() - j,
                    {
                        let at = &ev.attrs[j];
                        if chars_eq_str(&at.key, "name") {
                            d.alt_names.push(to_upper_chars(&at.value));
                            d.name = copy_chars(&at.value);
                            proof {
                                assert(d@.alt_names =~= spec_directive_attrs(
                                    DirectiveView {
                                        assembler: st.assembler,
                                        ..Directive::spec_new()
                                    },
                                    evv.attrs,
                                    j as int,
                                )->Ok_0.alt_names.push(upper_of(at@.value)));
                            }
                        } else if chars_eq_str(&at.key, "md_description") {
                            match unescape_chars(&at.value) {
                                Some(t) => {
                                    d.description = t;
                                },
                                None => {
                                    proof {
                                        let e = ParseError::BadEntity;
                                        let fresh = DirectiveView {
                                            assembler: st.assembler,
                                            ..Directive::spec_new()
                                        };
                                        assert(evv.attrs[j as int] == at@);
                                        assert(spec_directive_attrs(fresh, evv.attrs, j + 1)
                                            == Err::<DirectiveView, ParseError>(e));
                                        lemma_directive_attrs_err(
                                            fresh,
                                            evv.attrs,
                                            j + 1,
                                            evv.attrs.len() as int,
                                            e,
                                        );
                                        assert(spec_directive_step(st, evv) == Err::<
                                            DirState,
                                            ParseError,
                                        >(e));
                                        lemma_directive_fold_err(evs, i as int, evs.len() as int, e);
                                    }
                                    return Err(ParseError::BadEntity);
                                },
                            }
                        } else if chars_eq_str(&at.key, "deprecated") {
                            if chars_eq_str(&at.value, "true") {
                                d.deprecated = true;
                            } else if chars_eq_str(&at.value, "false") {
                                d.deprecated = false;
                            } else {
                                proof {
                                    let e = ParseError::BadBool;
                                    let fresh = DirectiveView {
                                        assembler: st.assembler,
                                        ..Directive::spec_new()
                                    };
                                    assert(evv.attrs[j as int] == at@);
                                    assert(spec_directive_attrs(fresh, evv.attrs, j + 1) == Err::<
                                        DirectiveView,
                                        ParseError,
                                    >(e));
                                    lemma_directive_attrs_err(
                                        fresh,
                                        evv.attrs,
                                        j + 1,
                                        evv.attrs.len() as int,
                                        e,
                                    );
                                    assert(spec_directive_step(st, evv) == Err::<
                                        DirState,
                                        ParseError,
                                    >(e));
                                    lemma_directive_fold_err(evs, i as int, evs.len() as int, e);
                                }
                                return Err(ParseError::BadBool);
                            }
                        } else if chars_eq_str(&at.key, "url_fragment") {
                            let mut u = lit_chars("https://sourceware.org/binutils/docs-2.41/as/");
                            append_chars(&mut u, &at.value);
                            append_str(&mut u, ".html");
                            d.url = Some(u);
                        }
                        j = j + 1;
                    }
                    curr = d;
                } else if chars_eq_str(&ev.name, "Signature") {
                    proof {
                        assert(evs[i as int] == ev@);
                    }
                    signature_attrs_exec(&mut curr, ev, Ghost(evs), Ghost(i as int), Ghost(st))?;
                }
            },
            XmlEventKind::Empty => {
                if chars_eq_str(&ev.name, "Signature") {
                    proof {
                        assert(evs[i as int] == ev@);
                    }
                    signature_attrs_exec(&mut curr, ev, Ghost(evs), Ghost(i as int), Ghost(st))?;
                }
            },
            XmlEventKind::End => {
                if chars_eq_str(&ev.name, "Directive") {
                    commit_directive(&mut done, curr);
                    curr = Directive::new();
                }
            },
        }
        i = i + 1;
    }
    Ok(done)
}

/// If the fold has failed by position `i`, it stays failed through `upto`.
proof fn lemma_directive_fold_err(evs: Seq<XmlEventView>, i: int, upto: int, e: ParseError)
    requires
        0 <= i <= upto,
        spec_directive_fold(evs, i) == Err::<DirState, ParseError>(e) || (spec_directive_fold(
            evs,
            i,
        ) is Ok && i < upto && spec_directive_step(spec_directive_fold(evs, i)->Ok_0, evs[i])
            == Err::<DirState, ParseError>(e)),
    ensures
        spec_directive_fold(evs, upto) == Err::<DirState, ParseError>(e),
    decreases upto - i,
{
    if spec_directive_fold(evs, i) is Ok {
        lemma_directive_fold_err(evs, i + 1, upto, e);
    } else {
        if i < upto {
            lemma_directive_fold_err(evs, i + 1, upto, e);
        }
    }
}

/// Apply a `Signature` element's attributes to the directive under
/// construction; on an unrecognized entity the whole ingestion fails.
#[verifier::loop_isolation(false)]
fn signature_attrs_exec(
    curr: &mut Directive,
    ev: &XmlEvent,
    Ghost(evs): Ghost<Seq<XmlEventView>>,
    Ghost(i): Ghost<int>,
    Ghost(st): Ghost<DirState>,
) -> (r: Result<(), ParseError>)
    requires
        0 <= i < evs.len(),
        evs[i] == ev@,
        ev@.name == "Signature"@,
        ev@.kind == XmlEventKind::Start || ev@.kind == XmlEventKind::Empty,
        ev@.kind == XmlEventKind::Start ==> ev@.name != "Assembler"@ && ev@.name != "Directive"@,
        old(curr)@ == st.curr,
        spec_directive_fold(evs, i) == Ok::<DirState, ParseError>(st),
    ensures
        match r {
            Ok(()) => spec_signature_attrs(st.curr, ev@.attrs, ev@.attrs.len() as int) == Ok::<
                DirectiveView,
                ParseError,
            >(final(curr)@),
            Err(e) => spec_directive_fold(evs, evs.len() as int) == Err::<DirState, ParseError>(e)
                && (spec_signature_attrs(st.curr, ev@.attrs, ev@.attrs.len() as int) == Err::<
                DirectiveView,
                ParseError,
            >(e)),
        },
{
    let mut j: usize = 0;
    while j < ev.attrs.len()
        invariant
            j <= ev.attrs@.len(),
            ev@.attrs == attr_views(ev.attrs@),
            spec_signature_attrs(st.curr, ev@.attrs, j as int) == Ok::<DirectiveView, ParseError>(
                curr@,
            ),
        decreases ev.attrs@.len() - j,
    {
        let at = &ev.attrs[j];
        if chars_eq_str(&at.key, "sig") {
            match unescape_chars(&at.value) {
                Some(t) => {
                    curr.signatures.push(t);
                    proof {
                        assert(curr@.signatures =~= spec_signature_attrs(
                            st.curr,
                            ev@.attrs,
                            j as int,
                        )->Ok_0.signatures.push(t@));
                    }
                },
                None => {
                    proof {
                        let e = ParseError::BadEntity;
                        assert(ev@.attrs[j as int] == at@);
                        assert(spec_signature_attrs(st.curr, ev@.attrs, j + 1) == Err::<
                            DirectiveView,
                            ParseError,
                        >(e));
                        lemma_signature_attrs_err(st.curr, ev@.attrs, j + 1, ev@.attrs.len() as int, e);
                        assert(spec_directive_step(st, evs[i]) == Err::<DirState, ParseError>(e));
                        lemma_directive_fold_err(evs, i, evs.len() as int, e);
                    }
                    return Err(ParseError::BadEntity);
                },
            }
        }
        j = j + 1;
    }
    Ok(())
}

/// If the signature-attribute fold has failed by position `j`, it stays
/// failed through `upto`.
proof fn lemma_signature_attrs_err(
    d: DirectiveView,
    attrs: Seq<XmlAttrView>,
    j: int,
    upto: int,
    e: ParseError,
)
    requires
        0 < j <= upto,
        spec_signature_attrs(d, attrs, j) == Err::<DirectiveView, ParseError>(e),
    ensures
        spec_signature_attrs(d, attrs, upto) == Err::<DirectiveView, ParseError>(e),
    decreases upto - j,
{
    if j < upto {
        lemma_signature_attrs_err(d, attrs, j + 1, upto, e);
    }
}

// ---------------------------------------------------------------------
// The register parser
// ---------------------------------------------------------------------
/// First position among the committed registers holding this name.
pub open spec fn spec_find_register(done: Seq<RegisterView>, n: Seq<char>, i: int) -> int
    decreases done.len() - i,
{
    if i < 0 || i >= done.len() {
        -1
    } else if done[i].name == n {
        i
    } else {
        spec_find_register(done, n, i + 1)
    }
}

/// Commit a finished register: overwrite the entity of the same name, or
/// append.
pub open spec fn spec_commit_register(done: Seq<RegisterView>, x: RegisterView) -> Seq<
    RegisterView,
> {
    let k = spec_find_register(done, x.name, 0);
    if k < 0 {
        done.push(x)
    } else {
        done.update(k, x)
    }
}

#[verifier::loop_isolation(false)]
fn commit_register(done: &mut Vec<Register>, x: Register)
    ensures
        register_views(final(done)@) == spec_commit_register(register_views(old(done)@), x@),
{
    let ghost views = register_views(done@);
    let mut i: usize = 0;
    while i < done.len()
        invariant
            i <= views.len(),
            views == register_views(done@),
            spec_find_register(views, x@.name, 0) == spec_find_register(views, x@.name, i as int),
        decreases views.len() - i,
    {
        if chars_eq(&done[i].name, &x.name) {
            proof {
                assert(views[i as int] == done@[i as int]@);
                assert(spec_find_register(views, x@.name, i as int) == i);
            }
            done.set(i, x);
            proof {
                assert(register_views(done@) =~= views.update(i as int, x@));
                assert(spec_commit_register(views, x@) == views.update(i as int, x@));
            }
            return ;
        }
        proof {
            assert(views[i as int] == done@[i as int]@);
        }
        i = i + 1;
    }
    proof {
        assert(spec_find_register(views, x@.name, i as int) == -1);
    }
    done.push(x);
    proof {
        assert(register_views(done@) =~= views.push(x@));
        assert(spec_commit_register(views, x@) == views.push(x@));
    }
}

/// Parser state for the register walk: the committed registers, the
/// register and flag-bit record under construction, and the architecture
/// the document declared.
pub ghost struct RegState {
    pub done: Seq<RegisterView>,
    pub curr: RegisterView,
    pub flag: RegisterBitInfoView,
    pub arch: Option<Arch>,
}

impl RegState {
    pub open spec fn init() -> RegState {
        RegState {
            done: Seq::empty(),
            curr: Register::spec_new(),
            flag: RegisterBitInfo::spec_new(),
            arch: None,
        }
    }
}

/// One attribute of an `InstructionSet` element: its `name` declares which
/// architecture the document describes.
pub open spec fn spec_arch_attr(a: Option<Arch>, at: XmlAttrView) -> Option<Arch> {
    if at.key == "name"@ {
        spec_arch_from_name(at.value)
    } else {
        a
    }
}

pub open spec fn spec_arch_attrs(a: Option<Arch>, attrs: Seq<XmlAttrView>, upto: int) -> Option<
    Arch,
>
    decreases upto,
{
    if upto <= 0 {
        a
    } else {
        spec_arch_attr(spec_arch_attrs(a, attrs, upto - 1), attrs[upto - 1])
    }
}

/// One attribute of a `Register` element. An unrecognized register class
/// or width is fatal: the corpus draws them from a closed, enumerated
/// set.
pub open spec fn spec_register_attr(r: RegisterView, at: XmlAttrView) -> Result<
    RegisterView,
    ParseError,
> {
    if at.key == "name"@ {
        Ok(
            RegisterView {
                alt_names: r.alt_names.push(upper_of(at.value)).push(lower_of(at.value)),
                name: at.value,
                ..r
            },
        )
    } else if at.key == "altname"@ {
        Ok(RegisterView { alt_names: r.alt_names.push(at.value), ..r })
    } else if at.key == "description"@ {
        Ok(RegisterView { description: Some(at.value), ..r })
    } else if at.key == "type"@ {
        if is_register_type_name(at.value) {
            Ok(RegisterView { reg_type: Some(at.value), ..r })
        } else {
            Err(ParseError::UnknownRegisterType)
        }
    } else if at.key == "width"@ {
        if is_register_width_name(at.value) {
            Ok(RegisterView { width: Some(at.value), ..r })
        } else {
            Err(ParseError::UnknownRegisterWidth)
        }
    } else {
        Ok(r)
    }
}

pub open spec fn spec_register_attrs(r: RegisterView, attrs: Seq<XmlAttrView>, upto: int) -> Result<
    RegisterView,
    ParseError,
>
    decreases upto,
{
    if upto <= 0 {
        Ok(r)
    } else {
        match spec_register_attrs(r, attrs, upto - 1) {
            Err(e) => Err(e),
            Ok(prev) => spec_register_attr(prev, attrs[upto - 1]),
        }
    }
}

/// If the register-attribute fold has failed by position `j`, it stays
/// failed through `upto`.
proof fn lemma_register_attrs_err(
    r: RegisterView,
    attrs: Seq<XmlAttrView>,
    j: int,
    upto: int,
    e: ParseError,
)
    requires
        0 < j <= upto,
        spec_register_attrs(r, attrs, j) == Err::<RegisterView, ParseError>(e),
    ensures
        spec_register_attrs(r, attrs, upto) == Err::<RegisterView, ParseError>(e),
    decreases upto - j,
{
    if j < upto {
        lemma_register_attrs_err(r, attrs, j + 1, upto, e);
    }
}

/// One attribute of a `Flag` element: the flag-bit index and its labels.
pub open spec fn spec_flag_attr(f: RegisterBitInfoView, at: XmlAttrView) -> Result<
    RegisterBitInfoView,
    ParseError,
> {
    if at.key == "bit"@ {
        if at.value.len() > 0 && all_digits(at.value) && digits_val(at.value) <= u32::MAX {
            Ok(RegisterBitInfoView { bit: digits_val(at.value) as u32, ..f })
        } else {
            Err(ParseError::BadNumber)
        }
    } else if at.key == "label"@ {
        Ok(RegisterBitInfoView { label: at.value, ..f })
    } else if at.key == "description"@ {
        Ok(RegisterBitInfoView { description: at.value, ..f })
    } else if at.key == "pae"@ {
        Ok(RegisterBitInfoView { pae: at.value, ..f })
    } else if at.key == "longmode"@ {
        Ok(RegisterBitInfoView { long_mode: at.value, ..f })
    } else {
        Ok(f)
    }
}

pub open spec fn spec_flag_attrs(f: RegisterBitInfoView, attrs: Seq<XmlAttrView>, upto: int) -> Result<
    RegisterBitInfoView,
    ParseError,
>
    decreases upto,
{
    if upto <= 0 {
        Ok(f)
    } else {
        match spec_flag_attrs(f, attrs, upto - 1) {
            Err(e) => Err(e),
            Ok(prev) => spec_flag_attr(prev, attrs[upto - 1]),
        }
    }
}

/// If the flag-attribute fold has failed by position `j`, it stays failed
/// through `upto`.
proof fn lemma_flag_attrs_err(
    f: RegisterBitInfoView,
    attrs: Seq<XmlAttrView>,
    j: int,
    upto: int,
    e: ParseError,
)
    requires
        0 < j <= upto,
        spec_flag_attrs(f, attrs, j) == Err::<RegisterBitInfoView, ParseError>(e),
    ensures
        spec_flag_attrs(f, attrs, upto) == Err::<RegisterBitInfoView, ParseError>(e),
    decreases upto - j,
{
    if j < upto {
        lemma_flag_attrs_err(f, attrs, j + 1, upto, e);
    }
}

/// One event of the register walk.
pub open spec fn spec_register_step(st: RegState, ev: XmlEventView) -> Result<
    RegState,
    ParseError,
> {
    match ev.kind {
        XmlEventKind::Start => {
            if ev.name == "InstructionSet"@ {
                Ok(RegState { arch: spec_arch_attrs(st.arch, ev.attrs, ev.attrs.len() as int), ..st })
            } else if ev.name == "Register"@ {
                let fresh = RegisterView { arch: st.arch, ..Register::spec_new() };
                match spec_register_attrs(fresh, ev.attrs, ev.attrs.len() as int) {
                    Err(e) => Err(e),
                    Ok(r) => Ok(RegState { curr: r, ..st }),
                }
            } else if ev.name == "Flag"@ {
                match spec_flag_attrs(RegisterBitInfo::spec_new(), ev.attrs, ev.attrs.len() as int) {
                    Err(e) => Err(e),
                    Ok(f) => Ok(RegState { flag: f, ..st }),
                }
            } else {
                Ok(st)
            }
        },
        XmlEventKind::Empty => Ok(st),
        XmlEventKind::End => {
            if ev.name == "Register"@ {
                Ok(
                    RegState {
                        done: spec_commit_register(st.done, st.curr),
                        curr: Register::spec_new(),
                        ..st
                    },
                )
            } else if ev.name == "Flag"@ {
                Ok(
                    RegState {
                        curr: RegisterView {
                            flag_info: st.curr.flag_info.push(st.flag),
                            ..st.curr
                        },
                        flag: RegisterBitInfo::spec_new(),
                        ..st
                    },
                )
            } else {
                Ok(st)
            }
        },
    }
}

pub open spec fn spec_register_fold(events: Seq<XmlEventView>, upto: int) -> Result<
    RegState,
    ParseError,
>
    decreases upto,
{
    if upto <= 0 {
        Ok(RegState::init())
    } else {
        match spec_register_fold(events, upto - 1) {
            Err(e) => Err(e),
            Ok(st) => spec_register_step(st, events[upto - 1]),
        }
    }
}

/// If the fold has failed by position `i`, it stays failed through `upto`.
proof fn lemma_register_fold_err(evs: Seq<XmlEventView>, i: int, upto: int, e: ParseError)
    requires
        0 <= i <= upto,
        spec_register_fold(evs, i) == Err::<RegState, ParseError>(e) || (spec_register_fold(
            evs,
            i,
        ) is Ok && i < upto && spec_register_step(spec_register_fold(evs, i)->Ok_0, evs[i])
            == Err::<RegState, ParseError>(e)),
    ensures
        spec_register_fold(evs, upto) == Err::<RegState, ParseError>(e),
    decreases upto - i,
{
    if spec_register_fold(evs, i) is Ok {
        lemma_register_fold_err(evs, i + 1, upto, e);
    } else {
        if i < upto {
            lemma_register_fold_err(evs, i + 1, upto, e);
        }
    }
}

/// Error propagation for a failing `Register` attribute: the whole
/// ingestion fails with that error.
proof fn register_attr_err(evs: Seq<XmlEventView>, i: int, st: RegState, e: ParseError, j: int)
    requires
        0 <= i < evs.len(),
        0 <= j < evs[i].attrs.len(),
        spec_register_fold(evs, i) == Ok::<RegState, ParseError>(st),
        evs[i].kind == XmlEventKind::Start,
        evs[i].name == "Register"@,
        evs[i].name != "InstructionSet"@,
        spec_register_attrs(
            RegisterView { arch: st.arch, ..Register::spec_new() },
            evs[i].attrs,
            j + 1,
        ) == Err::<RegisterView, ParseError>(e),
    ensures
        spec_register_fold(evs, evs.len() as int) == Err::<RegState, ParseError>(e),
{
    lemma_register_attrs_err(
        RegisterView { arch: st.arch, ..Register::spec_new() },
        evs[i].attrs,
        j + 1,
        evs[i].attrs.len() as int,
        e,
    );
    assert(spec_register_step(st, evs[i]) == Err::<RegState, ParseError>(e));
    lemma_register_fold_err(evs, i, evs.len() as int, e);
}

/// The registers a reference document denotes, in first-commit order, the
/// last committed entity of each name winning; or why ingestion failed.
pub open spec fn spec_populate_registers(s: Seq<char>) -> Result<Seq<RegisterView>, ParseError> {
    match spec_events(s) {
        None => Err(ParseError::Xml),
        Some(evs) => match spec_register_fold(evs, evs.len() as int) {
            Err(e) => Err(e),
            Ok(st) => Ok(st.done),
        },
    }
}

/// Parse the given document contents and return every register they
/// describe. The walk is forward-only: one register and one flag-bit
/// record are under construction at a time; a closing tag commits them.
/// Errors are fatal: the corpus is a fixed, versioned input, not user
/// data.
#[verifier::loop_isolation(false)]
pub fn populate_registers(xml_contents: &Vec<char>) -> (r: Result<Vec<Register>, ParseError>)
    ensures
        match r {
            Ok(registers) => spec_populate_registers(xml_contents@) == Ok::<
                Seq<RegisterView>,
                ParseError,
            >(register_views(registers@)),
            Err(e) => spec_populate_registers(xml_contents@) == Err::<Seq<RegisterView>, ParseError>(
                e,
            ),
        },
{
    let events = match scan_xml(xml_contents) {
        Ok(evs) => evs,
        Err(e) => {
            return Err(e);
        },
    };
    let ghost evs = event_views(events@);
    proof {
        assert(evs =~= events@.map_values(|e: XmlEvent| e@));
    }
    let mut done: Vec<Register> = Vec::new();
    let mut curr: Register = Register::new();
    let mut flag: RegisterBitInfo = RegisterBitInfo::new();
    let mut arch: Option<Arch> = None;
    proof {
        assert(register_views(done@) =~= Seq::<RegisterView>::empty());
    }
    let mut i: usize = 0;
    while i < events.len()
        invariant
            i <= evs.len(),
            evs == event_views(events@),
            spec_register_fold(evs, i as int) == Ok::<RegState, ParseError>(
                RegState {
                    done: register_views(done@),
                    curr: curr@,
                    flag: flag@,
                    arch: arch,
                },
            ),
        decreases evs.len() - i,
    {
        let ghost st = RegState {
            done: register_views(done@),
            curr: curr@,
            flag: flag@,
            arch: arch,
        };
        let ev = &events[i];
        let ghost evv = evs[i as int];
        proof {
            assert(evv == ev@);
            assert(evv.attrs =~= attr_views(ev.attrs@));
        }
        let kind = ev.kind;
        match kind {
            XmlEventKind::Start => {
                if chars_eq_str(&ev.name, "InstructionSet") {
                    let mut j: usize = 0;
                    while j < ev.attrs.len()
                        invariant
                            j <= ev.attrs@.len(),
                            arch == spec_arch_attrs(st.arch, evv.attrs, j as int),
                        decreases ev.attrs@.len() - j,
                    {
                        if chars_eq_str(&ev.attrs[j].key, "name") {
                            arch = arch_from_name(&ev.attrs[j].value);
                        }
                        j = j + 1;
                    }
                } else if chars_eq_str(&ev.name, "Register") {
                    let mut d = Register::new();
                    d.arch = arch;
                    let mut j: usize = 0;
                    while j < ev.attrs.len()
                        invariant
                            j <= ev.attrs@.len(),
                            spec_register_attrs(
                                RegisterView { arch: st.arch, ..Register::spec_new() },
                                evv.attrs,
                                j as int,
                            ) == Ok::<RegisterView, ParseError>(d@),
                        decreases ev.attrs@.len() - j,
                    {
                        let at = &ev.attrs[j];
                        let ghost before = d@;
                        if chars_eq_str(&at.key, "name") {
                            d.alt_names.push(to_upper_chars(&at.value));
                            d.alt_names.push(to_lower_chars(&at.value));
                            d.name = copy_chars(&at.value);
                            proof {
                                assert(d@.alt_names =~= before.alt_names.push(
                                    upper_of(at@.value),
                                ).push(lower_of(at@.value)));
                            }
                        } else if chars_eq_str(&at.key, "altname") {
                            d.alt_names.push(copy_chars(&at.value));
                            proof {
                                assert(d@.alt_names =~= before.alt_names.push(at@.value));
                            }
                        } else if chars_eq_str(&at.key, "description") {
                            d.description = Some(copy_chars(&at.value));
                        } else if chars_eq_str(&at.key, "type") {
                            if register_type_name_ok(&at.value) {
                                d.reg_type = Some(copy_chars(&at.value));
                            } else {
                                proof {
                                    register_attr_err(
                                        evs,
                                        i as int,
                                        st,
                                        ParseError::UnknownRegisterType,
                                        j as int,
                                    );
                                }
                                return Err(ParseError::UnknownRegisterType);
                            }
                        } else if chars_eq_str(&at.key, "width") {
                            if register_width_name_ok(&at.value) {
                                d.width = Some(copy_chars(&at.value));
                            } else {
                                proof {
                                    register_attr_err(
                                        evs,
                                        i as int,
                                        st,
                                        ParseError::UnknownRegisterWidth,
                                        j as int,
                                    );
                                }
                                return Err(ParseError::UnknownRegisterWidth);
                            }
                        }
                        j = j + 1;
                    }
                    curr = d;
                } else if chars_eq_str(&ev.name, "Flag") {
                    let mut f = RegisterBitInfo::new();
                    let mut j: usize = 0;
                    while j < ev.attrs.len()
                        invariant
                            j <= ev.attrs@.len(),
                            spec_flag_attrs(
                                RegisterBitInfo::spec_new(),
                                evv.attrs,
                                j as int,
                            ) == Ok::<RegisterBitInfoView, ParseError>(f@),
                        decreases ev.attrs@.len() - j,
                    {
                        let at = &ev.attrs[j];
                        if chars_eq_str(&at.key, "bit") {
                            let ok: bool = match parse_u64_chars(&at.value) {
                                Some(v) => {
                                    if v <= 0xffff_ffff {
                                        f.bit = v as u32;
                                        true
                                    } else {
                                        false
                                    }
                                },
                                None => false,
                            };
                            if !ok {
                                proof {
                                    let e = ParseError::BadNumber;
                                    assert(evv.attrs[j as int] == at@);
                                    assert(spec_flag_attrs(
                                        RegisterBitInfo::spec_new(),
                                        evv.attrs,
                                        j + 1,
                                    ) == Err::<RegisterBitInfoView, ParseError>(e));
                                    lemma_flag_attrs_err(
                                        RegisterBitInfo::spec_new(),
                                        evv.attrs,
                                        j + 1,
                                        evv.attrs.len() as int,
                                        e,
                                    );
                                    assert(spec_register_step(st, evv) == Err::<
                                        RegState,
                                        ParseError,
                                    >(e));
                                    lemma_register_fold_err(evs, i as int, evs.len() as int, e);
                                }
                                return Err(ParseError::BadNumber);
                            }
                        } else if chars_eq_str(&at.key, "label") {
                            f.label = copy_chars(&at.value);
                        } else if chars_eq_str(&at.key, "description") {
                            f.description = copy_chars(&at.value);
                        } else if chars_eq_str(&at.key, "pae") {
                            f.pae = copy_chars(&at.value);
                        } else if chars_eq_str(&at.key, "longmode") {
                            f.long_mode = copy_chars(&at.value);
                        }
                        j = j + 1;
                    }
                    flag = f;
                }
            },
            XmlEventKind::Empty => {},
            XmlEventKind::End => {
                if chars_eq_str(&ev.name, "Register") {
                    commit_register(&mut done, curr);
                    curr = Register::new();
                } else if chars_eq_str(&ev.name, "Flag") {
                    curr.push_flag(flag);
                    flag = RegisterBitInfo::new();
                }
            },
        }
        i = i + 1;
    }
    Ok(done)
}


// ---------------------------------------------------------------------
// The instruction parser
// ---------------------------------------------------------------------
/// First position among the committed instructions holding this name.
pub open spec fn spec_find_instruction(done: Seq<InstructionView>, n: Seq<char>, i: int) -> int
    decreases done.len() - i,
{
    if i < 0 || i >= done.len() {
        -1
    } else if done[i].name == n {
        i
    } else {
        spec_find_instruction(done, n, i + 1)
    }
}

/// Commit a finished instruction: overwrite the entity of the same name,
/// or append.
pub open spec fn spec_commit_instruction(done: Seq<InstructionView>, x: InstructionView) -> Seq<
    InstructionView,
> {
    let k = spec_find_instruction(done, x.name, 0);
    if k < 0 {
        done.push(x)
    } else {
        done.update(k, x)
    }
}

#[verifier::loop_isolation(false)]
fn commit_instruction(done: &mut Vec<Instruction>, x: Instruction)
    ensures
        instruction_views(final(done)@) == spec_commit_instruction(
            instruction_views(old(done)@),
            x@,
        ),
{
    let ghost views = instruction_views(done@);
    let mut i: usize = 0;
    while i < done.len()
        invariant
            i <= views.len(),
            views == instruction_views(done@),
            spec_find_instruction(views, x@.name, 0) == spec_find_instruction(
                views,
                x@.name,
                i as int,
            ),
        decreases views.len() - i,
    {
        if chars_eq(&done[i].name, &x.name) {
            proof {
                assert(views[i as int] == done@[i as int]@);
                assert(spec_find_instruction(views, x@.name, i as int) == i);
            }
            done.set(i, x);
            proof {
                assert(instruction_views(done@) =~= views.update(i as int, x@));
                assert(spec_commit_instruction(views, x@) == views.update(i as int, x@));
            }
            return ;
        }
        proof {
            assert(views[i as int] == done@[i as int]@);
        }
        i = i + 1;
    }
    proof {
        assert(spec_find_instruction(views, x@.name, i as int) == -1);
    }
    done.push(x);
    proof {
        assert(instruction_views(done@) =~= views.push(x@));
        assert(spec_commit_instruction(views, x@) == views.push(x@));
    }
}

/// Parser state for the instruction walk: the committed instructions, the
/// instruction and form under construction, and the architecture the
/// document declared.
pub ghost struct InstrState {
    pub done: Seq<InstructionView>,
    pub curr: InstructionView,
    pub form: InstructionFormView,
    pub arch: Option<Arch>,
}

impl InstrState {
    pub open spec fn init() -> InstrState {
        InstrState {
            done: Seq::empty(),
            curr: Instruction::spec_new(),
            form: InstructionForm::spec_new(),
            arch: None,
        }
    }
}

/// One attribute of an `Instruction` element: the canonical name also
/// yields the two case-variant alias names.
pub open spec fn spec_instruction_attr(c: InstructionView, at: XmlAttrView) -> InstructionView {
    if at.key == "name"@ {
        InstructionView {
            alt_names: c.alt_names.push(upper_of(at.value)).push(lower_of(at.value)),
            name: at.value,
            ..c
        }
    } else if at.key == "summary"@ {
        InstructionView { summary: at.value, ..c }
    } else {
        c
    }
}

pub open spec fn spec_instruction_attrs(
    c: InstructionView,
    attrs: Seq<XmlAttrView>,
    upto: int,
) -> InstructionView
    decreases upto,
{
    if upto <= 0 {
        c
    } else {
        spec_instruction_attr(spec_instruction_attrs(c, attrs, upto - 1), attrs[upto - 1])
    }
}

/// The address of the z80 reference manual; a form's fragment is appended
/// to it.
pub open spec fn spec_z80_doc_base() -> Seq<char> {
    "https://www.zilog.com/docs/z80/z80cpu_um.pdf#"@
}

/// One attribute of an `InstructionForm` element.
pub open spec fn spec_form_attr(f: InstructionFormView, at: XmlAttrView) -> Result<
    InstructionFormView,
    ParseError,
> {
    if at.key == "gas-name"@ {
        Ok(InstructionFormView { gas_name: Some(at.value), ..f })
    } else if at.key == "go-name"@ {
        Ok(InstructionFormView { go_name: Some(at.value), ..f })
    } else if at.key == "mmx-mode"@ {
        if is_mmx_mode_name(at.value) {
            Ok(InstructionFormView { mmx_mode: Some(at.value), ..f })
        } else {
            Err(ParseError::UnknownMmxMode)
        }
    } else if at.key == "xmm-mode"@ {
        if is_xmm_mode_name(at.value) {
            Ok(InstructionFormView { xmm_mode: Some(at.value), ..f })
        } else {
            Err(ParseError::UnknownXmmMode)
        }
    } else if at.key == "cancelling-inputs"@ {
        if at.value == "true"@ {
            Ok(InstructionFormView { cancelling_inputs: Some(true), ..f })
        } else if at.value == "false"@ {
            Ok(InstructionFormView { cancelling_inputs: Some(false), ..f })
        } else {
            Err(ParseError::BadBool)
        }
    } else if at.key == "nacl-version"@ {
        Ok(
            InstructionFormView {
                nacl_version: if at.value.len() > 0 {
                    Some((at.value[0] as u32) as u8)
                } else {
                    None
                },
                ..f
            },
        )
    } else if at.key == "nacl-zero-extends-outputs"@ {
        if at.value == "true"@ {
            Ok(InstructionFormView { nacl_zero_extends_outputs: Some(true), ..f })
        } else if at.value == "false"@ {
            Ok(InstructionFormView { nacl_zero_extends_outputs: Some(false), ..f })
        } else {
            Err(ParseError::BadBool)
        }
    } else if at.key == "z80name"@ {
        Ok(InstructionFormView { z80_name: Some(at.value), ..f })
    } else if at.key == "form"@ {
        Ok(
            InstructionFormView {
                urls: f.urls.push(spec_z80_doc_base() + www_form_encoded_of(at.value)),
                z80_form: Some(at.value),
                ..f
            },
        )
    } else {
        Ok(f)
    }
}

pub open spec fn spec_form_attrs(f: InstructionFormView, attrs: Seq<XmlAttrView>, upto: int) -> Result<
    InstructionFormView,
    ParseError,
>
    decreases upto,
{
    if upto <= 0 {
        Ok(f)
    } else {
        match spec_form_attrs(f, attrs, upto - 1) {
            Err(e) => Err(e),
            Ok(prev) => spec_form_attr(prev, attrs[upto - 1]),
        }
    }
}

proof fn lemma_form_attrs_err(
    f: InstructionFormView,
    attrs: Seq<XmlAttrView>,
    j: int,
    upto: int,
    e: ParseError,
)
    requires
        0 < j <= upto,
        spec_form_attrs(f, attrs, j) == Err::<InstructionFormView, ParseError>(e),
    ensures
        spec_form_attrs(f, attrs, upto) == Err::<InstructionFormView, ParseError>(e),
    decreases upto - j,
{
    if j < upto {
        lemma_form_attrs_err(f, attrs, j + 1, upto, e);
    }
}

/// One attribute of an `Encoding` element: each `byte` extends the
/// accumulated opcode text.
pub open spec fn spec_encoding_attr(f: InstructionFormView, at: XmlAttrView) -> InstructionFormView {
    if at.key == "byte"@ {
        InstructionFormView {
            z80_opcode: match f.z80_opcode {
                Some(o) => Some(o + at.value + " "@),
                None => Some(at.value + " "@),
            },
            ..f
        }
    } else {
        f
    }
}

pub open spec fn spec_encoding_attrs(
    f: InstructionFormView,
    attrs: Seq<XmlAttrView>,
    upto: int,
) -> InstructionFormView
    decreases upto,
{
    if upto <= 0 {
        f
    } else {
        spec_encoding_attr(spec_encoding_attrs(f, attrs, upto - 1), attrs[upto - 1])
    }
}

/// One attribute of an `ISA` element: `id` names the extension the form
/// needs.
pub open spec fn spec_isa_attr(f: InstructionFormView, at: XmlAttrView) -> Result<
    InstructionFormView,
    ParseError,
> {
    if at.key == "id"@ {
        if is_isa_name(at.value) {
            Ok(InstructionFormView { isa: Some(at.value), ..f })
        } else {
            Err(ParseError::UnknownIsa)
        }
    } else {
        Ok(f)
    }
}

pub open spec fn spec_isa_attrs(f: InstructionFormView, attrs: Seq<XmlAttrView>, upto: int) -> Result<
    InstructionFormView,
    ParseError,
>
    decreases upto,
{
    if upto <= 0 {
        Ok(f)
    } else {
        match spec_isa_attrs(f, attrs, upto - 1) {
            Err(e) => Err(e),
            Ok(prev) => spec_isa_attr(prev, attrs[upto - 1]),
        }
    }
}

proof fn lemma_isa_attrs_err(
    f: InstructionFormView,
    attrs: Seq<XmlAttrView>,
    j: int,
    upto: int,
    e: ParseError,
)
    requires
        0 < j <= upto,
        spec_isa_attrs(f, attrs, j) == Err::<InstructionFormView, ParseError>(e),
    ensures
        spec_isa_attrs(f, attrs, upto) == Err::<InstructionFormView, ParseError>(e),
    decreases upto - j,
{
    if j < upto {
        lemma_isa_attrs_err(f, attrs, j + 1, upto, e);
    }
}

/// The operand under construction before any attribute is read.
pub open spec fn spec_operand_init() -> OperandView {
    OperandView { type_: "k"@, input: None, output: None, extended_size: None }
}

/// One attribute of an `Operand` element.
pub open spec fn spec_operand_attr(op: OperandView, at: XmlAttrView) -> Result<
    OperandView,
    ParseError,
> {
    if at.key == "type"@ {
        if is_operand_type_name(at.value) {
            Ok(OperandView { type_: at.value, ..op })
        } else {
            Err(ParseError::UnknownOperandType)
        }
    } else if at.key == "input"@ {
        if at.value == "true"@ {
            Ok(OperandView { input: Some(true), ..op })
        } else if at.value == "false"@ {
            Ok(OperandView { input: Some(false), ..op })
        } else {
            Err(ParseError::BadBool)
        }
    } else if at.key == "output"@ {
        if at.value == "true"@ {
            Ok(OperandView { output: Some(true), ..op })
        } else if at.value == "false"@ {
            Ok(OperandView { output: Some(false), ..op })
        } else {
            Err(ParseError::BadBool)
        }
    } else if at.key == "extended-size"@ {
        if at.value.len() > 0 && all_digits(at.value) && digits_val(at.value) <= usize::MAX {
            Ok(OperandView { extended_size: Some(digits_val(at.value) as usize), ..op })
        } else {
            Err(ParseError::BadNumber)
        }
    } else {
        Ok(op)
    }
}

pub open spec fn spec_operand_attrs(op: OperandView, attrs: Seq<XmlAttrView>, upto: int) -> Result<
    OperandView,
    ParseError,
>
    decreases upto,
{
    if upto <= 0 {
        Ok(op)
    } else {
        match spec_operand_attrs(op, attrs, upto - 1) {
            Err(e) => Err(e),
            Ok(prev) => spec_operand_attr(prev, attrs[upto - 1]),
        }
    }
}

proof fn lemma_operand_attrs_err(
    op: OperandView,
    attrs: Seq<XmlAttrView>,
    j: int,
    upto: int,
    e: ParseError,
)
    requires
        0 < j <= upto,
        spec_operand_attrs(op, attrs, j) == Err::<OperandView, ParseError>(e),
    ensures
        spec_operand_attrs(op, attrs, upto) == Err::<OperandView, ParseError>(e),
    decreases upto - j,
{
    if j < upto {
        lemma_operand_attrs_err(op, attrs, j + 1, upto, e);
    }
}

/// The timing table before any cell is read.
pub open spec fn spec_timing_default() -> Z80TimingView {
    Z80TimingView { z80: "0"@, z80_plus_m1: "0"@, r800: "0"@, r800_plus_wait: "0"@ }
}

/// Write one cell (selected by `which`, in the order Z80, Z80+M1, R800,
/// R800+Wait) into the form's timing table.
pub open spec fn spec_set_timing(f: InstructionFormView, which: int, v: Seq<char>) -> InstructionFormView {
    let t = match f.z80_timing {
        Some(t) => t,
        None => spec_timing_default(),
    };
    let t2 = if which == 0 {
        Z80TimingView { z80: v, ..t }
    } else if which == 1 {
        Z80TimingView { z80_plus_m1: v, ..t }
    } else if which == 2 {
        Z80TimingView { r800: v, ..t }
    } else {
        Z80TimingView { r800_plus_wait: v, ..t }
    };
    InstructionFormView { z80_timing: Some(t2), ..f }
}

/// One attribute of a timing element: `value` must be a timing cell.
pub open spec fn spec_timing_attr(f: InstructionFormView, which: int, at: XmlAttrView) -> Result<
    InstructionFormView,
    ParseError,
> {
    if at.key == "value"@ {
        if is_timing_text(at.value) {
            Ok(spec_set_timing(f, which, at.value))
        } else {
            Err(ParseError::BadTiming)
        }
    } else {
        Ok(f)
    }
}

pub open spec fn spec_timing_attrs(
    f: InstructionFormView,
    which: int,
    attrs: Seq<XmlAttrView>,
    upto: int,
) -> Result<InstructionFormView, ParseError>
    decreases upto,
{
    if upto <= 0 {
        Ok(f)
    } else {
        match spec_timing_attrs(f, which, attrs, upto - 1) {
            Err(e) => Err(e),
            Ok(prev) => spec_timing_attr(prev, which, attrs[upto - 1]),
        }
    }
}

proof fn lemma_timing_attrs_err(
    f: InstructionFormView,
    which: int,
    attrs: Seq<XmlAttrView>,
    j: int,
    upto: int,
    e: ParseError,
)
    requires
        0 < j <= upto,
        spec_timing_attrs(f, which, attrs, j) == Err::<InstructionFormView, ParseError>(e),
    ensures
        spec_timing_attrs(f, which, attrs, upto) == Err::<InstructionFormView, ParseError>(e),
    decreases upto - j,
{
    if j < upto {
        lemma_timing_attrs_err(f, which, attrs, j + 1, upto, e);
    }
}

/// One event of the instruction walk.
pub open spec fn spec_instruction_step(st: InstrState, ev: XmlEventView) -> Result<
    InstrState,
    ParseError,
> {
    match ev.kind {
        XmlEventKind::Start => {
            if ev.name == "InstructionSet"@ {
                Ok(
                    InstrState {
                        arch: spec_arch_attrs(st.arch, ev.attrs, ev.attrs.len() as int),
                        ..st
                    },
                )
            } else if ev.name == "Instruction"@ {
                let fresh = InstructionView { arch: st.arch, ..Instruction::spec_new() };
                Ok(
                    InstrState {
                        curr: spec_instruction_attrs(fresh, ev.attrs, ev.attrs.len() as int),
                        ..st
                    },
                )
            } else if ev.name == "InstructionForm"@ {
                match spec_form_attrs(InstructionForm::spec_new(), ev.attrs, ev.attrs.len() as int) {
                    Err(e) => Err(e),
                    Ok(f) => Ok(InstrState { form: f, ..st }),
                }
            } else if ev.name == "Encoding"@ {
                Ok(
                    InstrState {
                        form: spec_encoding_attrs(st.form, ev.attrs, ev.attrs.len() as int),
                        ..st
                    },
                )
            } else {
                Ok(st)
            }
        },
        XmlEventKind::Empty => {
            if ev.name == "ISA"@ {
                match spec_isa_attrs(st.form, ev.attrs, ev.attrs.len() as int) {
                    Err(e) => Err(e),
                    Ok(f) => Ok(InstrState { form: f, ..st }),
                }
            } else if ev.name == "Operand"@ {
                match spec_operand_attrs(spec_operand_init(), ev.attrs, ev.attrs.len() as int) {
                    Err(e) => Err(e),
                    Ok(op) => Ok(
                        InstrState {
                            form: InstructionFormView {
                                operands: st.form.operands.push(op),
                                ..st.form
                            },
                            ..st
                        },
                    ),
                }
            } else if ev.name == "TimingZ80"@ {
                match spec_timing_attrs(st.form, 0, ev.attrs, ev.attrs.len() as int) {
                    Err(e) => Err(e),
                    Ok(f) => Ok(InstrState { form: f, ..st }),
                }
            } else if ev.name == "TimingZ80M1"@ {
                match spec_timing_attrs(st.form, 1, ev.attrs, ev.attrs.len() as int) {
                    Err(e) => Err(e),
                    Ok(f) => Ok(InstrState { form: f, ..st }),
                }
            } else if ev.name == "TimingR800"@ {
                match spec_timing_attrs(st.form, 2, ev.attrs, ev.attrs.len() as int) {
                    Err(e) => Err(e),
                    Ok(f) => Ok(InstrState { form: f, ..st }),
                }
            } else if ev.name == "TimingR800Wait"@ {
                match spec_timing_attrs(st.form, 3, ev.attrs, ev.attrs.len() as int) {
                    Err(e) => Err(e),
                    Ok(f) => Ok(InstrState { form: f, ..st }),
                }
            } else {
                Ok(st)
            }
        },
        XmlEventKind::End => {
            if ev.name == "Instruction"@ {
                Ok(
                    InstrState {
                        done: spec_commit_instruction(st.done, st.curr),
                        curr: Instruction::spec_new(),
                        ..st
                    },
                )
            } else if ev.name == "InstructionForm"@ {
                Ok(
                    InstrState {
                        curr: InstructionView { forms: st.curr.forms.push(st.form), ..st.curr },
                        form: InstructionForm::spec_new(),
                        ..st
                    },
                )
            } else {
                Ok(st)
            }
        },
    }
}

pub open spec fn spec_instruction_fold(events: Seq<XmlEventView>, upto: int) -> Result<
    InstrState,
    ParseError,
>
    decreases upto,
{
    if upto <= 0 {
        Ok(InstrState::init())
    } else {
        match spec_instruction_fold(events, upto - 1) {
            Err(e) => Err(e),
            Ok(st) => spec_instruction_step(st, events[upto - 1]),
        }
    }
}

/// If the fold has failed by position `i`, it stays failed through `upto`.
proof fn lemma_instruction_fold_err(evs: Seq<XmlEventView>, i: int, upto: int, e: ParseError)
    requires
        0 <= i <= upto,
        spec_instruction_fold(evs, i) == Err::<InstrState, ParseError>(e) || (
        spec_instruction_fold(evs, i) is Ok && i < upto && spec_instruction_step(
            spec_instruction_fold(evs, i)->Ok_0,
            evs[i],
        ) == Err::<InstrState, ParseError>(e)),
    ensures
        spec_instruction_fold(evs, upto) == Err::<InstrState, ParseError>(e),
    decreases upto - i,
{
    if spec_instruction_fold(evs, i) is Ok {
        lemma_instruction_fold_err(evs, i + 1, upto, e);
    } else {
        if i < upto {
            lemma_instruction_fold_err(evs, i + 1, upto, e);
        }
    }
}

/// The instructions a reference document denotes, in first-commit order,
/// the last committed entity of each name winning; or why ingestion
/// failed. Documentation links are attached separately, from the
/// supplementary index.
pub open spec fn spec_populate_instructions(s: Seq<char>) -> Result<Seq<InstructionView>, ParseError> {
    match spec_events(s) {
        None => Err(ParseError::Xml),
        Some(evs) => match spec_instruction_fold(evs, evs.len() as int) {
            Err(e) => Err(e),
            Ok(st) => Ok(st.done),
        },
    }
}

/// Parse the given document contents and return every instruction they
/// describe, with all encoding forms, operands, and z80 opcode and timing
/// data. The walk is forward-only: one instruction and one form are under
/// construction at a time; a closing tag commits them. Errors are fatal:
/// the corpus is a fixed, versioned input, not user data.
#[verifier::loop_isolation(false)]
#[verifier::rlimit(60)]
pub fn populate_instructions(xml_contents: &Vec<char>) -> (r: Result<Vec<Instruction>, ParseError>)
    ensures
        match r {
            Ok(instructions) => spec_populate_instructions(xml_contents@) == Ok::<
                Seq<InstructionView>,
                ParseError,
            >(instruction_views(instructions@)),
            Err(e) => spec_populate_instructions(xml_contents@) == Err::<
                Seq<InstructionView>,
                ParseError,
            >(e),
        },
{
    let events = match scan_xml(xml_contents) {
        Ok(evs) => evs,
        Err(e) => {
            return Err(e);
        },
    };
    let ghost evs = event_views(events@);
    proof {
        assert(evs =~= events@.map_values(|e: XmlEvent| e@));
    }
    let mut done: Vec<Instruction> = Vec::new();
    let mut curr: Instruction = Instruction::new();
    let mut form: InstructionForm = InstructionForm::new();
    let mut arch: Option<Arch> = None;
    proof {
        assert(instruction_views(done@) =~= Seq::<InstructionView>::empty());
    }
    let mut i: usize = 0;
    while i < events.len()
        invariant
            i <= evs.len(),
            evs == event_views(events@),
            spec_instruction_fold(evs, i as int) == Ok::<InstrState, ParseError>(
                InstrState {
                    done: instruction_views(done@),
                    curr: curr@,
                    form: form@,
                    arch: arch,
                },
            ),
        decreases evs.len() - i,
    {
        let ghost st = InstrState {
            done: instruction_views(done@),
            curr: curr@,
            form: form@,
            arch: arch,
        };
        let ev = &events[i];
        let ghost evv = evs[i as int];
        proof {
            assert(evv == ev@);
            assert(evv.attrs =~= attr_views(ev.attrs@));
        }
        let kind = ev.kind;
        match kind {
            XmlEventKind::Start => {
                if chars_eq_str(&ev.name, "InstructionSet") {
                    let mut j: usize = 0;
                    while j < ev.attrs.len()
                        invariant
                            j <= ev.attrs@.len(),
                            arch == spec_arch_attrs(st.arch, evv.attrs, j as int),
                        decreases ev.attrs@.len() - j,
                    {
                        if chars_eq_str(&ev.attrs[j].key, "name") {
                            arch = arch_from_name(&ev.attrs[j].value);
                        }
                        j = j + 1;
                    }
                } else if chars_eq_str(&ev.name, "Instruction") {
                    let mut d = Instruction::new();
                    d.arch = arch;
                    let mut j: usize = 0;
                    while j < ev.attrs.len()
                        invariant
                            j <= ev.attrs@.len(),
                            spec_instruction_attrs(
                                InstructionView { arch: st.arch, ..Instruction::spec_new() },
                                evv.attrs,
                                j as int,
                            ) == d@,
                        decreases ev.attrs@.len() - j,
                    {
                        let at = &ev.attrs[j];
                        let ghost before = d@;
                        if chars_eq_str(&at.key, "name") {
                            d.alt_names.push(to_upper_chars(&at.value));
                            d.alt_names.push(to_lower_chars(&at.value));
                            d.name = copy_chars(&at.value);
                            proof {
                                assert(d@.alt_names =~= before.alt_names.push(
                                    upper_of(at@.value),
                                ).push(lower_of(at@.value)));
                            }
                        } else if chars_eq_str(&at.key, "summary") {
                            d.summary = copy_chars(&at.value);
                        }
                        j = j + 1;
                    }
                    curr = d;
                } else if chars_eq_str(&ev.name, "InstructionForm") {
                    let mut f = InstructionForm::new();
                    let mut j: usize = 0;
                    while j < ev.attrs.len()
                        invariant
                            j <= ev.attrs@.len(),
                            spec_form_attrs(InstructionForm::spec_new(), evv.attrs, j as int)
                                == Ok::<InstructionFormView, ParseError>(f@),
                        decreases ev.attrs@.len() - j,
                    {
                        let at = &ev.attrs[j];
                        let ghost before = f@;
                        if chars_eq_str(&at.key, "gas-name") {
                            f.gas_name = Some(copy_chars(&at.value));
                        } else if chars_eq_str(&at.key, "go-name") {
                            f.go_name = Some(copy_chars(&at.value));
                        } else if chars_eq_str(&at.key, "mmx-mode") {
                            if mmx_mode_name_ok(&at.value) {
                                f.mmx_mode = Some(copy_chars(&at.value));
                            } else {
                                proof {
                                    instr_attr_err(evs, i as int, st, ParseError::UnknownMmxMode, j as int);
                                }
                                return Err(ParseError::UnknownMmxMode);
                            }
                        } else if chars_eq_str(&at.key, "xmm-mode") {
                            if xmm_mode_name_ok(&at.value) {
                                f.xmm_mode = Some(copy_chars(&at.value));
                            } else {
                                proof {
                                    instr_attr_err(evs, i as int, st, ParseError::UnknownXmmMode, j as int);
                                }
                                return Err(ParseError::UnknownXmmMode);
                            }
                        } else if chars_eq_str(&at.key, "cancelling-inputs") {
                            if chars_eq_str(&at.value, "true") {
                                f.cancelling_inputs = Some(true);
                            } else if chars_eq_str(&at.value, "false") {
                                f.cancelling_inputs = Some(false);
                            } else {
                                proof {
                                    instr_attr_err(evs, i as int, st, ParseError::BadBool, j as int);
                                }
                                return Err(ParseError::BadBool);
                            }
                        } else if chars_eq_str(&at.key, "nacl-version") {
                            if at.value.len() > 0 {
                                let c = at.value[0];
                                f.nacl_version = Some(#[verifier::truncate] ((c as u32) as u8));
                            } else {
                                f.nacl_version = None;
                            }
                        } else if chars_eq_str(&at.key, "nacl-zero-extends-outputs") {
                            if chars_eq_str(&at.value, "true") {
                                f.nacl_zero_extends_outputs = Some(true);
                            } else if chars_eq_str(&at.value, "false") {
                                f.nacl_zero_extends_outputs = Some(false);
                            } else {
                                proof {
                                    instr_attr_err(evs, i as int, st, ParseError::BadBool, j as int);
                                }
                                return Err(ParseError::BadBool);
                            }
                        } else if chars_eq_str(&at.key, "z80name") {
                            f.z80_name = Some(copy_chars(&at.value));
                        } else if chars_eq_str(&at.key, "form") {
                            let mut u = lit_chars("https://www.zilog.com/docs/z80/z80cpu_um.pdf#");
                            let enc = www_form_encode_chars(&at.value);
                            append_chars(&mut u, &enc);
                            f.urls.push(u);
                            f.z80_form = Some(copy_chars(&at.value));
                            proof {
                                assert(f@.urls =~= before.urls.push(
                                    spec_z80_doc_base() + www_form_encoded_of(at@.value),
                                ));
                            }
                        }
                        j = j + 1;
                    }
                    form = f;
                } else if chars_eq_str(&ev.name, "Encoding") {
                    let mut j: usize = 0;
                    while j < ev.attrs.len()
                        invariant
                            j <= ev.attrs@.len(),
                            spec_encoding_attrs(st.form, evv.attrs, j as int) == form@,
                        decreases ev.attrs@.len() - j,
                    {
                        let at = &ev.attrs[j];
                        let ghost before = form@;
                        if chars_eq_str(&at.key, "byte") {
                            let mut o: Vec<char> = match &form.z80_opcode {
                                Some(o) => copy_chars(o),
                                None => Vec::new(),
                            };
                            append_chars(&mut o, &at.value);
                            append_str(&mut o, " ");
                            form.z80_opcode = Some(o);
                        }
                        j = j + 1;
                    }
                }
            },
            XmlEventKind::Empty => {
                if chars_eq_str(&ev.name, "ISA") {
                    let mut j: usize = 0;
                    while j < ev.attrs.len()
                        invariant
                            j <= ev.attrs@.len(),
                            spec_isa_attrs(st.form, evv.attrs, j as int) == Ok::<
                                InstructionFormView,
                                ParseError,
                            >(form@),
                        decreases ev.attrs@.len() - j,
                    {
                        let at = &ev.attrs[j];
                        if chars_eq_str(&at.key, "id") {
                            if isa_name_ok(&at.value) {
                                form.isa = Some(copy_chars(&at.value));
                            } else {
                                proof {
                                    let e = ParseError::UnknownIsa;
                                    assert(evv.attrs[j as int] == at@);
                                    assert(spec_isa_attrs(st.form, evv.attrs, j + 1) == Err::<
                                        InstructionFormView,
                                        ParseError,
                                    >(e));
                                    lemma_isa_attrs_err(
                                        st.form,
                                        evv.attrs,
                                        j + 1,
                                        evv.attrs.len() as int,
                                        e,
                                    );
                                    assert(spec_instruction_step(st, evv) == Err::<
                                        InstrState,
                                        ParseError,
                                    >(e));
                                    lemma_instruction_fold_err(evs, i as int, evs.len() as int, e);
                                }
                                return Err(ParseError::UnknownIsa);
                            }
                        }
                        j = j + 1;
                    }
                } else if chars_eq_str(&ev.name, "Operand") {
                    let mut op = Operand {
                        type_: lit_chars("k"),
                        input: None,
                        output: None,
                        extended_size: None,
                    };
                    let mut j: usize = 0;
                    while j < ev.attrs.len()
                        invariant
                            j <= ev.attrs@.len(),
                            spec_operand_attrs(spec_operand_init(), evv.attrs, j as int) == Ok::<
                                OperandView,
                                ParseError,
                            >(op@),
                        decreases ev.attrs@.len() - j,
                    {
                        let at = &ev.attrs[j];
                        if chars_eq_str(&at.key, "type") {
                            if operand_type_name_ok(&at.value) {
                                op.type_ = copy_chars(&at.value);
                            } else {
                                proof {
                                    operand_err(evs, i as int, st, ParseError::UnknownOperandType, j as int);
                                }
                                return Err(ParseError::UnknownOperandType);
                            }
                        } else if chars_eq_str(&at.key, "input") {
                            if chars_eq_str(&at.value, "true") {
                                op.input = Some(true);
                            } else if chars_eq_str(&at.value, "false") {
                                op.input = Some(false);
                            } else {
                                proof {
                                    operand_err(evs, i as int, st, ParseError::BadBool, j as int);
                                }
                                return Err(ParseError::BadBool);
                            }
                        } else if chars_eq_str(&at.key, "output") {
                            if chars_eq_str(&at.value, "true") {
                                op.output = Some(true);
                            } else if chars_eq_str(&at.value, "false") {
                                op.output = Some(false);
                            } else {
                                proof {
                                    operand_err(evs, i as int, st, ParseError::BadBool, j as int);
                                }
                                return Err(ParseError::BadBool);
                            }
                        } else if chars_eq_str(&at.key, "extended-size") {
                            let ok: bool = match parse_u64_chars(&at.value) {
                                Some(v) => {
                                    if v <= usize::MAX as u64 {
                                        op.extended_size = Some(v as usize);
                                        true
                                    } else {
                                        false
                                    }
                                },
                                None => false,
                            };
                            if !ok {
                                proof {
                                    operand_err(evs, i as int, st, ParseError::BadNumber, j as int);
                                }
                                return Err(ParseError::BadNumber);
                            }
                        }
                        j = j + 1;
                    }
                    form.operands.push(op);
                    proof {
                        assert(form@.operands =~= st.form.operands.push(op@));
                    }
                } else if chars_eq_str(&ev.name, "TimingZ80") {
                    let mut j: usize = 0;
                    while j < ev.attrs.len()
                        invariant
                            j <= ev.attrs@.len(),
                            spec_timing_attrs(st.form, 0, evv.attrs, j as int) == Ok::<
                                InstructionFormView,
                                ParseError,
                            >(form@),
                        decreases ev.attrs@.len() - j,
                    {
                        let at = &ev.attrs[j];
                        if chars_eq_str(&at.key, "value") {
                            if timing_text_ok(&at.value) {
                                let mut t: Z80Timing = match &form.z80_timing {
                                    Some(t) => Z80Timing {
                                        z80: copy_chars(&t.z80),
                                        z80_plus_m1: copy_chars(&t.z80_plus_m1),
                                        r800: copy_chars(&t.r800),
                                        r800_plus_wait: copy_chars(&t.r800_plus_wait),
                                    },
                                    None => Z80Timing {
                                        z80: lit_chars("0"),
                                        z80_plus_m1: lit_chars("0"),
                                        r800: lit_chars("0"),
                                        r800_plus_wait: lit_chars("0"),
                                    },
                                };
                                t.z80 = copy_chars(&at.value);
                                form.z80_timing = Some(t);
                            } else {
                                proof {
                                    timing_err(evs, i as int, st, 0, j as int);
                                }
                                return Err(ParseError::BadTiming);
                            }
                        }
                        j = j + 1;
                    }
                } else if chars_eq_str(&ev.name, "TimingZ80M1") {
                    let mut j: usize = 0;
                    while j < ev.attrs.len()
                        invariant
                            j <= ev.attrs@.len(),
                            spec_timing_attrs(st.form, 1, evv.attrs, j as int) == Ok::<
                                InstructionFormView,
                                ParseError,
                            >(form@),
                        decreases ev.attrs@.len() - j,
                    {
                        let at = &ev.attrs[j];
                        if chars_eq_str(&at.key, "value") {
                            if timing_text_ok(&at.value) {
                                let mut t: Z80Timing = match &form.z80_timing {
                                    Some(t) => Z80Timing {
                                        z80: copy_chars(&t.z80),
                                        z80_plus_m1: copy_chars(&t.z80_plus_m1),
                                        r800: copy_chars(&t.r800),
                                        r800_plus_wait: copy_chars(&t.r800_plus_wait),
                                    },
                                    None => Z80Timing {
                                        z80: lit_chars("0"),
                                        z80_plus_m1: lit_chars("0"),
                                        r800: lit_chars("0"),
                                        r800_plus_wait: lit_chars("0"),
                                    },
                                };
                                t.z80_plus_m1 = copy_chars(&at.value);
                                form.z80_timing = Some(t);
                            } else {
                                proof {
                                    timing_err(evs, i as int, st, 1, j as int);
                                }
                                return Err(ParseError::BadTiming);
                            }
                        }
                        j = j + 1;
                    }
                } else if chars_eq_str(&ev.name, "TimingR800") {
                    let mut j: usize = 0;
                    while j < ev.attrs.len()
                        invariant
                            j <= ev.attrs@.len(),
                            spec_timing_attrs(st.form, 2, evv.attrs, j as int) == Ok::<
                                InstructionFormView,
                                ParseError,
                            >(form@),
                        decreases ev.attrs@.len() - j,
                    {
                        let at = &ev.attrs[j];
                        if chars_eq_str(&at.key, "value") {
                            if timing_text_ok(&at.value) {
                                let mut t: Z80Timing = match &form.z80_timing {
                                    Some(t) => Z80Timing {
                                        z80: copy_chars(&t.z80),
                                        z80_plus_m1: copy_chars(&t.z80_plus_m1),
                                        r800: copy_chars(&t.r800),
                                        r800_plus_wait: copy_chars(&t.r800_plus_wait),
                                    },
                                    None => Z80Timing {
                                        z80: lit_chars("0"),
                                        z80_plus_m1: lit_chars("0"),
                                        r800: lit_chars("0"),
                                        r800_plus_wait: lit_chars("0"),
                                    },
                                };
                                t.r800 = copy_chars(&at.value);
                                form.z80_timing = Some(t);
                            } else {
                                proof {
                                    timing_err(evs, i as int, st, 2, j as int);
                                }
                                return Err(ParseError::BadTiming);
                            }
                        }
                        j = j + 1;
                    }
                } else if chars_eq_str(&ev.name, "TimingR800Wait") {
                    let mut j: usize = 0;
                    while j < ev.attrs.len()
                        invariant
                            j <= ev.attrs@.len(),
                            spec_timing_attrs(st.form, 3, evv.attrs, j as int) == Ok::<
                                InstructionFormView,
                                ParseError,
                            >(form@),
                        decreases ev.attrs@.len() - j,
                    {
                        let at = &ev.attrs[j];
                        if chars_eq_str(&at.key, "value") {
                            if timing_text_ok(&at.value) {
                                let mut t: Z80Timing = match &form.z80_timing {
                                    Some(t) => Z80Timing {
                                        z80: copy_chars(&t.z80),
                                        z80_plus_m1: copy_chars(&t.z80_plus_m1),
                                        r800: copy_chars(&t.r800),
                                        r800_plus_wait: copy_chars(&t.r800_plus_wait),
                                    },
                                    None => Z80Timing {
                                        z80: lit_chars("0"),
                                        z80_plus_m1: lit_chars("0"),
                                        r800: lit_chars("0"),
                                        r800_plus_wait: lit_chars("0"),
                                    },
                                };
                                t.r800_plus_wait = copy_chars(&at.value);
                                form.z80_timing = Some(t);
                            } else {
                                proof {
                                    timing_err(evs, i as int, st, 3, j as int);
                                }
                                return Err(ParseError::BadTiming);
                            }
                        }
                        j = j + 1;
                    }
                }
            },
            XmlEventKind::End => {
                if chars_eq_str(&ev.name, "Instruction") {
                    commit_instruction(&mut done, curr);
                    curr = Instruction::new();
                } else if chars_eq_str(&ev.name, "InstructionForm") {
                    curr.push_form(form);
                    form = InstructionForm::new();
                }
            },
        }
        i = i + 1;
    }
    Ok(done)
}

/// Error propagation for a failing `InstructionForm` attribute: the whole
/// ingestion fails with that error.
proof fn instr_attr_err(evs: Seq<XmlEventView>, i: int, st: InstrState, e: ParseError, j: int)
    requires
        0 <= i < evs.len(),
        0 <= j < evs[i].attrs.len(),
        spec_instruction_fold(evs, i) == Ok::<InstrState, ParseError>(st),
        evs[i].kind == XmlEventKind::Start,
        evs[i].name == "InstructionForm"@,
        evs[i].name != "InstructionSet"@,
        evs[i].name != "Instruction"@,
        spec_form_attrs(InstructionForm::spec_new(), evs[i].attrs, j + 1) == Err::<
            InstructionFormView,
            ParseError,
        >(e),
    ensures
        spec_instruction_fold(evs, evs.len() as int) == Err::<InstrState, ParseError>(e),
{
    lemma_form_attrs_err(
        InstructionForm::spec_new(),
        evs[i].attrs,
        j + 1,
        evs[i].attrs.len() as int,
        e,
    );
    assert(spec_instruction_step(st, evs[i]) == Err::<InstrState, ParseError>(e));
    lemma_instruction_fold_err(evs, i, evs.len() as int, e);
}

/// Error propagation for a failing `Operand` attribute: the whole
/// ingestion fails with that error.
proof fn operand_err(evs: Seq<XmlEventView>, i: int, st: InstrState, e: ParseError, j: int)
    requires
        0 <= i < evs.len(),
        0 <= j < evs[i].attrs.len(),
        spec_instruction_fold(evs, i) == Ok::<InstrState, ParseError>(st),
        evs[i].kind == XmlEventKind::Empty,
        evs[i].name == "Operand"@,
        evs[i].name != "ISA"@,
        spec_operand_attrs(spec_operand_init(), evs[i].attrs, j + 1) == Err::<
            OperandView,
            ParseError,
        >(e),
    ensures
        spec_instruction_fold(evs, evs.len() as int) == Err::<InstrState, ParseError>(e),
{
    lemma_operand_attrs_err(spec_operand_init(), evs[i].attrs, j + 1, evs[i].attrs.len() as int, e);
    assert(spec_instruction_step(st, evs[i]) == Err::<InstrState, ParseError>(e));
    lemma_instruction_fold_err(evs, i, evs.len() as int, e);
}

/// Error propagation for a failing timing cell: the whole ingestion fails
/// with `BadTiming`.
proof fn timing_err(evs: Seq<XmlEventView>, i: int, st: InstrState, which: int, j: int)
    requires
        0 <= i < evs.len(),
        0 <= j < evs[i].attrs.len(),
        spec_instruction_fold(evs, i) == Ok::<InstrState, ParseError>(st),
        evs[i].kind == XmlEventKind::Empty,
        evs[i].name != "ISA"@,
        evs[i].name != "Operand"@,
        (if which == 0 {
            evs[i].name == "TimingZ80"@
        } else if which == 1 {
            evs[i].name == "TimingZ80M1"@ && evs[i].name != "TimingZ80"@
        } else if which == 2 {
            evs[i].name == "TimingR800"@ && evs[i].name != "TimingZ80"@ && evs[i].name
                != "TimingZ80M1"@
        } else {
            which == 3 && evs[i].name == "TimingR800Wait"@ && evs[i].name != "TimingZ80"@
                && evs[i].name != "TimingZ80M1"@ && evs[i].name != "TimingR800"@
        }),
        spec_timing_attrs(st.form, which, evs[i].attrs, j + 1) == Err::<
            InstructionFormView,
            ParseError,
        >(ParseError::BadTiming),
    ensures
        spec_instruction_fold(evs, evs.len() as int) == Err::<InstrState, ParseError>(
            ParseError::BadTiming,
        ),
{
    let e = ParseError::BadTiming;
    lemma_timing_attrs_err(st.form, which, evs[i].attrs, j + 1, evs[i].attrs.len() as int, e);
    assert(spec_instruction_step(st, evs[i]) == Err::<InstrState, ParseError>(e));
    lemma_instruction_fold_err(evs, i, evs.len() as int, e);
}

} // verus!
