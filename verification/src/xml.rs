//! Event scanning over the reference corpus's XML documents.
//!
//! The corpus is a fixed, versioned set of documents, so the scanner covers
//! exactly the shape they use: start tags with double- or single-quoted
//! attributes, empty-element tags, end tags, and skippable processing
//! instructions, comments and document-type declarations. Text between
//! tags carries no data in the corpus and is skipped. Anything else is a
//! malformed document and fails the whole scan.

use vstd::prelude::*;

use crate::types::ParseError;
use crate::util::{lemma_find_char_bounds, spec_find_char, sub_chars};

verus! {

/// Whitespace between tokens inside a tag.
pub open spec fn is_xml_ws(c: char) -> bool {
    c == ' ' || c == '\t' || c == '\r' || c == '\n'
}

fn xml_ws(c: char) -> (r: bool)
    ensures
        r == is_xml_ws(c),
{
    c == ' ' || c == '\t' || c == '\r' || c == '\n'
}

/// A character that ends a tag or attribute name.
pub open spec fn is_name_end(c: char) -> bool {
    is_xml_ws(c) || c == '/' || c == '>' || c == '='
}

fn name_end(c: char) -> (r: bool)
    ensures
        r == is_name_end(c),
{
    xml_ws(c) || c == '/' || c == '>' || c == '='
}

/// First position at or after `i` holding something besides whitespace;
/// the end of the document when there is none.
pub open spec fn spec_skip_ws(s: Seq<char>, i: int) -> int
    decreases s.len() - i,
{
    if i < 0 || i >= s.len() {
        s.len() as int
    } else if is_xml_ws(s[i]) {
        spec_skip_ws(s, i + 1)
    } else {
        i
    }
}

pub proof fn lemma_skip_ws_bounds(s: Seq<char>, i: int)
    requires
        0 <= i <= s.len(),
    ensures
        i <= spec_skip_ws(s, i) <= s.len(),
    decreases s.len() - i,
{
    if i < s.len() && is_xml_ws(s[i]) {
        lemma_skip_ws_bounds(s, i + 1);
    }
}

fn skip_ws_from(s: &Vec<char>, from: usize) -> (r: usize)
    requires
        from <= s@.len(),
    ensures
        r as int == spec_skip_ws(s@, from as int),
        from <= r <= s@.len(),
{
    let mut i: usize = from;
    while i < s.len()
        invariant
            from <= i <= s@.len(),
            spec_skip_ws(s@, from as int) == spec_skip_ws(s@, i as int),
        decreases s@.len() - i,
    {
        if !xml_ws(s[i]) {
            return i;
        }
        i = i + 1;
    }
    i
}

/// First position at or after `i` holding a name-ending character; the end
/// of the document when there is none.
pub open spec fn spec_name_end(s: Seq<char>, i: int) -> int
    decreases s.len() - i,
{
    if i < 0 || i >= s.len() {
        s.len() as int
    } else if is_name_end(s[i]) {
        i
    } else {
        spec_name_end(s, i + 1)
    }
}

pub proof fn lemma_name_end_bounds(s: Seq<char>, i: int)
    requires
        0 <= i <= s.len(),
    ensures
        i <= spec_name_end(s, i) <= s.len(),
    decreases s.len() - i,
{
    if i < s.len() && !is_name_end(s[i]) {
        lemma_name_end_bounds(s, i + 1);
    }
}

fn name_end_from(s: &Vec<char>, from: usize) -> (r: usize)
    requires
        from <= s@.len(),
    ensures
        r as int == spec_name_end(s@, from as int),
        from <= r <= s@.len(),
{
    let mut i: usize = from;
    while i < s.len()
        invariant
            from <= i <= s@.len(),
            spec_name_end(s@, from as int) == spec_name_end(s@, i as int),
        decreases s@.len() - i,
    {
        if name_end(s[i]) {
            return i;
        }
        i = i + 1;
    }
    i
}

/// Position just past the first occurrence of the two-character sequence
/// `a b` at or after `i`; `-1` when there is none.
pub open spec fn spec_find2_end(s: Seq<char>, a: char, b: char, i: int) -> int
    decreases s.len() - i,
{
    if i < 0 || i + 2 > s.len() {
        -1
    } else if s[i] == a && s[i + 1] == b {
        i + 2
    } else {
        spec_find2_end(s, a, b, i + 1)
    }
}

pub proof fn lemma_find2_end_bounds(s: Seq<char>, a: char, b: char, i: int)
    requires
        0 <= i,
    ensures
        spec_find2_end(s, a, b, i) == -1 || i + 2 <= spec_find2_end(s, a, b, i) <= s.len(),
    decreases s.len() - i,
{
    if i + 2 <= s.len() && !(s[i] == a && s[i + 1] == b) {
        lemma_find2_end_bounds(s, a, b, i + 1);
    }
}

fn find2_end_from(s: &Vec<char>, a: char, b: char, from: usize) -> (r: Option<usize>)
    requires
        from <= s@.len(),
    ensures
        match r {
            Some(k) => spec_find2_end(s@, a, b, from as int) == k as int && from + 2 <= k
                <= s@.len(),
            None => spec_find2_end(s@, a, b, from as int) == -1,
        },
{
    let mut i: usize = from;
    while s.len() - i >= 2
        invariant
            from <= i <= s@.len(),
            spec_find2_end(s@, a, b, from as int) == spec_find2_end(s@, a, b, i as int),
        decreases s@.len() - i,
    {
        if s[i] == a && s[i + 1] == b {
            return Some(i + 2);
        }
        i = i + 1;
    }
    None
}

/// Position just past the first occurrence of the three-character sequence
/// `a b c` at or after `i`; `-1` when there is none.
pub open spec fn spec_find3_end(s: Seq<char>, a: char, b: char, c: char, i: int) -> int
    decreases s.len() - i,
{
    if i < 0 || i + 3 > s.len() {
        -1
    } else if s[i] == a && s[i + 1] == b && s[i + 2] == c {
        i + 3
    } else {
        spec_find3_end(s, a, b, c, i + 1)
    }
}

pub proof fn lemma_find3_end_bounds(s: Seq<char>, a: char, b: char, c: char, i: int)
    requires
        0 <= i,
    ensures
        spec_find3_end(s, a, b, c, i) == -1 || i + 3 <= spec_find3_end(s, a, b, c, i) <= s.len(),
    decreases s.len() - i,
{
    if i + 3 <= s.len() && !(s[i] == a && s[i + 1] == b && s[i + 2] == c) {
        lemma_find3_end_bounds(s, a, b, c, i + 1);
    }
}

fn find3_end_from(s: &Vec<char>, a: char, b: char, c: char, from: usize) -> (r: Option<usize>)
    requires
        from <= s@.len(),
    ensures
        match r {
            Some(k) => spec_find3_end(s@, a, b, c, from as int) == k as int && from + 3 <= k
                <= s@.len(),
            None => spec_find3_end(s@, a, b, c, from as int) == -1,
        },
{
    let mut i: usize = from;
    while s.len() - i >= 3
        invariant
            from <= i <= s@.len(),
            spec_find3_end(s@, a, b, c, from as int) == spec_find3_end(s@, a, b, c, i as int),
        decreases s@.len() - i,
    {
        if s[i] == a && s[i + 1] == b && s[i + 2] == c {
            return Some(i + 3);
        }
        i = i + 1;
    }
    None
}

/// What kind of tag an event came from.
#[derive(Clone, Copy, PartialEq, Eq, Structural, Debug)]
pub enum XmlEventKind {
    /// `<Name ...>`
    Start,
    /// `<Name ... />`
    Empty,
    /// `</Name>`
    End,
}

/// One attribute of a tag, with its raw (unexpanded) value.
pub struct XmlAttr {
    pub key: Vec<char>,
    pub value: Vec<char>,
}

pub ghost struct XmlAttrView {
    pub key: Seq<char>,
    pub value: Seq<char>,
}

impl View for XmlAttr {
    type V = XmlAttrView;

    open spec fn view(&self) -> XmlAttrView {
        XmlAttrView { key: self.key@, value: self.value@ }
    }
}

/// One tag of the document.
pub struct XmlEvent {
    pub kind: XmlEventKind,
    pub name: Vec<char>,
    pub attrs: Vec<XmlAttr>,
}

pub ghost struct XmlEventView {
    pub kind: XmlEventKind,
    pub name: Seq<char>,
    pub attrs: Seq<XmlAttrView>,
}

impl View for XmlEvent {
    type V = XmlEventView;

    open spec fn view(&self) -> XmlEventView {
        XmlEventView {
            kind: self.kind,
            name: self.name@,
            attrs: self.attrs@.map_values(|a: XmlAttr| a@),
        }
    }
}

/// The attribute list from position `i` up to the closing `>` or `/>`:
/// the attributes, whether the tag was an empty-element tag, and the
/// position just past the closing bracket. `None` when the text does not
/// continue as an attribute list.
pub open spec fn spec_scan_attrs(s: Seq<char>, i: int) -> Option<(Seq<XmlAttrView>, bool, int)>
    decreases s.len() - i,
        when 0 <= i <= s.len()
        via spec_scan_attrs_dec
{
    let j = spec_skip_ws(s, i);
    if j >= s.len() {
        None
    } else if s[j] == '>' {
        Some((Seq::empty(), false, j + 1))
    } else if s[j] == '/' {
        if j + 1 < s.len() && s[j + 1] == '>' {
            Some((Seq::empty(), true, j + 2))
        } else {
            None
        }
    } else {
        let k = spec_name_end(s, j);
        if k == j || k >= s.len() || s[k] != '=' {
            None
        } else if k + 1 >= s.len() || (s[k + 1] != '"' && s[k + 1] != '\'') {
            None
        } else {
            let q = s[k + 1];
            let v_end = spec_find_char(s, q, k + 2);
            if v_end < 0 {
                None
            } else {
                match spec_scan_attrs(s, v_end + 1) {
                    None => None,
                    Some((attrs, is_empty, nxt)) => Some(
                        (
                            seq![
                                XmlAttrView {
                                    key: s.subrange(j, k),
                                    value: s.subrange(k + 2, v_end),
                                },
                            ] + attrs,
                            is_empty,
                            nxt,
                        ),
                    ),
                }
            }
        }
    }
}

#[via_fn]
proof fn spec_scan_attrs_dec(s: Seq<char>, i: int) {
    lemma_skip_ws_bounds(s, i);
    let j = spec_skip_ws(s, i);
    if j < s.len() && s[j] != '>' && s[j] != '/' {
        lemma_name_end_bounds(s, j);
        let k = spec_name_end(s, j);
        if !(k == j || k >= s.len() || s[k] != '=') && !(k + 1 >= s.len() || (s[k + 1] != '"' && s[k
            + 1] != '\'')) {
            lemma_find_char_bounds(s, s[k + 1], k + 2);
        }
    }
}

/// Bounds of a successful attribute scan: the scan consumes at least one
/// character and stays inside the document.
pub proof fn lemma_scan_attrs_bounds(s: Seq<char>, i: int)
    requires
        0 <= i <= s.len(),
    ensures
        match spec_scan_attrs(s, i) {
            Some((attrs, is_empty, nxt)) => i < nxt <= s.len(),
            None => true,
        },
    decreases s.len() - i,
{
    lemma_skip_ws_bounds(s, i);
    let j = spec_skip_ws(s, i);
    if j < s.len() && s[j] != '>' && s[j] != '/' {
        lemma_name_end_bounds(s, j);
        let k = spec_name_end(s, j);
        if !(k == j || k >= s.len() || s[k] != '=') && !(k + 1 >= s.len() || (s[k + 1] != '"' && s[k
            + 1] != '\'')) {
            let q = s[k + 1];
            lemma_find_char_bounds(s, q, k + 2);
            let v_end = spec_find_char(s, q, k + 2);
            if v_end >= 0 {
                lemma_scan_attrs_bounds(s, v_end + 1);
            }
        }
    }
}

/// Prefix already-scanned attributes onto the result of scanning the rest.
pub open spec fn attrs_prepend(acc: Seq<XmlAttrView>, o: Option<(Seq<XmlAttrView>, bool, int)>) -> Option<
    (Seq<XmlAttrView>, bool, int),
> {
    match o {
        None => None,
        Some((attrs, is_empty, nxt)) => Some((acc + attrs, is_empty, nxt)),
    }
}

fn scan_attrs(s: &Vec<char>, from: usize) -> (r: Option<(Vec<XmlAttr>, bool, usize)>)
    requires
        from <= s@.len(),
    ensures
        match r {
            Some(t) => spec_scan_attrs(s@, from as int) == Some(
                (t.0@.map_values(|a: XmlAttr| a@), t.1, t.2 as int),
            ) && t.2 <= s@.len(),
            None => spec_scan_attrs(s@, from as int) is None,
        },
{
    let mut acc: Vec<XmlAttr> = Vec::new();
    let mut pos: usize = from;
    proof {
        assert(acc@.map_values(|a: XmlAttr| a@) =~= Seq::<XmlAttrView>::empty());
        assert(attrs_prepend(Seq::empty(), spec_scan_attrs(s@, from as int)) == spec_scan_attrs(
            s@,
            from as int,
        ) || spec_scan_attrs(s@, from as int) is None);
    }
    loop
        invariant
            pos <= s@.len(),
            spec_scan_attrs(s@, from as int) == attrs_prepend(
                acc@.map_values(|a: XmlAttr| a@),
                spec_scan_attrs(s@, pos as int),
            ),
        decreases s@.len() - pos,
    {
        let ghost acc_views = acc@.map_values(|a: XmlAttr| a@);
        let j = skip_ws_from(s, pos);
        if j >= s.len() {
            return None;
        }
        if s[j] == '>' {
            proof {
                assert(acc_views + Seq::<XmlAttrView>::empty() =~= acc_views);
            }
            return Some((acc, false, j + 1));
        }
        if s[j] == '/' {
            if j + 1 < s.len() && s[j + 1] == '>' {
                proof {
                    assert(acc_views + Seq::<XmlAttrView>::empty() =~= acc_views);
                }
                return Some((acc, true, j + 2));
            }
            return None;
        }
        let k = name_end_from(s, j);
        if k == j || k >= s.len() || s[k] != '=' {
            return None;
        }
        if k + 1 >= s.len() || (s[k + 1] != '"' && s[k + 1] != '\'') {
            return None;
        }
        let q = s[k + 1];
        let v_end = match crate::util::find_char_from(s, q, k + 2) {
            Some(v) => v,
            None => {
                return None;
            },
        };
        let attr = XmlAttr { key: sub_chars(s, j, k), value: sub_chars(s, k + 2, v_end) };
        proof {
            lemma_scan_attrs_bounds(s@, v_end + 1);
        }
        acc.push(attr);
        proof {
            let one = XmlAttrView { key: s@.subrange(j as int, k as int), value: s@.subrange(k + 2, v_end as int) };
            assert(acc@.map_values(|a: XmlAttr| a@) =~= acc_views.push(one));
            match spec_scan_attrs(s@, v_end + 1) {
                None => {},
                Some((rest, is_empty, nxt)) => {
                    assert(acc_views + (seq![one] + rest) =~= acc_views.push(one) + rest);
                },
            }
        }
        pos = v_end + 1;
    }
}

/// What scanning finds next from a position: a tag event and the position
/// after it, a skippable construct ending at a position, the end of the
/// document, or a malformed document.
pub ghost enum SpecNext {
    Event(XmlEventView, int),
    Skip(int),
    Eof,
    Bad,
}

/// The next event at or after position `i`.
pub open spec fn spec_next(s: Seq<char>, i: int) -> SpecNext {
    let j = spec_find_char(s, '<', i);
    if j < 0 {
        SpecNext::Eof
    } else if j + 1 >= s.len() {
        SpecNext::Bad
    } else if s[j + 1] == '?' {
        let e = spec_find2_end(s, '?', '>', j + 2);
        if e < 0 {
            SpecNext::Bad
        } else {
            SpecNext::Skip(e)
        }
    } else if s[j + 1] == '!' {
        if j + 3 < s.len() && s[j + 2] == '-' && s[j + 3] == '-' {
            let e = spec_find3_end(s, '-', '-', '>', j + 4);
            if e < 0 {
                SpecNext::Bad
            } else {
                SpecNext::Skip(e)
            }
        } else {
            let e = spec_find_char(s, '>', j + 2);
            if e < 0 {
                SpecNext::Bad
            } else {
                SpecNext::Skip(e + 1)
            }
        }
    } else if s[j + 1] == '/' {
        let k = spec_name_end(s, j + 2);
        if k == j + 2 {
            SpecNext::Bad
        } else {
            let m = spec_skip_ws(s, k);
            if m < s.len() && s[m] == '>' {
                SpecNext::Event(
                    XmlEventView {
                        kind: XmlEventKind::End,
                        name: s.subrange(j + 2, k),
                        attrs: Seq::empty(),
                    },
                    m + 1,
                )
            } else {
                SpecNext::Bad
            }
        }
    } else {
        let k = spec_name_end(s, j + 1);
        if k == j + 1 {
            SpecNext::Bad
        } else {
            match spec_scan_attrs(s, k) {
                None => SpecNext::Bad,
                Some((attrs, is_empty, nxt)) => SpecNext::Event(
                    XmlEventView {
                        kind: if is_empty {
                            XmlEventKind::Empty
                        } else {
                            XmlEventKind::Start
                        },
                        name: s.subrange(j + 1, k),
                        attrs,
                    },
                    nxt,
                ),
            }
        }
    }
}

/// Scanning always makes progress: the position after an event or a
/// skipped construct lies strictly beyond the starting position.
pub proof fn lemma_spec_next_advances(s: Seq<char>, i: int)
    requires
        0 <= i <= s.len(),
    ensures
        match spec_next(s, i) {
            SpecNext::Event(e, nxt) => i < nxt <= s.len(),
            SpecNext::Skip(nxt) => i < nxt <= s.len(),
            SpecNext::Eof => true,
            SpecNext::Bad => true,
        },
{
    lemma_find_char_bounds(s, '<', i);
    let j = spec_find_char(s, '<', i);
    if j >= 0 && j + 1 < s.len() {
        if s[j + 1] == '?' {
            lemma_find2_end_bounds(s, '?', '>', j + 2);
        } else if s[j + 1] == '!' {
            if s.len() - j > 3 && s[j + 2] == '-' && s[j + 3] == '-' {
                lemma_find3_end_bounds(s, '-', '-', '>', j + 4);
            } else {
                lemma_find_char_bounds(s, '>', j + 2);
            }
        } else if s[j + 1] == '/' {
            lemma_name_end_bounds(s, j + 2);
            let k = spec_name_end(s, j + 2);
            if k != j + 2 {
                lemma_skip_ws_bounds(s, k);
            }
        } else {
            lemma_name_end_bounds(s, j + 1);
            let k = spec_name_end(s, j + 1);
            if k != j + 1 {
                lemma_scan_attrs_bounds(s, k);
            }
        }
    }
}

/// All events of the document from position `i` on, in order; `None` when
/// the document is malformed.
pub open spec fn spec_events_from(s: Seq<char>, i: int) -> Option<Seq<XmlEventView>>
    decreases s.len() - i,
        when 0 <= i <= s.len()
        via spec_events_from_dec
{
    match spec_next(s, i) {
        SpecNext::Eof => Some(Seq::empty()),
        SpecNext::Bad => None,
        SpecNext::Skip(j) => spec_events_from(s, j),
        SpecNext::Event(e, j) => match spec_events_from(s, j) {
            None => None,
            Some(rest) => Some(seq![e] + rest),
        },
    }
}

#[via_fn]
proof fn spec_events_from_dec(s: Seq<char>, i: int) {
    lemma_spec_next_advances(s, i);
}

/// All events of the document.
pub open spec fn spec_events(s: Seq<char>) -> Option<Seq<XmlEventView>> {
    spec_events_from(s, 0)
}

/// Prefix already-scanned events onto the result of scanning the rest.
pub open spec fn events_prepend(acc: Seq<XmlEventView>, o: Option<Seq<XmlEventView>>) -> Option<
    Seq<XmlEventView>,
> {
    match o {
        None => None,
        Some(rest) => Some(acc + rest),
    }
}

/// Scan a whole reference document into its tag events. Fails exactly on
/// the documents the event grammar rejects.
pub fn scan_xml(s: &Vec<char>) -> (r: Result<Vec<XmlEvent>, ParseError>)
    ensures
        match r {
            Ok(events) => spec_events(s@) == Some(events@.map_values(|e: XmlEvent| e@)),
            Err(e) => e == ParseError::Xml && spec_events(s@) is None,
        },
{
    let mut acc: Vec<XmlEvent> = Vec::new();
    let mut pos: usize = 0;
    proof {
        assert(acc@.map_values(|e: XmlEvent| e@) =~= Seq::<XmlEventView>::empty());
        match spec_events_from(s@, 0) {
            None => {},
            Some(rest) => {
                assert(Seq::<XmlEventView>::empty() + rest =~= rest);
            },
        }
    }
    loop
        invariant
            pos <= s@.len(),
            spec_events(s@) == events_prepend(
                acc@.map_values(|e: XmlEvent| e@),
                spec_events_from(s@, pos as int),
            ),
        decreases s@.len() - pos,
    {
        let ghost acc_views = acc@.map_values(|e: XmlEvent| e@);
        proof {
            lemma_spec_next_advances(s@, pos as int);
        }
        // find the next tag
        let j = match crate::util::find_char_from(s, '<', pos) {
            Some(j) => j,
            None => {
                proof {
                    assert(acc_views + Seq::<XmlEventView>::empty() =~= acc_views);
                }
                return Ok(acc);
            },
        };
        if s.len() - j <= 1 {
            return Err(ParseError::Xml);
        }
        if s[j + 1] == '?' {
            match find2_end_from(s, '?', '>', j + 2) {
                Some(e) => {
                    pos = e;
                },
                None => {
                    return Err(ParseError::Xml);
                },
            }
        } else if s[j + 1] == '!' {
            if s.len() - j > 3 && s[j + 2] == '-' && s[j + 3] == '-' {
                match find3_end_from(s, '-', '-', '>', j + 4) {
                    Some(e) => {
                        pos = e;
                    },
                    None => {
                        return Err(ParseError::Xml);
                    },
                }
            } else {
                match crate::util::find_char_from(s, '>', j + 2) {
                    Some(e) => {
                        pos = e + 1;
                    },
                    None => {
                        return Err(ParseError::Xml);
                    },
                }
            }
        } else if s[j + 1] == '/' {
            let k = name_end_from(s, j + 2);
            if k == j + 2 {
                return Err(ParseError::Xml);
            }
            let m = skip_ws_from(s, k);
            if m < s.len() && s[m] == '>' {
                let ev = XmlEvent {
                    kind: XmlEventKind::End,
                    name: sub_chars(s, j + 2, k),
                    attrs: Vec::new(),
                };
                proof {
                    assert(ev@.attrs =~= Seq::<XmlAttrView>::empty());
                }
                acc.push(ev);
                proof {
                    assert(acc@.map_values(|e: XmlEvent| e@) =~= acc_views.push(ev@));
                    match spec_events_from(s@, m + 1) {
                        None => {},
                        Some(rest) => {
                            assert(acc_views + (seq![ev@] + rest) =~= acc_views.push(ev@) + rest);
                        },
                    }
                }
                pos = m + 1;
            } else {
                return Err(ParseError::Xml);
            }
        } else {
            let k = name_end_from(s, j + 1);
            if k == j + 1 {
                return Err(ParseError::Xml);
            }
            match scan_attrs(s, k) {
                None => {
                    return Err(ParseError::Xml);
                },
                Some((attrs, is_empty, nxt)) => {
                    let ev = XmlEvent {
                        kind: if is_empty {
                            XmlEventKind::Empty
                        } else {
                            XmlEventKind::Start
                        },
                        name: sub_chars(s, j + 1, k),
                        attrs,
                    };
                    acc.push(ev);
                    proof {
                        assert(acc@.map_values(|e: XmlEvent| e@) =~= acc_views.push(ev@));
                        match spec_events_from(s@, nxt as int) {
                            None => {},
                            Some(rest) => {
                                assert(acc_views + (seq![ev@] + rest) =~= acc_views.push(ev@)
                                    + rest);
                            },
                        }
                    }
                    pos = nxt;
                },
            }
        }
    }
}

} // verus!
