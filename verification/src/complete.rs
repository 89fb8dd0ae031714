//! The completion assembler.
//!
//! Candidate lists are pre-rendered from the name indices once at startup.
//! A request triggered by the register sigil returns the register list; one
//! triggered by the directive sigil returns the directive list; an invoked
//! request classifies the cursor's lexical context — a token preceded by
//! the register sigil or standing in an operand position completes to
//! registers, a token at the start of a line to the union of instructions
//! and directives, narrowed by the in-progress prefix when there is one.
//! Completion is lexical only: no candidate is validated against operand
//! legality. Instructions and directives share one candidate kind, as the
//! protocol layer renders them under one category.

use vstd::prelude::*;

use crate::index::{IndexEntryView, NameIndex};
use crate::text::{
    is_blank_char, spec_line_end, spec_line_start, spec_word_start, WordMode,
};
use crate::util::{copy_chars, has_prefix, is_prefix_of};

verus! {

/// The semantic category a candidate carries. Instructions and assembler
/// directives share the operation category.
#[derive(Clone, Copy, PartialEq, Eq, Structural, Debug)]
pub enum CompletionKind {
    Operation,
    Register,
}

/// One completion candidate.
pub struct CompletionItem {
    pub label: Vec<char>,
    pub kind: CompletionKind,
}

pub ghost struct CompletionItemView {
    pub label: Seq<char>,
    pub kind: CompletionKind,
}

impl View for CompletionItem {
    type V = CompletionItemView;

    open spec fn view(&self) -> CompletionItemView {
        CompletionItemView { label: self.label@, kind: self.kind }
    }
}

/// The views of a sequence of candidates.
pub open spec fn completion_views(s: Seq<CompletionItem>) -> Seq<CompletionItemView> {
    s.map_values(|c: CompletionItem| c@)
}

/// How a completion request arose.
#[derive(Clone, Copy, PartialEq, Eq, Structural, Debug)]
pub enum CompletionTrigger {
    /// Explicitly invoked.
    Invoked,
    /// Typed a trigger character.
    Character(char),
    /// Re-triggered while a completion list was showing.
    Retrigger,
}

/// The candidate list an index yields: one candidate per binding, labelled
/// with the bound name.
pub open spec fn spec_get_completes(entries: Seq<IndexEntryView>, kind: CompletionKind) -> Seq<
    CompletionItemView,
> {
    entries.map_values(|e: IndexEntryView| CompletionItemView { label: e.name, kind: kind })
}

/// Pre-render the candidate list of one index, every candidate carrying
/// the given category.
#[verifier::loop_isolation(false)]
pub fn get_completes(index: &NameIndex, kind: CompletionKind) -> (r: Vec<CompletionItem>)
    ensures
        completion_views(r@) == spec_get_completes(index@, kind),
{
    let mut out: Vec<CompletionItem> = Vec::new();
    let mut i: usize = 0;
    proof {
        assert(completion_views(out@) =~= spec_get_completes(index@, kind).subrange(0, 0));
    }
    while i < index.entries.len()
        invariant
            i <= index@.len(),
            index@.len() == index.entries@.len(),
            completion_views(out@) == spec_get_completes(index@, kind).subrange(0, i as int),
        decreases index@.len() - i,
    {
        let item = CompletionItem { label: copy_chars(&index.entries[i].name), kind };
        out.push(item);
        proof {
            assert(completion_views(out@) =~= spec_get_completes(index@, kind).subrange(
                0,
                i + 1 as int,
            ));
        }
        i = i + 1;
    }
    proof {
        assert(spec_get_completes(index@, kind).subrange(
            0,
            index@.len() as int,
        ) =~= spec_get_completes(index@, kind));
    }
    out
}

/// All characters in `[a, b)` are horizontal whitespace.
pub open spec fn spec_blank_between(s: Seq<char>, a: int, b: int) -> bool {
    forall|k: int| a <= k < b ==> is_blank_char(s[k])
}

/// The candidates that keep a literal prefix.
pub open spec fn spec_filter_prefix(
    items: Seq<CompletionItemView>,
    p: Seq<char>,
    upto: int,
) -> Seq<CompletionItemView>
    decreases upto,
{
    if upto <= 0 {
        Seq::empty()
    } else {
        let prev = spec_filter_prefix(items, p, upto - 1);
        if is_prefix_of(p, items[upto - 1].label) {
            prev.push(items[upto - 1])
        } else {
            prev
        }
    }
}

/// The candidate list for an invoked request, classified by the lexical
/// context at the cursor. A malformed position yields no candidates.
pub open spec fn spec_context_items(
    text: Seq<char>,
    line: int,
    col: int,
    instr_items: Seq<CompletionItemView>,
    dir_items: Seq<CompletionItemView>,
    reg_items: Seq<CompletionItemView>,
) -> Seq<CompletionItemView> {
    let ls = spec_line_start(text, line, 0);
    if ls < 0 {
        Seq::empty()
    } else {
        let le = spec_line_end(text, ls);
        if col < 0 || col > le - ls {
            Seq::empty()
        } else {
            let ci = ls + col;
            let l = spec_word_start(text, WordMode::Identifier, ls, ci);
            if l > ls && text[l - 1] == '%' {
                reg_items
            } else {
                let fl = spec_word_start(text, WordMode::FileToken, ls, ci);
                if spec_blank_between(text, ls, fl) {
                    let union = instr_items + dir_items;
                    let p = text.subrange(fl, ci);
                    if p.len() == 0 {
                        union
                    } else {
                        spec_filter_prefix(union, p, union.len() as int)
                    }
                } else {
                    reg_items
                }
            }
        }
    }
}

/// The candidate list of a completion request.
pub open spec fn spec_get_comp_items(
    text: Seq<char>,
    line: int,
    col: int,
    trigger: CompletionTrigger,
    instr_items: Seq<CompletionItemView>,
    dir_items: Seq<CompletionItemView>,
    reg_items: Seq<CompletionItemView>,
) -> Seq<CompletionItemView> {
    match trigger {
        CompletionTrigger::Character(c) => {
            if c == '%' {
                reg_items
            } else if c == '.' {
                dir_items
            } else {
                spec_context_items(text, line, col, instr_items, dir_items, reg_items)
            }
        },
        _ => spec_context_items(text, line, col, instr_items, dir_items, reg_items),
    }
}

#[verifier::loop_isolation(false)]
fn copy_items(items: &Vec<CompletionItem>) -> (r: Vec<CompletionItem>)
    ensures
        completion_views(r@) == completion_views(items@),
{
    let mut out: Vec<CompletionItem> = Vec::new();
    let mut i: usize = 0;
    proof {
        assert(completion_views(out@) =~= completion_views(items@).subrange(0, 0));
    }
    while i < items.len()
        invariant
            i <= items@.len(),
            completion_views(out@) == completion_views(items@).subrange(0, i as int),
        decreases items@.len() - i,
    {
        out.push(CompletionItem { label: copy_chars(&items[i].label), kind: items[i].kind });
        proof {
            assert(completion_views(out@) =~= completion_views(items@).subrange(0, i + 1 as int));
        }
        i = i + 1;
    }
    proof {
        assert(completion_views(items@).subrange(0, items@.len() as int) =~= completion_views(
            items@,
        ));
    }
    out
}

#[verifier::loop_isolation(false)]
fn append_filtered(
    out: &mut Vec<CompletionItem>,
    items: &Vec<CompletionItem>,
    p: &Vec<char>,
)
    ensures
        completion_views(final(out)@) == completion_views(old(out)@) + spec_filter_prefix(
            completion_views(items@),
            p@,
            items@.len() as int,
        ),
{
    let ghost base = completion_views(old(out)@);
    let ghost views = completion_views(items@);
    let mut i: usize = 0;
    proof {
        assert(base + spec_filter_prefix(views, p@, 0) =~= base);
    }
    while i < items.len()
        invariant
            i <= items@.len(),
            completion_views(out@) == base + spec_filter_prefix(views, p@, i as int),
        decreases items@.len() - i,
    {
        if has_prefix(&items[i].label, p) {
            out.push(
                CompletionItem { label: copy_chars(&items[i].label), kind: items[i].kind },
            );
            proof {
                assert(completion_views(out@) =~= (base + spec_filter_prefix(
                    views,
                    p@,
                    i as int,
                )).push(views[i as int]));
                assert((base + spec_filter_prefix(views, p@, i as int)).push(views[i as int])
                    =~= base + spec_filter_prefix(views, p@, i as int).push(views[i as int]));
            }
        }
        i = i + 1;
    }
}

/// Answer a completion request: classify the trigger and the lexical
/// context at the cursor, and return the candidate list of the matching
/// category, narrowed by the in-progress prefix where one exists.
#[verifier::loop_isolation(false)]
pub fn get_comp_resp(
    text: &Vec<char>,
    line: usize,
    col: usize,
    trigger: CompletionTrigger,
    instr_items: &Vec<CompletionItem>,
    dir_items: &Vec<CompletionItem>,
    reg_items: &Vec<CompletionItem>,
) -> (r: Vec<CompletionItem>)
    ensures
        completion_views(r@) == spec_get_comp_items(
            text@,
            line as int,
            col as int,
            trigger,
            completion_views(instr_items@),
            completion_views(dir_items@),
            completion_views(reg_items@),
        ),
{
    match trigger {
        CompletionTrigger::Character(c) => {
            if c == '%' {
                return copy_items(reg_items);
            }
            if c == '.' {
                return copy_items(dir_items);
            }
        },
        _ => {},
    }
    context_items(text, line, col, instr_items, dir_items, reg_items)
}

#[verifier::loop_isolation(false)]
fn context_items(
    text: &Vec<char>,
    line: usize,
    col: usize,
    instr_items: &Vec<CompletionItem>,
    dir_items: &Vec<CompletionItem>,
    reg_items: &Vec<CompletionItem>,
) -> (r: Vec<CompletionItem>)
    ensures
        completion_views(r@) == spec_context_items(
            text@,
            line as int,
            col as int,
            completion_views(instr_items@),
            completion_views(dir_items@),
            completion_views(reg_items@),
        ),
{
    let empty: Vec<CompletionItem> = Vec::new();
    proof {
        assert(completion_views(empty@) =~= Seq::<CompletionItemView>::empty());
    }
    let ls = match crate::text::find_line_start(text, line) {
        Some(ls) => ls,
        None => {
            return empty;
        },
    };
    let le = crate::text::find_line_end(text, ls);
    if col > le - ls {
        return empty;
    }
    let ci = ls + col;
    let l = crate::text::word_start_from(text, WordMode::Identifier, ls, ci);
    if l > ls && text[l - 1] == '%' {
        return copy_items(reg_items);
    }
    let fl = crate::text::word_start_from(text, WordMode::FileToken, ls, ci);
    let mut blank = true;
    let mut k: usize = ls;
    while k < fl
        invariant
            ls <= k <= fl,
            blank == spec_blank_between(text@, ls as int, k as int),
        decreases fl - k,
    {
        if !crate::text::blank_char(text[k]) {
            blank = false;
            proof {
                assert(!spec_blank_between(text@, ls as int, fl as int));
            }
            k = fl;
        } else {
            proof {
                if spec_blank_between(text@, ls as int, k as int) {
                    assert forall|m: int| ls <= m < k + 1 implies is_blank_char(text@[m]) by {}
                }
            }
            k = k + 1;
        }
    }
    if !blank {
        return copy_items(reg_items);
    }
    let ghost instr_views = completion_views(instr_items@);
    let ghost dir_views = completion_views(dir_items@);
    if fl == ci {
        let mut union = copy_items(instr_items);
        let more = copy_items(dir_items);
        let mut j: usize = 0;
        let ghost more_views = completion_views(more@);
        proof {
            assert(completion_views(union@) + more_views.subrange(0, 0) =~= instr_views);
        }
        while j < more.len()
            invariant
                j <= more@.len(),
                more_views == completion_views(more@),
                completion_views(union@) == instr_views + more_views.subrange(0, j as int),
            decreases more@.len() - j,
        {
            let item = CompletionItem { label: copy_chars(&more[j].label), kind: more[j].kind };
            proof {
                assert(item@ == more_views[j as int]);
            }
            union.push(item);
            proof {
                assert(completion_views(union@) =~= (instr_views + more_views.subrange(
                    0,
                    j as int,
                )).push(more_views[j as int]));
                assert((instr_views + more_views.subrange(0, j as int)).push(
                    more_views[j as int],
                ) =~= instr_views + more_views.subrange(0, j + 1 as int));
            }
            j = j + 1;
        }
        proof {
            assert(more_views.subrange(0, more@.len() as int) =~= more_views);
            assert(instr_views + dir_views =~= instr_views + more_views);
        }
        return union;
    }
    let p = crate::util::sub_chars(text, fl, ci);
    let mut out: Vec<CompletionItem> = Vec::new();
    proof {
        assert(completion_views(out@) =~= Seq::<CompletionItemView>::empty());
    }
    append_filtered(&mut out, instr_items, &p);
    append_filtered(&mut out, dir_items, &p);
    proof {
        lemma_filter_prefix_append(instr_views, dir_views, p@);
        assert(Seq::<CompletionItemView>::empty() + spec_filter_prefix(
            instr_views,
            p@,
            instr_views.len() as int,
        ) =~= spec_filter_prefix(instr_views, p@, instr_views.len() as int));
        assert((instr_views + dir_views).len() as int == instr_views.len() + dir_views.len());
    }
    out
}

/// Filtering depends only on the entries below the bound.
proof fn lemma_filter_prefix_agree(
    s1: Seq<CompletionItemView>,
    s2: Seq<CompletionItemView>,
    p: Seq<char>,
    upto: int,
)
    requires
        upto <= s1.len(),
        upto <= s2.len(),
        forall|k: int| 0 <= k < upto ==> s1[k] == s2[k],
    ensures
        spec_filter_prefix(s1, p, upto) == spec_filter_prefix(s2, p, upto),
    decreases upto,
{
    if upto > 0 {
        lemma_filter_prefix_agree(s1, s2, p, upto - 1);
    }
}

/// Filtering a concatenation filters each part in order.
proof fn lemma_filter_prefix_append(
    a: Seq<CompletionItemView>,
    b: Seq<CompletionItemView>,
    p: Seq<char>,
)
    ensures
        spec_filter_prefix(a + b, p, (a + b).len() as int) == spec_filter_prefix(
            a,
            p,
            a.len() as int,
        ) + spec_filter_prefix(b, p, b.len() as int),
    decreases b.len(),
{
    if b.len() == 0 {
        assert(a + b =~= a);
        assert(spec_filter_prefix(a, p, a.len() as int) + spec_filter_prefix(b, p, 0)
            =~= spec_filter_prefix(a, p, a.len() as int));
    } else {
        let b0 = b.drop_last();
        lemma_filter_prefix_append(a, b0, p);
        assert((a + b).drop_last() =~= a + b0);
        let n = (a + b).len() as int;
        assert((a + b)[n - 1] == b.last());
        lemma_filter_prefix_agree(a + b, a + b0, p, n - 1);
        lemma_filter_prefix_agree(b, b0, p, b.len() - 1);
        assert(spec_filter_prefix(a + b, p, n) == (if is_prefix_of(p, b.last().label) {
            spec_filter_prefix(a + b0, p, (a + b0).len() as int).push(b.last())
        } else {
            spec_filter_prefix(a + b0, p, (a + b0).len() as int)
        }));
        if is_prefix_of(p, b.last().label) {
            assert((spec_filter_prefix(a, p, a.len() as int) + spec_filter_prefix(
                b0,
                p,
                b0.len() as int,
            )).push(b.last()) =~= spec_filter_prefix(a, p, a.len() as int) + spec_filter_prefix(
                b0,
                p,
                b0.len() as int,
            ).push(b.last()));
        }
    }
}

/// Completion category purity: a request triggered by the register sigil
/// answers with exactly the register list, so with register-kind
/// candidates only; one triggered by the directive sigil answers with
/// exactly the directive list. (Directives and instructions share the
/// operation kind, so the directive list is the finest category the kind
/// tag can witness.)
pub proof fn lemma_completion_category_purity(
    text: Seq<char>,
    line: int,
    col: int,
    instr_items: Seq<CompletionItemView>,
    dir_items: Seq<CompletionItemView>,
    reg_items: Seq<CompletionItemView>,
)
    requires
        forall|k: int| 0 <= k < reg_items.len() ==> (#[trigger] reg_items[k]).kind
            == CompletionKind::Register,
        forall|k: int| 0 <= k < dir_items.len() ==> (#[trigger] dir_items[k]).kind
            == CompletionKind::Operation,
    ensures
        spec_get_comp_items(
            text,
            line,
            col,
            CompletionTrigger::Character('%'),
            instr_items,
            dir_items,
            reg_items,
        ) == reg_items,
        spec_get_comp_items(
            text,
            line,
            col,
            CompletionTrigger::Character('.'),
            instr_items,
            dir_items,
            reg_items,
        ) == dir_items,
        forall|k: int|
            0 <= k < spec_get_comp_items(
                text,
                line,
                col,
                CompletionTrigger::Character('%'),
                instr_items,
                dir_items,
                reg_items,
            ).len() ==> (#[trigger] spec_get_comp_items(
                text,
                line,
                col,
                CompletionTrigger::Character('%'),
                instr_items,
                dir_items,
                reg_items,
            )[k]).kind == CompletionKind::Register,
        forall|k: int|
            0 <= k < spec_get_comp_items(
                text,
                line,
                col,
                CompletionTrigger::Character('.'),
                instr_items,
                dir_items,
                reg_items,
            ).len() ==> (#[trigger] spec_get_comp_items(
                text,
                line,
                col,
                CompletionTrigger::Character('.'),
                instr_items,
                dir_items,
                reg_items,
            )[k]).kind == CompletionKind::Operation,
{
}

} // verus!
