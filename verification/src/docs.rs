//! Supplementary documentation links for x86 instruction sets.
//!
//! After ingestion, a supplementary HTML index (fetched from the web or
//! read from a local cache by the caller) is scanned for pairs of a link
//! target and an instruction name, and each pair attaches a documentation
//! address to the instruction of that name. This step never fails: a body
//! that yields no pairs simply leaves every instruction without a link.
//! The cache policy itself is a pure decision, computed here; reading,
//! writing and deleting the cache file is the caller's business.

use vstd::prelude::*;

use crate::parser::{instruction_views, spec_find_instruction};
use crate::types::{Arch, Instruction, InstructionView};
use crate::util::{chars_eq, copy_chars, lit_chars, sub_chars};

verus! {

/// Start position of the first occurrence of `pat` at or after `i`; `-1`
/// when there is none.
pub open spec fn spec_find_sub(s: Seq<char>, pat: Seq<char>, i: int) -> int
    decreases s.len() - i,
{
    if i < 0 || pat.len() == 0 || i + pat.len() > s.len() {
        -1
    } else if s.subrange(i, i + pat.len() as int) == pat {
        i
    } else {
        spec_find_sub(s, pat, i + 1)
    }
}

pub proof fn lemma_find_sub_bounds(s: Seq<char>, pat: Seq<char>, i: int)
    requires
        0 <= i,
    ensures
        spec_find_sub(s, pat, i) == -1 || (i <= spec_find_sub(s, pat, i) && spec_find_sub(s, pat, i)
            + pat.len() <= s.len()),
    decreases s.len() - i,
{
    if pat.len() > 0 && i + pat.len() <= s.len() && s.subrange(i, i + pat.len() as int) != pat {
        lemma_find_sub_bounds(s, pat, i + 1);
    }
}

/// Find the first occurrence of `pat` in `s` at or after `from`.
#[verifier::loop_isolation(false)]
pub fn find_sub_from(s: &Vec<char>, pat: &Vec<char>, from: usize) -> (r: Option<usize>)
    requires
        from <= s@.len(),
        pat@.len() > 0,
    ensures
        match r {
            Some(k) => spec_find_sub(s@, pat@, from as int) == k as int && from <= k && k + pat@.len()
                <= s@.len(),
            None => spec_find_sub(s@, pat@, from as int) == -1,
        },
{
    let mut i: usize = from;
    while s.len() - i >= pat.len()
        invariant
            from <= i <= s@.len(),
            spec_find_sub(s@, pat@, from as int) == spec_find_sub(s@, pat@, i as int),
        decreases s@.len() - i,
    {
        let mut m: usize = 0;
        let mut matched = true;
        proof {
            assert(s@.subrange(i as int, i as int) =~= pat@.subrange(0, 0));
        }
        while m < pat.len()
            invariant
                i + pat@.len() <= s@.len(),
                m <= pat@.len(),
                matched == (s@.subrange(i as int, i + m as int) == pat@.subrange(0, m as int)),
            decreases pat@.len() - m,
        {
            if s[i + m] != pat[m] {
                proof {
                    assert(pat@.subrange(0, pat@.len() as int) =~= pat@);
                    assert(s@.subrange(i as int, i + pat@.len() as int)[m as int] != pat@.subrange(
                        0,
                        pat@.len() as int,
                    )[m as int]);
                }
                matched = false;
                m = pat.len();
            } else {
                proof {
                    if matched {
                        assert(s@.subrange(i as int, i + m + 1 as int) =~= pat@.subrange(
                            0,
                            m + 1 as int,
                        ));
                    } else {
                        let mm = m as int;
                        assert(s@.subrange(i as int, i + mm) != pat@.subrange(0, mm));
                        if s@.subrange(i as int, i + mm + 1) == pat@.subrange(0, mm + 1) {
                            assert(s@.subrange(i as int, i + mm + 1).subrange(0, mm) =~= s@.subrange(
                                i as int,
                                i + mm,
                            ));
                            assert(pat@.subrange(0, mm + 1).subrange(0, mm) =~= pat@.subrange(
                                0,
                                mm,
                            ));
                        }
                    }
                }
                m = m + 1;
            }
        }
        if matched && s.len() - i >= pat.len() {
            proof {
                assert(pat@.subrange(0, pat@.len() as int) =~= pat@);
                assert(s@.subrange(i as int, i + pat@.len() as int) == pat@);
            }
            return Some(i);
        }
        proof {
            assert(pat@.subrange(0, pat@.len() as int) =~= pat@);
            assert(s@.subrange(i as int, i + pat@.len() as int) != pat@);
        }
        i = i + 1;
    }
    None
}

/// The link pair a table cell denotes: the text between `<a href='/x86/`
/// and the next `'>` (the link target), and the text from there to the
/// next `</a>` (the instruction name), provided a closing `</td>`
/// follows. `None` when the cell has no such link.
pub open spec fn spec_cell_pair(seg: Seq<char>) -> Option<(Seq<char>, Seq<char>)> {
    let p1 = spec_find_sub(seg, "<a href='/x86/"@, 0);
    if p1 < 0 {
        None
    } else {
        let p2 = spec_find_sub(seg, "'>"@, p1 + 14);
        if p2 < 0 {
            None
        } else {
            let p3 = spec_find_sub(seg, "</a>"@, p2 + 2);
            if p3 < 0 {
                None
            } else {
                let p4 = spec_find_sub(seg, "</td>"@, p3 + 4);
                if p4 < 0 {
                    None
                } else {
                    Some((seg.subrange(p1 + 14, p2), seg.subrange(p2 + 2, p3)))
                }
            }
        }
    }
}

fn cell_pair(seg: &Vec<char>) -> (r: Option<(Vec<char>, Vec<char>)>)
    ensures
        match r {
            Some(p) => spec_cell_pair(seg@) == Some((p.0@, p.1@)),
            None => spec_cell_pair(seg@) is None,
        },
{
    proof {
        reveal_strlit("<a href='/x86/");
        reveal_strlit("'>");
        reveal_strlit("</a>");
        reveal_strlit("</td>");
    }
    let seg_len = seg.len();
    let open_pat = lit_chars("<a href='/x86/");
    let p1 = match find_sub_from(seg, &open_pat, 0) {
        Some(p) => p,
        None => {
            return None;
        },
    };
    proof {
        assert(p1 + 14 <= seg_len);
    }
    let quote_pat = lit_chars("'>");
    let p2 = match find_sub_from(seg, &quote_pat, p1 + 14) {
        Some(p) => p,
        None => {
            return None;
        },
    };
    proof {
        assert(p2 + 2 <= seg_len);
    }
    let close_a_pat = lit_chars("</a>");
    let p3 = match find_sub_from(seg, &close_a_pat, p2 + 2) {
        Some(p) => p,
        None => {
            return None;
        },
    };
    proof {
        assert(p3 + 4 <= seg_len);
    }
    let close_td_pat = lit_chars("</td>");
    match find_sub_from(seg, &close_td_pat, p3 + 4) {
        Some(_) => {},
        None => {
            return None;
        },
    }
    Some((sub_chars(seg, p1 + 14, p2), sub_chars(seg, p2 + 2, p3)))
}

/// Attach one link pair: the instruction named `name` gets the address
/// `base + suffix`; a name with no instruction changes nothing.
pub open spec fn spec_attach_pair(
    instrs: Seq<InstructionView>,
    base: Seq<char>,
    suffix: Seq<char>,
    name: Seq<char>,
) -> Seq<InstructionView> {
    let k = spec_find_instruction(instrs, name, 0);
    if k < 0 {
        instrs
    } else {
        instrs.update(k, InstructionView { url: Some(base + suffix), ..instrs[k] })
    }
}

/// Attach the pair of one table cell, when it has one.
pub open spec fn spec_attach_cell(
    instrs: Seq<InstructionView>,
    base: Seq<char>,
    seg: Seq<char>,
) -> Seq<InstructionView> {
    match spec_cell_pair(seg) {
        None => instrs,
        Some((suffix, name)) => spec_attach_pair(instrs, base, suffix, name),
    }
}

/// Walk the cells of the supplementary index — every second segment
/// between `<td>` markers, starting at the segment after the first — and
/// attach each cell's link pair. `i` is the start of a used segment.
pub open spec fn spec_attach_segs(
    instrs: Seq<InstructionView>,
    base: Seq<char>,
    s: Seq<char>,
    i: int,
) -> Seq<InstructionView>
    decreases s.len() - i,
        when 0 <= i <= s.len()
        via spec_attach_segs_dec
{
    let k = spec_find_sub(s, "<td>"@, i);
    if k < 0 {
        spec_attach_cell(instrs, base, s.subrange(i, s.len() as int))
    } else {
        let instrs2 = spec_attach_cell(instrs, base, s.subrange(i, k));
        let k2 = spec_find_sub(s, "<td>"@, k + 4);
        if k2 < 0 {
            instrs2
        } else {
            spec_attach_segs(instrs2, base, s, k2 + 4)
        }
    }
}

#[via_fn]
proof fn spec_attach_segs_dec(instrs: Seq<InstructionView>, base: Seq<char>, s: Seq<char>, i: int) {
    reveal_strlit("<td>");
    lemma_find_sub_bounds(s, "<td>"@, i);
    let k = spec_find_sub(s, "<td>"@, i);
    if k >= 0 {
        lemma_find_sub_bounds(s, "<td>"@, k + 4);
    }
}

/// What attaching the whole supplementary index leaves: the instructions
/// with a documentation address wherever the index names them.
pub open spec fn spec_attach_docs_urls(
    instrs: Seq<InstructionView>,
    base: Seq<char>,
    body: Seq<char>,
) -> Seq<InstructionView> {
    let k0 = spec_find_sub(body, "<td>"@, 0);
    if k0 < 0 {
        instrs
    } else {
        spec_attach_segs(instrs, base, body, k0 + 4)
    }
}

/// Overwrite the address of the instruction at `k`.
fn set_instruction_url(instrs: &mut Vec<Instruction>, k: usize, url: Vec<char>)
    requires
        k < old(instrs)@.len(),
    ensures
        instruction_views(final(instrs)@) == instruction_views(old(instrs)@).update(
            k as int,
            InstructionView { url: Some(url@), ..instruction_views(old(instrs)@)[k as int] },
        ),
{
    let mut x = instrs.remove(k);
    x.url = Some(url);
    instrs.insert(k, x);
    proof {
        assert(instruction_views(instrs@) =~= instruction_views(old(instrs)@).update(
            k as int,
            InstructionView { url: Some(url@), ..instruction_views(old(instrs)@)[k as int] },
        ));
    }
}

/// Position of the instruction holding this name, scanning from the
/// front.
#[verifier::loop_isolation(false)]
fn find_instruction_by_name(instrs: &Vec<Instruction>, name: &Vec<char>) -> (r: Option<usize>)
    ensures
        match r {
            Some(k) => spec_find_instruction(instruction_views(instrs@), name@, 0) == k as int && k
                < instrs@.len(),
            None => spec_find_instruction(instruction_views(instrs@), name@, 0) == -1,
        },
{
    let ghost views = instruction_views(instrs@);
    let mut i: usize = 0;
    while i < instrs.len()
        invariant
            i <= views.len(),
            spec_find_instruction(views, name@, 0) == spec_find_instruction(views, name@, i as int),
        decreases views.len() - i,
    {
        proof {
            assert(views[i as int] == instrs@[i as int]@);
        }
        if chars_eq(&instrs[i].name, name) {
            return Some(i);
        }
        i = i + 1;
    }
    None
}

/// Attach one cell's link pair to the owning instruction, if any.
#[verifier::loop_isolation(false)]
fn attach_cell(instrs: &mut Vec<Instruction>, base: &Vec<char>, seg: &Vec<char>)
    ensures
        instruction_views(final(instrs)@) == spec_attach_cell(
            instruction_views(old(instrs)@),
            base@,
            seg@,
        ),
{
    let (suffix, name) = match cell_pair(seg) {
        Some(p) => p,
        None => {
            return ;
        },
    };
    let k = match find_instruction_by_name(instrs, &name) {
        Some(k) => k,
        None => {
            return ;
        },
    };
    let mut url = copy_chars(base);
    crate::util::append_chars(&mut url, &suffix);
    set_instruction_url(instrs, k, url);
}

/// Attach to each instruction the documentation address the supplementary
/// index gives for its exact name. Instructions the index does not name
/// keep no address; a body without table cells changes nothing. This step
/// never fails.
#[verifier::loop_isolation(false)]
pub fn attach_docs_urls(instrs: &mut Vec<Instruction>, base: &Vec<char>, body: &Vec<char>)
    ensures
        instruction_views(final(instrs)@) == spec_attach_docs_urls(
            instruction_views(old(instrs)@),
            base@,
            body@,
        ),
{
    proof {
        reveal_strlit("<td>");
    }
    let body_len = body.len();
    let td_pat = lit_chars("<td>");
    let k0 = match find_sub_from(body, &td_pat, 0) {
        Some(k) => k,
        None => {
            return ;
        },
    };
    let mut pos: usize = k0 + 4;
    loop
        invariant
            pos <= body@.len(),
            spec_attach_docs_urls(instruction_views(old(instrs)@), base@, body@)
                == spec_attach_segs(instruction_views(instrs@), base@, body@, pos as int),
        decreases body@.len() - pos,
    {
        proof {
            lemma_find_sub_bounds(body@, "<td>"@, pos as int);
        }
        match find_sub_from(body, &td_pat, pos) {
            None => {
                let seg = sub_chars(body, pos, body_len);
                attach_cell(instrs, base, &seg);
                return ;
            },
            Some(k) => {
                let seg = sub_chars(body, pos, k);
                attach_cell(instrs, base, &seg);
                proof {
                    lemma_find_sub_bounds(body@, "<td>"@, k + 4);
                }
                match find_sub_from(body, &td_pat, k + 4) {
                    None => {
                        return ;
                    },
                    Some(k2) => {
                        pos = k2 + 4;
                    },
                }
            },
        }
    }
}

/// Whether an architecture belongs to the x86 families, to which alone
/// the supplementary documentation index applies.
pub open spec fn spec_is_x86_family(a: Option<Arch>) -> bool {
    a == Some(Arch::X86) || a == Some(Arch::X86_64)
}

/// Whether any of the ingested instructions belongs to the x86 families:
/// only then is the supplementary index consulted at all.
#[verifier::loop_isolation(false)]
pub fn any_x86_family(instrs: &Vec<Instruction>) -> (r: bool)
    ensures
        r == (exists|k: int|
            0 <= k < instrs@.len() && spec_is_x86_family(#[trigger] instrs@[k]@.arch)),
{
    let mut i: usize = 0;
    while i < instrs.len()
        invariant
            i <= instrs@.len(),
            forall|k: int| 0 <= k < i ==> !spec_is_x86_family(#[trigger] instrs@[k]@.arch),
        decreases instrs@.len() - i,
    {
        match instrs[i].arch {
            Some(Arch::X86) => {
                proof {
                    assert(spec_is_x86_family(instrs@[i as int]@.arch));
                }
                return true;
            },
            Some(Arch::X86_64) => {
                proof {
                    assert(spec_is_x86_family(instrs@[i as int]@.arch));
                }
                return true;
            },
            _ => {
                proof {
                    assert(!spec_is_x86_family(instrs@[i as int]@.arch));
                }
            },
        }
        i = i + 1;
    }
    false
}

/// The address of the supplementary x86 documentation index.
pub fn get_x86_docs_url() -> (r: Vec<char>)
    ensures
        r@ == "https://www.felixcloutier.com/x86/"@,
{
    lit_chars("https://www.felixcloutier.com/x86/")
}

/// Whether a supplementary index body holds any table cell at all; a body
/// without one is treated as invalid, and the caller deletes the cache
/// file it came from.
pub fn docs_body_is_valid(body: &Vec<char>) -> (r: bool)
    ensures
        r == (spec_find_sub(body@, "<td>"@, 0) >= 0),
{
    proof {
        reveal_strlit("<td>");
        lemma_find_sub_bounds(body@, "<td>"@, 0);
    }
    let td_pat = lit_chars("<td>");
    match find_sub_from(body, &td_pat, 0) {
        Some(_) => true,
        None => false,
    }
}

/// How to obtain the supplementary index body.
#[derive(Clone, Copy, PartialEq, Eq, Structural, Debug)]
pub enum DocsSource {
    /// Fetch from the web; write the body to the cache when a cache path
    /// is known.
    FetchWeb,
    /// Read the cached body.
    ReadCache,
    /// No way to obtain a body: degrade to serving without links.
    Unavailable,
}

/// The cache policy: a forced refresh or a missing cache file means a
/// fetch; otherwise the cache is read when its path is known; with no
/// path at all the step is skipped. Failure of the chosen source never
/// fails ingestion — the caller degrades to instructions without links.
pub fn docs_fetch_plan(cache_refresh: bool, cache_path_known: bool, cache_exists: bool) -> (r:
    DocsSource)
    ensures
        r == (if cache_refresh || !cache_exists {
            DocsSource::FetchWeb
        } else if cache_path_known {
            DocsSource::ReadCache
        } else {
            DocsSource::Unavailable
        }),
{
    if cache_refresh || !cache_exists {
        DocsSource::FetchWeb
    } else if cache_path_known {
        DocsSource::ReadCache
    } else {
        DocsSource::Unavailable
    }
}

} // verus!
