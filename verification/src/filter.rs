//! Target-configuration filtering.
//!
//! After ingestion and before index construction, each instruction keeps
//! only the encoding forms that some enabled assembler can display: the
//! name fields of disabled assemblers are masked out, and a form whose
//! assembler-specific names are all absent after masking is dropped.
//! Instructions left with no forms are dropped by the caller.

use vstd::prelude::*;

use crate::types::{Assemblers, Instruction, InstructionForm, InstructionFormView, InstructionView, TargetConfig};

verus! {

/// The form with the name fields of disabled assemblers masked out.
pub open spec fn spec_mask_form(f: InstructionFormView, enabled: Assemblers) -> InstructionFormView {
    InstructionFormView {
        gas_name: if enabled.gas {
            f.gas_name
        } else {
            None
        },
        go_name: if enabled.go {
            f.go_name
        } else {
            None
        },
        z80_name: if enabled.z80 {
            f.z80_name
        } else {
            None
        },
        ..f
    }
}

/// Whether a form still names any assembler after masking.
pub open spec fn spec_form_visible(f: InstructionFormView, enabled: Assemblers) -> bool {
    ||| (enabled.gas && f.gas_name is Some)
    ||| (enabled.go && f.go_name is Some)
    ||| (enabled.z80 && f.z80_name is Some)
}

/// The forms that survive filtering, masked, in source order.
pub open spec fn spec_filter_forms(forms: Seq<InstructionFormView>, enabled: Assemblers) -> Seq<
    InstructionFormView,
>
    decreases forms.len(),
{
    if forms.len() == 0 {
        Seq::empty()
    } else {
        let rest = spec_filter_forms(forms.drop_first(), enabled);
        if spec_form_visible(forms.first(), enabled) {
            seq![spec_mask_form(forms.first(), enabled)] + rest
        } else {
            rest
        }
    }
}

/// Narrow an instruction to the assemblers the configuration enables:
/// mask out the name fields of disabled assemblers and drop the forms
/// that keep no assembler name. Every other field is unchanged.
pub fn instr_filter_targets(instr: Instruction, config: &TargetConfig) -> (r: Instruction)
    ensures
        r@ == (InstructionView {
            forms: spec_filter_forms(instr@.forms, config.assemblers),
            ..instr@
        }),
{
    let enabled = config.assemblers;
    let Instruction { name, alt_names, summary, url, arch, forms } = instr;
    let mut forms = forms;
    let ghost all_forms = forms@.map_values(|f: InstructionForm| f@);
    let mut kept: Vec<InstructionForm> = Vec::new();
    proof {
        assert(kept@.map_values(|f: InstructionForm| f@) =~= Seq::<InstructionFormView>::empty());
    }
    while forms.len() > 0
        invariant
            kept@.map_values(|f: InstructionForm| f@) + spec_filter_forms(
                forms@.map_values(|f: InstructionForm| f@),
                enabled,
            ) =~= spec_filter_forms(all_forms, enabled),
        decreases forms@.len(),
    {
        let ghost before = forms@.map_values(|f: InstructionForm| f@);
        let ghost kept_before = kept@.map_values(|f: InstructionForm| f@);
        let mut f = forms.remove(0);
        proof {
            assert(forms@.map_values(|g: InstructionForm| g@) =~= before.drop_first());
            assert(before.first() == f@);
        }
        if !enabled.gas {
            f.gas_name = None;
        }
        if !enabled.go {
            f.go_name = None;
        }
        if !enabled.z80 {
            f.z80_name = None;
        }
        let visible = (enabled.gas && f.gas_name.is_some()) || (enabled.go && f.go_name.is_some()) || (
        enabled.z80 && f.z80_name.is_some());
        proof {
            assert(f@ == spec_mask_form(before.first(), enabled));
            assert(visible == spec_form_visible(before.first(), enabled));
        }
        if visible {
            kept.push(f);
            proof {
                let rest = spec_filter_forms(before.drop_first(), enabled);
                assert(kept@.map_values(|g: InstructionForm| g@) =~= kept_before.push(f@));
                assert(kept_before.push(f@) + rest =~= kept_before + (seq![f@] + rest));
            }
        }
    }
    proof {
        assert(forms@.map_values(|f: InstructionForm| f@) =~= Seq::<InstructionFormView>::empty());
        assert(kept@.map_values(|f: InstructionForm| f@) + Seq::<InstructionFormView>::empty()
            =~= kept@.map_values(|f: InstructionForm| f@));
    }
    let r = Instruction { name, alt_names, summary, url, arch, forms: kept };
    proof {
        assert(r@.forms =~= spec_filter_forms(all_forms, enabled));
    }
    r
}

/// Filtering with a configuration that enables every assembler drops no
/// form and changes none, provided each form names at least one assembler
/// (a form naming none is invisible to every configuration).
pub proof fn lemma_filter_all_enabled(forms: Seq<InstructionFormView>, enabled: Assemblers)
    requires
        enabled.gas && enabled.go && enabled.z80,
        forall|k: int|
            0 <= k < forms.len() ==> (#[trigger] forms[k].gas_name is Some
                || forms[k].go_name is Some || forms[k].z80_name is Some),
    ensures
        spec_filter_forms(forms, enabled) == forms,
    decreases forms.len(),
{
    if forms.len() > 0 {
        assert(forms[0].gas_name is Some || forms[0].go_name is Some || forms[0].z80_name is Some);
        assert(forall|k: int|
            0 <= k < forms.drop_first().len() ==> (#[trigger] forms.drop_first()[k].gas_name is Some
                || forms.drop_first()[k].go_name is Some
                || forms.drop_first()[k].z80_name is Some));
        lemma_filter_all_enabled(forms.drop_first(), enabled);
        assert(spec_mask_form(forms.first(), enabled) == forms.first());
        assert(seq![forms.first()] + forms.drop_first() =~= forms);
    }
}

/// Filtering is idempotent: filtering a second time with the same
/// configuration changes nothing.
pub proof fn lemma_filter_idempotent(forms: Seq<InstructionFormView>, enabled: Assemblers)
    ensures
        spec_filter_forms(spec_filter_forms(forms, enabled), enabled) == spec_filter_forms(forms, enabled),
    decreases forms.len(),
{
    if forms.len() == 0 {
        assert(spec_filter_forms(forms, enabled) =~= Seq::<InstructionFormView>::empty());
    } else {
        lemma_filter_idempotent(forms.drop_first(), enabled);
        let first = forms.first();
        let rest = spec_filter_forms(forms.drop_first(), enabled);
        if spec_form_visible(first, enabled) {
            let m = spec_mask_form(first, enabled);
            assert(spec_mask_form(m, enabled) == m);
            assert(spec_form_visible(m, enabled));
            let whole = seq![m] + rest;
            assert(whole.first() == m);
            assert(whole.drop_first() =~= rest);
            assert(spec_filter_forms(whole, enabled) =~= seq![m] + spec_filter_forms(rest, enabled));
        }
    }
}

/// The instructions that survive configuration filtering: each has its
/// forms masked and narrowed, and instructions left with no forms are
/// dropped.
pub open spec fn spec_filter_instructions(
    xs: Seq<InstructionView>,
    enabled: Assemblers,
    upto: int,
) -> Seq<InstructionView>
    decreases upto,
{
    if upto <= 0 {
        Seq::empty()
    } else {
        let prev = spec_filter_instructions(xs, enabled, upto - 1);
        let filtered = InstructionView {
            forms: spec_filter_forms(xs[upto - 1].forms, enabled),
            ..xs[upto - 1]
        };
        if filtered.forms.len() == 0 {
            prev
        } else {
            prev.push(filtered)
        }
    }
}

/// Narrow every instruction to the enabled assemblers and drop the
/// instructions left with no forms.
#[verifier::loop_isolation(false)]
pub fn instr_filter_targets_all(instrs: Vec<Instruction>, config: &TargetConfig) -> (r: Vec<
    Instruction,
>)
    ensures
        r@.map_values(|x: Instruction| x@) == spec_filter_instructions(
            instrs@.map_values(|x: Instruction| x@),
            config.assemblers,
            instrs@.len() as int,
        ),
{
    let ghost all = instrs@.map_values(|x: Instruction| x@);
    let mut instrs = instrs;
    let mut kept: Vec<Instruction> = Vec::new();
    let initial_len = instrs.len();
    let ghost total = initial_len as nat;
    let mut i: usize = 0;
    proof {
        assert(kept@.map_values(|x: Instruction| x@) =~= Seq::<InstructionView>::empty());
        assert(instrs@.map_values(|x: Instruction| x@) =~= all.subrange(0, total as int));
    }
    while instrs.len() > 0
        invariant
            i + instrs@.len() == total,
            all.len() == total,
            instrs@.map_values(|x: Instruction| x@) == all.subrange(i as int, total as int),
            kept@.map_values(|x: Instruction| x@) == spec_filter_instructions(all, config.assemblers, i as int),
        decreases instrs@.len(),
    {
        let ghost kept_before = kept@.map_values(|x: Instruction| x@);
        let ghost before = instrs@.map_values(|x: Instruction| x@);
        let x = instrs.remove(0);
        proof {
            assert(before[0] == all.subrange(i as int, total as int)[0]);
            assert(x@ == before[0]);
            assert(instrs@.map_values(|g: Instruction| g@) =~= before.drop_first());
            assert(before.drop_first() =~= all.subrange(i + 1, total as int));
        }
        let filtered = instr_filter_targets(x, config);
        if filtered.forms.len() > 0 {
            kept.push(filtered);
            proof {
                assert(kept@.map_values(|g: Instruction| g@) =~= kept_before.push(filtered@));
            }
        }
        i = i + 1;
    }
    proof {
        assert(i as int == total);
    }
    kept
}

} // verus!
