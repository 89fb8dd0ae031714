//! The documentation store: the immutable record collections per
//! architecture, with the name-to-entry indices over them.
//!
//! The store owns every record; the indices hold handles — positions into
//! the owning collection — so an index entry stays meaningful for the
//! store's whole lifetime. Everything is built once at startup and read
//! concurrently afterwards.

use vstd::prelude::*;

use crate::index::{
    populate_name_to_directive_map, populate_name_to_instruction_map, populate_name_to_register_map,
    directive_primary_names, directive_alias_names, instruction_primary_names,
    instruction_alias_names, register_primary_names, register_alias_names,
    spec_instruction_associated_names, spec_lookup, spec_populate, IndexEntryView, NameIndex,
    NameToDirectiveMap, NameToInstructionMap, NameToRegisterMap, Target,
};
use crate::parser::{directive_views, instruction_views, register_views};
use crate::types::{Arch, Assembler, Directive, DirectiveView, Instruction, InstructionView, Register, RegisterView};

verus! {

/// The process-lifetime documentation data: one collection per
/// architecture and entity kind, plus the three name indices.
pub struct DocStore {
    pub x86_instructions: Vec<Instruction>,
    pub x86_64_instructions: Vec<Instruction>,
    pub z80_instructions: Vec<Instruction>,
    pub x86_registers: Vec<Register>,
    pub x86_64_registers: Vec<Register>,
    pub z80_registers: Vec<Register>,
    pub gas_directives: Vec<Directive>,
    pub names_to_instructions: NameToInstructionMap,
    pub names_to_registers: NameToRegisterMap,
    pub names_to_directives: NameToDirectiveMap,
}

pub ghost struct DocStoreView {
    pub x86_instructions: Seq<InstructionView>,
    pub x86_64_instructions: Seq<InstructionView>,
    pub z80_instructions: Seq<InstructionView>,
    pub x86_registers: Seq<RegisterView>,
    pub x86_64_registers: Seq<RegisterView>,
    pub z80_registers: Seq<RegisterView>,
    pub gas_directives: Seq<DirectiveView>,
    pub names_to_instructions: Seq<IndexEntryView>,
    pub names_to_registers: Seq<IndexEntryView>,
    pub names_to_directives: Seq<IndexEntryView>,
}

impl View for DocStore {
    type V = DocStoreView;

    open spec fn view(&self) -> DocStoreView {
        DocStoreView {
            x86_instructions: instruction_views(self.x86_instructions@),
            x86_64_instructions: instruction_views(self.x86_64_instructions@),
            z80_instructions: instruction_views(self.z80_instructions@),
            x86_registers: register_views(self.x86_registers@),
            x86_64_registers: register_views(self.x86_64_registers@),
            z80_registers: register_views(self.z80_registers@),
            gas_directives: directive_views(self.gas_directives@),
            names_to_instructions: self.names_to_instructions@,
            names_to_registers: self.names_to_registers@,
            names_to_directives: self.names_to_directives@,
        }
    }
}

/// The instruction collection of one architecture.
pub open spec fn spec_instructions_of(sv: DocStoreView, arch: Arch) -> Seq<InstructionView> {
    match arch {
        Arch::X86 => sv.x86_instructions,
        Arch::X86_64 => sv.x86_64_instructions,
        Arch::Z80 => sv.z80_instructions,
    }
}

/// The register collection of one architecture.
pub open spec fn spec_registers_of(sv: DocStoreView, arch: Arch) -> Seq<RegisterView> {
    match arch {
        Arch::X86 => sv.x86_registers,
        Arch::X86_64 => sv.x86_64_registers,
        Arch::Z80 => sv.z80_registers,
    }
}

/// The instruction index binding after population over all three
/// architectures, in the fixed order x86, x86-64, z80.
pub open spec fn spec_store_instruction_index(
    x86: Seq<InstructionView>,
    x86_64: Seq<InstructionView>,
    z80: Seq<InstructionView>,
) -> Seq<IndexEntryView> {
    spec_populate(
        spec_populate(
            spec_populate(
                Seq::empty(),
                Target::Arch(Arch::X86),
                x86.map_values(|x: InstructionView| x.name),
                x86.map_values(|x: InstructionView| spec_instruction_associated_names(x)),
            ),
            Target::Arch(Arch::X86_64),
            x86_64.map_values(|x: InstructionView| x.name),
            x86_64.map_values(|x: InstructionView| spec_instruction_associated_names(x)),
        ),
        Target::Arch(Arch::Z80),
        z80.map_values(|x: InstructionView| x.name),
        z80.map_values(|x: InstructionView| spec_instruction_associated_names(x)),
    )
}

/// The register index binding after population over all three
/// architectures.
pub open spec fn spec_store_register_index(
    x86: Seq<RegisterView>,
    x86_64: Seq<RegisterView>,
    z80: Seq<RegisterView>,
) -> Seq<IndexEntryView> {
    spec_populate(
        spec_populate(
            spec_populate(
                Seq::empty(),
                Target::Arch(Arch::X86),
                x86.map_values(|x: RegisterView| x.name),
                x86.map_values(|x: RegisterView| x.alt_names),
            ),
            Target::Arch(Arch::X86_64),
            x86_64.map_values(|x: RegisterView| x.name),
            x86_64.map_values(|x: RegisterView| x.alt_names),
        ),
        Target::Arch(Arch::Z80),
        z80.map_values(|x: RegisterView| x.name),
        z80.map_values(|x: RegisterView| x.alt_names),
    )
}

/// The directive index binding after population.
pub open spec fn spec_store_directive_index(gas: Seq<DirectiveView>) -> Seq<IndexEntryView> {
    spec_populate(
        Seq::empty(),
        Target::Asm(Assembler::Gas),
        gas.map_values(|x: DirectiveView| x.name),
        gas.map_values(|x: DirectiveView| x.alt_names),
    )
}

/// Build the store: take ownership of the (already filtered) collections
/// and derive the three indices, primary names before alias names, in the
/// fixed architecture order x86, x86-64, z80.
pub fn build_doc_store(
    x86_instructions: Vec<Instruction>,
    x86_64_instructions: Vec<Instruction>,
    z80_instructions: Vec<Instruction>,
    x86_registers: Vec<Register>,
    x86_64_registers: Vec<Register>,
    z80_registers: Vec<Register>,
    gas_directives: Vec<Directive>,
) -> (r: DocStore)
    ensures
        r@.x86_instructions == instruction_views(x86_instructions@),
        r@.x86_64_instructions == instruction_views(x86_64_instructions@),
        r@.z80_instructions == instruction_views(z80_instructions@),
        r@.x86_registers == register_views(x86_registers@),
        r@.x86_64_registers == register_views(x86_64_registers@),
        r@.z80_registers == register_views(z80_registers@),
        r@.gas_directives == directive_views(gas_directives@),
        r@.names_to_instructions == spec_store_instruction_index(
            r@.x86_instructions,
            r@.x86_64_instructions,
            r@.z80_instructions,
        ),
        r@.names_to_registers == spec_store_register_index(
            r@.x86_registers,
            r@.x86_64_registers,
            r@.z80_registers,
        ),
        r@.names_to_directives == spec_store_directive_index(r@.gas_directives),
{
    let mut names_to_instructions = NameIndex::new();
    populate_name_to_instruction_map(Arch::X86, &x86_instructions, &mut names_to_instructions);
    populate_name_to_instruction_map(
        Arch::X86_64,
        &x86_64_instructions,
        &mut names_to_instructions,
    );
    populate_name_to_instruction_map(Arch::Z80, &z80_instructions, &mut names_to_instructions);
    let mut names_to_registers = NameIndex::new();
    populate_name_to_register_map(Arch::X86, &x86_registers, &mut names_to_registers);
    populate_name_to_register_map(Arch::X86_64, &x86_64_registers, &mut names_to_registers);
    populate_name_to_register_map(Arch::Z80, &z80_registers, &mut names_to_registers);
    let mut names_to_directives = NameIndex::new();
    populate_name_to_directive_map(Assembler::Gas, &gas_directives, &mut names_to_directives);
    proof {
        assert(instruction_primary_names(x86_instructions@) =~= instruction_views(
            x86_instructions@,
        ).map_values(|x: InstructionView| x.name));
        assert(instruction_alias_names(x86_instructions@) =~= instruction_views(
            x86_instructions@,
        ).map_values(|x: InstructionView| spec_instruction_associated_names(x)));
        assert(instruction_primary_names(x86_64_instructions@) =~= instruction_views(
            x86_64_instructions@,
        ).map_values(|x: InstructionView| x.name));
        assert(instruction_alias_names(x86_64_instructions@) =~= instruction_views(
            x86_64_instructions@,
        ).map_values(|x: InstructionView| spec_instruction_associated_names(x)));
        assert(instruction_primary_names(z80_instructions@) =~= instruction_views(
            z80_instructions@,
        ).map_values(|x: InstructionView| x.name));
        assert(instruction_alias_names(z80_instructions@) =~= instruction_views(
            z80_instructions@,
        ).map_values(|x: InstructionView| spec_instruction_associated_names(x)));
        assert(register_primary_names(x86_registers@) =~= register_views(
            x86_registers@,
        ).map_values(|x: RegisterView| x.name));
        assert(register_alias_names(x86_registers@) =~= register_views(x86_registers@).map_values(
            |x: RegisterView| x.alt_names,
        ));
        assert(register_primary_names(x86_64_registers@) =~= register_views(
            x86_64_registers@,
        ).map_values(|x: RegisterView| x.name));
        assert(register_alias_names(x86_64_registers@) =~= register_views(
            x86_64_registers@,
        ).map_values(|x: RegisterView| x.alt_names));
        assert(register_primary_names(z80_registers@) =~= register_views(
            z80_registers@,
        ).map_values(|x: RegisterView| x.name));
        assert(register_alias_names(z80_registers@) =~= register_views(z80_registers@).map_values(
            |x: RegisterView| x.alt_names,
        ));
        assert(directive_primary_names(gas_directives@) =~= directive_views(
            gas_directives@,
        ).map_values(|x: DirectiveView| x.name));
        assert(directive_alias_names(gas_directives@) =~= directive_views(
            gas_directives@,
        ).map_values(|x: DirectiveView| x.alt_names));
    }
    DocStore {
        x86_instructions,
        x86_64_instructions,
        z80_instructions,
        x86_registers,
        x86_64_registers,
        z80_registers,
        gas_directives,
        names_to_instructions,
        names_to_registers,
        names_to_directives,
    }
}

/// What the instruction index yields for a name under one architecture:
/// the record itself, through its handle. A handle outside the collection
/// (impossible for a store built here) yields nothing.
pub open spec fn spec_lookup_instruction(sv: DocStoreView, arch: Arch, name: Seq<char>) -> Option<
    InstructionView,
> {
    match spec_lookup(sv.names_to_instructions, Target::Arch(arch), name) {
        None => None,
        Some(h) => {
            let coll = spec_instructions_of(sv, arch);
            if h < coll.len() {
                Some(coll[h as int])
            } else {
                None
            }
        },
    }
}

/// What the register index yields for a name under one architecture.
pub open spec fn spec_lookup_register(sv: DocStoreView, arch: Arch, name: Seq<char>) -> Option<
    RegisterView,
> {
    match spec_lookup(sv.names_to_registers, Target::Arch(arch), name) {
        None => None,
        Some(h) => {
            let coll = spec_registers_of(sv, arch);
            if h < coll.len() {
                Some(coll[h as int])
            } else {
                None
            }
        },
    }
}

/// What the directive index yields for a name under one assembler.
pub open spec fn spec_lookup_directive(sv: DocStoreView, assem: Assembler, name: Seq<char>) -> Option<
    DirectiveView,
> {
    match spec_lookup(sv.names_to_directives, Target::Asm(assem), name) {
        None => None,
        Some(h) => {
            if h < sv.gas_directives.len() && assem == Assembler::Gas {
                Some(sv.gas_directives[h as int])
            } else {
                None
            }
        },
    }
}

impl DocStore {
    /// Look a name up in the instruction index of one architecture.
    pub fn lookup_instruction<'a>(&'a self, arch: Arch, name: &Vec<char>) -> (r: Option<
        &'a Instruction,
    >)
        ensures
            match r {
                Some(x) => spec_lookup_instruction(self@, arch, name@) == Some(x@),
                None => spec_lookup_instruction(self@, arch, name@) is None,
            },
    {
        let h = match self.names_to_instructions.lookup(Target::Arch(arch), name) {
            Some(h) => h,
            None => {
                return None;
            },
        };
        let coll = match arch {
            Arch::X86 => &self.x86_instructions,
            Arch::X86_64 => &self.x86_64_instructions,
            Arch::Z80 => &self.z80_instructions,
        };
        if h < coll.len() {
            proof {
                assert(spec_instructions_of(self@, arch)[h as int] == coll@[h as int]@);
            }
            Some(&coll[h])
        } else {
            None
        }
    }

    /// Look a name up in the register index of one architecture.
    pub fn lookup_register<'a>(&'a self, arch: Arch, name: &Vec<char>) -> (r: Option<&'a Register>)
        ensures
            match r {
                Some(x) => spec_lookup_register(self@, arch, name@) == Some(x@),
                None => spec_lookup_register(self@, arch, name@) is None,
            },
    {
        let h = match self.names_to_registers.lookup(Target::Arch(arch), name) {
            Some(h) => h,
            None => {
                return None;
            },
        };
        let coll = match arch {
            Arch::X86 => &self.x86_registers,
            Arch::X86_64 => &self.x86_64_registers,
            Arch::Z80 => &self.z80_registers,
        };
        if h < coll.len() {
            proof {
                assert(spec_registers_of(self@, arch)[h as int] == coll@[h as int]@);
            }
            Some(&coll[h])
        } else {
            None
        }
    }

    /// Look a name up in the directive index of one assembler.
    pub fn lookup_directive<'a>(&'a self, assem: Assembler, name: &Vec<char>) -> (r: Option<
        &'a Directive,
    >)
        ensures
            match r {
                Some(x) => spec_lookup_directive(self@, assem, name@) == Some(x@),
                None => spec_lookup_directive(self@, assem, name@) is None,
            },
    {
        let h = match self.names_to_directives.lookup(Target::Asm(assem), name) {
            Some(h) => h,
            None => {
                return None;
            },
        };
        if h < self.gas_directives.len() && matches!(assem, Assembler::Gas) {
            proof {
                assert(self@.gas_directives[h as int] == self.gas_directives@[h as int]@);
            }
            Some(&self.gas_directives[h])
        } else {
            None
        }
    }
}

} // verus!
