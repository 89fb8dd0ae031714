//! Name-to-entry indices.
//!
//! Each index maps a composite key — a target (an architecture, or an
//! assembler for directives) together with a name — to a handle: the
//! position of the entry in the collection that owns it. Construction is
//! two-pass: every entry's primary name is bound first, overwriting freely;
//! alias names — the case variants, and for instructions also each form's
//! assembler display names — are bound only where the key is still free,
//! so a primary name never yields to an alias of a different entry.

use vstd::prelude::*;

use crate::types::{Arch, Assembler, Directive, Instruction, InstructionFormView, InstructionView, Register};
use crate::util::{chars_eq, copy_chars, nested_view};

verus! {

/// The target component of an index key.
#[derive(Clone, Copy, PartialEq, Eq, Structural, Debug)]
pub enum Target {
    Arch(Arch),
    Asm(Assembler),
}

/// One binding of the index: a key and the handle it is bound to.
pub struct IndexEntry {
    pub target: Target,
    pub name: Vec<char>,
    pub handle: usize,
}

pub ghost struct IndexEntryView {
    pub target: Target,
    pub name: Seq<char>,
    pub handle: usize,
}

impl View for IndexEntry {
    type V = IndexEntryView;

    open spec fn view(&self) -> IndexEntryView {
        IndexEntryView { target: self.target, name: self.name@, handle: self.handle }
    }
}

pub open spec fn key_matches(e: IndexEntryView, t: Target, n: Seq<char>) -> bool {
    e.target == t && e.name == n
}

/// Index of the first binding of key `(t, n)` at or after position `i`;
/// `-1` when there is none.
pub open spec fn spec_find_from(s: Seq<IndexEntryView>, t: Target, n: Seq<char>, i: int) -> int
    decreases s.len() - i,
{
    if i < 0 || i >= s.len() {
        -1
    } else if key_matches(s[i], t, n) {
        i
    } else {
        spec_find_from(s, t, n, i + 1)
    }
}

pub open spec fn spec_find(s: Seq<IndexEntryView>, t: Target, n: Seq<char>) -> int {
    spec_find_from(s, t, n, 0)
}

/// What the index binds key `(t, n)` to.
pub open spec fn spec_lookup(s: Seq<IndexEntryView>, t: Target, n: Seq<char>) -> Option<usize> {
    let k = spec_find(s, t, n);
    if k < 0 {
        None
    } else {
        Some(s[k].handle)
    }
}

/// Bind `(t, n)` to `h`, overwriting an existing binding.
pub open spec fn spec_upsert(s: Seq<IndexEntryView>, t: Target, n: Seq<char>, h: usize) -> Seq<
    IndexEntryView,
> {
    let k = spec_find(s, t, n);
    if k < 0 {
        s.push(IndexEntryView { target: t, name: n, handle: h })
    } else {
        s.update(k, IndexEntryView { target: t, name: n, handle: h })
    }
}

/// Bind `(t, n)` to `h` only when the key is still free.
pub open spec fn spec_insert_if_absent(
    s: Seq<IndexEntryView>,
    t: Target,
    n: Seq<char>,
    h: usize,
) -> Seq<IndexEntryView> {
    if spec_find(s, t, n) < 0 {
        s.push(IndexEntryView { target: t, name: n, handle: h })
    } else {
        s
    }
}

proof fn lemma_find_from_props(s: Seq<IndexEntryView>, t: Target, n: Seq<char>, i: int)
    requires
        0 <= i <= s.len(),
    ensures
        ({
            let k = spec_find_from(s, t, n, i);
            if k < 0 {
                forall|m: int| i <= m < s.len() ==> !key_matches(s[m], t, n)
            } else {
                i <= k < s.len() && key_matches(s[k], t, n) && (forall|m: int|
                    i <= m < k ==> !key_matches(s[m], t, n))
            }
        }),
    decreases s.len() - i,
{
    if i < s.len() && !key_matches(s[i], t, n) {
        lemma_find_from_props(s, t, n, i + 1);
    }
}

proof fn lemma_find_from_is(s: Seq<IndexEntryView>, t: Target, n: Seq<char>, i: int, k: int)
    requires
        0 <= i <= s.len(),
        i <= k < s.len(),
        key_matches(s[k], t, n),
        forall|m: int| i <= m < k ==> !key_matches(s[m], t, n),
    ensures
        spec_find_from(s, t, n, i) == k,
    decreases k - i,
{
    if i < k {
        lemma_find_from_is(s, t, n, i + 1, k);
    }
}

proof fn lemma_find_from_none(s: Seq<IndexEntryView>, t: Target, n: Seq<char>, i: int)
    requires
        0 <= i <= s.len(),
        forall|m: int| i <= m < s.len() ==> !key_matches(s[m], t, n),
    ensures
        spec_find_from(s, t, n, i) == -1,
    decreases s.len() - i,
{
    if i < s.len() {
        lemma_find_from_none(s, t, n, i + 1);
    }
}

/// A binding just written with `spec_upsert` is what lookup afterwards
/// returns; every other key keeps its binding.
pub proof fn lemma_lookup_upsert(
    s: Seq<IndexEntryView>,
    t: Target,
    n: Seq<char>,
    h: usize,
    t2: Target,
    n2: Seq<char>,
)
    ensures
        spec_lookup(spec_upsert(s, t, n, h), t2, n2) == if t2 == t && n2 == n {
            Some(h)
        } else {
            spec_lookup(s, t2, n2)
        },
{
    let k = spec_find(s, t, n);
    let e = IndexEntryView { target: t, name: n, handle: h };
    let s2 = spec_upsert(s, t, n, h);
    lemma_find_from_props(s, t, n, 0);
    lemma_find_from_props(s, t2, n2, 0);
    let k2 = spec_find(s, t2, n2);
    if t2 == t && n2 == n {
        if k < 0 {
            lemma_find_from_is(s2, t, n, 0, s.len() as int);
        } else {
            lemma_find_from_is(s2, t, n, 0, k);
        }
    } else {
        // the written entry never matches the other key
        if k2 < 0 {
            lemma_find_from_none(s2, t2, n2, 0);
        } else {
            lemma_find_from_is(s2, t2, n2, 0, k2);
        }
    }
}

/// A binding written with `spec_insert_if_absent` takes effect only on a
/// free key; every other key keeps its binding.
pub proof fn lemma_lookup_insert_if_absent(
    s: Seq<IndexEntryView>,
    t: Target,
    n: Seq<char>,
    h: usize,
    t2: Target,
    n2: Seq<char>,
)
    ensures
        spec_lookup(spec_insert_if_absent(s, t, n, h), t2, n2) == if t2 == t && n2 == n
            && spec_lookup(s, t, n) is None {
            Some(h)
        } else {
            spec_lookup(s, t2, n2)
        },
{
    let k = spec_find(s, t, n);
    let s2 = spec_insert_if_absent(s, t, n, h);
    lemma_find_from_props(s, t, n, 0);
    lemma_find_from_props(s, t2, n2, 0);
    let k2 = spec_find(s, t2, n2);
    if k < 0 {
        if t2 == t && n2 == n {
            lemma_find_from_is(s2, t, n, 0, s.len() as int);
        } else {
            if k2 < 0 {
                lemma_find_from_none(s2, t2, n2, 0);
            } else {
                lemma_find_from_is(s2, t2, n2, 0, k2);
            }
        }
    }
}

/// An index from `(target, name)` keys to handles into an owning
/// collection.
pub struct NameIndex {
    pub entries: Vec<IndexEntry>,
}

/// Index over instruction names, keyed by architecture.
pub type NameToInstructionMap = NameIndex;

/// Index over register names, keyed by architecture.
pub type NameToRegisterMap = NameIndex;

/// Index over directive names, keyed by assembler.
pub type NameToDirectiveMap = NameIndex;

impl View for NameIndex {
    type V = Seq<IndexEntryView>;

    open spec fn view(&self) -> Seq<IndexEntryView> {
        self.entries@.map_values(|e: IndexEntry| e@)
    }
}

impl NameIndex {
    pub fn new() -> (r: NameIndex)
        ensures
            r@ == Seq::<IndexEntryView>::empty(),
    {
        let r = NameIndex { entries: Vec::new() };
        proof {
            assert(r@ =~= Seq::<IndexEntryView>::empty());
        }
        r
    }

    fn find(&self, t: Target, n: &Vec<char>) -> (r: Option<usize>)
        ensures
            match r {
                Some(k) => spec_find(self@, t, n@) == k as int && k < self@.len(),
                None => spec_find(self@, t, n@) == -1,
            },
    {
        let mut i: usize = 0;
        while i < self.entries.len()
            invariant
                i <= self@.len(),
                self@.len() == self.entries@.len(),
                spec_find_from(self@, t, n@, 0) == spec_find_from(self@, t, n@, i as int),
            decreases self@.len() - i,
        {
            if self.entries[i].target == t && chars_eq(&self.entries[i].name, n) {
                assert(key_matches(self@[i as int], t, n@));
                return Some(i);
            }
            assert(!key_matches(self@[i as int], t, n@));
            i = i + 1;
        }
        None
    }

    /// What the index binds key `(t, n)` to: the handle of the entry the
    /// name belongs to.
    pub fn lookup(&self, t: Target, n: &Vec<char>) -> (r: Option<usize>)
        ensures
            r == spec_lookup(self@, t, n@),
    {
        match self.find(t, n) {
            Some(k) => Some(self.entries[k].handle),
            None => None,
        }
    }

    /// Bind `(t, n)` to `h`, overwriting an existing binding of the key.
    pub fn insert(&mut self, t: Target, n: &Vec<char>, h: usize)
        ensures
            final(self)@ == spec_upsert(old(self)@, t, n@, h),
    {
        let e = IndexEntry { target: t, name: copy_chars(n), handle: h };
        match self.find(t, n) {
            Some(k) => {
                self.entries.set(k, e);
                assert(self@ =~= old(self)@.update(
                    spec_find(old(self)@, t, n@),
                    IndexEntryView { target: t, name: n@, handle: h },
                ));
            },
            None => {
                self.entries.push(e);
                assert(self@ =~= old(self)@.push(
                    IndexEntryView { target: t, name: n@, handle: h },
                ));
            },
        }
    }

    /// Bind `(t, n)` to `h` only when the key is still free.
    pub fn insert_if_absent(&mut self, t: Target, n: &Vec<char>, h: usize)
        ensures
            final(self)@ == spec_insert_if_absent(old(self)@, t, n@, h),
    {
        match self.find(t, n) {
            Some(_) => {},
            None => {
                let e = IndexEntry { target: t, name: copy_chars(n), handle: h };
                self.entries.push(e);
                assert(self@ =~= old(self)@.push(
                    IndexEntryView { target: t, name: n@, handle: h },
                ));
            },
        }
    }
}

/// Primary names of a sequence of instructions.
pub open spec fn instruction_primary_names(xs: Seq<Instruction>) -> Seq<Seq<char>> {
    xs.map_values(|x: Instruction| x@.name)
}

/// The assembler display names of the first `upto` forms, in form order
/// (the gas name, then the go name, then the z80 name of each form).
pub open spec fn spec_form_display_names(forms: Seq<InstructionFormView>, upto: int) -> Seq<
    Seq<char>,
>
    decreases upto,
{
    if upto <= 0 {
        Seq::empty()
    } else {
        let prev = spec_form_display_names(forms, upto - 1);
        let f = forms[upto - 1];
        let with_gas = match f.gas_name {
            Some(n) => prev.push(n),
            None => prev,
        };
        let with_go = match f.go_name {
            Some(n) => with_gas.push(n),
            None => with_gas,
        };
        match f.z80_name {
            Some(n) => with_go.push(n),
            None => with_go,
        }
    }
}

/// Every name that resolves to an instruction besides its canonical one:
/// the case-variant alias names, then each form's display names.
pub open spec fn spec_instruction_associated_names(x: InstructionView) -> Seq<Seq<char>> {
    x.alt_names + spec_form_display_names(x.forms, x.forms.len() as int)
}

/// Alias names of a sequence of instructions.
pub open spec fn instruction_alias_names(xs: Seq<Instruction>) -> Seq<Seq<Seq<char>>> {
    xs.map_values(|x: Instruction| spec_instruction_associated_names(x@))
}

/// The associated names of one instruction, materialized for the alias
/// pass.
#[verifier::loop_isolation(false)]
fn instruction_associated_names(x: &Instruction) -> (r: Vec<Vec<char>>)
    ensures
        nested_view(r) == spec_instruction_associated_names(x@),
{
    let mut r: Vec<Vec<char>> = Vec::new();
    let mut i: usize = 0;
    proof {
        assert(nested_view(r) =~= x@.alt_names.subrange(0, 0));
    }
    while i < x.alt_names.len()
        invariant
            i <= x.alt_names@.len(),
            nested_view(r) == x@.alt_names.subrange(0, i as int),
        decreases x.alt_names@.len() - i,
    {
        r.push(copy_chars(&x.alt_names[i]));
        proof {
            assert(nested_view(r) =~= x@.alt_names.subrange(0, i + 1 as int));
        }
        i = i + 1;
    }
    proof {
        assert(x@.alt_names.subrange(0, x.alt_names@.len() as int) =~= x@.alt_names);
        assert(nested_view(r) + spec_form_display_names(x@.forms, 0) =~= x@.alt_names);
    }
    let mut i: usize = 0;
    while i < x.forms.len()
        invariant
            i <= x.forms@.len(),
            nested_view(r) == x@.alt_names + spec_form_display_names(x@.forms, i as int),
        decreases x.forms@.len() - i,
    {
        let ghost prev = spec_form_display_names(x@.forms, i as int);
        let f = &x.forms[i];
        proof {
            assert(x@.forms[i as int] == f@);
        }
        let ghost with_gas = (match f@.gas_name {
            Some(n) => prev.push(n),
            None => prev,
        });
        if let Some(n) = &f.gas_name {
            proof {
                assert(f@.gas_name == Some(n@));
            }
            let ghost before = nested_view(r);
            r.push(copy_chars(n));
            proof {
                assert(nested_view(r) =~= before.push(n@));
                assert(before.push(n@) =~= x@.alt_names + with_gas);
            }
        }
        let ghost with_go = (match f@.go_name {
            Some(n) => with_gas.push(n),
            None => with_gas,
        });
        if let Some(n) = &f.go_name {
            let ghost before = nested_view(r);
            r.push(copy_chars(n));
            proof {
                assert(f@.go_name == Some(n@));
                assert(nested_view(r) =~= before.push(n@));
                assert(before.push(n@) =~= x@.alt_names + with_go);
            }
        }
        if let Some(n) = &f.z80_name {
            let ghost before = nested_view(r);
            r.push(copy_chars(n));
            proof {
                assert(f@.z80_name == Some(n@));
                assert(nested_view(r) =~= before.push(n@));
                assert(before.push(n@) =~= x@.alt_names + with_go.push(n@));
            }
        }
        i = i + 1;
    }
    proof {
        assert(nested_view(r) =~= spec_instruction_associated_names(x@));
    }
    r
}

/// Primary names of a sequence of registers.
pub open spec fn register_primary_names(xs: Seq<Register>) -> Seq<Seq<char>> {
    xs.map_values(|x: Register| x@.name)
}

/// Alias names of a sequence of registers.
pub open spec fn register_alias_names(xs: Seq<Register>) -> Seq<Seq<Seq<char>>> {
    xs.map_values(|x: Register| x@.alt_names)
}

/// Primary names of a sequence of directives.
pub open spec fn directive_primary_names(xs: Seq<Directive>) -> Seq<Seq<char>> {
    xs.map_values(|x: Directive| x@.name)
}

/// Alias names of a sequence of directives.
pub open spec fn directive_alias_names(xs: Seq<Directive>) -> Seq<Seq<Seq<char>>> {
    xs.map_values(|x: Directive| x@.alt_names)
}

/// First pass of index construction: bind the primary name of each of the
/// first `upto` entries to its position, in order, overwriting freely.
pub open spec fn spec_add_primaries(
    s: Seq<IndexEntryView>,
    t: Target,
    names: Seq<Seq<char>>,
    upto: int,
) -> Seq<IndexEntryView>
    decreases upto,
{
    if upto <= 0 {
        s
    } else {
        spec_upsert(
            spec_add_primaries(s, t, names, upto - 1),
            t,
            names[upto - 1],
            (upto - 1) as usize,
        )
    }
}

/// Bind the first `upto` alias names of one entry to handle `h`, keeping
/// existing bindings.
pub open spec fn spec_add_alias_names(
    s: Seq<IndexEntryView>,
    t: Target,
    names: Seq<Seq<char>>,
    h: usize,
    upto: int,
) -> Seq<IndexEntryView>
    decreases upto,
{
    if upto <= 0 {
        s
    } else {
        spec_insert_if_absent(
            spec_add_alias_names(s, t, names, h, upto - 1),
            t,
            names[upto - 1],
            h,
        )
    }
}

/// Second pass of index construction: bind the alias names of each of the
/// first `upto` entries, in order, keeping existing bindings.
pub open spec fn spec_add_aliases(
    s: Seq<IndexEntryView>,
    t: Target,
    alts: Seq<Seq<Seq<char>>>,
    upto: int,
) -> Seq<IndexEntryView>
    decreases upto,
{
    if upto <= 0 {
        s
    } else {
        let prev = spec_add_aliases(s, t, alts, upto - 1);
        spec_add_alias_names(prev, t, alts[upto - 1], (upto - 1) as usize, alts[upto - 1].len() as int)
    }
}

/// The index contents after both passes over a collection.
pub open spec fn spec_populate(
    s: Seq<IndexEntryView>,
    t: Target,
    names: Seq<Seq<char>>,
    alts: Seq<Seq<Seq<char>>>,
) -> Seq<IndexEntryView> {
    spec_add_aliases(spec_add_primaries(s, t, names, names.len() as int), t, alts, alts.len() as int)
}

/// Build the instruction-name index over `instructions`: primary names
/// first, then the associated names — the case-variant alias names and
/// each form's assembler display names — which never displace an existing
/// binding. Handles are positions into `instructions`.
pub fn populate_name_to_instruction_map(
    arch: Arch,
    instructions: &Vec<Instruction>,
    names_to_instructions: &mut NameToInstructionMap,
)
    ensures
        final(names_to_instructions)@ == spec_populate(
            old(names_to_instructions)@,
            Target::Arch(arch),
            instruction_primary_names(instructions@),
            instruction_alias_names(instructions@),
        ),
{
    let t = Target::Arch(arch);
    let ghost names = instruction_primary_names(instructions@);
    let ghost alts = instruction_alias_names(instructions@);
    let mut i: usize = 0;
    while i < instructions.len()
        invariant
            i <= instructions@.len(),
            names == instruction_primary_names(instructions@),
            names_to_instructions@ == spec_add_primaries(
                old(names_to_instructions)@,
                t,
                names,
                i as int,
            ),
        decreases instructions@.len() - i,
    {
        names_to_instructions.insert(t, &instructions[i].name, i);
        i = i + 1;
    }
    let ghost after_primaries = names_to_instructions@;
    let mut i: usize = 0;
    while i < instructions.len()
        invariant
            i <= instructions@.len(),
            alts == instruction_alias_names(instructions@),
            names_to_instructions@ == spec_add_aliases(after_primaries, t, alts, i as int),
        decreases instructions@.len() - i,
    {
        let assoc = instruction_associated_names(&instructions[i]);
        proof {
            assert(nested_view(assoc) == alts[i as int]);
        }
        let mut j: usize = 0;
        while j < assoc.len()
            invariant
                i < instructions@.len(),
                j <= assoc@.len(),
                nested_view(assoc) == alts[i as int],
                alts == instruction_alias_names(instructions@),
                names_to_instructions@ == spec_add_alias_names(
                    spec_add_aliases(after_primaries, t, alts, i as int),
                    t,
                    alts[i as int],
                    i,
                    j as int,
                ),
            decreases assoc@.len() - j,
        {
            proof {
                assert(alts[i as int][j as int] == assoc@[j as int]@);
            }
            names_to_instructions.insert_if_absent(t, &assoc[j], i);
            j = j + 1;
        }
        i = i + 1;
    }
}

/// Build the register-name index over `registers`, in the same two-pass
/// order. Handles are positions into `registers`.
pub fn populate_name_to_register_map(
    arch: Arch,
    registers: &Vec<Register>,
    names_to_registers: &mut NameToRegisterMap,
)
    ensures
        final(names_to_registers)@ == spec_populate(
            old(names_to_registers)@,
            Target::Arch(arch),
            register_primary_names(registers@),
            register_alias_names(registers@),
        ),
{
    let t = Target::Arch(arch);
    let ghost names = register_primary_names(registers@);
    let ghost alts = register_alias_names(registers@);
    let mut i: usize = 0;
    while i < registers.len()
        invariant
            i <= registers@.len(),
            names == register_primary_names(registers@),
            names_to_registers@ == spec_add_primaries(old(names_to_registers)@, t, names, i as int),
        decreases registers@.len() - i,
    {
        names_to_registers.insert(t, &registers[i].name, i);
        i = i + 1;
    }
    let ghost after_primaries = names_to_registers@;
    let mut i: usize = 0;
    while i < registers.len()
        invariant
            i <= registers@.len(),
            alts == register_alias_names(registers@),
            names_to_registers@ == spec_add_aliases(after_primaries, t, alts, i as int),
        decreases registers@.len() - i,
    {
        let alt_count = registers[i].alt_names.len();
        let mut j: usize = 0;
        while j < alt_count
            invariant
                i < registers@.len(),
                j <= alt_count,
                alt_count == registers@[i as int].alt_names@.len(),
                alts == register_alias_names(registers@),
                names_to_registers@ == spec_add_alias_names(
                    spec_add_aliases(after_primaries, t, alts, i as int),
                    t,
                    alts[i as int],
                    i,
                    j as int,
                ),
            decreases alt_count - j,
        {
            names_to_registers.insert_if_absent(t, &registers[i].alt_names[j], i);
            j = j + 1;
        }
        i = i + 1;
    }
}

/// Build the directive-name index over `directives`, in the same two-pass
/// order. Handles are positions into `directives`.
pub fn populate_name_to_directive_map(
    assem: Assembler,
    directives: &Vec<Directive>,
    names_to_directives: &mut NameToDirectiveMap,
)
    ensures
        final(names_to_directives)@ == spec_populate(
            old(names_to_directives)@,
            Target::Asm(assem),
            directive_primary_names(directives@),
            directive_alias_names(directives@),
        ),
{
    let t = Target::Asm(assem);
    let ghost names = directive_primary_names(directives@);
    let ghost alts = directive_alias_names(directives@);
    let mut i: usize = 0;
    while i < directives.len()
        invariant
            i <= directives@.len(),
            names == directive_primary_names(directives@),
            names_to_directives@ == spec_add_primaries(
                old(names_to_directives)@,
                t,
                names,
                i as int,
            ),
        decreases directives@.len() - i,
    {
        names_to_directives.insert(t, &directives[i].name, i);
        i = i + 1;
    }
    let ghost after_primaries = names_to_directives@;
    let mut i: usize = 0;
    while i < directives.len()
        invariant
            i <= directives@.len(),
            alts == directive_alias_names(directives@),
            names_to_directives@ == spec_add_aliases(after_primaries, t, alts, i as int),
        decreases directives@.len() - i,
    {
        let alt_count = directives[i].alt_names.len();
        let mut j: usize = 0;
        while j < alt_count
            invariant
                i < directives@.len(),
                j <= alt_count,
                alt_count == directives@[i as int].alt_names@.len(),
                alts == directive_alias_names(directives@),
                names_to_directives@ == spec_add_alias_names(
                    spec_add_aliases(after_primaries, t, alts, i as int),
                    t,
                    alts[i as int],
                    i,
                    j as int,
                ),
            decreases alt_count - j,
        {
            names_to_directives.insert_if_absent(t, &directives[i].alt_names[j], i);
            j = j + 1;
        }
        i = i + 1;
    }
}

/// The last position `< upto` whose primary name is `n`; `-1` when none.
pub open spec fn last_primary_owner(names: Seq<Seq<char>>, n: Seq<char>, upto: int) -> int
    decreases upto,
{
    if upto <= 0 {
        -1
    } else if names[upto - 1] == n {
        upto - 1
    } else {
        last_primary_owner(names, n, upto - 1)
    }
}

/// The first position `< upto` that carries `n` among its alias names;
/// `-1` when none.
pub open spec fn first_alias_owner(alts: Seq<Seq<Seq<char>>>, n: Seq<char>, upto: int) -> int
    decreases upto,
{
    if upto <= 0 {
        -1
    } else {
        let prev = first_alias_owner(alts, n, upto - 1);
        if prev >= 0 {
            prev
        } else if alts[upto - 1].contains(n) {
            upto - 1
        } else {
            -1
        }
    }
}

/// What the primary pass binds a name to: the last entry whose primary
/// name it is, or whatever it was bound to before.
pub proof fn lemma_lookup_after_primaries(
    s: Seq<IndexEntryView>,
    t: Target,
    names: Seq<Seq<char>>,
    upto: int,
    t2: Target,
    n: Seq<char>,
)
    requires
        0 <= upto <= names.len(),
    ensures
        spec_lookup(spec_add_primaries(s, t, names, upto), t2, n) == if t2 == t
            && last_primary_owner(names, n, upto) >= 0 {
            Some(last_primary_owner(names, n, upto) as usize)
        } else {
            spec_lookup(s, t2, n)
        },
    decreases upto,
{
    if upto > 0 {
        lemma_lookup_after_primaries(s, t, names, upto - 1, t2, n);
        lemma_lookup_upsert(
            spec_add_primaries(s, t, names, upto - 1),
            t,
            names[upto - 1],
            (upto - 1) as usize,
            t2,
            n,
        );
    }
}

/// What one entry's alias pass binds a name to: the entry's handle when
/// the name is among the aliases and the key was free, else the old
/// binding.
pub proof fn lemma_lookup_after_alias_names(
    s: Seq<IndexEntryView>,
    t: Target,
    names: Seq<Seq<char>>,
    h: usize,
    upto: int,
    t2: Target,
    n: Seq<char>,
)
    requires
        0 <= upto <= names.len(),
    ensures
        spec_lookup(spec_add_alias_names(s, t, names, h, upto), t2, n) == if t2 == t
            && names.subrange(0, upto).contains(n) && spec_lookup(s, t, n) is None {
            Some(h)
        } else {
            spec_lookup(s, t2, n)
        },
    decreases upto,
{
    if upto > 0 {
        lemma_lookup_after_alias_names(s, t, names, h, upto - 1, t2, n);
        lemma_lookup_insert_if_absent(
            spec_add_alias_names(s, t, names, h, upto - 1),
            t,
            names[upto - 1],
            h,
            t2,
            n,
        );
        assert(names.subrange(0, upto).drop_last() =~= names.subrange(0, upto - 1));
        if names.subrange(0, upto).contains(n) && names[upto - 1] != n {
            let k = choose|k: int| 0 <= k < upto && #[trigger] names.subrange(0, upto)[k] == n;
            assert(names.subrange(0, upto - 1)[k] == n);
        }
        if names.subrange(0, upto - 1).contains(n) {
            let k = choose|k: int| 0 <= k < upto - 1 && #[trigger] names.subrange(0, upto - 1)[k] == n;
            assert(names.subrange(0, upto)[k] == n);
        }
        if names[upto - 1] == n {
            assert(names.subrange(0, upto)[upto - 1] == n);
        }
    } else {
        assert(!names.subrange(0, 0).contains(n));
    }
}

/// What the whole alias pass binds a name to: the first entry that carries
/// it as an alias when the key was free, else the old binding.
pub proof fn lemma_lookup_after_aliases(
    s: Seq<IndexEntryView>,
    t: Target,
    alts: Seq<Seq<Seq<char>>>,
    upto: int,
    t2: Target,
    n: Seq<char>,
)
    requires
        0 <= upto <= alts.len(),
    ensures
        spec_lookup(spec_add_aliases(s, t, alts, upto), t2, n) == if t2 == t && spec_lookup(
            s,
            t,
            n,
        ) is None && first_alias_owner(alts, n, upto) >= 0 {
            Some(first_alias_owner(alts, n, upto) as usize)
        } else {
            spec_lookup(s, t2, n)
        },
    decreases upto,
{
    if upto > 0 {
        lemma_lookup_after_aliases(s, t, alts, upto - 1, t2, n);
        let prev = spec_add_aliases(s, t, alts, upto - 1);
        lemma_lookup_after_alias_names(
            prev,
            t,
            alts[upto - 1],
            (upto - 1) as usize,
            alts[upto - 1].len() as int,
            t2,
            n,
        );
        assert(alts[upto - 1].subrange(0, alts[upto - 1].len() as int) =~= alts[upto - 1]);
        if t2 == t {
            lemma_lookup_after_aliases(s, t, alts, upto - 1, t, n);
        }
    }
}

/// Index primacy: a name that is the primary name of an entry is bound to
/// that entry, never to another entry that merely carries the name as an
/// alias, regardless of where the aliased entries stand. (Bindings present
/// before population, and several entries sharing one primary name, are the
/// stated exceptions: the index starts empty here, and the last entry with
/// the name as primary wins.)
pub proof fn lemma_index_primacy(
    t: Target,
    names: Seq<Seq<char>>,
    alts: Seq<Seq<Seq<char>>>,
    j: int,
)
    requires
        0 <= j < names.len(),
        alts.len() == names.len(),
        last_primary_owner(names, names[j], names.len() as int) == j,
    ensures
        spec_lookup(
            spec_populate(Seq::empty(), t, names, alts),
            t,
            names[j],
        ) == Some(j as usize),
{
    let n = names[j];
    let after_prim = spec_add_primaries(Seq::empty(), t, names, names.len() as int);
    lemma_lookup_after_primaries(Seq::empty(), t, names, names.len() as int, t, n);
    lemma_lookup_after_aliases(after_prim, t, alts, alts.len() as int, t, n);
}

/// Alias resolution: an alias name resolves to the entry that carries it,
/// provided no entry claims the name as a primary name and no earlier
/// entry carries the same alias. Case invariance follows: ingestion gives
/// every entry its uppercase and lowercase names as aliases, so the
/// canonical name and both case variants all resolve to the same entry.
pub proof fn lemma_alias_resolution(
    t: Target,
    names: Seq<Seq<char>>,
    alts: Seq<Seq<Seq<char>>>,
    j: int,
    n: Seq<char>,
)
    requires
        0 <= j < alts.len(),
        alts.len() == names.len(),
        last_primary_owner(names, n, names.len() as int) == -1,
        first_alias_owner(alts, n, alts.len() as int) == j,
    ensures
        spec_lookup(spec_populate(Seq::empty(), t, names, alts), t, n) == Some(j as usize),
{
    let after_prim = spec_add_primaries(Seq::empty(), t, names, names.len() as int);
    lemma_lookup_after_primaries(Seq::empty(), t, names, names.len() as int, t, n);
    lemma_find_from_none(Seq::empty(), t, n, 0);
    lemma_lookup_after_aliases(after_prim, t, alts, alts.len() as int, t, n);
}

/// Case invariance: ingestion gives every entry its case-variant names as
/// aliases, and after population the canonical name and every alias of an
/// entry resolve to that same entry — provided the entry owns its
/// canonical name (it is the last to claim it as primary) and each alias
/// either equals that canonical name or is claimed by no entry as a
/// primary name and by no earlier entry as an alias. (Two distinct
/// entries whose names differ only by case are the stated exception: the
/// alias then resolves to the entry that owns it as a primary name.)
pub proof fn lemma_case_invariance(
    t: Target,
    names: Seq<Seq<char>>,
    alts: Seq<Seq<Seq<char>>>,
    j: int,
)
    requires
        0 <= j < names.len(),
        alts.len() == names.len(),
        last_primary_owner(names, names[j], names.len() as int) == j,
        forall|m: int|
            0 <= m < alts[j].len() ==> (last_primary_owner(
                names,
                #[trigger] alts[j][m],
                names.len() as int,
            ) == j || (last_primary_owner(names, alts[j][m], names.len() as int) == -1
                && first_alias_owner(alts, alts[j][m], alts.len() as int) == j)),
    ensures
        spec_lookup(spec_populate(Seq::empty(), t, names, alts), t, names[j]) == Some(j as usize),
        forall|m: int|
            0 <= m < alts[j].len() ==> spec_lookup(
                spec_populate(Seq::empty(), t, names, alts),
                t,
                #[trigger] alts[j][m],
            ) == Some(j as usize),
{
    lemma_index_primacy(t, names, alts, j);
    let m_full = spec_populate(Seq::empty(), t, names, alts);
    let after_prim = spec_add_primaries(Seq::empty(), t, names, names.len() as int);
    assert forall|m: int| 0 <= m < alts[j].len() implies spec_lookup(
        m_full,
        t,
        #[trigger] alts[j][m],
    ) == Some(j as usize) by {
        let a = alts[j][m];
        lemma_lookup_after_primaries(Seq::empty(), t, names, names.len() as int, t, a);
        lemma_lookup_after_aliases(after_prim, t, alts, alts.len() as int, t, a);
        if last_primary_owner(names, a, names.len() as int) == j {
        } else {
        }
    }
}

} // verus!
