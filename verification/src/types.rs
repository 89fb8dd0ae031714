//! The documentation data model: instructions, registers and directives,
//! with the architectures and assembler dialects they belong to.
//!
//! Names that the reference corpus draws from a fixed, enumerated set
//! (capability modes, ISA extension tags, register classes and widths,
//! timing tables) are kept as validated text: a value is only stored after
//! its text has been checked against the closed set of recognized forms.

use vstd::prelude::*;

use crate::util::{all_digits, chars_eq_str, find_char_from, is_digit_char, lit_chars, nested_view, opt_view, spec_find_char};

verus! {

/// A target instruction and register set.
#[derive(Clone, Copy, PartialEq, Eq, Structural, Debug, Hash)]
pub enum Arch {
    X86,
    X86_64,
    Z80,
}

/// A concrete assembler dialect overlaying an architecture.
#[derive(Clone, Copy, PartialEq, Eq, Structural, Debug, Hash)]
pub enum Assembler {
    Gas,
    Go,
    Z80,
}

pub open spec fn spec_arch_from_name(n: Seq<char>) -> Option<Arch> {
    if n == "x86"@ {
        Some(Arch::X86)
    } else if n == "x86-64"@ {
        Some(Arch::X86_64)
    } else if n == "z80"@ {
        Some(Arch::Z80)
    } else {
        None
    }
}

pub fn arch_from_name(n: &Vec<char>) -> (r: Option<Arch>)
    ensures
        r == spec_arch_from_name(n@),
{
    if chars_eq_str(n, "x86") {
        Some(Arch::X86)
    } else if chars_eq_str(n, "x86-64") {
        Some(Arch::X86_64)
    } else if chars_eq_str(n, "z80") {
        Some(Arch::Z80)
    } else {
        None
    }
}

/// The label an architecture carries in rendered documentation.
pub open spec fn spec_arch_label(a: Arch) -> Seq<char> {
    match a {
        Arch::X86 => "x86"@,
        Arch::X86_64 => "x86-64"@,
        Arch::Z80 => "z80"@,
    }
}

pub fn arch_label(a: Arch) -> (r: Vec<char>)
    ensures
        r@ == spec_arch_label(a),
{
    match a {
        Arch::X86 => lit_chars("x86"),
        Arch::X86_64 => lit_chars("x86-64"),
        Arch::Z80 => lit_chars("z80"),
    }
}

pub open spec fn spec_assembler_from_name(n: Seq<char>) -> Option<Assembler> {
    if n == "gas"@ {
        Some(Assembler::Gas)
    } else if n == "go"@ {
        Some(Assembler::Go)
    } else if n == "z80"@ {
        Some(Assembler::Z80)
    } else {
        None
    }
}

pub fn assembler_from_name(n: &Vec<char>) -> (r: Option<Assembler>)
    ensures
        r == spec_assembler_from_name(n@),
{
    if chars_eq_str(n, "gas") {
        Some(Assembler::Gas)
    } else if chars_eq_str(n, "go") {
        Some(Assembler::Go)
    } else if chars_eq_str(n, "z80") {
        Some(Assembler::Z80)
    } else {
        None
    }
}

/// The label an assembler carries in rendered documentation.
pub open spec fn spec_assembler_label(a: Assembler) -> Seq<char> {
    match a {
        Assembler::Gas => "Gas"@,
        Assembler::Go => "Go"@,
        Assembler::Z80 => "Z80"@,
    }
}

pub fn assembler_label(a: Assembler) -> (r: Vec<char>)
    ensures
        r@ == spec_assembler_label(a),
{
    match a {
        Assembler::Gas => lit_chars("Gas"),
        Assembler::Go => lit_chars("Go"),
        Assembler::Z80 => lit_chars("Z80"),
    }
}

/// Recognized MMX capability modes.
pub open spec fn is_mmx_mode_name(n: Seq<char>) -> bool {
    n == "MMX"@ || n == "FPU"@
}

pub fn mmx_mode_name_ok(n: &Vec<char>) -> (r: bool)
    ensures
        r == is_mmx_mode_name(n@),
{
    chars_eq_str(n, "MMX") || chars_eq_str(n, "FPU")
}

/// Recognized XMM capability modes.
pub open spec fn is_xmm_mode_name(n: Seq<char>) -> bool {
    n == "SSE"@ || n == "AVX"@
}

pub fn xmm_mode_name_ok(n: &Vec<char>) -> (r: bool)
    ensures
        r == is_xmm_mode_name(n@),
{
    chars_eq_str(n, "SSE") || chars_eq_str(n, "AVX")
}

/// Recognized ISA extension tags.
pub open spec fn is_isa_name(n: Seq<char>) -> bool {
    ||| n == "RDTSC"@
    ||| n == "RDTSCP"@
    ||| n == "CPUID"@
    ||| n == "FEMMS"@
    ||| n == "MMX"@
    ||| n == "MMX+"@
    ||| n == "3dnow!"@
    ||| n == "3dnow!+"@
    ||| n == "3dnow! Geode"@
    ||| n == "SSE"@
    ||| n == "SSE2"@
    ||| n == "SSE3"@
    ||| n == "SSSE3"@
    ||| n == "SSE4.1"@
    ||| n == "SSE4.2"@
    ||| n == "SSE4A"@
    ||| n == "AVX"@
    ||| n == "AVX2"@
    ||| n == "FMA3"@
    ||| n == "FMA4"@
    ||| n == "XOP"@
    ||| n == "F16C"@
    ||| n == "AES"@
    ||| n == "SHA"@
    ||| n == "PCLMULQDQ"@
    ||| n == "RDRAND"@
    ||| n == "RDSEED"@
    ||| n == "MOVBE"@
    ||| n == "POPCNT"@
    ||| n == "LZCNT"@
    ||| n == "BMI"@
    ||| n == "BMI2"@
    ||| n == "TBM"@
    ||| n == "ADX"@
    ||| n == "CLFLUSH"@
    ||| n == "CLFLUSHOPT"@
    ||| n == "CLWB"@
    ||| n == "CLZERO"@
    ||| n == "PREFETCH"@
    ||| n == "PREFETCHW"@
    ||| n == "PREFETCHWT1"@
    ||| n == "MONITOR"@
    ||| n == "MONITORX"@
    ||| n == "AVX512F"@
    ||| n == "AVX512BW"@
    ||| n == "AVX512DQ"@
    ||| n == "AVX512VL"@
    ||| n == "AVX512PF"@
    ||| n == "AVX512ER"@
    ||| n == "AVX512CD"@
    ||| n == "AVX512VBMI"@
    ||| n == "AVX512IFMA"@
    ||| n == "AVX512VPOPCNTDQ"@
}

pub fn isa_name_ok(n: &Vec<char>) -> (r: bool)
    ensures
        r == is_isa_name(n@),
{
    chars_eq_str(n, "RDTSC") || chars_eq_str(n, "RDTSCP") || chars_eq_str(n, "CPUID")
        || chars_eq_str(n, "FEMMS") || chars_eq_str(n, "MMX") || chars_eq_str(n, "MMX+")
        || chars_eq_str(n, "3dnow!") || chars_eq_str(n, "3dnow!+") || chars_eq_str(
        n,
        "3dnow! Geode",
    ) || chars_eq_str(n, "SSE") || chars_eq_str(n, "SSE2") || chars_eq_str(n, "SSE3")
        || chars_eq_str(n, "SSSE3") || chars_eq_str(n, "SSE4.1") || chars_eq_str(n, "SSE4.2")
        || chars_eq_str(n, "SSE4A") || chars_eq_str(n, "AVX") || chars_eq_str(n, "AVX2")
        || chars_eq_str(n, "FMA3") || chars_eq_str(n, "FMA4") || chars_eq_str(n, "XOP")
        || chars_eq_str(n, "F16C") || chars_eq_str(n, "AES") || chars_eq_str(n, "SHA")
        || chars_eq_str(n, "PCLMULQDQ") || chars_eq_str(n, "RDRAND") || chars_eq_str(n, "RDSEED")
        || chars_eq_str(n, "MOVBE") || chars_eq_str(n, "POPCNT") || chars_eq_str(n, "LZCNT")
        || chars_eq_str(n, "BMI") || chars_eq_str(n, "BMI2") || chars_eq_str(n, "TBM")
        || chars_eq_str(n, "ADX") || chars_eq_str(n, "CLFLUSH") || chars_eq_str(n, "CLFLUSHOPT")
        || chars_eq_str(n, "CLWB") || chars_eq_str(n, "CLZERO") || chars_eq_str(n, "PREFETCH")
        || chars_eq_str(n, "PREFETCHW") || chars_eq_str(n, "PREFETCHWT1") || chars_eq_str(
        n,
        "MONITOR",
    ) || chars_eq_str(n, "MONITORX") || chars_eq_str(n, "AVX512F") || chars_eq_str(n, "AVX512BW")
        || chars_eq_str(n, "AVX512DQ") || chars_eq_str(n, "AVX512VL") || chars_eq_str(
        n,
        "AVX512PF",
    ) || chars_eq_str(n, "AVX512ER") || chars_eq_str(n, "AVX512CD") || chars_eq_str(
        n,
        "AVX512VBMI",
    ) || chars_eq_str(n, "AVX512IFMA") || chars_eq_str(n, "AVX512VPOPCNTDQ")
}

/// Recognized operand classes.
pub open spec fn is_operand_type_name(n: Seq<char>) -> bool {
    ||| n == "1"@
    ||| n == "3"@
    ||| n == "al"@
    ||| n == "cl"@
    ||| n == "ax"@
    ||| n == "eax"@
    ||| n == "rax"@
    ||| n == "xmm0"@
    ||| n == "rel8"@
    ||| n == "rel32"@
    ||| n == "imm4"@
    ||| n == "imm8"@
    ||| n == "imm16"@
    ||| n == "imm32"@
    ||| n == "imm64"@
    ||| n == "r8"@
    ||| n == "r8l"@
    ||| n == "r16"@
    ||| n == "r16l"@
    ||| n == "r32"@
    ||| n == "r32l"@
    ||| n == "r64"@
    ||| n == "mm"@
    ||| n == "xmm"@
    ||| n == "xmm{k}"@
    ||| n == "xmm{k}{z}"@
    ||| n == "ymm"@
    ||| n == "ymm{k}"@
    ||| n == "ymm{k}{z}"@
    ||| n == "zmm"@
    ||| n == "zmm{k}"@
    ||| n == "zmm{k}{z}"@
    ||| n == "k"@
    ||| n == "k{k}"@
    ||| n == "m"@
    ||| n == "m8"@
    ||| n == "m16"@
    ||| n == "m16{k}"@
    ||| n == "m16{k}{z}"@
    ||| n == "m32"@
    ||| n == "m32{k}"@
    ||| n == "m32{k}{z}"@
    ||| n == "m64"@
    ||| n == "m64{k}"@
    ||| n == "m64{k}{z}"@
    ||| n == "m80"@
    ||| n == "m128"@
    ||| n == "m128{k}{z}"@
    ||| n == "m256"@
    ||| n == "m256{k}{z}"@
    ||| n == "m512"@
    ||| n == "m512{k}{z}"@
    ||| n == "m64/m32bcst"@
    ||| n == "m128/m32bcst"@
    ||| n == "m256/m32bcst"@
    ||| n == "m512/m32bcst"@
    ||| n == "m128/m64bcst"@
    ||| n == "m256/m64bcst"@
    ||| n == "m512/m64bcst"@
    ||| n == "moffs32"@
    ||| n == "moffs64"@
    ||| n == "vm32x"@
    ||| n == "vm32x{k}"@
    ||| n == "vm64x"@
    ||| n == "vm64x{k}"@
    ||| n == "vm32y"@
    ||| n == "vm32y{k}"@
    ||| n == "vm64y"@
    ||| n == "vm64y{k}"@
    ||| n == "vm32z"@
    ||| n == "vm32z{k}"@
    ||| n == "vm64z"@
    ||| n == "vm64z{k}"@
    ||| n == "{sae}"@
    ||| n == "{er}"@
}

pub fn operand_type_name_ok(n: &Vec<char>) -> (r: bool)
    ensures
        r == is_operand_type_name(n@),
{
    chars_eq_str(n, "1") || chars_eq_str(n, "3") || chars_eq_str(n, "al") || chars_eq_str(n, "cl") || chars_eq_str(n, "ax") || chars_eq_str(n, "eax") || chars_eq_str(n, "rax") || chars_eq_str(n, "xmm0") || chars_eq_str(n, "rel8") || chars_eq_str(n, "rel32") || chars_eq_str(n, "imm4") || chars_eq_str(n, "imm8") || chars_eq_str(n, "imm16") || chars_eq_str(n, "imm32") || chars_eq_str(n, "imm64") || chars_eq_str(n, "r8") || chars_eq_str(n, "r8l") || chars_eq_str(n, "r16") || chars_eq_str(n, "r16l") || chars_eq_str(n, "r32") || chars_eq_str(n, "r32l") || chars_eq_str(n, "r64") || chars_eq_str(n, "mm") || chars_eq_str(n, "xmm") || chars_eq_str(n, "xmm{k}") || chars_eq_str(n, "xmm{k}{z}") || chars_eq_str(n, "ymm") || chars_eq_str(n, "ymm{k}") || chars_eq_str(n, "ymm{k}{z}") || chars_eq_str(n, "zmm") || chars_eq_str(n, "zmm{k}") || chars_eq_str(n, "zmm{k}{z}") || chars_eq_str(n, "k") || chars_eq_str(n, "k{k}") || chars_eq_str(n, "m") || chars_eq_str(n, "m8") || chars_eq_str(n, "m16") || chars_eq_str(n, "m16{k}") || chars_eq_str(n, "m16{k}{z}") || chars_eq_str(n, "m32") || chars_eq_str(n, "m32{k}") || chars_eq_str(n, "m32{k}{z}") || chars_eq_str(n, "m64") || chars_eq_str(n, "m64{k}") || chars_eq_str(n, "m64{k}{z}") || chars_eq_str(n, "m80") || chars_eq_str(n, "m128") || chars_eq_str(n, "m128{k}{z}") || chars_eq_str(n, "m256") || chars_eq_str(n, "m256{k}{z}") || chars_eq_str(n, "m512") || chars_eq_str(n, "m512{k}{z}") || chars_eq_str(n, "m64/m32bcst") || chars_eq_str(n, "m128/m32bcst") || chars_eq_str(n, "m256/m32bcst") || chars_eq_str(n, "m512/m32bcst") || chars_eq_str(n, "m128/m64bcst") || chars_eq_str(n, "m256/m64bcst") || chars_eq_str(n, "m512/m64bcst") || chars_eq_str(n, "moffs32") || chars_eq_str(n, "moffs64") || chars_eq_str(n, "vm32x") || chars_eq_str(n, "vm32x{k}") || chars_eq_str(n, "vm64x") || chars_eq_str(n, "vm64x{k}") || chars_eq_str(n, "vm32y") || chars_eq_str(n, "vm32y{k}") || chars_eq_str(n, "vm64y") || chars_eq_str(n, "vm64y{k}") || chars_eq_str(n, "vm32z") || chars_eq_str(n, "vm32z{k}") || chars_eq_str(n, "vm64z") || chars_eq_str(n, "vm64z{k}") || chars_eq_str(n, "{sae}") || chars_eq_str(n, "{er}")
}

/// Recognized register classes.
pub open spec fn is_register_type_name(n: Seq<char>) -> bool {
    ||| n == "General Purpose Register"@
    ||| n == "Special Purpose Register"@
    ||| n == "Pointer Register"@
    ||| n == "Segment Register"@
    ||| n == "Flags Register"@
    ||| n == "Control Register"@
    ||| n == "Debug Register"@
    ||| n == "Test Register"@
    ||| n == "Floating-Point Register"@
    ||| n == "Vector Register"@
    ||| n == "Index Register"@
    ||| n == "Base Register"@
    ||| n == "Accumulator"@
}

pub fn register_type_name_ok(n: &Vec<char>) -> (r: bool)
    ensures
        r == is_register_type_name(n@),
{
    chars_eq_str(n, "General Purpose Register") || chars_eq_str(n, "Special Purpose Register")
        || chars_eq_str(n, "Pointer Register") || chars_eq_str(n, "Segment Register")
        || chars_eq_str(n, "Flags Register") || chars_eq_str(n, "Control Register")
        || chars_eq_str(n, "Debug Register") || chars_eq_str(n, "Test Register") || chars_eq_str(
        n,
        "Floating-Point Register",
    ) || chars_eq_str(n, "Vector Register") || chars_eq_str(n, "Index Register") || chars_eq_str(
        n,
        "Base Register",
    ) || chars_eq_str(n, "Accumulator")
}

/// Recognized register widths.
pub open spec fn is_register_width_name(n: Seq<char>) -> bool {
    ||| n == "512 bits"@
    ||| n == "256 bits"@
    ||| n == "128 bits"@
    ||| n == "80 bits"@
    ||| n == "64 bits"@
    ||| n == "48 bits"@
    ||| n == "32 bits"@
    ||| n == "16 bits"@
    ||| n == "8 bits"@
    ||| n == "8 high bits of 16 bits"@
    ||| n == "8 low bits of 16 bits"@
}

pub fn register_width_name_ok(n: &Vec<char>) -> (r: bool)
    ensures
        r == is_register_width_name(n@),
{
    chars_eq_str(n, "512 bits") || chars_eq_str(n, "256 bits") || chars_eq_str(n, "128 bits")
        || chars_eq_str(n, "80 bits") || chars_eq_str(n, "64 bits") || chars_eq_str(n, "48 bits")
        || chars_eq_str(n, "32 bits") || chars_eq_str(n, "16 bits") || chars_eq_str(n, "8 bits")
        || chars_eq_str(n, "8 high bits of 16 bits") || chars_eq_str(n, "8 low bits of 16 bits")
}

/// A timing table cell: a cycle count, or two counts separated by a single
/// slash.
pub open spec fn is_timing_text(s: Seq<char>) -> bool {
    let k = spec_find_char(s, '/', 0);
    if k < 0 {
        s.len() > 0 && all_digits(s)
    } else {
        &&& 0 < k < s.len() - 1
        &&& all_digits(s.subrange(0, k))
        &&& all_digits(s.subrange(k + 1, s.len() as int))
        &&& spec_find_char(s, '/', k + 1) < 0
    }
}

fn digits_between(s: &Vec<char>, from: usize, to: usize) -> (r: bool)
    requires
        from <= to <= s@.len(),
    ensures
        r == all_digits(s@.subrange(from as int, to as int)),
{
    let mut i: usize = from;
    while i < to
        invariant
            from <= i <= to <= s@.len(),
            forall|k: int| from <= k < i ==> is_digit_char(s@[k]),
        decreases to - i,
    {
        let c = s[i];
        if !('0' <= c && c <= '9') {
            assert(s@.subrange(from as int, to as int)[i - from] == s@[i as int]);
            return false;
        }
        i = i + 1;
    }
    assert forall|k: int| 0 <= k < to - from implies is_digit_char(
        s@.subrange(from as int, to as int)[k],
    ) by {
        assert(s@.subrange(from as int, to as int)[k] == s@[k + from]);
    }
    true
}

pub fn timing_text_ok(s: &Vec<char>) -> (r: bool)
    ensures
        r == is_timing_text(s@),
{
    proof {
        assert(s@.subrange(0, s@.len() as int) =~= s@);
    }
    match find_char_from(s, '/', 0) {
        None => s.len() > 0 && digits_between(s, 0, s.len()),
        Some(k) => {
            if k == 0 || k >= s.len() - 1 {
                return false;
            }
            if !digits_between(s, 0, k) {
                return false;
            }
            if !digits_between(s, k + 1, s.len()) {
                return false;
            }
            match find_char_from(s, '/', k + 1) {
                Some(_) => false,
                None => true,
            }
        },
    }
}

/// One operand of an instruction form: its class, optional input/output
/// flags, and optional extended size in bytes.
#[derive(Clone, Debug)]
pub struct Operand {
    pub type_: Vec<char>,
    pub input: Option<bool>,
    pub output: Option<bool>,
    pub extended_size: Option<usize>,
}

pub ghost struct OperandView {
    pub type_: Seq<char>,
    pub input: Option<bool>,
    pub output: Option<bool>,
    pub extended_size: Option<usize>,
}

impl View for Operand {
    type V = OperandView;

    open spec fn view(&self) -> OperandView {
        OperandView {
            type_: self.type_@,
            input: self.input,
            output: self.output,
            extended_size: self.extended_size,
        }
    }
}

/// The four-way z80 timing table of a form.
#[derive(Clone, Debug)]
pub struct Z80Timing {
    pub z80: Vec<char>,
    pub z80_plus_m1: Vec<char>,
    pub r800: Vec<char>,
    pub r800_plus_wait: Vec<char>,
}

pub ghost struct Z80TimingView {
    pub z80: Seq<char>,
    pub z80_plus_m1: Seq<char>,
    pub r800: Seq<char>,
    pub r800_plus_wait: Seq<char>,
}

impl View for Z80Timing {
    type V = Z80TimingView;

    open spec fn view(&self) -> Z80TimingView {
        Z80TimingView {
            z80: self.z80@,
            z80_plus_m1: self.z80_plus_m1@,
            r800: self.r800@,
            r800_plus_wait: self.r800_plus_wait@,
        }
    }
}

impl Z80Timing {
    pub fn new() -> (r: Z80Timing)
        ensures
            r@.z80 == Seq::<char>::empty(),
            r@.z80_plus_m1 == Seq::<char>::empty(),
            r@.r800 == Seq::<char>::empty(),
            r@.r800_plus_wait == Seq::<char>::empty(),
    {
        Z80Timing {
            z80: Vec::new(),
            z80_plus_m1: Vec::new(),
            r800: Vec::new(),
            r800_plus_wait: Vec::new(),
        }
    }
}

/// One encoding variant of an instruction.
#[derive(Clone, Debug)]
pub struct InstructionForm {
    pub gas_name: Option<Vec<char>>,
    pub go_name: Option<Vec<char>>,
    pub z80_name: Option<Vec<char>>,
    pub mmx_mode: Option<Vec<char>>,
    pub xmm_mode: Option<Vec<char>>,
    pub cancelling_inputs: Option<bool>,
    pub nacl_version: Option<u8>,
    pub nacl_zero_extends_outputs: Option<bool>,
    pub isa: Option<Vec<char>>,
    pub operands: Vec<Operand>,
    pub z80_form: Option<Vec<char>>,
    pub z80_opcode: Option<Vec<char>>,
    pub z80_timing: Option<Z80Timing>,
    pub urls: Vec<Vec<char>>,
}

pub ghost struct InstructionFormView {
    pub gas_name: Option<Seq<char>>,
    pub go_name: Option<Seq<char>>,
    pub z80_name: Option<Seq<char>>,
    pub mmx_mode: Option<Seq<char>>,
    pub xmm_mode: Option<Seq<char>>,
    pub cancelling_inputs: Option<bool>,
    pub nacl_version: Option<u8>,
    pub nacl_zero_extends_outputs: Option<bool>,
    pub isa: Option<Seq<char>>,
    pub operands: Seq<OperandView>,
    pub z80_form: Option<Seq<char>>,
    pub z80_opcode: Option<Seq<char>>,
    pub z80_timing: Option<Z80TimingView>,
    pub urls: Seq<Seq<char>>,
}

impl View for InstructionForm {
    type V = InstructionFormView;

    open spec fn view(&self) -> InstructionFormView {
        InstructionFormView {
            gas_name: opt_view(self.gas_name),
            go_name: opt_view(self.go_name),
            z80_name: opt_view(self.z80_name),
            mmx_mode: opt_view(self.mmx_mode),
            xmm_mode: opt_view(self.xmm_mode),
            cancelling_inputs: self.cancelling_inputs,
            nacl_version: self.nacl_version,
            nacl_zero_extends_outputs: self.nacl_zero_extends_outputs,
            isa: opt_view(self.isa),
            operands: self.operands@.map_values(|o: Operand| o@),
            z80_form: opt_view(self.z80_form),
            z80_opcode: opt_view(self.z80_opcode),
            z80_timing: match self.z80_timing {
                Some(t) => Some(t@),
                None => None,
            },
            urls: nested_view(self.urls),
        }
    }
}

impl InstructionForm {
    pub fn new() -> (r: InstructionForm)
        ensures
            r@ == InstructionForm::spec_new(),
    {
        let r = InstructionForm {
            gas_name: None,
            go_name: None,
            z80_name: None,
            mmx_mode: None,
            xmm_mode: None,
            cancelling_inputs: None,
            nacl_version: None,
            nacl_zero_extends_outputs: None,
            isa: None,
            operands: Vec::new(),
            z80_form: None,
            z80_opcode: None,
            z80_timing: None,
            urls: Vec::new(),
        };
        proof {
            assert(r@.operands =~= InstructionForm::spec_new().operands);
            assert(r@.urls =~= InstructionForm::spec_new().urls);
        }
        r
    }

    /// The view of a freshly started form.
    pub open spec fn spec_new() -> InstructionFormView {
        InstructionFormView {
            gas_name: None,
            go_name: None,
            z80_name: None,
            mmx_mode: None,
            xmm_mode: None,
            cancelling_inputs: None,
            nacl_version: None,
            nacl_zero_extends_outputs: None,
            isa: None,
            operands: Seq::empty(),
            z80_form: None,
            z80_opcode: None,
            z80_timing: None,
            urls: Seq::empty(),
        }
    }
}

/// One instruction of an architecture: canonical name, case-variant alias
/// names, a one-line summary, an optional documentation link, and its
/// encoding forms.
#[derive(Clone, Debug)]
pub struct Instruction {
    pub name: Vec<char>,
    pub alt_names: Vec<Vec<char>>,
    pub summary: Vec<char>,
    pub url: Option<Vec<char>>,
    pub arch: Option<Arch>,
    pub forms: Vec<InstructionForm>,
}

pub ghost struct InstructionView {
    pub name: Seq<char>,
    pub alt_names: Seq<Seq<char>>,
    pub summary: Seq<char>,
    pub url: Option<Seq<char>>,
    pub arch: Option<Arch>,
    pub forms: Seq<InstructionFormView>,
}

impl View for Instruction {
    type V = InstructionView;

    open spec fn view(&self) -> InstructionView {
        InstructionView {
            name: self.name@,
            alt_names: nested_view(self.alt_names),
            summary: self.summary@,
            url: opt_view(self.url),
            arch: self.arch,
            forms: self.forms@.map_values(|f: InstructionForm| f@),
        }
    }
}

impl Instruction {
    pub fn new() -> (r: Instruction)
        ensures
            r@ == Instruction::spec_new(),
    {
        let r = Instruction {
            name: Vec::new(),
            alt_names: Vec::new(),
            summary: Vec::new(),
            url: None,
            arch: None,
            forms: Vec::new(),
        };
        proof {
            assert(r@.name =~= Instruction::spec_new().name);
            assert(r@.alt_names =~= Instruction::spec_new().alt_names);
            assert(r@.summary =~= Instruction::spec_new().summary);
            assert(r@.forms =~= Instruction::spec_new().forms);
        }
        r
    }

    /// The view of a freshly started instruction.
    pub open spec fn spec_new() -> InstructionView {
        InstructionView {
            name: Seq::empty(),
            alt_names: Seq::empty(),
            summary: Seq::empty(),
            url: None,
            arch: None,
            forms: Seq::empty(),
        }
    }

    pub fn push_form(&mut self, form: InstructionForm)
        ensures
            final(self)@ == (InstructionView { forms: old(self)@.forms.push(form@), ..old(self)@ }),
    {
        self.forms.push(form);
        assert(self@.forms =~= old(self)@.forms.push(form@));
    }
}

/// Flag-bit semantics of a status register.
#[derive(Clone, Debug)]
pub struct RegisterBitInfo {
    pub bit: u32,
    pub label: Vec<char>,
    pub description: Vec<char>,
    pub pae: Vec<char>,
    pub long_mode: Vec<char>,
}

pub ghost struct RegisterBitInfoView {
    pub bit: u32,
    pub label: Seq<char>,
    pub description: Seq<char>,
    pub pae: Seq<char>,
    pub long_mode: Seq<char>,
}

impl View for RegisterBitInfo {
    type V = RegisterBitInfoView;

    open spec fn view(&self) -> RegisterBitInfoView {
        RegisterBitInfoView {
            bit: self.bit,
            label: self.label@,
            description: self.description@,
            pae: self.pae@,
            long_mode: self.long_mode@,
        }
    }
}

impl RegisterBitInfo {
    pub fn new() -> (r: RegisterBitInfo)
        ensures
            r@ == RegisterBitInfo::spec_new(),
    {
        let r = RegisterBitInfo {
            bit: 0,
            label: Vec::new(),
            description: Vec::new(),
            pae: Vec::new(),
            long_mode: Vec::new(),
        };
        proof {
            assert(r@.label =~= RegisterBitInfo::spec_new().label);
            assert(r@.description =~= RegisterBitInfo::spec_new().description);
            assert(r@.pae =~= RegisterBitInfo::spec_new().pae);
            assert(r@.long_mode =~= RegisterBitInfo::spec_new().long_mode);
        }
        r
    }

    /// The view of a freshly started flag-bit record.
    pub open spec fn spec_new() -> RegisterBitInfoView {
        RegisterBitInfoView {
            bit: 0,
            label: Seq::empty(),
            description: Seq::empty(),
            pae: Seq::empty(),
            long_mode: Seq::empty(),
        }
    }
}

/// One register of an architecture.
#[derive(Clone, Debug)]
pub struct Register {
    pub name: Vec<char>,
    pub alt_names: Vec<Vec<char>>,
    pub description: Option<Vec<char>>,
    pub reg_type: Option<Vec<char>>,
    pub width: Option<Vec<char>>,
    pub flag_info: Vec<RegisterBitInfo>,
    pub arch: Option<Arch>,
}

pub ghost struct RegisterView {
    pub name: Seq<char>,
    pub alt_names: Seq<Seq<char>>,
    pub description: Option<Seq<char>>,
    pub reg_type: Option<Seq<char>>,
    pub width: Option<Seq<char>>,
    pub flag_info: Seq<RegisterBitInfoView>,
    pub arch: Option<Arch>,
}

impl View for Register {
    type V = RegisterView;

    open spec fn view(&self) -> RegisterView {
        RegisterView {
            name: self.name@,
            alt_names: nested_view(self.alt_names),
            description: opt_view(self.description),
            reg_type: opt_view(self.reg_type),
            width: opt_view(self.width),
            flag_info: self.flag_info@.map_values(|f: RegisterBitInfo| f@),
            arch: self.arch,
        }
    }
}

impl Register {
    pub fn new() -> (r: Register)
        ensures
            r@ == Register::spec_new(),
    {
        let r = Register {
            name: Vec::new(),
            alt_names: Vec::new(),
            description: None,
            reg_type: None,
            width: None,
            flag_info: Vec::new(),
            arch: None,
        };
        proof {
            assert(r@.name =~= Register::spec_new().name);
            assert(r@.alt_names =~= Register::spec_new().alt_names);
            assert(r@.flag_info =~= Register::spec_new().flag_info);
        }
        r
    }

    /// The view of a freshly started register.
    pub open spec fn spec_new() -> RegisterView {
        RegisterView {
            name: Seq::empty(),
            alt_names: Seq::empty(),
            description: None,
            reg_type: None,
            width: None,
            flag_info: Seq::empty(),
            arch: None,
        }
    }

    pub fn push_flag(&mut self, flag: RegisterBitInfo)
        ensures
            final(self)@ == (RegisterView { flag_info: old(self)@.flag_info.push(flag@), ..old(self)@ }),
    {
        self.flag_info.push(flag);
        assert(self@.flag_info =~= old(self)@.flag_info.push(flag@));
    }
}

/// One assembler directive.
#[derive(Clone, Debug)]
pub struct Directive {
    pub name: Vec<char>,
    pub signatures: Vec<Vec<char>>,
    pub alt_names: Vec<Vec<char>>,
    pub url: Option<Vec<char>>,
    pub description: Vec<char>,
    pub deprecated: bool,
    pub assembler: Option<Assembler>,
}

pub ghost struct DirectiveView {
    pub name: Seq<char>,
    pub signatures: Seq<Seq<char>>,
    pub alt_names: Seq<Seq<char>>,
    pub url: Option<Seq<char>>,
    pub description: Seq<char>,
    pub deprecated: bool,
    pub assembler: Option<Assembler>,
}

impl View for Directive {
    type V = DirectiveView;

    open spec fn view(&self) -> DirectiveView {
        DirectiveView {
            name: self.name@,
            signatures: nested_view(self.signatures),
            alt_names: nested_view(self.alt_names),
            url: opt_view(self.url),
            description: self.description@,
            deprecated: self.deprecated,
            assembler: self.assembler,
        }
    }
}

impl Directive {
    pub fn new() -> (r: Directive)
        ensures
            r@ == Directive::spec_new(),
    {
        let r = Directive {
            name: Vec::new(),
            signatures: Vec::new(),
            alt_names: Vec::new(),
            url: None,
            description: Vec::new(),
            deprecated: false,
            assembler: None,
        };
        proof {
            assert(r@.name =~= Directive::spec_new().name);
            assert(r@.signatures =~= Directive::spec_new().signatures);
            assert(r@.alt_names =~= Directive::spec_new().alt_names);
            assert(r@.description =~= Directive::spec_new().description);
        }
        r
    }

    /// The view of a freshly started directive.
    pub open spec fn spec_new() -> DirectiveView {
        DirectiveView {
            name: Seq::empty(),
            signatures: Seq::empty(),
            alt_names: Seq::empty(),
            url: None,
            description: Seq::empty(),
            deprecated: false,
            assembler: None,
        }
    }
}

/// Why ingestion of a reference document failed. The corpus is a fixed,
/// versioned set of documents, so any of these is fatal at startup.
#[derive(Clone, Copy, PartialEq, Eq, Structural, Debug)]
pub enum ParseError {
    /// The document is not well-formed XML of the shape the corpus uses.
    Xml,
    /// An `mmx-mode` attribute held an unrecognized mode.
    UnknownMmxMode,
    /// An `xmm-mode` attribute held an unrecognized mode.
    UnknownXmmMode,
    /// A boolean attribute held something besides `true` or `false`.
    BadBool,
    /// An `ISA` tag held an unrecognized extension name.
    UnknownIsa,
    /// An operand `type` held an unrecognized operand class.
    UnknownOperandType,
    /// A register `type` held an unrecognized register class.
    UnknownRegisterType,
    /// A register `width` held an unrecognized width.
    UnknownRegisterWidth,
    /// A timing attribute was not a cycle count.
    BadTiming,
    /// A numeric attribute did not parse.
    BadNumber,
    /// An escaped text attribute held an unrecognized entity.
    BadEntity,
}

/// Which assembler dialects the user has enabled.
#[derive(Clone, Copy, PartialEq, Eq, Structural, Debug)]
pub struct Assemblers {
    pub gas: bool,
    pub go: bool,
    pub z80: bool,
}

/// Which architectures the user has enabled.
#[derive(Clone, Copy, PartialEq, Eq, Structural, Debug)]
pub struct InstructionSets {
    pub x86: bool,
    pub x86_64: bool,
    pub z80: bool,
}

/// The user-visible target configuration: enabled assemblers and enabled
/// architectures.
#[derive(Clone, Copy, PartialEq, Eq, Structural, Debug)]
pub struct TargetConfig {
    pub assemblers: Assemblers,
    pub instruction_sets: InstructionSets,
}

} // verus!
