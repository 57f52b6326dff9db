//! The execution node: a bounded integer value type with saturating
//! arithmetic and digit operations, and a processor that decodes
//! instructions into register updates and suspension signals.

use vstd::prelude::*;

verus! {

/// Saturates a mathematical integer into the inclusive range [-999, 999].
pub open spec fn clamp(x: int) -> int {
    if x < -999 {
        -999
    } else if x > 999 {
        999
    } else {
        x
    }
}

/// The absolute value of a mathematical integer.
pub open spec fn magnitude(x: int) -> int {
    if x < 0 {
        -x
    } else {
        x
    }
}

/// `10^n`, used to address decimal digit positions.
pub open spec fn pow10(n: nat) -> int
    decreases n,
{
    if n == 0 {
        1
    } else {
        pow10((n - 1) as nat) * 10
    }
}

/// The digit index actually used: a negative index is treated as index 0.
pub open spec fn digit_index(index: int) -> nat {
    if index <= 0 {
        0
    } else {
        index as nat
    }
}

/// The decimal digit of `x` at position `index`, counting from the least
/// significant digit (index 0 is the ones place). The sign of `x` is
/// dropped; a negative index reads the ones place; an index past the most
/// significant digit reads 0.
pub open spec fn digit_at_spec(x: int, index: int) -> int {
    (magnitude(x) / pow10(digit_index(index))) % 10
}

/// A replacement digit is clamped into the decimal digit range [0, 9].
pub open spec fn clamp_digit(d: int) -> int {
    if d < 0 {
        0
    } else if d > 9 {
        9
    } else {
        d
    }
}

/// The value of `x` with its decimal digit at position `index` replaced by
/// `digit`, all other digits and the sign preserved, saturated into range.
/// A negative index addresses the ones place; a replacement digit outside
/// [0, 9] is clamped into that range first.
pub open spec fn set_digit_spec(x: int, index: int, digit: int) -> int {
    let n = digit_index(index);
    let replaced = magnitude(x) - digit_at_spec(x, index) * pow10(n) + clamp_digit(digit)
        * pow10(n);
    if x < 0 {
        clamp(-replaced)
    } else {
        clamp(replaced)
    }
}

proof fn lemma_pow10_positive(n: nat)
    ensures
        pow10(n) >= 1,
    decreases n,
{
    if n > 0 {
        lemma_pow10_positive((n - 1) as nat);
    }
}

proof fn lemma_pow10_monotone(m: nat, n: nat)
    requires
        m <= n,
    ensures
        pow10(m) <= pow10(n),
    decreases n,
{
    if m < n {
        lemma_pow10_monotone(m, (n - 1) as nat);
        lemma_pow10_positive((n - 1) as nat);
    }
}

/// A signed integer clamped to [-999, 999] on every construction and
/// every arithmetic result.
#[derive(Debug, Clone, Copy, PartialEq, Eq, Structural)]
pub struct Integer {
    value: i16,
}

impl View for Integer {
    type V = int;

    closed spec fn view(&self) -> int {
        self.value as int
    }
}

impl Integer {
    #[verifier::type_invariant]
    spec fn in_range(self) -> bool {
        -999 <= self.value <= 999
    }

    /// Saturating constructor: values below -999 become -999, values
    /// above 999 become 999, values already in range are kept.
    pub fn new(value: i16) -> (result: Self)
        ensures
            result@ == clamp(value as int),
            -999 <= result@ <= 999,
            -999 <= value <= 999 ==> result@ == value as int,
    {
        if value < -999 {
            Integer { value: -999 }
        } else if value > 999 {
            Integer { value: 999 }
        } else {
            Integer { value }
        }
    }

    /// The stored value, always within [-999, 999].
    pub fn value(&self) -> (result: i16)
        ensures
            result as int == self@,
            -999 <= result <= 999,
    {
        proof {
            use_type_invariant(self);
        }
        self.value
    }

    /// Saturating addition.
    pub fn add(&self, other: Integer) -> (result: Self)
        ensures
            result@ == clamp(self@ + other@),
    {
        let wide: i32 = self.value as i32 + other.value as i32;
        Self::saturate_wide(wide)
    }

    /// Saturating subtraction.
    pub fn subtract(&self, other: Integer) -> (result: Self)
        ensures
            result@ == clamp(self@ - other@),
    {
        let wide: i32 = self.value as i32 - other.value as i32;
        Self::saturate_wide(wide)
    }

    /// Saturating multiplication.
    pub fn multiply(&self, other: Integer) -> (result: Self)
        ensures
            result@ == clamp(self@ * other@),
    {
        proof {
            use_type_invariant(self);
            use_type_invariant(&other);
            assert(-999 * 999 <= self.value as int * other.value as int <= 999 * 999)
                by (nonlinear_arith)
                requires
                    -999 <= self.value as int <= 999,
                    -999 <= other.value as int <= 999,
            ;
        }
        let wide: i32 = self.value as i32 * other.value as i32;
        Self::saturate_wide(wide)
    }

    /// Extracts the decimal digit of this value at position `other`,
    /// counting from the least significant digit; the sign is dropped.
    pub fn dgt(&self, other: Integer) -> (result: Self)
        ensures
            result@ == digit_at_spec(self@, other@),
            0 <= result@ <= 9,
    {
        proof {
            use_type_invariant(self);
            use_type_invariant(&other);
        }
        let mut a: i16 = if self.value < 0 {
            -self.value
        } else {
            self.value
        };
        let count: i16 = if other.value < 0 {
            0
        } else {
            other.value
        };
        let ghost m = magnitude(self@);
        proof {
            assert(a as int == m / pow10(0));
        }
        let mut k: i16 = 0;
        while k < count
            invariant
                0 <= k <= count <= 999,
                m == magnitude(self@),
                0 <= a <= 999,
                a as int == m / pow10(k as nat),
            decreases count - k,
        {
            proof {
                lemma_pow10_positive(k as nat);
                vstd::arithmetic::div_mod::lemma_div_denominator(m, pow10(k as nat), 10);
            }
            a = a / 10;
            k = k + 1;
        }
        proof {
            assert(k as nat == digit_index(other@));
        }
        Integer { value: a % 10 }
    }

    /// Replaces the decimal digit of this value at position `index_value`
    /// with `digit_value`, preserving all other digits and the sign, then
    /// saturates into range. A negative index addresses the ones place; a
    /// replacement digit outside [0, 9] is clamped into that range first.
    pub fn dst(&self, index_value: Integer, digit_value: Integer) -> (result: Self)
        ensures
            result@ == set_digit_spec(self@, index_value@, digit_value@),
    {
        proof {
            use_type_invariant(self);
            use_type_invariant(&index_value);
            use_type_invariant(&digit_value);
        }
        let mag: i32 = (if self.value < 0 {
            -self.value
        } else {
            self.value
        }) as i32;
        let idx: i16 = if index_value.value < 0 {
            0
        } else {
            index_value.value
        };
        let d: i32 = (if digit_value.value < 0 {
            0
        } else if digit_value.value > 9 {
            9
        } else {
            digit_value.value
        }) as i32;
        let ghost n = digit_index(index_value@);
        proof {
            assert(idx as nat == n);
            assert(mag as int == magnitude(self@));
            assert(d as int == clamp_digit(digit_value@));
        }
        if idx >= 4 {
            // The whole value has at most three digits, so the digit at
            // this position is 0 and any nonzero replacement saturates.
            proof {
                assert(pow10(0) == 1);
                assert(pow10(1) == 10);
                assert(pow10(2) == 100);
                assert(pow10(3) == 1000);
                assert(pow10(4) == 10000);
                lemma_pow10_monotone(4, n);
                vstd::arithmetic::div_mod::lemma_basic_div(mag as int, pow10(n));
                if d >= 1 {
                    assert(d as int * pow10(n) >= 10000) by (nonlinear_arith)
                        requires
                            d as int >= 1,
                            pow10(n) >= 10000,
                    ;
                }
            }
            proof {
                assert(digit_at_spec(self@, index_value@) == 0);
                if d >= 1 {
                    assert(clamp_digit(digit_value@) * pow10(n) >= 10000);
                }
            }
            if d == 0 {
                *self
            } else if self.value < 0 {
                Integer { value: -999 }
            } else {
                Integer { value: 999 }
            }
        } else {
            let pow: i32 = if idx == 0 {
                1
            } else if idx == 1 {
                10
            } else if idx == 2 {
                100
            } else {
                1000
            };
            proof {
                assert(pow10(0) == 1);
                assert(pow10(1) == 10);
                assert(pow10(2) == 100);
                assert(pow10(3) == 1000);
            }
            let dig: i32 = (mag / pow) % 10;
            proof {
                assert(0 <= dig as int * pow as int <= 9000) by (nonlinear_arith)
                    requires
                        0 <= dig <= 9,
                        1 <= pow <= 1000,
                ;
                assert(0 <= d as int * pow as int <= 9000) by (nonlinear_arith)
                    requires
                        0 <= d <= 9,
                        1 <= pow <= 1000,
                ;
            }
            let replaced: i32 = mag - dig * pow + d * pow;
            proof {
                assert(pow as int == pow10(n));
                assert(dig as int == digit_at_spec(self@, index_value@));
                assert(replaced as int == magnitude(self@) - digit_at_spec(
                    self@,
                    index_value@,
                ) * pow10(n) + clamp_digit(digit_value@) * pow10(n));
            }
            if self.value < 0 {
                Self::saturate_wide(-replaced)
            } else {
                Self::saturate_wide(replaced)
            }
        }
    }

    /// Clamps a wide intermediate result into range.
    fn saturate_wide(wide: i32) -> (result: Self)
        ensures
            result@ == clamp(wide as int),
    {
        if wide < -999 {
            Integer { value: -999 }
        } else if wide > 999 {
            Integer { value: 999 }
        } else {
            Integer { value: wide as i16 }
        }
    }
}

/// An addressable I/O pin: two plain digital pins and two bus-capable pins.
/// Pin reads and writes are delegated to the surrounding node; inside this
/// core a pin always reads as zero and discards writes.
#[derive(Debug, Clone, Copy, PartialEq, Eq, Structural)]
pub enum PinRegister {
    P0,
    P1,
    X0,
    X1,
}

/// A named processor-owned register slot: the accumulator, the auxiliary
/// register, and a sink that discards writes and reads as zero.
pub enum CoreRegister {
    Acc,
    Dat,
    Null,
}

/// A jump target name. Label resolution is an external concern: the
/// interpreter itself never consults the name.
pub struct Label<'a> {
    value: &'a str,
}

impl<'a> Label<'a> {
    /// Wraps a jump target name.
    pub fn new(value: &'a str) -> Self {
        Label { value }
    }
}

/// An instruction operand that names a register.
pub enum Register {
    PinRegister(PinRegister),
    CoreRegister(CoreRegister),
}

/// An instruction operand that is either a literal value or a register.
pub enum RegisterInteger {
    Register(Register),
    Integer(Integer),
}

/// The closed set of opcodes the node executes.
pub enum Instruction<'a> {
    // Basic instructions
    Nop,
    Mov(RegisterInteger, Register),
    Jmp(Label<'a>),
    Slp(RegisterInteger),
    Slx(PinRegister),
    // Arithmetic instructions
    Add(RegisterInteger),
    Sub(RegisterInteger),
    Mul(RegisterInteger),
    Not,
    Dgt(RegisterInteger),
    Dst(RegisterInteger, RegisterInteger),
    // Test instructions
    Teq(RegisterInteger, RegisterInteger),
    Tgt(RegisterInteger, RegisterInteger),
    Tlt(RegisterInteger, RegisterInteger),
    Tcp(RegisterInteger, RegisterInteger),
}

/// A per-instruction qualifier restricting execution to cycles where the
/// last test instruction set the matching allow-flag.
pub enum Conditional {
    Regular,
    Plus,
    Minus,
}

/// An instruction annotated with its source label and its conditional
/// qualifier, as stored in a loaded program.
pub struct InstructionWithContext<'a, 'b> {
    pub label: &'a str,
    pub conditional: Conditional,
    pub instruction: Instruction<'b>,
}

/// The standstill condition reported after running an instruction.
#[derive(Debug, PartialEq, Eq, Structural)]
pub enum BlockedState {
    NotBlocked,
    BlockedOnInput(PinRegister),
    BlockedOnTime(Integer),
}

/// The mathematical meaning of a [`BlockedState`]: the sleep duration is
/// read as a plain integer.
pub ghost enum BlockedSignal {
    NotBlocked,
    BlockedOnInput(PinRegister),
    BlockedOnTime(int),
}

impl View for BlockedState {
    type V = BlockedSignal;

    open spec fn view(&self) -> BlockedSignal {
        match self {
            BlockedState::NotBlocked => BlockedSignal::NotBlocked,
            BlockedState::BlockedOnInput(pin) => BlockedSignal::BlockedOnInput(*pin),
            BlockedState::BlockedOnTime(time) => BlockedSignal::BlockedOnTime(time@),
        }
    }
}

/// The mathematical model of the processor's mutable state.
pub ghost struct ProcessorState {
    pub program_counter: int,
    pub acc: int,
    pub dat: int,
    pub plus_operations_allowed: bool,
    pub minus_operations_allowed: bool,
}

/// The state a freshly constructed processor is in.
pub open spec fn reset_state() -> ProcessorState {
    ProcessorState {
        program_counter: 0,
        acc: 0,
        dat: 0,
        plus_operations_allowed: true,
        minus_operations_allowed: true,
    }
}

/// What a core register read returns: the stored value, with the sink
/// always reading as zero.
pub open spec fn read_core_register_spec(s: ProcessorState, register: CoreRegister) -> int {
    match register {
        CoreRegister::Acc => s.acc,
        CoreRegister::Dat => s.dat,
        CoreRegister::Null => 0,
    }
}

/// What a register read returns: pin reads are delegated externally and
/// stand in for zero inside this core.
pub open spec fn read_register_spec(s: ProcessorState, register: Register) -> int {
    match register {
        Register::CoreRegister(core) => read_core_register_spec(s, core),
        Register::PinRegister(_) => 0,
    }
}

/// Resolves an operand: a literal is itself, a register is read.
pub open spec fn read_register_integer_spec(s: ProcessorState, operand: RegisterInteger) -> int {
    match operand {
        RegisterInteger::Integer(value) => value@,
        RegisterInteger::Register(register) => read_register_spec(s, register),
    }
}

/// The state after a core register write: the sink discards the value.
pub open spec fn write_core_register_spec(
    s: ProcessorState,
    register: CoreRegister,
    value: int,
) -> ProcessorState {
    match register {
        CoreRegister::Acc => ProcessorState { acc: value, ..s },
        CoreRegister::Dat => ProcessorState { dat: value, ..s },
        CoreRegister::Null => s,
    }
}

/// The state after a register write: pin writes are delegated externally
/// and leave the processor unchanged.
pub open spec fn write_register_spec(
    s: ProcessorState,
    register: Register,
    value: int,
) -> ProcessorState {
    match register {
        Register::CoreRegister(core) => write_core_register_spec(s, core, value),
        Register::PinRegister(_) => s,
    }
}

/// The conditional-execution flags set by a test instruction.
pub open spec fn with_test_flags(s: ProcessorState, plus: bool, minus: bool) -> ProcessorState {
    ProcessorState { plus_operations_allowed: plus, minus_operations_allowed: minus, ..s }
}

/// The processor state after executing one instruction. `Jmp` requires an
/// external label resolution table and leaves the state unchanged here;
/// the sleep and pin-wait instructions change no register state.
pub open spec fn instruction_effect(s: ProcessorState, instruction: Instruction) -> ProcessorState {
    match instruction {
        Instruction::Nop => s,
        Instruction::Mov(value, destination) => write_register_spec(
            s,
            destination,
            read_register_integer_spec(s, value),
        ),
        Instruction::Jmp(_) => s,
        Instruction::Slp(_) => s,
        Instruction::Slx(_) => s,
        Instruction::Add(value) => ProcessorState {
            acc: clamp(s.acc + read_register_integer_spec(s, value)),
            ..s
        },
        Instruction::Sub(value) => ProcessorState {
            acc: clamp(s.acc - read_register_integer_spec(s, value)),
            ..s
        },
        Instruction::Mul(value) => ProcessorState {
            acc: clamp(s.acc * read_register_integer_spec(s, value)),
            ..s
        },
        Instruction::Not => ProcessorState {
            acc: if s.acc == 0 {
                100
            } else {
                0
            },
            ..s
        },
        Instruction::Dgt(value) => ProcessorState {
            acc: digit_at_spec(s.acc, read_register_integer_spec(s, value)),
            ..s
        },
        Instruction::Dst(index, value) => ProcessorState {
            acc: set_digit_spec(
                s.acc,
                read_register_integer_spec(s, index),
                read_register_integer_spec(s, value),
            ),
            ..s
        },
        Instruction::Teq(a, b) => {
            let av = read_register_integer_spec(s, a);
            let bv = read_register_integer_spec(s, b);
            with_test_flags(s, av == bv, av != bv)
        },
        Instruction::Tgt(a, b) => {
            let av = read_register_integer_spec(s, a);
            let bv = read_register_integer_spec(s, b);
            with_test_flags(s, av > bv, av <= bv)
        },
        Instruction::Tlt(a, b) => {
            let av = read_register_integer_spec(s, a);
            let bv = read_register_integer_spec(s, b);
            with_test_flags(s, av < bv, av >= bv)
        },
        Instruction::Tcp(a, b) => {
            let av = read_register_integer_spec(s, a);
            let bv = read_register_integer_spec(s, b);
            with_test_flags(s, av > bv, bv > av)
        },
    }
}

/// The suspension signal one instruction reports: a sleep blocks on time,
/// a pin wait blocks on input, everything else leaves the node running.
pub open spec fn instruction_signal(s: ProcessorState, instruction: Instruction) -> BlockedSignal {
    match instruction {
        Instruction::Slp(value) => BlockedSignal::BlockedOnTime(
            read_register_integer_spec(s, value),
        ),
        Instruction::Slx(pin) => BlockedSignal::BlockedOnInput(pin),
        _ => BlockedSignal::NotBlocked,
    }
}

/// The program counter after one fetch: one past the fetched instruction,
/// wrapping to 0 past the last instruction of a program of the given
/// length.
pub open spec fn advance_counter(s: ProcessorState, length: int) -> ProcessorState {
    ProcessorState {
        program_counter: if s.program_counter + 1 == length {
            0
        } else {
            s.program_counter + 1
        },
        ..s
    }
}

/// Whether an instruction with this qualifier is skipped under the current
/// conditional-execution flags.
pub open spec fn skips(s: ProcessorState, conditional: Conditional) -> bool {
    match conditional {
        Conditional::Regular => false,
        Conditional::Plus => !s.plus_operations_allowed,
        Conditional::Minus => !s.minus_operations_allowed,
    }
}

/// The state after one fetch/execute cycle: the instruction at the program
/// counter is fetched, the counter advances with wraparound, and the
/// instruction executes unless its qualifier is disallowed, in which case
/// the cycle is a no-op beyond the counter advance.
pub open spec fn cycle_state(s: ProcessorState, program: Seq<InstructionWithContext>) -> ProcessorState {
    let entry = program[s.program_counter];
    let advanced = advance_counter(s, program.len() as int);
    if skips(advanced, entry.conditional) {
        advanced
    } else {
        instruction_effect(advanced, entry.instruction)
    }
}

/// The suspension signal one fetch/execute cycle reports; a skipped
/// instruction never blocks.
pub open spec fn cycle_signal(s: ProcessorState, program: Seq<InstructionWithContext>) -> BlockedSignal {
    let entry = program[s.program_counter];
    let advanced = advance_counter(s, program.len() as int);
    if skips(advanced, entry.conditional) {
        BlockedSignal::NotBlocked
    } else {
        instruction_signal(advanced, entry.instruction)
    }
}

/// The state after `n` fetch/execute cycles.
pub open spec fn run_cycles(
    s: ProcessorState,
    program: Seq<InstructionWithContext>,
    n: nat,
) -> ProcessorState
    decreases n,
{
    if n == 0 {
        s
    } else {
        cycle_state(run_cycles(s, program, (n - 1) as nat), program)
    }
}

/// Whether the first suspension on `program` from state `s` comes exactly
/// at cycle `n`: every earlier cycle runs through, and cycle `n` blocks.
pub open spec fn blocks_at(
    s: ProcessorState,
    program: Seq<InstructionWithContext>,
    n: nat,
) -> bool {
    &&& forall|k: nat|
        k < n ==> (#[trigger] cycle_signal(run_cycles(s, program, k), program))
            is NotBlocked
    &&& !(cycle_signal(run_cycles(s, program, n), program) is NotBlocked)
}

/// The logical-NOT idiom of this instruction set has two fixed points:
/// one application sets the accumulator to 100 exactly when it was 0 and
/// to 0 otherwise, so a second application from an initial 0 returns to 0,
/// while from any initial nonzero value it ends at 100. This is not a true
/// involution.
pub proof fn lemma_not_fixed_points(s: ProcessorState)
    ensures
        instruction_effect(s, Instruction::Not).acc == (if s.acc == 0 {
            100int
        } else {
            0int
        }),
        s.acc == 0 ==> instruction_effect(
            instruction_effect(s, Instruction::Not),
            Instruction::Not,
        ).acc == 0,
        s.acc != 0 ==> instruction_effect(
            instruction_effect(s, Instruction::Not),
            Instruction::Not,
        ).acc == 100,
{
}

/// A cycle whose fetched instruction is disallowed by its conditional
/// qualifier is a no-op beyond the counter advance: registers and flags
/// are unchanged and the cycle never blocks. A qualifier the current flags
/// allow executes the instruction.
pub proof fn lemma_conditional_gating(s: ProcessorState, program: Seq<InstructionWithContext>)
    ensures
        skips(s, program[s.program_counter].conditional) ==> cycle_state(s, program)
            == advance_counter(s, program.len() as int),
        skips(s, program[s.program_counter].conditional) ==> cycle_signal(s, program)
            is NotBlocked,
        !skips(s, program[s.program_counter].conditional) ==> cycle_state(s, program)
            == instruction_effect(
            advance_counter(s, program.len() as int),
            program[s.program_counter].instruction,
        ),
{
}

/// The program counter wraps modulo the program length: one fetch from
/// the last instruction moves the counter to 0, and from anywhere else it
/// advances by one.
pub proof fn lemma_counter_wraparound(s: ProcessorState, length: int)
    ensures
        s.program_counter + 1 == length ==> advance_counter(s, length).program_counter == 0,
        s.program_counter + 1 != length ==> advance_counter(s, length).program_counter
            == s.program_counter + 1,
{
}

/// The mutable execution state of one node: program counter, accumulator,
/// auxiliary register, and the two conditional-execution flags set by the
/// most recent test instruction.
#[derive(Debug)]
pub struct Processor {
    program_counter: usize,
    acc: Integer,
    dat: Integer,
    plus_operations_allowed: bool,
    minus_operations_allowed: bool,
}

impl View for Processor {
    type V = ProcessorState;

    closed spec fn view(&self) -> ProcessorState {
        ProcessorState {
            program_counter: self.program_counter as int,
            acc: self.acc@,
            dat: self.dat@,
            plus_operations_allowed: self.plus_operations_allowed,
            minus_operations_allowed: self.minus_operations_allowed,
        }
    }
}

impl Processor {
    /// Resets to the initial state: counter 0, both registers zero, both
    /// conditional flags allowed.
    pub fn new() -> (result: Self)
        ensures
            result@ == reset_state(),
    {
        Processor {
            program_counter: 0,
            acc: Integer::new(0),
            dat: Integer::new(0),
            plus_operations_allowed: true,
            minus_operations_allowed: true,
        }
    }

    /// Reads a core register; the sink reads as zero.
    pub fn read_core_register(&self, register: &CoreRegister) -> (result: Integer)
        ensures
            result@ == read_core_register_spec(self@, *register),
    {
        match register {
            CoreRegister::Acc => self.acc,
            CoreRegister::Dat => self.dat,
            CoreRegister::Null => Integer::new(0),
        }
    }

    /// Writes a core register; the sink discards the value.
    pub fn write_core_register(&mut self, register: &CoreRegister, value: Integer)
        ensures
            final(self)@ == write_core_register_spec(old(self)@, *register, value@),
    {
        match register {
            CoreRegister::Acc => self.acc = value,
            CoreRegister::Dat => self.dat = value,
            _ => {},
        }
    }

    /// Reads a register; pin reads are delegated to the surrounding node
    /// and stand in for zero inside this core.
    pub fn read_register(&self, register: &Register) -> (result: Integer)
        ensures
            result@ == read_register_spec(self@, *register),
    {
        match register {
            Register::CoreRegister(core) => self.read_core_register(core),
            Register::PinRegister(_) => Integer::new(0),
        }
    }

    /// Writes a register; pin writes are delegated to the surrounding node
    /// and leave the processor unchanged inside this core.
    pub fn write_register(&mut self, register: &Register, value: Integer)
        ensures
            final(self)@ == write_register_spec(old(self)@, *register, value@),
    {
        match register {
            Register::CoreRegister(core) => self.write_core_register(core, value),
            Register::PinRegister(_) => (),
        }
    }

    /// Resolves an operand to its value: a literal is itself, a register
    /// is read.
    pub fn read_register_integer(&self, operand: &RegisterInteger) -> (result: Integer)
        ensures
            result@ == read_register_integer_spec(self@, *operand),
    {
        match operand {
            RegisterInteger::Integer(value) => *value,
            RegisterInteger::Register(register) => self.read_register(register),
        }
    }

    /// The current accumulator value.
    pub fn accumulator(&self) -> (result: Integer)
        ensures
            result@ == self@.acc,
    {
        self.acc
    }

    /// The current auxiliary register value.
    pub fn auxiliary(&self) -> (result: Integer)
        ensures
            result@ == self@.dat,
    {
        self.dat
    }

    /// The current program counter: the index of the next instruction to
    /// fetch.
    pub fn counter(&self) -> (result: usize)
        ensures
            result as int == self@.program_counter,
    {
        self.program_counter
    }

    /// Whether instructions qualified `Plus` currently execute.
    pub fn plus_operations_allowed(&self) -> (result: bool)
        ensures
            result == self@.plus_operations_allowed,
    {
        self.plus_operations_allowed
    }

    /// Whether instructions qualified `Minus` currently execute.
    pub fn minus_operations_allowed(&self) -> (result: bool)
        ensures
            result == self@.minus_operations_allowed,
    {
        self.minus_operations_allowed
    }

    /// The fetch/execute loop: runs cycle after cycle until an instruction
    /// blocks, and returns that first suspension signal, leaving the
    /// program counter at the next instruction to fetch on resumption.
    ///
    /// The caller must supply a non-empty program, a counter in range, and
    /// a program that eventually suspends from the current state; on a
    /// program that never blocks the loop would spin forever.
    pub fn run_until_blocked(&mut self, program: &Vec<InstructionWithContext>) -> (result:
        BlockedState)
        requires
            program@.len() > 0,
            old(self)@.program_counter < program@.len(),
            exists|n: nat| blocks_at(old(self)@, program@, n),
        ensures
            !(result@ is NotBlocked),
            0 <= final(self)@.program_counter < program@.len(),
            exists|n: nat|
                {
                    &&& blocks_at(old(self)@, program@, n)
                    &&& result@ == cycle_signal(
                        #[trigger] run_cycles(old(self)@, program@, n),
                        program@,
                    )
                    &&& final(self)@ == cycle_state(run_cycles(old(self)@, program@, n), program@)
                },
    {
        let ghost target = choose|n: nat| blocks_at(old(self)@, program@, n);
        let ghost mut steps: nat = 0;
        loop
            invariant
                program@.len() > 0,
                self@.program_counter < program@.len(),
                blocks_at(old(self)@, program@, target),
                steps <= target,
                self@ == run_cycles(old(self)@, program@, steps),
            decreases target - steps,
        {
            let ghost before = self@;
            // Fetch the next instruction and advance the counter, wrapping
            // past the end of the program.
            let length = program.len();
            let instruction = &program[self.program_counter];
            self.program_counter = self.program_counter + 1;
            if self.program_counter == length {
                self.program_counter = 0;
            }
            proof {
                assert(self@ == advance_counter(before, program@.len() as int));
            }
            // Skip the instruction if its qualifier is disallowed; the
            // cycle still counts and the counter stays advanced.
            let skip = match instruction.conditional {
                Conditional::Plus => !self.plus_operations_allowed,
                Conditional::Minus => !self.minus_operations_allowed,
                Conditional::Regular => false,
            };
            if !skip {
                let blocked = self.run_instruction(&instruction.instruction);
                match blocked {
                    BlockedState::NotBlocked => {},
                    _ => {
                        proof {
                            assert(self@ == cycle_state(before, program@));
                            assert(blocked@ == cycle_signal(before, program@));
                            assert(steps == target);
                        }
                        return blocked;
                    },
                }
            }
            proof {
                assert(self@ == cycle_state(before, program@));
                assert(cycle_signal(before, program@) is NotBlocked);
                assert(steps < target);
                steps = steps + 1;
            }
        }
    }

    /// Executes exactly one instruction: the state changes to
    /// [`instruction_effect`] and the suspension signal is
    /// [`instruction_signal`].
    pub fn run_instruction(&mut self, instruction: &Instruction) -> (result: BlockedState)
        ensures
            final(self)@ == instruction_effect(old(self)@, *instruction),
            result@ == instruction_signal(old(self)@, *instruction),
    {
        match instruction {
            Instruction::Nop => BlockedState::NotBlocked,
            Instruction::Mov(value, destination) => {
                let integer_value = self.read_register_integer(value);
                self.write_register(destination, integer_value);
                BlockedState::NotBlocked
            },
            Instruction::Jmp(_label) => {
                // Completing a jump takes an external label resolution
                // table; without one the instruction changes nothing.
                BlockedState::NotBlocked
            },
            Instruction::Slp(value) => {
                let time = self.read_register_integer(value);
                BlockedState::BlockedOnTime(time)
            },
            Instruction::Slx(pin) => BlockedState::BlockedOnInput(pin.clone()),
            // Arithmetic instructions
            Instruction::Add(value) => {
                let integer_value = self.read_register_integer(value);
                self.acc = self.acc.add(integer_value);
                BlockedState::NotBlocked
            },
            Instruction::Sub(value) => {
                let integer_value = self.read_register_integer(value);
                self.acc = self.acc.subtract(integer_value);
                BlockedState::NotBlocked
            },
            Instruction::Mul(value) => {
                let integer_value = self.read_register_integer(value);
                self.acc = self.acc.multiply(integer_value);
                BlockedState::NotBlocked
            },
            Instruction::Not => {
                self.acc = if self.acc.value() == 0 {
                    Integer::new(100)
                } else {
                    Integer::new(0)
                };
                BlockedState::NotBlocked
            },
            Instruction::Dgt(value) => {
                let integer_value = self.read_register_integer(value);
                self.acc = self.acc.dgt(integer_value);
                BlockedState::NotBlocked
            },
            Instruction::Dst(digit_index, value) => {
                let digit_index_integer = self.read_register_integer(digit_index);
                let value_integer = self.read_register_integer(value);
                self.acc = self.acc.dst(digit_index_integer, value_integer);
                BlockedState::NotBlocked
            },
            // Test instructions
            Instruction::Teq(a, b) => {
                let a_val = self.read_register_integer(a);
                let b_val = self.read_register_integer(b);
                self.plus_operations_allowed = a_val.value() == b_val.value();
                self.minus_operations_allowed = a_val.value() != b_val.value();
                BlockedState::NotBlocked
            },
            Instruction::Tgt(a, b) => {
                let a_val = self.read_register_integer(a);
                let b_val = self.read_register_integer(b);
                self.plus_operations_allowed = a_val.value() > b_val.value();
                self.minus_operations_allowed = a_val.value() <= b_val.value();
                BlockedState::NotBlocked
            },
            Instruction::Tlt(a, b) => {
                let a_val = self.read_register_integer(a);
                let b_val = self.read_register_integer(b);
                self.plus_operations_allowed = a_val.value() < b_val.value();
                self.minus_operations_allowed = a_val.value() >= b_val.value();
                BlockedState::NotBlocked
            },
            Instruction::Tcp(a, b) => {
                let a_val = self.read_register_integer(a);
                let b_val = self.read_register_integer(b);
                self.plus_operations_allowed = a_val.value() > b_val.value();
                self.minus_operations_allowed = b_val.value() > a_val.value();
                BlockedState::NotBlocked
            },
        }
    }
}

} // verus!
