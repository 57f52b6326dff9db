use micronode::micro::{
    BlockedState, Conditional, CoreRegister, Instruction, InstructionWithContext, Integer, Label,
    PinRegister, Processor, Register, RegisterInteger,
};

fn literal(value: i16) -> RegisterInteger {
    RegisterInteger::Integer(Integer::new(value))
}

fn plain(instruction: Instruction<'static>) -> InstructionWithContext<'static, 'static> {
    InstructionWithContext { label: "", conditional: Conditional::Regular, instruction }
}

#[test]
fn new_keeps_in_range_values() {
    assert_eq!(Integer::new(0).value(), 0);
    assert_eq!(Integer::new(42).value(), 42);
    assert_eq!(Integer::new(-42).value(), -42);
    assert_eq!(Integer::new(999).value(), 999);
    assert_eq!(Integer::new(-999).value(), -999);
}

#[test]
fn new_saturates_out_of_range_values() {
    assert_eq!(Integer::new(1000).value(), 999);
    assert_eq!(Integer::new(1234).value(), 999);
    assert_eq!(Integer::new(i16::MAX).value(), 999);
    assert_eq!(Integer::new(-1000).value(), -999);
    assert_eq!(Integer::new(-5000).value(), -999);
    assert_eq!(Integer::new(i16::MIN).value(), -999);
}

#[test]
fn add_is_clamped() {
    assert_eq!(Integer::new(900).add(Integer::new(900)), Integer::new(999));
    assert_eq!(Integer::new(10).add(Integer::new(20)).value(), 30);
    assert_eq!(Integer::new(-900).add(Integer::new(-900)).value(), -999);
}

#[test]
fn subtract_is_clamped() {
    assert_eq!(Integer::new(-900).subtract(Integer::new(900)), Integer::new(-999));
    assert_eq!(Integer::new(30).subtract(Integer::new(50)).value(), -20);
}

#[test]
fn multiply_is_clamped() {
    assert_eq!(Integer::new(30).multiply(Integer::new(30)).value(), 900);
    assert_eq!(Integer::new(100).multiply(Integer::new(100)).value(), 999);
    assert_eq!(Integer::new(-100).multiply(Integer::new(100)).value(), -999);
    assert_eq!(Integer::new(-999).multiply(Integer::new(-999)).value(), 999);
}

#[test]
fn dgt_reads_decimal_digits() {
    assert_eq!(Integer::new(234).dgt(Integer::new(0)).value(), 4);
    assert_eq!(Integer::new(234).dgt(Integer::new(1)).value(), 3);
    assert_eq!(Integer::new(234).dgt(Integer::new(2)).value(), 2);
}

#[test]
fn dgt_drops_the_sign() {
    assert_eq!(Integer::new(-57).dgt(Integer::new(1)).value(), 5);
    assert_eq!(Integer::new(-57).dgt(Integer::new(0)).value(), 7);
}

#[test]
fn dgt_out_of_range_index() {
    // A negative index reads the ones place; an index past the most
    // significant digit reads 0.
    assert_eq!(Integer::new(234).dgt(Integer::new(-3)).value(), 4);
    assert_eq!(Integer::new(234).dgt(Integer::new(3)).value(), 0);
    assert_eq!(Integer::new(234).dgt(Integer::new(999)).value(), 0);
}

#[test]
fn dst_replaces_a_digit() {
    assert_eq!(Integer::new(456).dst(Integer::new(1), Integer::new(7)).value(), 476);
    assert_eq!(Integer::new(456).dst(Integer::new(0), Integer::new(0)).value(), 450);
    assert_eq!(Integer::new(7).dst(Integer::new(2), Integer::new(9)).value(), 907);
}

#[test]
fn dst_preserves_the_sign() {
    assert_eq!(Integer::new(-456).dst(Integer::new(2), Integer::new(9)).value(), -956);
    assert_eq!(Integer::new(-5).dst(Integer::new(0), Integer::new(1)).value(), -1);
}

#[test]
fn dst_clamps_replacement_digit_and_result() {
    // A replacement digit outside [0, 9] is clamped into that range.
    assert_eq!(Integer::new(450).dst(Integer::new(0), Integer::new(15)).value(), 459);
    assert_eq!(Integer::new(450).dst(Integer::new(0), Integer::new(-2)).value(), 450);
    // Injecting a digit past the top of the range saturates.
    assert_eq!(Integer::new(450).dst(Integer::new(3), Integer::new(1)).value(), 999);
    assert_eq!(Integer::new(-450).dst(Integer::new(5), Integer::new(9)).value(), -999);
    // A zero replacement far out of range changes nothing.
    assert_eq!(Integer::new(450).dst(Integer::new(7), Integer::new(0)).value(), 450);
}

#[test]
fn fresh_processor_is_reset() {
    let processor = Processor::new();
    assert_eq!(processor.counter(), 0);
    assert_eq!(processor.accumulator().value(), 0);
    assert_eq!(processor.auxiliary().value(), 0);
    assert!(processor.plus_operations_allowed());
    assert!(processor.minus_operations_allowed());
}

#[test]
fn core_register_reads_and_writes() {
    let mut processor = Processor::new();
    processor.write_core_register(&CoreRegister::Acc, Integer::new(7));
    processor.write_core_register(&CoreRegister::Dat, Integer::new(-3));
    processor.write_core_register(&CoreRegister::Null, Integer::new(55));
    assert_eq!(processor.read_core_register(&CoreRegister::Acc).value(), 7);
    assert_eq!(processor.read_core_register(&CoreRegister::Dat).value(), -3);
    // The sink discards writes and reads as zero.
    assert_eq!(processor.read_core_register(&CoreRegister::Null).value(), 0);
}

#[test]
fn pin_reads_are_zero_inside_the_core() {
    let processor = Processor::new();
    assert_eq!(processor.read_register(&Register::PinRegister(PinRegister::P0)).value(), 0);
    assert_eq!(processor.read_register(&Register::PinRegister(PinRegister::X1)).value(), 0);
}

#[test]
fn operands_resolve_to_literal_or_register() {
    let mut processor = Processor::new();
    processor.write_core_register(&CoreRegister::Acc, Integer::new(31));
    assert_eq!(processor.read_register_integer(&literal(12)).value(), 12);
    let acc = RegisterInteger::Register(Register::CoreRegister(CoreRegister::Acc));
    assert_eq!(processor.read_register_integer(&acc).value(), 31);
}

#[test]
fn not_toggles_between_the_fixed_points() {
    let mut processor = Processor::new();
    // From 0: the first application yields 100, the second 0.
    assert_eq!(processor.run_instruction(&Instruction::Not), BlockedState::NotBlocked);
    assert_eq!(processor.accumulator().value(), 100);
    processor.run_instruction(&Instruction::Not);
    assert_eq!(processor.accumulator().value(), 0);
    // From a nonzero value: the first application yields 0, the second 100.
    processor.run_instruction(&Instruction::Add(literal(5)));
    processor.run_instruction(&Instruction::Not);
    assert_eq!(processor.accumulator().value(), 0);
    processor.run_instruction(&Instruction::Not);
    assert_eq!(processor.accumulator().value(), 100);
}

#[test]
fn arithmetic_instructions_update_the_accumulator() {
    let mut processor = Processor::new();
    processor.run_instruction(&Instruction::Add(literal(900)));
    processor.run_instruction(&Instruction::Add(literal(900)));
    assert_eq!(processor.accumulator().value(), 999);
    processor.run_instruction(&Instruction::Sub(literal(999)));
    assert_eq!(processor.accumulator().value(), 0);
    processor.run_instruction(&Instruction::Add(literal(-30)));
    processor.run_instruction(&Instruction::Mul(literal(3)));
    assert_eq!(processor.accumulator().value(), -90);
}

#[test]
fn digit_instructions_update_the_accumulator() {
    let mut processor = Processor::new();
    processor.run_instruction(&Instruction::Add(literal(234)));
    processor.run_instruction(&Instruction::Dgt(literal(1)));
    assert_eq!(processor.accumulator().value(), 3);
    let mut other = Processor::new();
    other.run_instruction(&Instruction::Add(literal(456)));
    other.run_instruction(&Instruction::Dst(literal(1), literal(7)));
    assert_eq!(other.accumulator().value(), 476);
}

#[test]
fn test_instructions_set_the_flags() {
    let mut processor = Processor::new();
    processor.run_instruction(&Instruction::Tgt(literal(5), literal(3)));
    assert!(processor.plus_operations_allowed());
    assert!(!processor.minus_operations_allowed());
    processor.run_instruction(&Instruction::Teq(literal(4), literal(4)));
    assert!(processor.plus_operations_allowed());
    assert!(!processor.minus_operations_allowed());
    processor.run_instruction(&Instruction::Tlt(literal(5), literal(3)));
    assert!(!processor.plus_operations_allowed());
    assert!(processor.minus_operations_allowed());
    // Tcp with equal operands allows neither side.
    processor.run_instruction(&Instruction::Tcp(literal(2), literal(2)));
    assert!(!processor.plus_operations_allowed());
    assert!(!processor.minus_operations_allowed());
}

#[test]
fn slp_blocks_on_time_and_slx_on_input() {
    let mut processor = Processor::new();
    assert_eq!(
        processor.run_instruction(&Instruction::Slp(literal(5))),
        BlockedState::BlockedOnTime(Integer::new(5))
    );
    assert_eq!(
        processor.run_instruction(&Instruction::Slx(PinRegister::X0)),
        BlockedState::BlockedOnInput(PinRegister::X0)
    );
}

#[test]
fn jmp_without_a_resolver_changes_nothing() {
    let mut processor = Processor::new();
    let state = processor.run_instruction(&Instruction::Jmp(Label::new("start")));
    assert_eq!(state, BlockedState::NotBlocked);
    assert_eq!(processor.counter(), 0);
    assert_eq!(processor.accumulator().value(), 0);
}

#[test]
fn conditional_gating_skips_disallowed_instructions() {
    let mut processor = Processor::new();
    let program = vec![
        plain(Instruction::Tgt(literal(5), literal(3))),
        InstructionWithContext {
            label: "",
            conditional: Conditional::Minus,
            instruction: Instruction::Add(literal(1)),
        },
        InstructionWithContext {
            label: "",
            conditional: Conditional::Plus,
            instruction: Instruction::Add(literal(2)),
        },
        plain(Instruction::Slp(literal(0))),
    ];
    let state = processor.run_until_blocked(&program);
    assert_eq!(state, BlockedState::BlockedOnTime(Integer::new(0)));
    // The Minus-tagged addition was skipped, the Plus-tagged one ran.
    assert_eq!(processor.accumulator().value(), 2);
}

#[test]
fn counter_wraps_past_the_last_instruction() {
    let mut processor = Processor::new();
    let program = vec![
        plain(Instruction::Nop),
        plain(Instruction::Nop),
        plain(Instruction::Slp(literal(1))),
    ];
    let state = processor.run_until_blocked(&program);
    assert_eq!(state, BlockedState::BlockedOnTime(Integer::new(1)));
    // The blocking instruction sat at the last index, so the counter
    // wrapped to 0 for the next fetch.
    assert_eq!(processor.counter(), 0);
}

#[test]
fn run_until_blocked_stops_at_the_first_sleep() {
    let mut processor = Processor::new();
    let program = vec![plain(Instruction::Slp(literal(5))), plain(Instruction::Nop)];
    let state = processor.run_until_blocked(&program);
    assert_eq!(state, BlockedState::BlockedOnTime(Integer::new(5)));
    // The counter is left at the instruction after the sleep.
    assert_eq!(processor.counter(), 1);
}

#[test]
fn run_until_blocked_reports_an_input_wait() {
    let mut processor = Processor::new();
    let program = vec![plain(Instruction::Nop), plain(Instruction::Slx(PinRegister::X1))];
    let state = processor.run_until_blocked(&program);
    assert_eq!(state, BlockedState::BlockedOnInput(PinRegister::X1));
    assert_eq!(processor.counter(), 0);
}

#[test]
fn end_to_end_add_then_mov() {
    let mut processor = Processor::new();
    processor.run_instruction(&Instruction::Add(literal(10)));
    processor.run_instruction(&Instruction::Mov(
        literal(100),
        Register::CoreRegister(CoreRegister::Dat),
    ));
    assert_eq!(processor.accumulator().value(), 10);
    assert_eq!(processor.auxiliary().value(), 100);
    assert_eq!(processor.read_core_register(&CoreRegister::Null).value(), 0);
}

#[test]
fn mov_between_registers() {
    let mut processor = Processor::new();
    processor.run_instruction(&Instruction::Add(literal(37)));
    let acc = RegisterInteger::Register(Register::CoreRegister(CoreRegister::Acc));
    processor.run_instruction(&Instruction::Mov(
        acc,
        Register::CoreRegister(CoreRegister::Dat),
    ));
    assert_eq!(processor.auxiliary().value(), 37);
    // A move into the sink is discarded; a move to a pin is delegated
    // outside this core and changes no processor state.
    processor.run_instruction(&Instruction::Mov(
        literal(5),
        Register::CoreRegister(CoreRegister::Null),
    ));
    processor.run_instruction(&Instruction::Mov(
        literal(5),
        Register::PinRegister(PinRegister::P1),
    ));
    assert_eq!(processor.accumulator().value(), 37);
    assert_eq!(processor.auxiliary().value(), 37);
}
