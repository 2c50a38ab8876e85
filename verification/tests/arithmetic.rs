use chip8::{Chip8, Fault, OpCode};

fn run_program(program: &[u8], cycles: usize) -> Chip8 {
    let mut vm = Chip8::new();
    assert_eq!(vm.load(program), Ok(()));
    for _ in 0..cycles {
        assert!(vm.cycle().is_ok());
    }
    vm
}

#[test]
fn add_with_overflow_wraps_and_sets_the_flag() {
    // V0 = 0xFF; V1 = 0x01; V0 += V1
    let vm = run_program(&[0x60, 0xFF, 0x61, 0x01, 0x80, 0x14], 3);
    assert_eq!(vm.registers()[0x0], 0x00);
    assert_eq!(vm.registers()[0xF], 1);
}

#[test]
fn add_without_overflow_clears_the_flag() {
    // VF = 7; V0 = 0x01; V1 = 0x01; V0 += V1
    let vm = run_program(&[0x6F, 0x07, 0x60, 0x01, 0x61, 0x01, 0x80, 0x14], 4);
    assert_eq!(vm.registers()[0x0], 0x02);
    assert_eq!(vm.registers()[0xF], 0);
}

#[test]
fn add_at_the_edge_of_overflow() {
    let vm = run_program(&[0x60, 0xFE, 0x61, 0x01, 0x80, 0x14], 3);
    assert_eq!(vm.registers()[0x0], 0xFF);
    assert_eq!(vm.registers()[0xF], 0);
    let vm = run_program(&[0x60, 0xFF, 0x61, 0xFF, 0x80, 0x14], 3);
    assert_eq!(vm.registers()[0x0], 0xFE);
    assert_eq!(vm.registers()[0xF], 1);
}

#[test]
fn subtract_with_borrow_wraps_and_sets_the_flag() {
    // V0 = 0x01; V1 = 0x02; V0 -= V1
    let vm = run_program(&[0x60, 0x01, 0x61, 0x02, 0x80, 0x15], 3);
    assert_eq!(vm.registers()[0x0], 0xFF);
    assert_eq!(vm.registers()[0xF], 1);
}

#[test]
fn subtract_without_borrow_clears_the_flag() {
    // VF = 7; V0 = 0x02; V1 = 0x01; V0 -= V1
    let vm = run_program(&[0x6F, 0x07, 0x60, 0x02, 0x61, 0x01, 0x80, 0x15], 4);
    assert_eq!(vm.registers()[0x0], 0x01);
    assert_eq!(vm.registers()[0xF], 0);
}

#[test]
fn subtract_equal_values_does_not_borrow() {
    let vm = run_program(&[0x60, 0x42, 0x61, 0x42, 0x80, 0x15], 3);
    assert_eq!(vm.registers()[0x0], 0x00);
    assert_eq!(vm.registers()[0xF], 0);
}

#[test]
fn subtract_reversed_computes_vy_minus_vx() {
    // V0 = 0x01; V1 = 0x05; V0 = V1 - V0
    let vm = run_program(&[0x60, 0x01, 0x61, 0x05, 0x80, 0x17], 3);
    assert_eq!(vm.registers()[0x0], 0x04);
    assert_eq!(vm.registers()[0x1], 0x05);
    assert_eq!(vm.registers()[0xF], 0);
    // V0 = 0x05; V1 = 0x01; V0 = V1 - V0
    let vm = run_program(&[0x60, 0x05, 0x61, 0x01, 0x80, 0x17], 3);
    assert_eq!(vm.registers()[0x0], 0xFC);
    assert_eq!(vm.registers()[0xF], 1);
}

#[test]
fn shift_right_moves_the_low_bit_into_the_flag() {
    let vm = run_program(&[0x60, 0x03, 0x80, 0x06], 2);
    assert_eq!(vm.registers()[0x0], 0x01);
    assert_eq!(vm.registers()[0xF], 1);
    let vm = run_program(&[0x6F, 0x01, 0x60, 0x04, 0x80, 0x06], 3);
    assert_eq!(vm.registers()[0x0], 0x02);
    assert_eq!(vm.registers()[0xF], 0);
}

#[test]
fn shift_left_moves_the_high_bit_into_the_flag() {
    let vm = run_program(&[0x60, 0x80, 0x80, 0x0E], 2);
    assert_eq!(vm.registers()[0x0], 0x00);
    assert_eq!(vm.registers()[0xF], 1);
    let vm = run_program(&[0x6F, 0x01, 0x60, 0x41, 0x80, 0x0E], 3);
    assert_eq!(vm.registers()[0x0], 0x82);
    assert_eq!(vm.registers()[0xF], 0);
    let vm = run_program(&[0x60, 0xFF, 0x80, 0x0E], 2);
    assert_eq!(vm.registers()[0x0], 0xFE);
    assert_eq!(vm.registers()[0xF], 1);
}

#[test]
fn shift_ignores_the_second_register() {
    // V1 = 0xFF; V0 = 0x02; shift right with y = 1
    let vm = run_program(&[0x61, 0xFF, 0x60, 0x02, 0x80, 0x16], 3);
    assert_eq!(vm.registers()[0x0], 0x01);
    assert_eq!(vm.registers()[0x1], 0xFF);
    assert_eq!(vm.registers()[0xF], 0);
}

#[test]
fn flag_overwrites_the_result_when_the_target_is_the_flag_register() {
    // VF = 0xFF; V1 = 0x02; VF += V1: the sum 0x01 is replaced by the carry 1
    let vm = run_program(&[0x6F, 0xFF, 0x61, 0x02, 0x8F, 0x14], 3);
    assert_eq!(vm.registers()[0xF], 1);
    // VF = 0x10; V1 = 0x02; VF += V1: the sum 0x12 is replaced by the carry 0
    let vm = run_program(&[0x6F, 0x10, 0x61, 0x02, 0x8F, 0x14], 3);
    assert_eq!(vm.registers()[0xF], 0);
    // VF = 0x06; shift right: the result 0x03 is replaced by the low bit 0
    let vm = run_program(&[0x6F, 0x06, 0x8F, 0x06], 2);
    assert_eq!(vm.registers()[0xF], 0);
}

#[test]
fn add_byte_wraps_and_leaves_the_flag_alone() {
    // VF = 5; V0 = 0xFF; V0 += 0x02
    let vm = run_program(&[0x6F, 0x05, 0x60, 0xFF, 0x70, 0x02], 3);
    assert_eq!(vm.registers()[0x0], 0x01);
    assert_eq!(vm.registers()[0xF], 5);
    let vm = run_program(&[0x63, 0x10, 0x73, 0x22], 2);
    assert_eq!(vm.registers()[0x3], 0x32);
}

#[test]
fn bitwise_operations_leave_the_flag_alone() {
    // VF = 9; V0 = 0b1100; V1 = 0b1010
    let setup = [0x6F, 0x09, 0x60, 0x0C, 0x61, 0x0A];
    let mut or = setup.to_vec();
    or.extend_from_slice(&[0x80, 0x11]);
    let vm = run_program(&or, 4);
    assert_eq!(vm.registers()[0x0], 0x0E);
    assert_eq!(vm.registers()[0xF], 9);
    let mut and = setup.to_vec();
    and.extend_from_slice(&[0x80, 0x12]);
    let vm = run_program(&and, 4);
    assert_eq!(vm.registers()[0x0], 0x08);
    assert_eq!(vm.registers()[0xF], 9);
    let mut xor = setup.to_vec();
    xor.extend_from_slice(&[0x80, 0x13]);
    let vm = run_program(&xor, 4);
    assert_eq!(vm.registers()[0x0], 0x06);
    assert_eq!(vm.registers()[0xF], 9);
}

#[test]
fn load_register_copies_vy_into_vx() {
    let vm = run_program(&[0x61, 0x5A, 0x80, 0x10], 2);
    assert_eq!(vm.registers()[0x0], 0x5A);
    assert_eq!(vm.registers()[0x1], 0x5A);
}

#[test]
fn execute_runs_one_instruction_on_its_own() {
    let mut vm = Chip8::new();
    assert_eq!(vm.execute(OpCode::LdVx(0x2, 0xFF), 0), Ok(()));
    assert_eq!(vm.execute(OpCode::LdVx(0x3, 0x01), 0), Ok(()));
    assert_eq!(vm.execute(OpCode::Add(0x2, 0x3), 0), Ok(()));
    assert_eq!(vm.registers()[0x2], 0x00);
    assert_eq!(vm.registers()[0xF], 1);
    assert_eq!(vm.program_counter(), 0x200);
    assert_eq!(vm.execute(OpCode::Invalid(0xFFFF), 0), Err(Fault::InvalidOpcode(0xFFFF)));
    assert_eq!(vm.registers()[0x2], 0x00);
}

#[test]
fn add_bytes_gives_the_wrapped_sum_and_the_carry() {
    assert_eq!(chip8::arithmetic::add_bytes(0xFF, 0x01), (0x00, true));
    assert_eq!(chip8::arithmetic::add_bytes(0x01, 0x01), (0x02, false));
    assert_eq!(chip8::arithmetic::add_bytes(0x80, 0x7F), (0xFF, false));
    assert_eq!(chip8::arithmetic::add_bytes(0x80, 0x80), (0x00, true));
    assert_eq!(chip8::arithmetic::add_bytes(0x00, 0x00), (0x00, false));
}

#[test]
fn subtract_bytes_gives_the_wrapped_difference_and_the_borrow() {
    assert_eq!(chip8::arithmetic::subtract_bytes(0x01, 0x02), (0xFF, true));
    assert_eq!(chip8::arithmetic::subtract_bytes(0x02, 0x01), (0x01, false));
    assert_eq!(chip8::arithmetic::subtract_bytes(0x00, 0xFF), (0x01, true));
    assert_eq!(chip8::arithmetic::subtract_bytes(0x7A, 0x7A), (0x00, false));
}

#[test]
fn shifts_give_the_bit_that_falls_out() {
    assert_eq!(chip8::arithmetic::shift_right(0x03), (0x01, true));
    assert_eq!(chip8::arithmetic::shift_right(0xFE), (0x7F, false));
    assert_eq!(chip8::arithmetic::shift_right(0x00), (0x00, false));
    assert_eq!(chip8::arithmetic::shift_left(0x80), (0x00, true));
    assert_eq!(chip8::arithmetic::shift_left(0x7F), (0xFE, false));
    assert_eq!(chip8::arithmetic::shift_left(0xC1), (0x82, true));
}
