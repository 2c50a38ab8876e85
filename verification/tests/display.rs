use chip8::{Chip8, Fault, OpCode, SCREEN_HEIGHT, SCREEN_WIDTH};

fn booted(program: &[u8]) -> Chip8 {
    let mut vm = Chip8::new();
    assert_eq!(vm.load(program), Ok(()));
    vm
}

fn advance(vm: &mut Chip8, count: usize) {
    for _ in 0..count {
        assert!(vm.cycle().is_ok());
    }
}

fn lit(vm: &Chip8, row: usize, column: usize) -> bool {
    vm.screen()[row * SCREEN_WIDTH + column]
}

#[test]
fn screen_is_sixty_four_by_thirty_two() {
    assert_eq!(SCREEN_WIDTH, 64);
    assert_eq!(SCREEN_HEIGHT, 32);
    assert_eq!(Chip8::new().screen().len(), 64 * 32);
}

#[test]
fn draw_wraps_around_the_right_edge() {
    // V0 = 63; V1 = 0; I = 0x208; draw one row at (V0, V1); data: 0xFF
    let mut vm = booted(&[0x60, 63, 0x61, 0, 0xA2, 0x08, 0xD0, 0x11, 0xFF]);
    advance(&mut vm, 4);
    assert_eq!(
        vm.pixel_cooridinates(),
        vec![(0, 0), (0, 1), (0, 2), (0, 3), (0, 4), (0, 5), (0, 6), (0, 63)]
    );
    assert!(!lit(&vm, 0, 7));
    assert!(!lit(&vm, 0, 62));
    assert!(!lit(&vm, 1, 0));
    assert_eq!(vm.registers()[0xF], 0);
}

#[test]
fn drawing_twice_clears_the_sprite_and_collides() {
    // V0 = 63; V1 = 0; I = 0x20A; draw; draw; data: 0xFF
    let mut vm = booted(&[0x60, 63, 0x61, 0, 0xA2, 0x0A, 0xD0, 0x11, 0xD0, 0x11, 0xFF]);
    advance(&mut vm, 4);
    assert_eq!(vm.pixel_cooridinates().len(), 8);
    assert_eq!(vm.registers()[0xF], 0);
    advance(&mut vm, 1);
    assert_eq!(vm.pixel_cooridinates(), vec![]);
    assert!(vm.screen().iter().all(|cell| !*cell));
    assert_eq!(vm.registers()[0xF], 1);
}

#[test]
fn draw_wraps_around_the_bottom_edge() {
    // V0 = 2; V1 = 31; I = 0x208; draw two rows; data: 0x80, 0x40
    let mut vm = booted(&[0x60, 2, 0x61, 31, 0xA2, 0x08, 0xD0, 0x12, 0x80, 0x40]);
    advance(&mut vm, 4);
    assert_eq!(vm.pixel_cooridinates(), vec![(0, 3), (31, 2)]);
}

#[test]
fn draw_takes_coordinates_modulo_the_screen() {
    // V0 = 67; V1 = 33; I = 0x208; draw one row; data: 0xC0
    let mut vm = booted(&[0x60, 67, 0x61, 33, 0xA2, 0x08, 0xD0, 0x11, 0xC0]);
    advance(&mut vm, 4);
    assert_eq!(vm.pixel_cooridinates(), vec![(1, 3), (1, 4)]);
    // V0 = 255; V1 = 255: column 63 and row 31, wrapping to column 0
    let mut vm = booted(&[0x60, 255, 0x61, 255, 0xA2, 0x08, 0xD0, 0x11, 0xC0]);
    advance(&mut vm, 4);
    assert_eq!(vm.pixel_cooridinates(), vec![(31, 0), (31, 63)]);
}

#[test]
fn draw_reads_the_most_significant_bit_first() {
    // V0 = 0; I = 0x206; draw one row at (0, 0); data: 0b1010_0001
    let mut vm = booted(&[0x60, 0, 0xA2, 0x06, 0xD0, 0x01, 0xA1]);
    advance(&mut vm, 3);
    assert_eq!(vm.pixel_cooridinates(), vec![(0, 0), (0, 2), (0, 7)]);
}

#[test]
fn draw_shows_a_glyph_of_the_font() {
    // V0 = 4; V1 = 10; V2 = 1; I = glyph of V2; draw five rows at (V0, V1)
    let mut vm = booted(&[0x60, 4, 0x61, 10, 0x62, 1, 0xF2, 0x29, 0xD0, 0x15]);
    advance(&mut vm, 5);
    // the glyph of 1 is 0x20, 0x60, 0x20, 0x20, 0x70
    assert_eq!(
        vm.pixel_cooridinates(),
        vec![(10, 6), (11, 5), (11, 6), (12, 6), (13, 6), (14, 5), (14, 6), (14, 7)]
    );
    assert_eq!(vm.registers()[0xF], 0);
}

#[test]
fn overlapping_draw_flips_cells_and_reports_the_collision() {
    // V0 = 0; I = 0x20A; draw 0xF0 at (0, 0); I = 0x20B; draw 0x3C at (0, 0)
    let mut vm = booted(&[0x60, 0, 0xA2, 0x0A, 0xD0, 0x01, 0xA2, 0x0B, 0xD0, 0x01, 0xF0, 0x3C]);
    advance(&mut vm, 3);
    assert_eq!(vm.pixel_cooridinates(), vec![(0, 0), (0, 1), (0, 2), (0, 3)]);
    advance(&mut vm, 2);
    assert_eq!(vm.pixel_cooridinates(), vec![(0, 0), (0, 1), (0, 4), (0, 5)]);
    assert_eq!(vm.registers()[0xF], 1);
}

#[test]
fn draw_next_to_lit_cells_does_not_collide() {
    // VF = 1; V0 = 0; I = 0x20E; draw 0xF0 at (0, 0); V1 = 4; draw 0xF0 at (4, 0)
    let mut vm = booted(&[
        0x6F, 1, 0x60, 0, 0xA2, 0x0E, 0xD0, 0x01, 0x61, 4, 0xD1, 0x01, 0x00, 0x00, 0xF0,
    ]);
    advance(&mut vm, 6);
    assert_eq!(vm.pixel_cooridinates().len(), 8);
    assert_eq!(vm.registers()[0xF], 0);
}

#[test]
fn draw_of_no_rows_changes_only_the_flag() {
    // VF = 1; I = 0x206; draw zero rows
    let mut vm = booted(&[0x6F, 1, 0xA2, 0x06, 0xD0, 0x00, 0xFF]);
    advance(&mut vm, 3);
    assert_eq!(vm.pixel_cooridinates(), vec![]);
    assert_eq!(vm.registers()[0xF], 0);
}

#[test]
fn draw_of_fifteen_rows_fills_a_column() {
    // I = 0x204; draw fifteen rows at (0, 0); data: fifteen times 0x80
    let mut program = vec![0xA2, 0x04, 0xD0, 0x0F];
    program.extend_from_slice(&[0x80; 15]);
    let mut vm = booted(&program);
    advance(&mut vm, 2);
    let expected: Vec<(usize, usize)> = (0..15).map(|row| (row, 0)).collect();
    assert_eq!(vm.pixel_cooridinates(), expected);
}

#[test]
fn draw_beyond_memory_is_a_fault_and_draws_nothing() {
    // I = 0xFFF; draw two rows
    let mut vm = booted(&[0x6F, 7, 0xAF, 0xFF, 0xD0, 0x02]);
    advance(&mut vm, 2);
    assert_eq!(vm.cycle(), Err(Fault::MemoryOverrun));
    assert_eq!(vm.pixel_cooridinates(), vec![]);
    assert_eq!(vm.registers()[0xF], 7);
    assert_eq!(vm.program_counter(), 0x206);
    // one row from the last byte is fine
    let mut vm = booted(&[0x6F, 7, 0xAF, 0xFF, 0xD0, 0x01]);
    advance(&mut vm, 3);
    assert_eq!(vm.registers()[0xF], 0);
}

#[test]
fn draw_uses_the_flag_register_as_a_coordinate_before_it_sets_it() {
    // VF = 5; V0 = 0; I = 0x208; draw one row at (VF, V0); data: 0x80
    let mut vm = booted(&[0x6F, 5, 0x60, 0, 0xA2, 0x08, 0xDF, 0x01, 0x80]);
    advance(&mut vm, 4);
    assert_eq!(vm.pixel_cooridinates(), vec![(0, 5)]);
    assert_eq!(vm.registers()[0xF], 0);
}

#[test]
fn clear_screen_turns_every_cell_dark() {
    // I = 0x206; draw; clear; data behind
    let mut vm = booted(&[0xA2, 0x06, 0xD0, 0x01, 0x00, 0xE0, 0xFF]);
    advance(&mut vm, 2);
    assert_eq!(vm.pixel_cooridinates().len(), 8);
    advance(&mut vm, 1);
    assert!(vm.screen().iter().all(|cell| !*cell));
    assert_eq!(vm.last_executed_instruction(), OpCode::Cls);
    assert_eq!(vm.index(), 0x206);
}

#[test]
fn clear_screen_can_be_called_by_the_host() {
    let mut vm = booted(&[0xA2, 0x04, 0xD0, 0x01, 0xFF]);
    advance(&mut vm, 2);
    vm.clear_screen();
    assert_eq!(vm.pixel_cooridinates(), vec![]);
    assert_eq!(vm.program_counter(), 0x204);
}

#[test]
fn pixel_coordinates_are_rows_then_columns_in_reading_order() {
    // V0 = 10; V1 = 3; I = 0x208; draw two rows at (10, 3); data: 0x81, 0x18
    let mut vm = booted(&[0x60, 10, 0x61, 3, 0xA2, 0x08, 0xD0, 0x12, 0x81, 0x18]);
    advance(&mut vm, 4);
    assert_eq!(vm.pixel_cooridinates(), vec![(3, 10), (3, 17), (4, 13), (4, 14)]);
}

#[test]
fn screen_text_has_a_line_for_each_row() {
    // V0 = 62; V1 = 1; I = 0x208; draw one row at (62, 1); data: 0xC0
    let mut vm = booted(&[0x60, 62, 0x61, 1, 0xA2, 0x08, 0xD0, 0x11, 0xC0]);
    assert_eq!(vm.screen_text(), format!("{}\n", " ".repeat(64)).repeat(32));
    advance(&mut vm, 4);
    let text = vm.screen_text();
    let lines: Vec<&str> = text.split('\n').collect();
    assert_eq!(lines.len(), 33);
    assert_eq!(lines[32], "");
    assert_eq!(lines[0], " ".repeat(64));
    assert_eq!(lines[1], format!("{}00", " ".repeat(62)));
    assert_eq!(lines[2], " ".repeat(64));
    assert_eq!(text.len(), 65 * 32);
}
