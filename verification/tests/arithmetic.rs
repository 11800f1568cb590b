use chip8::Chip8;

#[test]
fn add_reg_reg_carry() {
    let mut vm = Chip8::new();
    vm.ld_vx_value(2, 250);
    vm.ld_vx_value(3, 10);
    vm.add_vx_vy(2, 3);
    assert_eq!(vm.register(2), 4);
    assert_eq!(vm.register(0xF), 1);
}

#[test]
fn add_reg_reg_no_carry() {
    let mut vm = Chip8::new();
    vm.ld_vx_value(2, 1);
    vm.ld_vx_value(3, 1);
    vm.add_vx_vy(2, 3);
    assert_eq!(vm.register(2), 2);
    assert_eq!(vm.register(0xF), 0);
}

#[test]
fn sub_reg_reg_borrow() {
    let mut vm = Chip8::new();
    vm.ld_vx_value(4, 5);
    vm.ld_vx_value(5, 10);
    vm.sub_vx_vy(4, 5);
    assert_eq!(vm.register(4), 251);
    assert_eq!(vm.register(0xF), 0);
}

#[test]
fn sub_reg_reg_no_borrow() {
    let mut vm = Chip8::new();
    vm.ld_vx_value(4, 10);
    vm.ld_vx_value(5, 5);
    vm.sub_vx_vy(4, 5);
    assert_eq!(vm.register(4), 5);
    assert_eq!(vm.register(0xF), 1);
}

#[test]
fn subn_reg_reg_both_directions() {
    let mut vm = Chip8::new();
    vm.ld_vx_value(4, 5);
    vm.ld_vx_value(5, 10);
    vm.subn_vx_vy(4, 5);
    assert_eq!(vm.register(4), 5);
    assert_eq!(vm.register(0xF), 1);

    vm.ld_vx_value(4, 10);
    vm.ld_vx_value(5, 5);
    vm.subn_vx_vy(4, 5);
    assert_eq!(vm.register(4), 251);
    assert_eq!(vm.register(0xF), 0);
}

#[test]
fn add_immediate_wraps_without_flag() {
    let mut vm = Chip8::new();
    vm.ld_vx_value(0xF, 7);
    vm.ld_vx_value(1, 250);
    vm.add_vx_byte(1, 10);
    assert_eq!(vm.register(1), 4);
    // The immediate add never touches the flag register.
    assert_eq!(vm.register(0xF), 7);
}

#[test]
fn bitwise_ops() {
    let mut vm = Chip8::new();
    vm.ld_vx_value(0, 0b1100_1010);
    vm.ld_vx_value(1, 0b1010_0110);
    vm.or_vx_vy(0, 1);
    assert_eq!(vm.register(0), 0b1110_1110);

    vm.ld_vx_value(0, 0b1100_1010);
    vm.and_vx_vy(0, 1);
    assert_eq!(vm.register(0), 0b1000_0010);

    vm.ld_vx_value(0, 0b1100_1010);
    vm.xor_vx_vy(0, 1);
    assert_eq!(vm.register(0), 0b0110_1100);
}

#[test]
fn shift_right_flag_is_low_bit() {
    let mut vm = Chip8::new();
    vm.ld_vx_value(6, 0b0000_0101);
    vm.shr_vx(6);
    assert_eq!(vm.register(6), 0b0000_0010);
    assert_eq!(vm.register(0xF), 1);
    vm.shr_vx(6);
    assert_eq!(vm.register(6), 0b0000_0001);
    assert_eq!(vm.register(0xF), 0);
}

#[test]
fn shift_left_flag_is_high_bit() {
    let mut vm = Chip8::new();
    vm.ld_vx_value(6, 0b1100_0000);
    vm.shl_vx(6);
    assert_eq!(vm.register(6), 0b1000_0000);
    assert_eq!(vm.register(0xF), 1);
    vm.ld_vx_value(6, 0b0100_0000);
    vm.shl_vx(6);
    assert_eq!(vm.register(6), 0b1000_0000);
    assert_eq!(vm.register(0xF), 0);
}

#[test]
fn bcd_round_trip_all_bytes() {
    for value in 0..=255u8 {
        let mut vm = Chip8::new();
        vm.ld_vx_value(0, value);
        vm.ld_i_addr(0x300);
        vm.ld_b_vx(0).unwrap();
        let hundreds = vm.read_memory(0x300) as u16;
        let tens = vm.read_memory(0x301) as u16;
        let units = vm.read_memory(0x302) as u16;
        assert!(hundreds <= 9 && tens <= 9 && units <= 9);
        assert_eq!(100 * hundreds + 10 * tens + units, value as u16);
    }
}

#[test]
fn add_to_index_wraps_16_bit() {
    let mut vm = Chip8::new();
    vm.ld_i_addr(0x300);
    vm.ld_vx_value(0, 5);
    vm.add_i_vx(0);
    assert_eq!(vm.index_register(), 0x305);

    // Push the index register past 0xFFFF; it wraps with no flag.
    vm.ld_vx_value(0xF, 3);
    vm.ld_i_addr(0xFFF);
    vm.ld_vx_value(0, 255);
    for _ in 0..253 {
        vm.add_i_vx(0);
    }
    assert_eq!(vm.index_register(), ((0xFFFu32 + 253 * 255) % 0x10000) as u16);
    assert_eq!(vm.register(0xF), 3);
}

#[test]
fn font_addresses_and_glyphs() {
    let glyphs: [u8; 80] = [
        0xF0, 0x90, 0x90, 0x90, 0xF0, 0x20, 0x60, 0x20, 0x20, 0x70, 0xF0, 0x10, 0xF0, 0x80, 0xF0,
        0xF0, 0x10, 0xF0, 0x10, 0xF0, 0x90, 0x90, 0xF0, 0x10, 0x10, 0xF0, 0x80, 0xF0, 0x10, 0xF0,
        0xF0, 0x80, 0xF0, 0x90, 0xF0, 0xF0, 0x10, 0x20, 0x40, 0x40, 0xF0, 0x90, 0xF0, 0x90, 0xF0,
        0xF0, 0x90, 0xF0, 0x10, 0xF0, 0xF0, 0x90, 0xF0, 0x90, 0x90, 0xE0, 0x90, 0xE0, 0x90, 0xE0,
        0xF0, 0x80, 0x80, 0x80, 0xF0, 0xE0, 0x90, 0x90, 0x90, 0xE0, 0xF0, 0x80, 0xF0, 0x80, 0xF0,
        0xF0, 0x80, 0xF0, 0x80, 0x80,
    ];
    let mut vm = Chip8::new();
    for digit in 0..16u8 {
        vm.ld_vx_value(7, digit);
        vm.ld_f_vx(7);
        assert_eq!(vm.index_register(), 0x50 + 5 * digit as u16);
        for k in 0..5usize {
            assert_eq!(
                vm.read_memory(vm.index_register() as usize + k),
                glyphs[5 * digit as usize + k]
            );
        }
    }
}

#[test]
fn register_dump_and_load_inclusive() {
    let mut vm = Chip8::new();
    for x in 0..4u8 {
        vm.ld_vx_value(x as usize, 10 + x);
    }
    vm.ld_vx_value(4, 99);
    vm.ld_i_addr(0x400);
    vm.ld_i_vx(3).unwrap();
    // x + 1 = 4 registers stored, the fifth memory byte untouched.
    assert_eq!(vm.read_memory(0x400), 10);
    assert_eq!(vm.read_memory(0x401), 11);
    assert_eq!(vm.read_memory(0x402), 12);
    assert_eq!(vm.read_memory(0x403), 13);
    assert_eq!(vm.read_memory(0x404), 0);

    let mut vm2 = Chip8::new();
    vm2.load_to_memory(0x400, &[10, 11, 12, 13, 77]).unwrap();
    vm2.ld_vx_value(4, 5);
    vm2.ld_i_addr(0x400);
    vm2.ld_vx_i(3).unwrap();
    // x + 1 = 4 registers loaded, the fifth register untouched.
    assert_eq!(vm2.register(0), 10);
    assert_eq!(vm2.register(1), 11);
    assert_eq!(vm2.register(2), 12);
    assert_eq!(vm2.register(3), 13);
    assert_eq!(vm2.register(4), 5);
}
