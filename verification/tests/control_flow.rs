use chip8::Chip8;
use chip8::Chip8Error;

#[test]
fn jump_sets_pc() {
    let mut vm = Chip8::new();
    vm.load_rom_content(vec![0x13, 0x45]).unwrap();
    vm.cycle().unwrap();
    assert_eq!(vm.program_counter(), 0x345);
}

#[test]
fn jump_with_offset() {
    let mut vm = Chip8::new();
    vm.load_rom_content(vec![0x60, 0x08, 0xB3, 0x00]).unwrap();
    vm.cycle().unwrap();
    vm.cycle().unwrap();
    assert_eq!(vm.program_counter(), 0x308);
}

#[test]
fn call_then_ret_restores_pc_after_call() {
    // CALL 0x300 at 0x200; RET at 0x300.
    let mut vm = Chip8::new();
    vm.load_rom_content(vec![0x23, 0x00]).unwrap();
    vm.load_to_memory(0x300, &[0x00, 0xEE]).unwrap();
    vm.cycle().unwrap();
    assert_eq!(vm.program_counter(), 0x300);
    assert_eq!(vm.stack_depth(), 1);
    vm.cycle().unwrap();
    assert_eq!(vm.program_counter(), 0x202);
    assert_eq!(vm.stack_depth(), 0);
}

#[test]
fn call_ret_round_trip_all_depths() {
    let mut vm = Chip8::new();
    let mut return_addresses = Vec::new();
    for d in 0..16u16 {
        vm.jp(0x200 + 2 * d);
        return_addresses.push(vm.program_counter());
        vm.call(0x300 + 2 * d);
        assert_eq!(vm.program_counter(), 0x300 + 2 * d);
        assert_eq!(vm.stack_depth(), (d + 1) as usize);
    }
    for d in (0..16usize).rev() {
        vm.ret();
        assert_eq!(vm.program_counter(), return_addresses[d]);
        assert_eq!(vm.stack_depth(), d);
    }
}

#[test]
fn stack_saturates_at_sixteen_and_at_zero() {
    let mut vm = Chip8::new();
    for _ in 0..17 {
        vm.call(0x400);
    }
    // The seventeenth push is dropped.
    assert_eq!(vm.stack_depth(), 16);
    for _ in 0..16 {
        vm.ret();
    }
    assert_eq!(vm.stack_depth(), 0);
    // A pop of the empty stack leaves the machine untouched.
    vm.jp(0x456);
    vm.ret();
    assert_eq!(vm.program_counter(), 0x456);
    assert_eq!(vm.stack_depth(), 0);
}

#[test]
fn skip_if_equal_immediate() {
    let mut vm = Chip8::new();
    // V0 = 7; SE V0, 7 skips; SE V0, 8 does not.
    vm.load_rom_content(vec![0x60, 0x07, 0x30, 0x07, 0x00, 0x00, 0x30, 0x08]).unwrap();
    vm.cycle().unwrap();
    assert_eq!(vm.program_counter(), 0x202);
    vm.cycle().unwrap();
    assert_eq!(vm.program_counter(), 0x206);
    vm.cycle().unwrap();
    assert_eq!(vm.program_counter(), 0x208);
}

#[test]
fn skip_if_not_equal_immediate() {
    let mut vm = Chip8::new();
    vm.ld_vx_value(1, 9);
    vm.jp(0x200);
    vm.sne_vx_byte(1, 9);
    assert_eq!(vm.program_counter(), 0x200);
    vm.sne_vx_byte(1, 8);
    assert_eq!(vm.program_counter(), 0x202);
}

#[test]
fn skip_register_comparisons() {
    let mut vm = Chip8::new();
    vm.ld_vx_value(1, 4);
    vm.ld_vx_value(2, 4);
    vm.ld_vx_value(3, 5);
    vm.jp(0x200);
    vm.se_vx_vy(1, 2);
    assert_eq!(vm.program_counter(), 0x202);
    vm.se_vx_vy(1, 3);
    assert_eq!(vm.program_counter(), 0x202);
    vm.sne_vx_vy(1, 3);
    assert_eq!(vm.program_counter(), 0x204);
    vm.sne_vx_vy(1, 2);
    assert_eq!(vm.program_counter(), 0x204);
}

#[test]
fn register_copy() {
    let mut vm = Chip8::new();
    vm.ld_vx_value(9, 123);
    vm.ld_vx_vy(2, 9);
    assert_eq!(vm.register(2), 123);
}

#[test]
fn fetch_past_end_of_memory_is_fatal() {
    let mut vm = Chip8::new();
    vm.jp(4095);
    assert_eq!(vm.cycle(), Err(Chip8Error::AddressOutOfRange));
    // The machine is untouched by the failed cycle.
    assert_eq!(vm.program_counter(), 4095);
}

#[test]
fn bcd_past_end_of_memory_is_fatal() {
    // I = 0xFFF, then Fx33 would write bytes 0xFFF..=0x1001.
    let mut vm = Chip8::new();
    vm.load_rom_content(vec![0xAF, 0xFF, 0xF0, 0x33]).unwrap();
    vm.cycle().unwrap();
    assert_eq!(vm.cycle(), Err(Chip8Error::AddressOutOfRange));
    // PC has advanced past the faulting instruction, nothing else changed.
    assert_eq!(vm.program_counter(), 0x204);
    assert_eq!(vm.read_memory(0xFFF), 0);
}

#[test]
fn unknown_opcode_is_a_no_op() {
    let mut vm = Chip8::new();
    vm.load_rom_content(vec![0x5A, 0xB1, 0x8A, 0xB8]).unwrap();
    vm.cycle().unwrap();
    assert_eq!(vm.program_counter(), 0x202);
    vm.cycle().unwrap();
    assert_eq!(vm.program_counter(), 0x204);
    for x in 0..16 {
        assert_eq!(vm.register(x), 0);
    }
}
