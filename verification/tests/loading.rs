use chip8::Chip8;
use chip8::Chip8Error;

fn memory_checksum(vm: &Chip8) -> u32 {
    let mut sum: u32 = 0;
    for addr in 0..4096 {
        sum = sum.wrapping_add(vm.read_memory(addr) as u32);
    }
    sum
}

#[test]
fn new_vm_initial_values() {
    let vm = Chip8::new();
    assert_eq!(vm.program_counter(), 0x200);
    assert_eq!(vm.index_register(), 0);
    assert_eq!(vm.stack_depth(), 0);
    assert_eq!(vm.delay_timer(), 0);
    assert_eq!(vm.sound_timer(), 0);
    for x in 0..16 {
        assert_eq!(vm.register(x), 0);
        assert!(!vm.key_pressed(x));
    }
    for row in 0..32 {
        for col in 0..64 {
            assert!(!vm.pixel(row, col));
        }
    }
    // Memory is all zero except the 80-byte font table at 0x50.
    for addr in 0..4096 {
        if addr < 0x50 || addr >= 0xA0 {
            assert_eq!(vm.read_memory(addr), 0);
        }
    }
    assert_eq!(vm.read_memory(0x50), 0xF0);
    assert_eq!(vm.read_memory(0x9F), 0x80);
}

#[test]
fn load_then_fetch() {
    let mut vm = Chip8::new();
    assert_eq!(vm.load_rom_content(vec![0xA2, 0x2A]), Ok(2));
    assert_eq!(vm.fetch(), 0xA22A);
    vm.cycle().unwrap();
    assert_eq!(vm.program_counter(), 0x202);
    assert_eq!(vm.index_register(), 0x22A);
}

#[test]
fn load_rom_exact_fit() {
    let mut vm = Chip8::new();
    let content = vec![0xAB; 4096 - 0x200];
    assert_eq!(vm.load_rom_content(content), Ok(3584));
    assert_eq!(vm.read_memory(0x200), 0xAB);
    assert_eq!(vm.read_memory(4095), 0xAB);
}

#[test]
fn load_rom_too_large_fails_and_leaves_memory_unchanged() {
    let mut vm = Chip8::new();
    let before = memory_checksum(&vm);
    let content = vec![0xCD; 4096 - 0x200 + 1];
    assert_eq!(vm.load_rom_content(content), Err(Chip8Error::CapacityExceeded));
    assert_eq!(memory_checksum(&vm), before);
    assert_eq!(vm.program_counter(), 0x200);
}

#[test]
fn load_to_memory_invalid_address() {
    let mut vm = Chip8::new();
    let content = [0x01u8, 0x02];
    assert_eq!(
        vm.load_to_memory(4097, &content),
        Err(Chip8Error::InvalidLoadAddress)
    );
}

#[test]
fn load_to_memory_at_boundary() {
    let mut vm = Chip8::new();
    let content = [0x77u8];
    assert_eq!(vm.load_to_memory(4095, &content), Ok(1));
    assert_eq!(vm.read_memory(4095), 0x77);
    assert_eq!(
        vm.load_to_memory(4095, &[0x01, 0x02]),
        Err(Chip8Error::CapacityExceeded)
    );
}
