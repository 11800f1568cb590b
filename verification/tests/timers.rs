use chip8::Chip8;

#[test]
fn timers_decay_once_per_cycle() {
    // delay = 2, then three cycles of an unknown (no-op) opcode.
    let mut vm = Chip8::new();
    vm.ld_vx_value(0, 2);
    vm.ld_dt_vx(0);
    assert_eq!(vm.delay_timer(), 2);
    assert_eq!(vm.sound_timer(), 0);

    vm.cycle().unwrap();
    assert_eq!(vm.delay_timer(), 1);
    vm.cycle().unwrap();
    assert_eq!(vm.delay_timer(), 0);
    vm.cycle().unwrap();
    assert_eq!(vm.delay_timer(), 0);
    assert_eq!(vm.sound_timer(), 0);
}

#[test]
fn timers_load_and_read_back() {
    let mut vm = Chip8::new();
    vm.ld_vx_value(1, 42);
    vm.ld_dt_vx(1);
    vm.ld_vx_value(2, 9);
    vm.ld_st_vx(2);
    assert_eq!(vm.delay_timer(), 42);
    assert_eq!(vm.sound_timer(), 9);

    vm.ld_vx_dt(3);
    assert_eq!(vm.register(3), 42);
}

#[test]
fn timer_instructions_through_cycles() {
    // V0 = 3; delay = V0; V1 = delay (already decayed once by then).
    let mut vm = Chip8::new();
    vm.load_rom_content(vec![0x60, 0x03, 0xF0, 0x15, 0xF1, 0x07]).unwrap();
    vm.cycle().unwrap();
    vm.cycle().unwrap();
    assert_eq!(vm.delay_timer(), 2);
    vm.cycle().unwrap();
    assert_eq!(vm.register(1), 2);
    assert_eq!(vm.delay_timer(), 1);
}
