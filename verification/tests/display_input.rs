use chip8::Chip8;
use chip8::Chip8Error;

#[test]
fn draw_sets_pixels_and_collision_flag() {
    // One-row sprite 0xFF at (5, 3), drawn twice at the same spot.
    let mut vm = Chip8::new();
    vm.load_rom_content(vec![0xFF]).unwrap();
    vm.ld_i_addr(0x200);
    vm.ld_vx_value(0, 5);
    vm.ld_vx_value(1, 3);
    vm.drw_vx_vy_n(0, 1, 1).unwrap();
    assert_eq!(vm.register(0xF), 0);
    for col in 5..13 {
        assert!(vm.pixel(3, col));
    }
    assert!(!vm.pixel(3, 4));
    assert!(!vm.pixel(3, 13));

    vm.drw_vx_vy_n(0, 1, 1).unwrap();
    assert_eq!(vm.register(0xF), 1);
    // The OR-merge leaves the row on.
    for col in 5..13 {
        assert!(vm.pixel(3, col));
    }
}

#[test]
fn draw_clips_at_screen_edges() {
    let mut vm = Chip8::new();
    vm.load_rom_content(vec![0xFF, 0xFF]).unwrap();
    vm.ld_i_addr(0x200);
    vm.ld_vx_value(0, 60);
    vm.ld_vx_value(1, 31);
    vm.drw_vx_vy_n(0, 1, 2).unwrap();
    assert_eq!(vm.register(0xF), 0);
    // Columns 60..64 of row 31 are on; nothing wraps to column 0 or row 0.
    for col in 60..64 {
        assert!(vm.pixel(31, col));
    }
    for col in 0..4 {
        assert!(!vm.pixel(31, col));
        assert!(!vm.pixel(0, col));
    }
    for col in 60..64 {
        assert!(!vm.pixel(0, col));
    }
}

#[test]
fn draw_origin_wraps_modulo_screen_size() {
    let mut vm = Chip8::new();
    vm.load_rom_content(vec![0x80]).unwrap();
    vm.ld_i_addr(0x200);
    vm.ld_vx_value(0, 64);
    vm.ld_vx_value(1, 32);
    vm.drw_vx_vy_n(0, 1, 1).unwrap();
    assert!(vm.pixel(0, 0));
}

#[test]
fn draw_past_end_of_memory_is_fatal() {
    let mut vm = Chip8::new();
    vm.ld_i_addr(0xFFF);
    assert_eq!(vm.drw_vx_vy_n(0, 1, 2), Err(Chip8Error::AddressOutOfRange));
    assert_eq!(vm.register(0xF), 0);
}

#[test]
fn clear_screen_turns_every_pixel_off() {
    let mut vm = Chip8::new();
    vm.load_rom_content(vec![0xFF]).unwrap();
    vm.ld_i_addr(0x200);
    vm.drw_vx_vy_n(0, 1, 1).unwrap();
    assert!(vm.pixel(0, 0));
    vm.cls();
    for row in 0..32 {
        for col in 0..64 {
            assert!(!vm.pixel(row, col));
        }
    }
}

#[test]
fn skip_if_key_pressed() {
    let mut vm = Chip8::new();
    vm.ld_vx_value(0, 4);
    vm.jp(0x200);
    vm.skip_vx(0).unwrap();
    assert_eq!(vm.program_counter(), 0x200);
    vm.set_key(4, true);
    vm.skip_vx(0).unwrap();
    assert_eq!(vm.program_counter(), 0x202);
}

#[test]
fn skip_if_key_not_pressed() {
    let mut vm = Chip8::new();
    vm.ld_vx_value(0, 4);
    vm.jp(0x200);
    vm.skip_n_vx(0).unwrap();
    assert_eq!(vm.program_counter(), 0x202);
    vm.set_key(4, true);
    vm.skip_n_vx(0).unwrap();
    assert_eq!(vm.program_counter(), 0x202);
}

#[test]
fn key_skip_with_register_out_of_key_range_is_fatal() {
    let mut vm = Chip8::new();
    vm.ld_vx_value(0, 200);
    assert_eq!(vm.skip_vx(0), Err(Chip8Error::AddressOutOfRange));
    assert_eq!(vm.skip_n_vx(0), Err(Chip8Error::AddressOutOfRange));
}

#[test]
fn key_wait_stalls_until_key_pressed() {
    // Fx0A with x = 5 at 0x200.
    let mut vm = Chip8::new();
    vm.load_rom_content(vec![0xF5, 0x0A]).unwrap();
    for _ in 0..3 {
        vm.cycle().unwrap();
        assert_eq!(vm.program_counter(), 0x200);
    }
    vm.set_key(7, true);
    vm.cycle().unwrap();
    assert_eq!(vm.program_counter(), 0x202);
    assert_eq!(vm.register(5), 7);
}

#[test]
fn key_wait_stores_lowest_pressed_index() {
    let mut vm = Chip8::new();
    vm.load_rom_content(vec![0xF5, 0x0A]).unwrap();
    vm.set_key(11, true);
    vm.set_key(3, true);
    vm.cycle().unwrap();
    assert_eq!(vm.register(5), 3);
    assert_eq!(vm.program_counter(), 0x202);
}

#[test]
fn random_byte_is_masked() {
    let mut vm = Chip8::new();
    vm.ld_vx_value(2, 77);
    vm.rnd_vx_byte(2, 0x00);
    // Any random byte masked with zero must leave zero.
    assert_eq!(vm.register(2), 0);
    vm.rnd_vx_byte(2, 0x0F);
    assert_eq!(vm.register(2) & 0xF0, 0);
}

#[test]
fn draw_through_cycles() {
    // I = 0x208; V0 = 10; V1 = 5; DRW V0, V1, 1; sprite byte 0xF0 at 0x208.
    let mut vm = Chip8::new();
    vm.load_rom_content(vec![0xA2, 0x08, 0x60, 0x0A, 0x61, 0x05, 0xD0, 0x11, 0xF0]).unwrap();
    for _ in 0..4 {
        vm.cycle().unwrap();
    }
    assert_eq!(vm.program_counter(), 0x208);
    for col in 10..14 {
        assert!(vm.pixel(5, col));
    }
    assert!(!vm.pixel(5, 9));
    assert!(!vm.pixel(5, 14));
    assert_eq!(vm.register(0xF), 0);
}

#[test]
fn random_opcode_with_injected_byte() {
    // Cxkk with the random byte supplied, so the outcome is exact.
    let mut vm = Chip8::new();
    vm.load_rom_content(vec![0xC2, 0x3C]).unwrap();
    vm.cycle_with(0xAB).unwrap();
    assert_eq!(vm.register(2), 0xAB & 0x3C);
    assert_eq!(vm.program_counter(), 0x202);
}

#[test]
fn frame_buffer_snapshot_matches_pixels() {
    let mut vm = Chip8::new();
    vm.load_rom_content(vec![0xFF]).unwrap();
    vm.ld_i_addr(0x200);
    vm.drw_vx_vy_n(0, 1, 1).unwrap();
    let fb = vm.frame_buffer().clone();
    assert_eq!(fb.len(), 64 * 32);
    for row in 0..32 {
        for col in 0..64 {
            assert_eq!(fb[row * 64 + col], vm.pixel(row, col));
        }
    }
}
