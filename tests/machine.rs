use chip8_core::{Emu, EmuError, Quirks, FONT_START, SCREEN_HEIGHT, SCREEN_WIDTH};

fn loaded(rom: &[u8]) -> Emu {
    let mut emu = Emu::new();
    assert_eq!(emu.load(rom), Ok(()));
    emu
}

fn run(rom: &[u8], cycles: usize) -> Emu {
    let mut emu = loaded(rom);
    for _ in 0..cycles {
        assert_eq!(emu.cycle(), Ok(()));
    }
    emu
}

#[test]
fn fresh_machine_state() {
    let emu = Emu::new();
    assert_eq!(emu.pc(), 0x200);
    assert_eq!(emu.index(), 0);
    assert_eq!(emu.stack_depth(), 0);
    assert_eq!(emu.delay_timer(), 0);
    assert_eq!(emu.sound_timer(), 0);
    assert_eq!(emu.read_byte(0x50), Ok(0xF0));
    assert_eq!(emu.read_byte(0x9F), Ok(0x80));
    assert_eq!(emu.read_byte(0x4F), Ok(0));
    assert_eq!(emu.read_byte(0xA0), Ok(0));
    assert_eq!(emu.read_byte(0x200), Ok(0));
    assert_eq!(emu.read_byte(0x1000), Err(EmuError::OutOfBounds));
    assert!(emu.framebuffer_snapshot().iter().all(|p| !*p));
    assert_eq!(emu.framebuffer_snapshot().len(), SCREEN_WIDTH * SCREEN_HEIGHT);
    for k in 0..16 {
        assert!(!emu.is_pressed(k));
    }
    assert_eq!(emu.quirks(), Quirks::new());
}

#[test]
fn default_matches_new() {
    let emu = Emu::default();
    assert_eq!(emu.pc(), 0x200);
    assert_eq!(emu.read_byte(FONT_START as usize), Ok(0xF0));
}

#[test]
fn load_bytes_read_back() {
    let rom: Vec<u8> = (0..=255u8).collect();
    let emu = loaded(&rom);
    for (k, b) in rom.iter().enumerate() {
        assert_eq!(emu.read_byte(0x200 + k), Ok(*b));
    }
    assert_eq!(emu.read_byte(0x300), Ok(0));
}

#[test]
fn load_largest_rom() {
    let rom = vec![0xAB; 3584];
    let emu = loaded(&rom);
    assert_eq!(emu.read_byte(0xFFF), Ok(0xAB));
    assert_eq!(emu.read_byte(0x200), Ok(0xAB));
    assert_eq!(emu.read_byte(0x1FF), Ok(0));
}

#[test]
fn load_rejects_oversized_rom() {
    let mut emu = Emu::new();
    let rom = vec![0xAB; 3585];
    assert_eq!(emu.load(&rom), Err(EmuError::RomTooLarge));
    assert_eq!(emu.read_byte(0x200), Ok(0));
    assert_eq!(emu.read_byte(0xFFF), Ok(0));
}

#[test]
fn load_then_add_scenario() {
    let emu = run(&[0x60, 0x0A, 0x70, 0x05], 2);
    assert_eq!(emu.v_reg(0), 15);
    assert_eq!(emu.pc(), 0x204);
}

#[test]
fn add_byte_wraps_and_keeps_vf() {
    // VF = 7; V1 = 0xFF; V1 += 2
    let emu = run(&[0x6F, 0x07, 0x61, 0xFF, 0x71, 0x02], 3);
    assert_eq!(emu.v_reg(1), 0x01);
    assert_eq!(emu.v_reg(15), 7);
}

#[test]
fn add_registers_sets_carry() {
    let emu = run(&[0x60, 0xF0, 0x61, 0x20, 0x80, 0x14], 3);
    assert_eq!(emu.v_reg(0), 0x10);
    assert_eq!(emu.v_reg(15), 1);
    let emu = run(&[0x60, 0x7F, 0x61, 0x80, 0x80, 0x14], 3);
    assert_eq!(emu.v_reg(0), 0xFF);
    assert_eq!(emu.v_reg(15), 0);
}

#[test]
fn subtract_flags() {
    let emu = run(&[0x60, 0x05, 0x61, 0x07, 0x80, 0x15], 3);
    assert_eq!(emu.v_reg(0), 0xFE);
    assert_eq!(emu.v_reg(15), 0);
    let emu = run(&[0x60, 0x07, 0x61, 0x07, 0x80, 0x15], 3);
    assert_eq!(emu.v_reg(0), 0);
    assert_eq!(emu.v_reg(15), 1);
    let emu = run(&[0x60, 0x05, 0x61, 0x07, 0x80, 0x17], 3);
    assert_eq!(emu.v_reg(0), 2);
    assert_eq!(emu.v_reg(15), 1);
}

#[test]
fn logic_and_shifts() {
    let emu = run(&[0x60, 0xC5, 0x61, 0x0F, 0x80, 0x12], 3);
    assert_eq!(emu.v_reg(0), 0x05);
    let emu = run(&[0x60, 0xC5, 0x61, 0x0F, 0x80, 0x11], 3);
    assert_eq!(emu.v_reg(0), 0xCF);
    let emu = run(&[0x60, 0xC5, 0x61, 0x0F, 0x80, 0x13], 3);
    assert_eq!(emu.v_reg(0), 0xCA);
    let emu = run(&[0x60, 0xC5, 0x61, 0x0F, 0x80, 0x10], 3);
    assert_eq!(emu.v_reg(0), 0x0F);
    let emu = run(&[0x60, 0x05, 0x80, 0x06], 2);
    assert_eq!(emu.v_reg(0), 0x02);
    assert_eq!(emu.v_reg(15), 1);
    let emu = run(&[0x60, 0x81, 0x80, 0x0E], 2);
    assert_eq!(emu.v_reg(0), 0x02);
    assert_eq!(emu.v_reg(15), 1);
}

#[test]
fn shift_quirk_uses_vy() {
    let mut q = Quirks::new();
    q.shift_uses_vy = true;
    let mut emu = Emu::with_config(q, 1);
    assert_eq!(emu.load(&[0x60, 0x00, 0x61, 0x06, 0x80, 0x16]), Ok(()));
    for _ in 0..3 {
        assert_eq!(emu.cycle(), Ok(()));
    }
    assert_eq!(emu.v_reg(0), 3);
    assert_eq!(emu.v_reg(15), 0);
}

#[test]
fn clear_screen_after_draw() {
    // I = glyph 0; draw at (0,0); clear
    let mut emu = run(&[0xA0, 0x50, 0xD0, 0x05], 2);
    assert!(emu.pixel(0, 0));
    assert_eq!(emu.load(&[0xA0, 0x50, 0xD0, 0x05, 0x00, 0xE0]), Ok(()));
    assert_eq!(emu.cycle(), Ok(()));
    assert!(emu.framebuffer_snapshot().iter().all(|p| !*p));
}

#[test]
fn skip_instructions() {
    assert_eq!(run(&[0x60, 0x12, 0x30, 0x12], 2).pc(), 0x206);
    assert_eq!(run(&[0x60, 0x12, 0x30, 0x13], 2).pc(), 0x204);
    assert_eq!(run(&[0x60, 0x12, 0x40, 0x13], 2).pc(), 0x206);
    assert_eq!(run(&[0x60, 0x12, 0x40, 0x12], 2).pc(), 0x204);
    assert_eq!(run(&[0x60, 0x12, 0x50, 0x00], 2).pc(), 0x206);
    assert_eq!(run(&[0x60, 0x12, 0x50, 0x10], 2).pc(), 0x204);
    assert_eq!(run(&[0x60, 0x12, 0x61, 0x13, 0x50, 0x10], 3).pc(), 0x206);
    assert_eq!(run(&[0x60, 0x12, 0x61, 0x13, 0x90, 0x10], 3).pc(), 0x208);
    assert_eq!(run(&[0x60, 0x12, 0x90, 0x00], 2).pc(), 0x204);
}

#[test]
fn call_to_self_overflows() {
    let mut emu = loaded(&[0x22, 0x00]);
    for _ in 0..16 {
        assert_eq!(emu.cycle(), Ok(()));
    }
    assert_eq!(emu.stack_depth(), 16);
    assert_eq!(emu.cycle(), Err(EmuError::StackOverflow));
    assert_eq!(emu.stack_depth(), 16);
}

#[test]
fn return_with_empty_stack_underflows() {
    let mut emu = loaded(&[0x00, 0xEE]);
    assert_eq!(emu.cycle(), Err(EmuError::StackUnderflow));
    assert_eq!(emu.stack_depth(), 0);
}

#[test]
fn call_and_return() {
    // 0x200: call 0x206; 0x202: V0 = 1; 0x206: V1 = 2; ret
    let emu = run(&[0x22, 0x06, 0x60, 0x01, 0x00, 0x00, 0x61, 0x02, 0x00, 0xEE], 4);
    assert_eq!(emu.stack_depth(), 0);
    assert_eq!(emu.v_reg(1), 2);
    assert_eq!(emu.v_reg(0), 1);
    assert_eq!(emu.pc(), 0x204);
}

#[test]
fn jumps() {
    assert_eq!(run(&[0x1A, 0xBC], 1).pc(), 0xABC);
    assert_eq!(run(&[0x60, 0x04, 0xB3, 0x00], 2).pc(), 0x304);
    let mut q = Quirks::new();
    q.jump_uses_vx = true;
    let mut emu = Emu::with_config(q, 1);
    assert_eq!(emu.load(&[0x60, 0x04, 0x63, 0x10, 0xB3, 0x00]), Ok(()));
    for _ in 0..3 {
        assert_eq!(emu.cycle(), Ok(()));
    }
    assert_eq!(emu.pc(), 0x310);
}

#[test]
fn draw_sets_collision_on_overlap() {
    let mut emu = run(&[0xA0, 0x50, 0xD0, 0x05, 0xD0, 0x05, 0x12, 0x02], 2);
    assert_eq!(emu.v_reg(15), 0);
    // glyph 0 top row is 0xF0
    assert!(emu.pixel(0, 0) && emu.pixel(3, 0) && !emu.pixel(4, 0));
    assert!(emu.pixel(0, 1) && !emu.pixel(1, 1) && emu.pixel(3, 1));
    assert_eq!(emu.cycle(), Ok(()));
    assert_eq!(emu.v_reg(15), 1);
    assert!(emu.framebuffer_snapshot().iter().all(|p| !*p));
}

#[test]
fn draw_without_overlap_has_no_collision() {
    // glyph 1 at (0,0), then glyph 1 at (8,0)
    let emu = run(&[0xA0, 0x55, 0x60, 0x00, 0x61, 0x08, 0xD0, 0x05, 0xD1, 0x05], 5);
    assert_eq!(emu.v_reg(15), 0);
    assert!(emu.pixel(2, 0) && emu.pixel(10, 0));
}

#[test]
fn draw_wraps_around_edges() {
    // glyph 0 at (62, 30)
    let emu = run(&[0xA0, 0x50, 0x60, 62, 0x61, 30, 0xD0, 0x15], 4);
    assert!(emu.pixel(62, 30) && emu.pixel(63, 30) && emu.pixel(0, 30) && emu.pixel(1, 30));
    assert!(emu.pixel(62, 31));
    assert!(emu.pixel(62, 0) && emu.pixel(1, 0));
    assert!(emu.pixel(62, 2));
    assert!(!emu.pixel(2, 30));
}

#[test]
fn draw_past_memory_end_is_out_of_bounds() {
    let mut emu = loaded(&[0xAF, 0xFE, 0xD0, 0x05]);
    assert_eq!(emu.cycle(), Ok(()));
    assert_eq!(emu.cycle(), Err(EmuError::OutOfBounds));
    assert!(emu.framebuffer_snapshot().iter().all(|p| !*p));
}

#[test]
fn timers_count_down_to_zero() {
    let mut emu = run(&[0x60, 0x05, 0xF0, 0x15, 0x61, 0x02, 0xF1, 0x18], 4);
    assert_eq!(emu.delay_timer(), 5);
    assert_eq!(emu.sound_timer(), 2);
    assert!(emu.sound_active());
    for t in 1..=5u8 {
        emu.tick_timers();
        assert_eq!(emu.delay_timer(), 5 - t);
    }
    assert_eq!(emu.sound_timer(), 0);
    assert!(!emu.sound_active());
    emu.tick_timers();
    emu.tick_timers();
    assert_eq!(emu.delay_timer(), 0);
}

#[test]
fn read_delay_timer() {
    let emu = run(&[0x60, 0x09, 0xF0, 0x15, 0xF4, 0x07], 3);
    assert_eq!(emu.v_reg(4), 9);
}

#[test]
fn key_wait_suspends_until_key_down() {
    let mut emu = loaded(&[0xF3, 0x0A]);
    for _ in 0..5 {
        assert_eq!(emu.cycle(), Ok(()));
        assert_eq!(emu.pc(), 0x200);
        assert!(emu.is_waiting_for_key());
    }
    emu.set_key(0x7, true);
    assert_eq!(emu.cycle(), Ok(()));
    assert_eq!(emu.v_reg(3), 7);
    assert_eq!(emu.pc(), 0x202);
    assert!(!emu.is_waiting_for_key());
}

#[test]
fn key_skips() {
    let mut emu = loaded(&[0x60, 0x04, 0xE0, 0x9E, 0x00, 0x00, 0xE0, 0xA1]);
    emu.set_key(4, true);
    assert!(emu.is_pressed(4));
    assert_eq!(emu.cycle(), Ok(()));
    assert_eq!(emu.cycle(), Ok(()));
    assert_eq!(emu.pc(), 0x206);
    assert_eq!(emu.cycle(), Ok(()));
    assert_eq!(emu.pc(), 0x208);
    let mut emu = loaded(&[0x60, 0x10, 0xE0, 0x9E]);
    assert_eq!(emu.cycle(), Ok(()));
    assert_eq!(emu.cycle(), Err(EmuError::OutOfBounds));
}

#[test]
fn invalid_opcode_reported() {
    let mut emu = loaded(&[0x60, 0x01, 0x80, 0x18]);
    assert_eq!(emu.cycle(), Ok(()));
    assert_eq!(emu.cycle(), Err(EmuError::InvalidOpcode { opcode: 0x8018 }));
    assert_eq!(emu.v_reg(0), 1);
    assert_eq!(emu.pc(), 0x204);
    let mut emu = loaded(&[0xFF, 0xFF]);
    assert_eq!(emu.cycle(), Err(EmuError::InvalidOpcode { opcode: 0xFFFF }));
}

#[test]
fn font_glyph_address() {
    let emu = run(&[0x60, 0x1A, 0xF0, 0x29], 2);
    assert_eq!(emu.index(), 0x50 + 5 * 0xA);
}

#[test]
fn bcd_digits() {
    let emu = run(&[0x60, 254, 0xA3, 0x00, 0xF0, 0x33], 3);
    assert_eq!(emu.read_byte(0x300), Ok(2));
    assert_eq!(emu.read_byte(0x301), Ok(5));
    assert_eq!(emu.read_byte(0x302), Ok(4));
}

#[test]
fn store_and_load_registers() {
    let emu = run(
        &[0x60, 0x11, 0x61, 0x22, 0x62, 0x33, 0xA3, 0x00, 0xF1, 0x55, 0x60, 0x00, 0x61, 0x00, 0xF2, 0x65],
        8,
    );
    assert_eq!(emu.read_byte(0x300), Ok(0x11));
    assert_eq!(emu.read_byte(0x301), Ok(0x22));
    assert_eq!(emu.read_byte(0x302), Ok(0));
    assert_eq!(emu.v_reg(0), 0x11);
    assert_eq!(emu.v_reg(1), 0x22);
    assert_eq!(emu.v_reg(2), 0);
    assert_eq!(emu.index(), 0x300);
}

#[test]
fn store_registers_quirk_moves_index() {
    let mut q = Quirks::new();
    q.load_store_increments_i = true;
    let mut emu = Emu::with_config(q, 1);
    assert_eq!(emu.load(&[0xA3, 0x00, 0xF2, 0x55]), Ok(()));
    assert_eq!(emu.cycle(), Ok(()));
    assert_eq!(emu.cycle(), Ok(()));
    assert_eq!(emu.index(), 0x303);
}

#[test]
fn add_to_index() {
    let emu = run(&[0x60, 0x10, 0xAF, 0xF8, 0xF0, 0x1E], 3);
    assert_eq!(emu.index(), 0x1008);
    assert_eq!(emu.v_reg(15), 0);
    let mut q = Quirks::new();
    q.add_index_sets_vf = true;
    let mut emu = Emu::with_config(q, 1);
    assert_eq!(emu.load(&[0x60, 0x10, 0xAF, 0xF8, 0xF0, 0x1E]), Ok(()));
    for _ in 0..3 {
        assert_eq!(emu.cycle(), Ok(()));
    }
    assert_eq!(emu.index(), 0x1008);
    assert_eq!(emu.v_reg(15), 1);
}

#[test]
fn random_is_masked() {
    let mut emu = loaded(&[0xC0, 0x0F, 0x12, 0x00]);
    for _ in 0..50 {
        assert_eq!(emu.cycle(), Ok(()));
        assert!(emu.v_reg(0) <= 0x0F);
        assert_eq!(emu.cycle(), Ok(()));
    }
    let emu = run(&[0xC0, 0x00], 1);
    assert_eq!(emu.v_reg(0), 0);
}

#[test]
fn random_follows_seed() {
    // seed 0: next state 12345, byte (12345 >> 16) & 0xFF = 0
    let mut emu = Emu::with_config(Quirks::new(), 0);
    assert_eq!(emu.load(&[0xC0, 0xFF, 0xC1, 0xFF]), Ok(()));
    assert_eq!(emu.cycle(), Ok(()));
    assert_eq!(emu.cycle(), Ok(()));
    assert_eq!(emu.v_reg(0), 0);
    // 12345 * 1103515245 + 12345 mod 2^32 = 0xD3DC167E
    assert_eq!(emu.v_reg(1), 0xDC);
}

#[test]
fn pc_past_memory_end_is_out_of_bounds() {
    let mut emu = loaded(&[0x1F, 0xFF]);
    assert_eq!(emu.cycle(), Ok(()));
    assert_eq!(emu.cycle(), Err(EmuError::OutOfBounds));
    assert_eq!(emu.pc(), 0xFFF);
}

#[test]
fn nested_call_chain_overflows() {
    // 0x200 calls 0x202, which calls itself
    let mut emu = loaded(&[0x22, 0x02, 0x22, 0x02]);
    for _ in 0..16 {
        assert_eq!(emu.cycle(), Ok(()));
    }
    assert_eq!(emu.stack_depth(), 16);
    assert_eq!(emu.cycle(), Err(EmuError::StackOverflow));
    assert_eq!(emu.stack_depth(), 16);
    assert_eq!(emu.pc(), 0x204);
}
