use chip8::cpu::Cpu;
use chip8::screen::Screen;

#[test]
fn load_imm_every_register() {
    let mut cpu = Cpu::new();
    let mut rom: Vec<u8> = Vec::new();
    for x in 0..16u8 {
        rom.push(0x60 + x);
        rom.push(0x10 + x);
    }
    cpu.load_rom(&rom);
    for _ in 0..16 {
        cpu.step(None);
    }
    for x in 0..16u8 {
        assert_eq!(cpu.reg(x), 0x10 + x);
    }
    assert_eq!(cpu.pc(), 0x200 + 32);
}

#[test]
fn logical_ops_clear_flag_even_when_set() {
    // vF starts at 0xFF; each bitwise op must force it back to 0.
    let mut cpu = Cpu::new();
    cpu.load_rom(&[0x6F, 0xFF, 0x60, 0x0F, 0x61, 0xF0, 0x80, 0x11]);
    for _ in 0..4 {
        cpu.step(None);
    }
    assert_eq!(cpu.reg(0), 0xFF);
    assert_eq!(cpu.reg(0xF), 0x00);

    let mut cpu = Cpu::new();
    cpu.load_rom(&[0x6F, 0xFF, 0x60, 0x0F, 0x61, 0xF0, 0x80, 0x12]);
    for _ in 0..4 {
        cpu.step(None);
    }
    assert_eq!(cpu.reg(0), 0x00);
    assert_eq!(cpu.reg(0xF), 0x00);

    let mut cpu = Cpu::new();
    cpu.load_rom(&[0x6F, 0xFF, 0x60, 0x0F, 0x61, 0xF0, 0x80, 0x13]);
    for _ in 0..4 {
        cpu.step(None);
    }
    assert_eq!(cpu.reg(0), 0xFF);
    assert_eq!(cpu.reg(0xF), 0x00);
}

#[test]
fn add_vx_vy_no_carry() {
    let mut cpu = Cpu::new();
    cpu.load_rom(&[0x60, 0x01, 0x61, 0x01, 0x80, 0x14]);
    cpu.step(None);
    cpu.step(None);
    cpu.step(None);
    assert_eq!(cpu.reg(0), 0x02);
    assert_eq!(cpu.reg(0xF), 0x00);
}

#[test]
fn skip_not_taken_advances_by_two() {
    let mut cpu = Cpu::new();
    cpu.load_rom(&[0x60, 0x01, 0x30, 0x02]);
    cpu.step(None);
    cpu.step(None);
    assert_eq!(cpu.pc(), 0x204);

    let mut cpu = Cpu::new();
    cpu.load_rom(&[0x60, 0x01, 0x40, 0x01]);
    cpu.step(None);
    cpu.step(None);
    assert_eq!(cpu.pc(), 0x204);
}

#[test]
fn shift_reads_source_register() {
    // The shift source is the second operand register, which stays intact.
    let mut cpu = Cpu::new();
    cpu.load_rom(&[0x61, 0x03, 0x80, 0x16]);
    cpu.step(None);
    cpu.step(None);
    assert_eq!(cpu.reg(0), 0x01);
    assert_eq!(cpu.reg(1), 0x03);
    assert_eq!(cpu.reg(0xF), 0x01);
}

#[test]
fn skip_key_down_and_up() {
    let mut cpu = Cpu::new();
    let mut screen = Screen::new();
    cpu.load_rom(&[0x60, 0x05, 0xE0, 0x9E]);
    screen.set_key(5, true);
    cpu.step(Some(&mut screen));
    cpu.step(Some(&mut screen));
    assert_eq!(cpu.pc(), 0x206);

    let mut cpu = Cpu::new();
    let mut screen = Screen::new();
    cpu.load_rom(&[0x60, 0x05, 0xE0, 0x9E]);
    cpu.step(Some(&mut screen));
    cpu.step(Some(&mut screen));
    assert_eq!(cpu.pc(), 0x204);

    let mut cpu = Cpu::new();
    let mut screen = Screen::new();
    cpu.load_rom(&[0x60, 0x05, 0xE0, 0xA1]);
    cpu.step(Some(&mut screen));
    cpu.step(Some(&mut screen));
    assert_eq!(cpu.pc(), 0x206);

    let mut cpu = Cpu::new();
    let mut screen = Screen::new();
    cpu.load_rom(&[0x60, 0x05, 0xE0, 0xA1]);
    screen.set_key(5, true);
    cpu.step(Some(&mut screen));
    cpu.step(Some(&mut screen));
    assert_eq!(cpu.pc(), 0x204);
}

#[test]
fn draw_sets_pixels_and_flags() {
    // Draw glyph 0 (top row 0xF0) at the origin.
    let mut cpu = Cpu::new();
    let mut screen = Screen::new();
    cpu.load_rom(&[0xA0, 0x50, 0xD0, 0x15]);
    cpu.step(Some(&mut screen));
    assert!(!cpu.has_drawn());
    cpu.step(Some(&mut screen));
    assert!(cpu.has_drawn());
    assert_eq!(cpu.reg(0xF), 0x00);
    assert_eq!(screen.pixel_at(0, 0), 1);
    assert_eq!(screen.pixel_at(3, 0), 1);
    assert_eq!(screen.pixel_at(4, 0), 0);
    assert_eq!(screen.pixel_at(1, 1), 0);
    assert_eq!(screen.pixel_at(3, 1), 1);
}

#[test]
fn draw_twice_restores_screen() {
    let mut cpu = Cpu::new();
    let mut screen = Screen::new();
    cpu.load_rom(&[0xA0, 0x50, 0xD0, 0x15, 0xD0, 0x15]);
    cpu.step(Some(&mut screen));
    cpu.step(Some(&mut screen));
    assert_eq!(cpu.reg(0xF), 0x00);
    cpu.step(Some(&mut screen));
    // The sprite has set bits, so the second identical draw collides
    // everywhere it drew, and the xor restores every pixel to dark.
    assert_eq!(cpu.reg(0xF), 0x01);
    for y in 0..32u8 {
        for x in 0..64u8 {
            assert_eq!(screen.pixel_at(x, y), 0);
        }
    }
}

#[test]
fn draw_clips_at_right_edge() {
    let mut cpu = Cpu::new();
    let mut screen = Screen::new();
    cpu.load_rom(&[0x60, 0x3C, 0x61, 0x00, 0xA0, 0x50, 0xD0, 0x15]);
    cpu.step(Some(&mut screen));
    cpu.step(Some(&mut screen));
    cpu.step(Some(&mut screen));
    cpu.step(Some(&mut screen));
    assert_eq!(screen.pixel_at(60, 0), 1);
    assert_eq!(screen.pixel_at(63, 0), 1);
    // Nothing wraps to the left edge.
    assert_eq!(screen.pixel_at(0, 0), 0);
}

#[test]
fn clear_screen() {
    let mut cpu = Cpu::new();
    let mut screen = Screen::new();
    cpu.load_rom(&[0xA0, 0x50, 0xD0, 0x15, 0x00, 0xE0]);
    cpu.step(Some(&mut screen));
    cpu.step(Some(&mut screen));
    assert_eq!(screen.pixel_at(0, 0), 1);
    cpu.step(Some(&mut screen));
    assert!(cpu.has_drawn());
    for y in 0..32u8 {
        for x in 0..64u8 {
            assert_eq!(screen.pixel_at(x, y), 0);
        }
    }
}

#[test]
fn wait_key_press_then_release() {
    let mut cpu = Cpu::new();
    let mut screen = Screen::new();
    cpu.load_rom(&[0xF0, 0x0A]);
    // No key yet: the instruction replays.
    cpu.step(Some(&mut screen));
    assert_eq!(cpu.pc(), 0x200);
    // A key goes down: it is remembered, still waiting for release.
    screen.set_key(5, true);
    cpu.step(Some(&mut screen));
    assert_eq!(cpu.pc(), 0x200);
    cpu.step(Some(&mut screen));
    assert_eq!(cpu.pc(), 0x200);
    // Released: the key lands in the register and execution moves on.
    screen.set_key(5, false);
    cpu.step(Some(&mut screen));
    assert_eq!(cpu.pc(), 0x202);
    assert_eq!(cpu.reg(0), 5);
}

#[test]
fn timers_decrement_once_per_quantum() {
    let mut cpu = Cpu::new();
    cpu.load_rom(&[0x60, 0x05, 0xF0, 0x18]);
    cpu.step(None);
    cpu.step(None);
    assert_eq!(cpu.get_sound_timer(), 5);
    cpu.tick_timers(15);
    assert_eq!(cpu.get_sound_timer(), 5);
    cpu.tick_timers(1);
    assert_eq!(cpu.get_sound_timer(), 4);
    cpu.tick_timers(16);
    assert_eq!(cpu.get_sound_timer(), 3);
    // A long gap still costs only one decrement per update.
    cpu.tick_timers(1000);
    assert_eq!(cpu.get_sound_timer(), 2);
    cpu.tick_timers(7);
    cpu.tick_timers(8);
    assert_eq!(cpu.get_sound_timer(), 2);
    cpu.tick_timers(1);
    assert_eq!(cpu.get_sound_timer(), 1);
}

#[test]
fn delay_timer_round_trip() {
    let mut cpu = Cpu::new();
    cpu.load_rom(&[0x60, 0x07, 0xF0, 0x15, 0xF1, 0x07]);
    cpu.step(None);
    cpu.step(None);
    cpu.step(None);
    assert_eq!(cpu.reg(1), 0x07);

    // After one quantum, reading the delay timer sees the decrement.
    let mut cpu = Cpu::new();
    cpu.load_rom(&[0x60, 0x03, 0xF0, 0x15, 0xF1, 0x07]);
    cpu.step(None);
    cpu.step(None);
    cpu.tick_timers(16);
    cpu.step(None);
    assert_eq!(cpu.reg(1), 0x02);
}

#[test]
fn store_bcd() {
    let mut cpu = Cpu::new();
    cpu.load_rom(&[0x60, 0x9B, 0xA3, 0x00, 0xF0, 0x33]);
    cpu.step(None);
    cpu.step(None);
    cpu.step(None);
    assert_eq!(cpu.ram_byte(0x300), 1);
    assert_eq!(cpu.ram_byte(0x301), 5);
    assert_eq!(cpu.ram_byte(0x302), 5);
    assert_eq!(cpu.index(), 0x300);
}

#[test]
fn font_address_lookup() {
    let mut cpu = Cpu::new();
    cpu.load_rom(&[0x60, 0x0A, 0xF0, 0x29]);
    cpu.step(None);
    cpu.step(None);
    assert_eq!(cpu.index(), 0x50 + 50);
}

#[test]
fn store_and_load_registers() {
    let mut cpu = Cpu::new();
    cpu.load_rom(&[
        0x60, 0x07, 0x61, 0x09, 0xA3, 0x00, 0xF1, 0x55, 0x60, 0x00, 0x61, 0x00, 0xA3, 0x00, 0xF1,
        0x65,
    ]);
    for _ in 0..4 {
        cpu.step(None);
    }
    assert_eq!(cpu.ram_byte(0x300), 0x07);
    assert_eq!(cpu.ram_byte(0x301), 0x09);
    // The index register is left advanced past the stored block.
    assert_eq!(cpu.index(), 0x302);
    for _ in 0..4 {
        cpu.step(None);
    }
    assert_eq!(cpu.reg(0), 0x07);
    assert_eq!(cpu.reg(1), 0x09);
    assert_eq!(cpu.index(), 0x302);
}

#[test]
fn random_is_masked() {
    let mut cpu = Cpu::new();
    cpu.load_rom(&[0xC0, 0x0F]);
    cpu.step(None);
    assert!(cpu.reg(0) < 16);

    let mut cpu = Cpu::new();
    cpu.load_rom(&[0xC0, 0x00]);
    cpu.step(None);
    assert_eq!(cpu.reg(0), 0);
}

#[test]
fn unknown_opcode_is_reported_and_skipped() {
    let mut cpu = Cpu::new();
    cpu.load_rom(&[0x00, 0x00, 0x60, 0x01]);
    cpu.step(None);
    assert_eq!(cpu.pc(), 0x202);
    assert_eq!(cpu.last_unknown_opcode(), Some(0x0000));
    assert_eq!(cpu.reg(0), 0);
    // The next, recognized instruction clears the report and runs.
    cpu.step(None);
    assert_eq!(cpu.last_unknown_opcode(), None);
    assert_eq!(cpu.reg(0), 1);
}

#[test]
fn load_rom_places_font_and_program() {
    let mut cpu = Cpu::new();
    cpu.load_rom(&[0xAB, 0xCD]);
    assert_eq!(cpu.ram_byte(0x50), 0xF0);
    assert_eq!(cpu.ram_byte(0x9F), 0x80);
    assert_eq!(cpu.ram_byte(0x200), 0xAB);
    assert_eq!(cpu.ram_byte(0x201), 0xCD);
    assert_eq!(cpu.ram_byte(0x202), 0x00);
}

#[test]
fn load_rom_empty_program() {
    let mut cpu = Cpu::new();
    cpu.load_rom(&[]);
    assert_eq!(cpu.ram_byte(0x50), 0xF0);
    assert_eq!(cpu.ram_byte(0x200), 0x00);
    assert_eq!(cpu.pc(), 0x200);
}

#[test]
fn load_rom_fills_to_end_of_memory() {
    let mut cpu = Cpu::new();
    let rom: Vec<u8> = vec![0x5A; 3584];
    cpu.load_rom(&rom);
    assert_eq!(cpu.ram_byte(0x200), 0x5A);
    assert_eq!(cpu.ram_byte(4095), 0x5A);
    assert_eq!(cpu.ram_byte(0x1FF), 0x00);
}

#[test]
fn end_to_end_two_adds() {
    let mut cpu = Cpu::new();
    cpu.load_rom(&[0x60, 0x01, 0x70, 0x01]);
    cpu.step(None);
    cpu.step(None);
    assert_eq!(cpu.reg(0), 2);
    assert_eq!(cpu.pc(), 0x200 + 4);
}

#[test]
fn end_to_end_call_and_return() {
    let mut cpu = Cpu::new();
    cpu.load_rom(&[0x22, 0x02, 0x00, 0xEE]);
    cpu.step(None);
    cpu.step(None);
    assert_eq!(cpu.pc(), 0x200 + 2);
    assert_eq!(cpu.sp(), 0);
}
