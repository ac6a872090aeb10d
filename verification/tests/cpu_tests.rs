use chip8::cpu::Cpu;

#[test]
fn jump() {
    let mut cpu = Cpu::new();
    cpu.load_rom(&[0x10, 0x01]);
    cpu.step(None);
    assert_eq!(cpu.pc(), 0x0001);
}

#[test]
fn set_vx() {
    let mut cpu = Cpu::new();
    cpu.load_rom(&[0x60, 0x01]);
    cpu.step(None);
    assert_eq!(cpu.reg(0), 0x01);
}

#[test]
fn add_vx() {
    let mut cpu = Cpu::new();
    cpu.load_rom(&[0x60, 0x01, 0x70, 0x01]);
    cpu.step(None);
    cpu.step(None);
    assert_eq!(cpu.reg(0), 0x02);
}

#[test]
fn set_index() {
    let mut cpu = Cpu::new();
    cpu.load_rom(&[0xA0, 0x01]);
    cpu.step(None);
    assert_eq!(cpu.index(), 0x0001);
}

#[test]
fn call_sub() {
    let mut cpu = Cpu::new();
    cpu.load_rom(&[0x20, 0x01]);
    cpu.step(None);
    assert_eq!(cpu.pc(), 0x0001);
    assert_eq!(cpu.sp(), 0x0002);
    assert_eq!(cpu.ram_byte(0x0000), 0x02);
    assert_eq!(cpu.ram_byte(0x0001), 0x02);
}

#[test]
fn ret_sub() {
    let mut cpu = Cpu::new();
    cpu.load_rom(&[0x22, 0x02, 0x00, 0xEE]);
    cpu.step(None);
    cpu.step(None);
    assert_eq!(cpu.pc(), 0x0202);
    assert_eq!(cpu.sp(), 0x0000);
}

#[test]
fn skip_vx_eq_nn() {
    let mut cpu = Cpu::new();
    cpu.load_rom(&[0x60, 0x01, 0x30, 0x01]);
    cpu.step(None);
    cpu.step(None);
    assert_eq!(cpu.pc(), 0x206);
}

#[test]
fn skip_vx_neq_nn() {
    let mut cpu = Cpu::new();
    cpu.load_rom(&[0x60, 0x01, 0x40, 0x02]);
    cpu.step(None);
    cpu.step(None);
    assert_eq!(cpu.pc(), 0x206);
}

#[test]
fn skip_vx_eq_vy() {
    let mut cpu = Cpu::new();
    cpu.load_rom(&[0x60, 0x01, 0x61, 0x01, 0x50, 0x10]);
    cpu.step(None);
    cpu.step(None);
    cpu.step(None);
    assert_eq!(cpu.pc(), 0x208);
}

#[test]
fn skip_vx_neq_vy() {
    let mut cpu = Cpu::new();
    cpu.load_rom(&[0x60, 0x01, 0x61, 0x02, 0x90, 0x10]);
    cpu.step(None);
    cpu.step(None);
    cpu.step(None);
    assert_eq!(cpu.pc(), 0x208);
}

#[test]
fn set_vx_vy() {
    let mut cpu = Cpu::new();
    cpu.load_rom(&[0x60, 0x01, 0x61, 0x02, 0x80, 0x10]);
    cpu.step(None);
    cpu.step(None);
    cpu.step(None);
    assert_eq!(cpu.reg(0), 0x02);
}

#[test]
fn set_vx_vx_or_vy() {
    let mut cpu = Cpu::new();
    cpu.load_rom(&[0x60, 0x01, 0x61, 0x02, 0x80, 0x11]);
    cpu.step(None);
    cpu.step(None);
    cpu.step(None);
    assert_eq!(cpu.reg(0), 0x03);
}

#[test]
fn set_vx_vx_and_vy() {
    let mut cpu = Cpu::new();
    cpu.load_rom(&[0x60, 0x01, 0x61, 0x02, 0x80, 0x12]);
    cpu.step(None);
    cpu.step(None);
    cpu.step(None);
    assert_eq!(cpu.reg(0), 0x00);
}

#[test]
fn set_vx_vx_xor_vy() {
    let mut cpu = Cpu::new();
    cpu.load_rom(&[0x60, 0x01, 0x61, 0x02, 0x80, 0x13]);
    cpu.step(None);
    cpu.step(None);
    cpu.step(None);
    assert_eq!(cpu.reg(0), 0x03);
}

#[test]
fn add_vx_vy_carry() {
    let mut cpu = Cpu::new();
    cpu.load_rom(&[0x60, 0x01, 0x61, 0xFF, 0x80, 0x14]);
    cpu.step(None);
    cpu.step(None);
    cpu.step(None);
    assert_eq!(cpu.reg(0), 0x00);
    assert_eq!(cpu.reg(0xF), 0x01);
}

#[test]
fn sub_vx_vy_carry() {
    let mut cpu = Cpu::new();
    cpu.load_rom(&[0x61, 0xFF, 0x60, 0x01, 0x80, 0x15]);
    cpu.step(None);
    cpu.step(None);
    cpu.step(None);
    assert_eq!(cpu.reg(0), 0x02);
    assert_eq!(cpu.reg(0xF), 0x00);
}

#[test]
fn sub_vy_vx_carry() {
    let mut cpu = Cpu::new();
    cpu.load_rom(&[0x60, 0xFF, 0x61, 0x01, 0x80, 0x17]);
    cpu.step(None);
    cpu.step(None);
    cpu.step(None);
    assert_eq!(cpu.reg(0), 0x02);
    assert_eq!(cpu.reg(0xF), 0x00);
}

#[test]
fn set_vx_vy_shr() {
    let mut cpu = Cpu::new();
    cpu.load_rom(&[0x61, 0x03, 0x80, 0x16]);
    cpu.step(None);
    cpu.step(None);
    assert_eq!(cpu.reg(0), 0x01);
    assert_eq!(cpu.reg(0xF), 0x01);
}

#[test]
fn set_vx_vy_shl() {
    let mut cpu = Cpu::new();
    cpu.load_rom(&[0x61, 0x80, 0x80, 0x1E]);
    cpu.step(None);
    cpu.step(None);
    assert_eq!(cpu.reg(0), 0x00);
    assert_eq!(cpu.reg(0xF), 0x01);
}

#[test]
fn jump_with_offset() {
    let mut cpu = Cpu::new();
    cpu.load_rom(&[0x60, 0x01, 0xB0, 0x01]);
    cpu.step(None);
    cpu.step(None);
    assert_eq!(cpu.pc(), 0x0002);
}

#[test]
fn add_idx_vx() {
    let mut cpu = Cpu::new();
    cpu.load_rom(&[0x60, 0x01, 0xA0, 0x01, 0xF0, 0x1E]);
    cpu.step(None);
    cpu.step(None);
    cpu.step(None);
    assert_eq!(cpu.index(), 0x0002);
    assert_eq!(cpu.reg(0xF), 0x00);
}
