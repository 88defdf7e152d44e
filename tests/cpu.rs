use chip8::chip8::Chip8;
use chip8::cpu::{Cpu, Fault, StepOutcome};
use chip8::display::{PX_OFF, PX_ON};
use chip8::keypad::HostKey;
use chip8::ram::{OutOfBounds, Ram};

const VF: u16 = 0x0F00;

fn reg(cpu: &Cpu, r: u16) -> u8 {
    cpu.get_reg_vx(r << 8)
}

fn set(cpu: &mut Cpu, r: u16, value: u8) {
    cpu.set_reg_vx(r << 8, value);
}

fn run(cpu: &mut Cpu, ram: &mut Ram, op: u16) -> Result<StepOutcome, Fault> {
    cpu.execute(ram, op, 0)
}

#[test]
fn set_immediate_6xnn() {
    let mut cpu = Cpu::new();
    let mut ram = Ram::new();
    assert_eq!(run(&mut cpu, &mut ram, 0x6A12), Ok(StepOutcome::Executed));
    assert_eq!(reg(&cpu, 0xA), 0x12);
    assert_eq!(cpu.reg_pc(), 0x202);
}

#[test]
fn clear_screen_00e0() {
    let mut cpu = Cpu::new();
    let mut ram = Ram::new();
    // draw the font digit 0 first so that something is on
    run(&mut cpu, &mut ram, 0xD015).unwrap();
    assert!(cpu.gfx().iter().any(|&p| p == PX_ON));
    assert_eq!(run(&mut cpu, &mut ram, 0x00E0), Ok(StepOutcome::Executed));
    let frame = cpu.gfx();
    assert_eq!(frame.len(), 2048);
    assert!(frame.iter().all(|&p| p == PX_OFF));
    assert_eq!(cpu.reg_pc(), 0x204);
}

#[test]
fn add_with_carry_8xy4() {
    let mut cpu = Cpu::new();
    let mut ram = Ram::new();
    set(&mut cpu, 1, 0xFF);
    set(&mut cpu, 2, 0x01);
    run(&mut cpu, &mut ram, 0x8124).unwrap();
    assert_eq!(reg(&cpu, 1), 0x00);
    assert_eq!(cpu.get_reg_vx(VF), 1);
}

#[test]
fn add_without_carry_8xy4() {
    let mut cpu = Cpu::new();
    let mut ram = Ram::new();
    set(&mut cpu, 1, 0x10);
    set(&mut cpu, 2, 0x22);
    set(&mut cpu, 0xF, 7);
    run(&mut cpu, &mut ram, 0x8124).unwrap();
    assert_eq!(reg(&cpu, 1), 0x32);
    assert_eq!(cpu.get_reg_vx(VF), 0);
}

#[test]
fn subtract_with_borrow_8xy5() {
    let mut cpu = Cpu::new();
    let mut ram = Ram::new();
    set(&mut cpu, 1, 0x01);
    set(&mut cpu, 2, 0x02);
    run(&mut cpu, &mut ram, 0x8125).unwrap();
    assert_eq!(reg(&cpu, 1), 0xFF);
    assert_eq!(cpu.get_reg_vx(VF), 0);
}

#[test]
fn subtract_without_borrow_8xy5() {
    let mut cpu = Cpu::new();
    let mut ram = Ram::new();
    set(&mut cpu, 1, 0x09);
    set(&mut cpu, 2, 0x02);
    run(&mut cpu, &mut ram, 0x8125).unwrap();
    assert_eq!(reg(&cpu, 1), 0x07);
    assert_eq!(cpu.get_reg_vx(VF), 1);
}

#[test]
fn flag_register_as_target_keeps_result() {
    let mut cpu = Cpu::new();
    let mut ram = Ram::new();
    set(&mut cpu, 0xF, 0xFF);
    set(&mut cpu, 2, 0x03);
    run(&mut cpu, &mut ram, 0x8F24).unwrap();
    assert_eq!(cpu.get_reg_vx(VF), 0x02);
}

#[test]
fn reverse_subtract_targets_vx_8xy7() {
    let mut cpu = Cpu::new();
    let mut ram = Ram::new();
    set(&mut cpu, 1, 0x02);
    set(&mut cpu, 2, 0x09);
    run(&mut cpu, &mut ram, 0x8127).unwrap();
    assert_eq!(reg(&cpu, 1), 0x07);
    assert_eq!(reg(&cpu, 2), 0x09);
    assert_eq!(cpu.get_reg_vx(VF), 1);
    set(&mut cpu, 1, 0x05);
    set(&mut cpu, 2, 0x03);
    run(&mut cpu, &mut ram, 0x8127).unwrap();
    assert_eq!(reg(&cpu, 1), 0xFE);
    assert_eq!(cpu.get_reg_vx(VF), 0);
}

#[test]
fn shifts_8xy6_8xye() {
    let mut cpu = Cpu::new();
    let mut ram = Ram::new();
    set(&mut cpu, 3, 0b1000_0101);
    run(&mut cpu, &mut ram, 0x8306).unwrap();
    assert_eq!(reg(&cpu, 3), 0b0100_0010);
    assert_eq!(cpu.get_reg_vx(VF), 1);
    set(&mut cpu, 3, 0b1000_0101);
    run(&mut cpu, &mut ram, 0x830E).unwrap();
    assert_eq!(reg(&cpu, 3), 0b0000_1010);
    assert_eq!(cpu.get_reg_vx(VF), 1);
    set(&mut cpu, 3, 0b0100_0000);
    run(&mut cpu, &mut ram, 0x830E).unwrap();
    assert_eq!(reg(&cpu, 3), 0b1000_0000);
    assert_eq!(cpu.get_reg_vx(VF), 0);
}

#[test]
fn logic_and_moves_8xy0_to_8xy3() {
    let mut cpu = Cpu::new();
    let mut ram = Ram::new();
    set(&mut cpu, 1, 0b1100);
    set(&mut cpu, 2, 0b1010);
    run(&mut cpu, &mut ram, 0x8121).unwrap();
    assert_eq!(reg(&cpu, 1), 0b1110);
    set(&mut cpu, 1, 0b1100);
    run(&mut cpu, &mut ram, 0x8122).unwrap();
    assert_eq!(reg(&cpu, 1), 0b1000);
    set(&mut cpu, 1, 0b1100);
    run(&mut cpu, &mut ram, 0x8123).unwrap();
    assert_eq!(reg(&cpu, 1), 0b0110);
    run(&mut cpu, &mut ram, 0x8120).unwrap();
    assert_eq!(reg(&cpu, 1), 0b1010);
    assert_eq!(cpu.reg_pc(), 0x208);
}

#[test]
fn add_immediate_wraps_without_flag_7xnn() {
    let mut cpu = Cpu::new();
    let mut ram = Ram::new();
    set(&mut cpu, 4, 0xF0);
    set(&mut cpu, 0xF, 0x55);
    run(&mut cpu, &mut ram, 0x7420).unwrap();
    assert_eq!(reg(&cpu, 4), 0x10);
    assert_eq!(cpu.get_reg_vx(VF), 0x55);
}

#[test]
fn draw_same_sprite_twice_collides() {
    let mut cpu = Cpu::new();
    let mut ram = Ram::new();
    ram.write_byte(0x300, 0b1011_0001).unwrap();
    run(&mut cpu, &mut ram, 0xA300).unwrap();
    set(&mut cpu, 1, 10);
    set(&mut cpu, 2, 5);
    run(&mut cpu, &mut ram, 0xD121).unwrap();
    assert_eq!(cpu.get_reg_vx(VF), 0);
    let frame = cpu.gfx();
    let row = 5 * 64;
    let lit: Vec<bool> = (10..18).map(|x| frame[row + x] == PX_ON).collect();
    assert_eq!(lit, vec![true, false, true, true, false, false, false, true]);
    assert_eq!(frame.iter().filter(|&&p| p == PX_ON).count(), 4);
    run(&mut cpu, &mut ram, 0xD121).unwrap();
    assert_eq!(cpu.get_reg_vx(VF), 1);
    assert!(cpu.gfx().iter().all(|&p| p == PX_OFF));
}

#[test]
fn draw_wraps_around_edges() {
    let mut cpu = Cpu::new();
    let mut ram = Ram::new();
    ram.write_byte(0x300, 0xFF).unwrap();
    ram.write_byte(0x301, 0xFF).unwrap();
    run(&mut cpu, &mut ram, 0xA300).unwrap();
    set(&mut cpu, 1, 60);
    set(&mut cpu, 2, 31);
    run(&mut cpu, &mut ram, 0xD122).unwrap();
    let frame = cpu.gfx();
    for x in 60..64 {
        assert_eq!(frame[31 * 64 + x], PX_ON);
        assert_eq!(frame[x], PX_ON);
    }
    for x in 0..4 {
        assert_eq!(frame[31 * 64 + x], PX_ON);
        assert_eq!(frame[x], PX_ON);
    }
    assert_eq!(frame.iter().filter(|&&p| p == PX_ON).count(), 16);
}

#[test]
fn draw_past_memory_faults() {
    let mut cpu = Cpu::new();
    let mut ram = Ram::new();
    run(&mut cpu, &mut ram, 0xAFFE).unwrap();
    assert_eq!(
        run(&mut cpu, &mut ram, 0xD013),
        Err(Fault::Memory(OutOfBounds { addr: 4096 }))
    );
    assert_eq!(cpu.reg_pc(), 0x202);
}

#[test]
fn bcd_fx33() {
    let mut cpu = Cpu::new();
    let mut ram = Ram::new();
    run(&mut cpu, &mut ram, 0xA400).unwrap();
    set(&mut cpu, 5, 156);
    run(&mut cpu, &mut ram, 0xF533).unwrap();
    assert_eq!(ram.read_byte(0x400), Ok(1));
    assert_eq!(ram.read_byte(0x401), Ok(5));
    assert_eq!(ram.read_byte(0x402), Ok(6));
    assert_eq!(cpu.reg_pc(), 0x204);
}

#[test]
fn bcd_past_memory_faults() {
    let mut cpu = Cpu::new();
    let mut ram = Ram::new();
    run(&mut cpu, &mut ram, 0xAFFF).unwrap();
    assert_eq!(
        run(&mut cpu, &mut ram, 0xF033),
        Err(Fault::Memory(OutOfBounds { addr: 4096 }))
    );
    assert_eq!(ram.read_byte(0xFFF), Ok(0));
}

#[test]
fn store_then_load_restores_registers() {
    let mut cpu = Cpu::new();
    let mut ram = Ram::new();
    run(&mut cpu, &mut ram, 0xA500).unwrap();
    let values = [0x11, 0x22, 0x33, 0x44];
    for (r, v) in values.iter().enumerate() {
        set(&mut cpu, r as u16, *v);
    }
    set(&mut cpu, 4, 0x99);
    run(&mut cpu, &mut ram, 0xF355).unwrap();
    assert_eq!(ram.read_byte(0x500), Ok(0x11));
    assert_eq!(ram.read_byte(0x503), Ok(0x44));
    assert_eq!(ram.read_byte(0x504), Ok(0));
    for r in 0..4 {
        set(&mut cpu, r, 0);
    }
    run(&mut cpu, &mut ram, 0xF365).unwrap();
    for (r, v) in values.iter().enumerate() {
        assert_eq!(reg(&cpu, r as u16), *v);
    }
    assert_eq!(reg(&cpu, 4), 0x99);
    assert_eq!(cpu.reg_i(), 0x500);
    assert_eq!(cpu.reg_pc(), 0x206);
}

#[test]
fn store_past_memory_faults() {
    let mut cpu = Cpu::new();
    let mut ram = Ram::new();
    run(&mut cpu, &mut ram, 0xAFFE).unwrap();
    assert_eq!(
        run(&mut cpu, &mut ram, 0xF255),
        Err(Fault::Memory(OutOfBounds { addr: 4096 }))
    );
    assert_eq!(
        run(&mut cpu, &mut ram, 0xF265),
        Err(Fault::Memory(OutOfBounds { addr: 4096 }))
    );
}

#[test]
fn wait_for_key_fx0a() {
    let mut cpu = Cpu::new();
    let mut ram = Ram::new();
    for _ in 0..5 {
        assert_eq!(run(&mut cpu, &mut ram, 0xF30A), Ok(StepOutcome::AwaitingKey));
        assert_eq!(cpu.reg_pc(), 0x200);
    }
    cpu.set_key(0x9, true);
    cpu.set_key(0xC, true);
    assert_eq!(run(&mut cpu, &mut ram, 0xF30A), Ok(StepOutcome::Executed));
    assert_eq!(reg(&cpu, 3), 0x9);
    assert_eq!(cpu.reg_pc(), 0x202);
}

#[test]
fn wait_for_key_through_run_loop() {
    let mut chip = Chip8::new();
    chip.load_rom(&vec![0xF5, 0x0A, 0x60, 0x01]).unwrap();
    for _ in 0..3 {
        assert_eq!(chip.run_instruction(), Ok(StepOutcome::AwaitingKey));
        assert_eq!(chip.cpu.reg_pc(), 0x200);
    }
    chip.cpu.handle_keypress(&[HostKey::W]);
    assert_eq!(chip.run_instruction(), Ok(StepOutcome::Executed));
    assert_eq!(chip.cpu.get_reg_vx(0x0500), 0x5);
    assert_eq!(chip.cpu.reg_pc(), 0x202);
}

#[test]
fn skips_advance_by_four_when_taken() {
    // (opcode, VX, VY, taken)
    let cases: [(u16, u8, u8, bool); 8] = [
        (0x3142, 0x42, 0, true),
        (0x3142, 0x41, 0, false),
        (0x4142, 0x41, 0, true),
        (0x4142, 0x42, 0, false),
        (0x5120, 7, 7, true),
        (0x5120, 7, 8, false),
        (0x9120, 7, 8, true),
        (0x9120, 7, 7, false),
    ];
    for (op, vx, vy, taken) in cases {
        let mut cpu = Cpu::new();
        let mut ram = Ram::new();
        set(&mut cpu, 1, vx);
        set(&mut cpu, 2, vy);
        assert_eq!(run(&mut cpu, &mut ram, op), Ok(StepOutcome::Executed));
        assert_eq!(cpu.reg_pc(), if taken { 0x204 } else { 0x202 }, "opcode {:#06X}", op);
    }
}

#[test]
fn key_skips_ex9e_exa1() {
    let mut cpu = Cpu::new();
    let mut ram = Ram::new();
    set(&mut cpu, 1, 0xA);
    run(&mut cpu, &mut ram, 0xE19E).unwrap();
    assert_eq!(cpu.reg_pc(), 0x202);
    run(&mut cpu, &mut ram, 0xE1A1).unwrap();
    assert_eq!(cpu.reg_pc(), 0x206);
    cpu.handle_keypress(&[HostKey::Z]);
    run(&mut cpu, &mut ram, 0xE19E).unwrap();
    assert_eq!(cpu.reg_pc(), 0x20A);
    run(&mut cpu, &mut ram, 0xE1A1).unwrap();
    assert_eq!(cpu.reg_pc(), 0x20C);
    // a key number past the keypad is never down
    set(&mut cpu, 1, 0x1A);
    run(&mut cpu, &mut ram, 0xE19E).unwrap();
    assert_eq!(cpu.reg_pc(), 0x20E);
}

#[test]
fn straight_line_instructions_advance_by_two() {
    let ops: [u16; 16] = [
        0x6005, 0x7101, 0x8120, 0x8124, 0x8126, 0x812E, 0xA123, 0xC1FF, 0xF107, 0xF115,
        0xF118, 0xF11E, 0xF129, 0x00E0, 0xD011, 0x5121,
    ];
    let mut cpu = Cpu::new();
    let mut ram = Ram::new();
    let mut pc = cpu.reg_pc();
    for op in ops {
        assert!(cpu.execute(&mut ram, op, 0x5A).is_ok());
        assert_eq!(cpu.reg_pc(), pc + 2, "opcode {:#06X}", op);
        pc = cpu.reg_pc();
    }
}

#[test]
fn jump_call_return() {
    let mut cpu = Cpu::new();
    let mut ram = Ram::new();
    run(&mut cpu, &mut ram, 0x1ABC).unwrap();
    assert_eq!(cpu.reg_pc(), 0xABC);
    run(&mut cpu, &mut ram, 0x2345).unwrap();
    assert_eq!(cpu.reg_pc(), 0x345);
    run(&mut cpu, &mut ram, 0x2400).unwrap();
    assert_eq!(cpu.reg_pc(), 0x400);
    run(&mut cpu, &mut ram, 0x00EE).unwrap();
    assert_eq!(cpu.reg_pc(), 0x347);
    run(&mut cpu, &mut ram, 0x00EE).unwrap();
    assert_eq!(cpu.reg_pc(), 0xABE);
    assert_eq!(run(&mut cpu, &mut ram, 0x00EE), Err(Fault::StackUnderflow));
    assert_eq!(cpu.reg_pc(), 0xABE);
}

#[test]
fn call_depth_limit() {
    let mut cpu = Cpu::new();
    let mut ram = Ram::new();
    for _ in 0..16 {
        assert_eq!(run(&mut cpu, &mut ram, 0x2300), Ok(StepOutcome::Executed));
    }
    assert_eq!(run(&mut cpu, &mut ram, 0x2300), Err(Fault::StackOverflow));
    assert_eq!(cpu.reg_pc(), 0x300);
    run(&mut cpu, &mut ram, 0x00EE).unwrap();
    assert_eq!(cpu.reg_pc(), 0x302);
}

#[test]
fn jump_with_offset_bnnn() {
    let mut cpu = Cpu::new();
    let mut ram = Ram::new();
    set(&mut cpu, 0, 0x10);
    run(&mut cpu, &mut ram, 0xB300).unwrap();
    assert_eq!(cpu.reg_pc(), 0x310);
}

#[test]
fn index_register_annn_fx1e_fx29() {
    let mut cpu = Cpu::new();
    let mut ram = Ram::new();
    run(&mut cpu, &mut ram, 0xAFFF).unwrap();
    assert_eq!(cpu.reg_i(), 0xFFF);
    set(&mut cpu, 2, 0x11);
    run(&mut cpu, &mut ram, 0xF21E).unwrap();
    assert_eq!(cpu.reg_i(), 0x1010);
    set(&mut cpu, 2, 0xB);
    run(&mut cpu, &mut ram, 0xF229).unwrap();
    assert_eq!(cpu.reg_i(), 55);
    assert_eq!(ram.read_byte(55), Ok(0xE0));
}

#[test]
fn timers_fx07_fx15_fx18() {
    let mut cpu = Cpu::new();
    let mut ram = Ram::new();
    set(&mut cpu, 1, 30);
    run(&mut cpu, &mut ram, 0xF115).unwrap();
    assert_eq!(cpu.reg_dt(), 30);
    set(&mut cpu, 2, 2);
    run(&mut cpu, &mut ram, 0xF218).unwrap();
    assert_eq!(cpu.reg_st(), 2);
    assert!(cpu.tick_timers());
    assert!(cpu.tick_timers());
    assert!(!cpu.tick_timers());
    assert_eq!(cpu.reg_st(), 0);
    run(&mut cpu, &mut ram, 0xF307).unwrap();
    assert_eq!(reg(&cpu, 3), 27);
    cpu.set_reg_dt(1);
    cpu.set_reg_st(0);
    assert!(!cpu.tick_timers());
    assert_eq!(cpu.reg_dt(), 0);
    assert!(!cpu.tick_timers());
    assert_eq!(cpu.reg_dt(), 0);
}

#[test]
fn random_is_masked_cxnn() {
    let mut cpu = Cpu::new();
    let mut ram = Ram::new();
    cpu.execute(&mut ram, 0xC10F, 0xAB).unwrap();
    assert_eq!(reg(&cpu, 1), 0x0B);
    let mut chip = Chip8::new();
    chip.load_rom(&vec![0xC2, 0x00, 0xC3, 0x0F]).unwrap();
    chip.cpu.set_reg_vx(0x0200, 0x77);
    chip.run_instruction().unwrap();
    chip.run_instruction().unwrap();
    assert_eq!(chip.cpu.get_reg_vx(0x0200), 0);
    assert_eq!(chip.cpu.get_reg_vx(0x0300) & 0xF0, 0);
}

#[test]
fn invalid_opcodes_are_skipped() {
    for op in [0x0123u16, 0x5121, 0x8008, 0x912F, 0xE000, 0xF0FF] {
        let mut cpu = Cpu::new();
        let mut ram = Ram::new();
        assert_eq!(run(&mut cpu, &mut ram, op), Ok(StepOutcome::InvalidOpcode(op)));
        assert_eq!(cpu.reg_pc(), 0x202);
    }
}

#[test]
fn register_accessors_by_opcode() {
    let mut cpu = Cpu::new();
    cpu.set_reg_vx(0x8AB0, 1);
    cpu.set_reg_vy(0x8AB0, 2);
    assert_eq!(cpu.get_reg_vx(0x0A00), 1);
    assert_eq!(cpu.get_reg_vy(0x00B0), 2);
    assert_eq!(cpu.get_reg_vy(0x8AB0), 2);
}

#[test]
fn power_on_state() {
    let cpu = Cpu::new();
    assert_eq!(cpu.reg_pc(), 0x200);
    assert_eq!(cpu.reg_i(), 0);
    assert_eq!(cpu.reg_dt(), 0);
    assert_eq!(cpu.reg_st(), 0);
    for r in 0..16 {
        assert_eq!(reg(&cpu, r), 0);
    }
    assert!(cpu.gfx().iter().all(|&p| p == PX_OFF));
}
