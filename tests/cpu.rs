use chip8::cpu::{Cpu, CpuState, Fault, KeyState, LoadError, PixelState};
use chip8::opcode::{dec_nnn, dec_xkk, dec_xyn, Opcode};

fn running(rom: &[u8]) -> Cpu {
    let mut cpu = Cpu::new();
    cpu.load(rom).unwrap();
    cpu
}

fn run(rom: &[u8], steps: usize) -> Cpu {
    let mut cpu = running(rom);
    for _ in 0..steps {
        cpu.step().unwrap();
    }
    cpu
}

fn lit(cpu: &Cpu) -> usize {
    cpu.display().iter().filter(|p| **p == PixelState::On).count()
}

#[test]
fn add_with_carry() {
    // V0 = 0xF0, V1 = 0x20, ADD V0, V1
    let cpu = run(&[0x60, 0xF0, 0x61, 0x20, 0x80, 0x14], 3);
    assert_eq!(cpu.registers()[0], 0x10);
    assert_eq!(cpu.registers()[0xF], 1);
}

#[test]
fn add_without_carry_clears_flag() {
    // VF = 1, V0 = 0x10, V1 = 0x20, ADD V0, V1
    let cpu = run(&[0x6F, 0x01, 0x60, 0x10, 0x61, 0x20, 0x80, 0x14], 4);
    assert_eq!(cpu.registers()[0], 0x30);
    assert_eq!(cpu.registers()[0xF], 0);
}

#[test]
fn add_all_pairs() {
    for a in [0u8, 1, 127, 128, 200, 255] {
        for b in [0u8, 1, 55, 56, 128, 255] {
            let cpu = run(&[0x60, a, 0x61, b, 0x80, 0x14], 3);
            assert_eq!(cpu.registers()[0] as u16, (a as u16 + b as u16) % 256);
            assert_eq!(cpu.registers()[0xF], if a as u16 + b as u16 > 255 { 1 } else { 0 });
        }
    }
}

#[test]
fn sub_when_greater() {
    let cpu = run(&[0x60, 0x30, 0x61, 0x10, 0x80, 0x15], 3);
    assert_eq!(cpu.registers()[0], 0x20);
    assert_eq!(cpu.registers()[0xF], 1);
}

#[test]
fn sub_when_not_greater_keeps_vx() {
    let cpu = run(&[0x6F, 0x01, 0x60, 0x10, 0x61, 0x10, 0x80, 0x15], 4);
    assert_eq!(cpu.registers()[0], 0x10);
    assert_eq!(cpu.registers()[0xF], 0);
    let cpu = run(&[0x60, 0x05, 0x61, 0x10, 0x80, 0x15], 3);
    assert_eq!(cpu.registers()[0], 0x05);
    assert_eq!(cpu.registers()[0xF], 0);
}

#[test]
fn subn_mutates_vy() {
    let cpu = run(&[0x60, 0x10, 0x61, 0x30, 0x80, 0x17], 3);
    assert_eq!(cpu.registers()[0], 0x10);
    assert_eq!(cpu.registers()[1], 0x20);
    assert_eq!(cpu.registers()[0xF], 1);
}

#[test]
fn shifts_ignore_vy() {
    let cpu = run(&[0x60, 0x05, 0x61, 0xFF, 0x80, 0x16], 3);
    assert_eq!(cpu.registers()[0], 0x02);
    assert_eq!(cpu.registers()[0xF], 1);
    let cpu = run(&[0x60, 0x81, 0x61, 0x00, 0x80, 0x1E], 3);
    assert_eq!(cpu.registers()[0], 0x02);
    assert_eq!(cpu.registers()[0xF], 1);
}

#[test]
fn logic_and_byte_ops() {
    // V0 = 0b1100, V1 = 0b1010: OR, then AND, then XOR into V2.., ADD byte wraps
    let cpu = run(
        &[0x60, 0x0C, 0x61, 0x0A, 0x82, 0x00, 0x82, 0x11, 0x83, 0x00, 0x83, 0x12, 0x84, 0x00,
          0x84, 0x13, 0x65, 0xFF, 0x75, 0x02],
        10,
    );
    assert_eq!(cpu.registers()[2], 0x0E);
    assert_eq!(cpu.registers()[3], 0x08);
    assert_eq!(cpu.registers()[4], 0x06);
    assert_eq!(cpu.registers()[5], 0x01);
}

#[test]
fn cls_blanks_display() {
    // I = font digit 0, draw it at (0, 0), then CLS
    let mut cpu = run(&[0xA0, 0x00, 0xD0, 0x05], 2);
    assert!(lit(&cpu) > 0);
    cpu.load(&[0xA0, 0x00, 0xD0, 0x05, 0x00, 0xE0]).unwrap();
    for _ in 0..3 {
        cpu.step().unwrap();
    }
    assert_eq!(lit(&cpu), 0);
    assert_eq!(cpu.display().len(), 64 * 32);
}

#[test]
fn draw_twice_restores() {
    let cpu = run(&[0x60, 0x3E, 0x61, 0x1E, 0xA0, 0x00, 0xD0, 0x15], 4);
    assert_eq!(cpu.registers()[0xF], 0);
    assert_eq!(lit(&cpu), 14);
    let cpu = run(&[0x60, 0x3E, 0x61, 0x1E, 0xA0, 0x00, 0xD0, 0x15, 0xD0, 0x15], 5);
    assert_eq!(lit(&cpu), 0);
    assert_eq!(cpu.registers()[0xF], 1);
}

#[test]
fn draw_wraps_around() {
    // digit 0 row 0 is 0xF0: four pixels from x = 62 wrap to columns 62, 63, 0, 1
    let cpu = run(&[0x60, 62, 0x61, 31, 0xA0, 0x00, 0xD0, 0x11], 4);
    let d = cpu.display();
    assert_eq!(d[64 * 31 + 62], PixelState::On);
    assert_eq!(d[64 * 31 + 63], PixelState::On);
    assert_eq!(d[64 * 31 + 0], PixelState::On);
    assert_eq!(d[64 * 31 + 1], PixelState::On);
    assert_eq!(lit(&cpu), 4);
}

#[test]
fn collision_sets_flag() {
    // draw digit 0 at (0,0), then digit 1 at (0,0): overlap gives VF = 1
    let cpu = run(&[0xA0, 0x00, 0xD0, 0x05, 0xA0, 0x05, 0xD0, 0x05], 4);
    assert_eq!(cpu.registers()[0xF], 1);
    // digit 0 at (0,0), then at (8,0): no overlap, VF = 0
    let cpu = run(&[0xA0, 0x00, 0xD0, 0x05, 0x60, 0x08, 0xD0, 0x05], 4);
    assert_eq!(cpu.registers()[0xF], 0);
    assert_eq!(lit(&cpu), 28);
}

#[test]
fn call_then_return() {
    let mut rom = vec![0u8; 0x102];
    rom[0] = 0x23;
    rom[1] = 0x00;
    rom[0x100] = 0x00;
    rom[0x101] = 0xEE;
    let mut cpu = running(&rom);
    cpu.step().unwrap();
    assert_eq!(cpu.program_counter(), 0x300);
    assert_eq!(cpu.stack_pointer(), 1);
    assert_eq!(cpu.stack()[0], 0x200);
    cpu.step().unwrap();
    assert_eq!(cpu.program_counter(), 0x202);
    assert_eq!(cpu.stack_pointer(), 0);
}

#[test]
fn delay_timer_decays_to_zero() {
    let mut cpu = running(&[0x60, 0x05, 0xF0, 0x15, 0, 0, 0, 0, 0, 0, 0, 0, 0, 0, 0, 0]);
    cpu.step().unwrap();
    cpu.step().unwrap();
    let mut seen = vec![];
    for _ in 0..5 {
        cpu.step().unwrap();
        seen.push(cpu.delay_timer());
    }
    assert_eq!(seen, vec![3, 2, 1, 0, 0]);
    assert_eq!(cpu.delay_timer(), 0);
}

#[test]
fn sound_timer_and_read_back() {
    // V0 = 3, ST = V0, DT = V0, V1 = DT
    let cpu = run(&[0x60, 0x03, 0xF0, 0x18, 0xF0, 0x15, 0xF1, 0x07], 4);
    // each step ticks both timers once after its instruction
    assert_eq!(cpu.registers()[1], 2);
    assert_eq!(cpu.sound_timer(), 0);
    assert_eq!(cpu.delay_timer(), 1);
}

#[test]
fn key_wait() {
    let mut cpu = running(&[0xF3, 0x0A, 0x64, 0x2A]);
    cpu.step().unwrap();
    assert!(matches!(cpu.state(), CpuState::WaitInput(3)));
    for _ in 0..5 {
        cpu.step().unwrap();
        assert!(matches!(cpu.state(), CpuState::WaitInput(3)));
        assert_eq!(cpu.program_counter(), 0x202);
    }
    cpu.set_key(7, KeyState::Down);
    cpu.step().unwrap();
    assert_eq!(cpu.registers()[3], 7);
    assert!(matches!(cpu.state(), CpuState::Running));
    assert_eq!(cpu.program_counter(), 0x202);
    cpu.step().unwrap();
    assert_eq!(cpu.registers()[4], 0x2A);
    assert_eq!(cpu.program_counter(), 0x204);
}

#[test]
fn key_up_leaves_no_event() {
    let mut cpu = running(&[0xF3, 0x0A]);
    cpu.step().unwrap();
    cpu.set_key(2, KeyState::Up);
    cpu.step().unwrap();
    assert!(matches!(cpu.state(), CpuState::WaitInput(3)));
}

#[test]
fn skip_on_key() {
    // V0 = 5; SKP V0; V1 = 1; V2 = 2
    let rom = [0x60, 0x05, 0xE0, 0x9E, 0x61, 0x01, 0x62, 0x02];
    let mut cpu = running(&rom);
    cpu.set_key(5, KeyState::Down);
    for _ in 0..3 {
        cpu.step().unwrap();
    }
    assert_eq!(cpu.registers()[1], 0);
    assert_eq!(cpu.registers()[2], 2);
    let mut cpu = running(&[0x60, 0x05, 0xE0, 0xA1, 0x61, 0x01]);
    for _ in 0..2 {
        cpu.step().unwrap();
    }
    assert_eq!(cpu.program_counter(), 0x206);
}

#[test]
fn skips_on_compare() {
    let cpu = run(&[0x60, 0x07, 0x30, 0x07], 2);
    assert_eq!(cpu.program_counter(), 0x206);
    let cpu = run(&[0x60, 0x07, 0x40, 0x07], 2);
    assert_eq!(cpu.program_counter(), 0x204);
    let cpu = run(&[0x60, 0x07, 0x61, 0x07, 0x50, 0x10], 3);
    assert_eq!(cpu.program_counter(), 0x208);
    let cpu = run(&[0x60, 0x07, 0x61, 0x07, 0x90, 0x10], 3);
    assert_eq!(cpu.program_counter(), 0x206);
}

#[test]
fn bcd_store() {
    let cpu = run(&[0x60, 157, 0xA3, 0x00, 0xF0, 0x33], 3);
    assert_eq!(&cpu.memory()[0x300..0x303], &[1, 5, 7]);
}

#[test]
fn register_dump_load_round_trip() {
    let rom = [
        0x60, 0x11, 0x61, 0x22, 0x62, 0x33, 0x63, 0x44, 0xA3, 0x00, 0xF3, 0x55, 0x60, 0x00,
        0x61, 0x00, 0x62, 0x00, 0x63, 0x00, 0xF3, 0x65,
    ];
    let mut cpu = running(&rom);
    for _ in 0..6 {
        cpu.step().unwrap();
    }
    assert_eq!(&cpu.memory()[0x300..0x304], &[0x11, 0x22, 0x33, 0x44]);
    for _ in 0..5 {
        cpu.step().unwrap();
    }
    assert_eq!(&cpu.registers()[0..4], &[0x11, 0x22, 0x33, 0x44]);
    assert_eq!(cpu.i(), 0x300);
}

#[test]
fn jumps() {
    let cpu = run(&[0x12, 0x34], 1);
    assert_eq!(cpu.program_counter(), 0x234);
    let cpu = run(&[0x60, 0x10, 0xB3, 0x00], 2);
    assert_eq!(cpu.program_counter(), 0x310);
}

#[test]
fn index_register_ops() {
    // I = 0x123; V0 = 0x10; I += V0; V1 = 0xA; I = sprite(V1)
    let cpu = run(&[0xA1, 0x23, 0x60, 0x10, 0xF0, 0x1E], 3);
    assert_eq!(cpu.i(), 0x133);
    let cpu = run(&[0x61, 0x0A, 0xF1, 0x29], 2);
    assert_eq!(cpu.i(), 50);
    assert_eq!(&cpu.memory()[50..55], &[0xF0, 0x90, 0xF0, 0x90, 0x90]);
}

#[test]
fn random_is_masked() {
    let mut cpu = running(&[0xC0, 0x0F]);
    cpu.step_with(0xAB).unwrap();
    assert_eq!(cpu.registers()[0], 0x0B);
    for _ in 0..20 {
        let mut cpu = running(&[0xC0, 0x0F]);
        cpu.step().unwrap();
        assert!(cpu.registers()[0] <= 0x0F);
    }
}

#[test]
fn sys_is_no_op() {
    let cpu = run(&[0x01, 0x23], 1);
    assert_eq!(cpu.program_counter(), 0x202);
    assert_eq!(cpu.registers(), &[0u8; 16]);
}

#[test]
fn unknown_opcode_halts() {
    let mut cpu = running(&[0x80, 0x08]);
    assert_eq!(cpu.step(), Err(Fault::UnknownOpcode(0x8008)));
    assert!(matches!(cpu.state(), CpuState::Halt));
    assert_eq!(cpu.program_counter(), 0x200);
    assert_eq!(cpu.step(), Ok(()));
    assert_eq!(cpu.program_counter(), 0x200);
}

#[test]
fn return_without_call_faults() {
    let mut cpu = running(&[0x00, 0xEE]);
    assert_eq!(cpu.step(), Err(Fault::StackUnderflow));
    assert!(matches!(cpu.state(), CpuState::Halt));
}

#[test]
fn call_depth_limit() {
    let mut cpu = running(&[0x22, 0x00]);
    for _ in 0..16 {
        cpu.step().unwrap();
    }
    assert_eq!(cpu.stack_pointer(), 16);
    assert_eq!(cpu.step(), Err(Fault::StackOverflow));
    assert_eq!(cpu.stack_pointer(), 16);
}

#[test]
fn memory_faults() {
    // jump to the last byte: the fetch runs off the end
    let mut cpu = running(&[0x1F, 0xFF]);
    cpu.step().unwrap();
    assert_eq!(cpu.step(), Err(Fault::MemoryOutOfBounds));
    // BCD store at 0xFFE
    let mut cpu = running(&[0xAF, 0xFE, 0xF0, 0x33]);
    cpu.step().unwrap();
    assert_eq!(cpu.step(), Err(Fault::MemoryOutOfBounds));
    assert_eq!(cpu.memory()[0xFFE], 0);
    // sprite rows past the end
    let mut cpu = running(&[0xAF, 0xFE, 0xD0, 0x05]);
    cpu.step().unwrap();
    assert_eq!(cpu.step(), Err(Fault::MemoryOutOfBounds));
    // register dump past the end
    let mut cpu = running(&[0xAF, 0xFE, 0xF3, 0x55]);
    cpu.step().unwrap();
    assert_eq!(cpu.step(), Err(Fault::MemoryOutOfBounds));
    let mut cpu = running(&[0xAF, 0xFE, 0xF3, 0x65]);
    cpu.step().unwrap();
    assert_eq!(cpu.step(), Err(Fault::MemoryOutOfBounds));
}

#[test]
fn key_out_of_range_faults() {
    let mut cpu = running(&[0x60, 0x20, 0xE0, 0x9E]);
    cpu.step().unwrap();
    assert_eq!(cpu.step(), Err(Fault::KeyOutOfRange(0x20)));
    assert!(matches!(cpu.state(), CpuState::Halt));
}

#[test]
fn load_installs_font_and_program() {
    let cpu = running(&[0xAB, 0xCD]);
    assert_eq!(&cpu.memory()[0..5], &[0xF0, 0x90, 0x90, 0x90, 0xF0]);
    assert_eq!(&cpu.memory()[75..80], &[0xF0, 0x80, 0xF0, 0x80, 0x80]);
    assert_eq!(&cpu.memory()[0x200..0x202], &[0xAB, 0xCD]);
    assert_eq!(cpu.program_counter(), 0x200);
    assert!(matches!(cpu.state(), CpuState::Running));
}

#[test]
fn load_rejects_large_rom() {
    let mut cpu = Cpu::new();
    let rom = vec![0u8; 4096 - 0x200 + 1];
    assert_eq!(cpu.load(&rom), Err(LoadError::RomTooLarge(3585)));
    assert!(matches!(cpu.state(), CpuState::Halt));
    let rom = vec![0x12u8; 4096 - 0x200];
    assert_eq!(cpu.load(&rom), Ok(()));
    assert_eq!(cpu.memory()[4095], 0x12);
}

#[test]
fn load_too_large_halts_running_machine() {
    let mut cpu = run(&[0x60, 0x05, 0x61, 0x06], 1);
    assert!(matches!(cpu.state(), CpuState::Running));
    let rom = vec![0u8; 4096];
    assert_eq!(cpu.load(&rom), Err(LoadError::RomTooLarge(4096)));
    assert!(matches!(cpu.state(), CpuState::Halt));
    assert_eq!(cpu.registers()[0], 5);
    assert_eq!(cpu.program_counter(), 0x202);
}

#[test]
fn reset_and_halt() {
    let mut cpu = run(&[0x60, 0x05, 0xF0, 0x15], 2);
    cpu.halt();
    assert!(matches!(cpu.state(), CpuState::Halt));
    cpu.step().unwrap();
    assert_eq!(cpu.program_counter(), 0x204);
    cpu.reset();
    assert_eq!(cpu.program_counter(), 0);
    assert_eq!(cpu.delay_timer(), 0);
    assert_eq!(cpu.memory()[0], 0);
    assert!(matches!(cpu.state(), CpuState::Halt));
}

#[test]
fn update_timers_floor() {
    let mut cpu = run(&[0x60, 0x01, 0xF0, 0x18], 2);
    assert_eq!(cpu.sound_timer(), 0);
    cpu.update_timers();
    assert_eq!(cpu.sound_timer(), 0);
}

#[test]
fn peek_does_not_execute() {
    let cpu = running(&[0xD1, 0x25]);
    assert_eq!(cpu.peek(), Ok(Opcode::DRW_Vx_Vy_nibble(1, 2, 5)));
    assert_eq!(cpu.program_counter(), 0x200);
    let cpu = running(&[0xE0, 0xFF]);
    assert_eq!(cpu.peek(), Err(Fault::UnknownOpcode(0xE0FF)));
}

#[test]
fn execute_applies_decoded() {
    let mut cpu = running(&[]);
    cpu.execute(Opcode::LD_Vx_byte(2, 9), 0).unwrap();
    assert_eq!(cpu.registers()[2], 9);
    assert_eq!(cpu.program_counter(), 0x202);
    assert_eq!(cpu.execute(Opcode::RET, 0), Err(Fault::StackUnderflow));
    assert_eq!(cpu.program_counter(), 0x202);
}

#[test]
fn toggle_pixel() {
    let mut p = PixelState::Off;
    p.toggle();
    assert_eq!(p, PixelState::On);
    p.toggle();
    assert_eq!(p, PixelState::Off);
}

#[test]
fn field_splitters() {
    assert_eq!(dec_xkk(0x6A5C), (0xA, 0x5C));
    assert_eq!(dec_nnn(0x1ABC), 0xABC);
    assert_eq!(dec_xyn(0xD12F), (1, 2, 0xF));
}

#[test]
fn decode_table() {
    let cases = [
        (0x00E0, Some(Opcode::CLS)),
        (0x00EE, Some(Opcode::RET)),
        (0x0123, Some(Opcode::SYS_addr(0x123))),
        (0x1234, Some(Opcode::JP_addr(0x234))),
        (0x2345, Some(Opcode::CALL_addr(0x345))),
        (0x3A12, Some(Opcode::SE_Vx_byte(0xA, 0x12))),
        (0x4A12, Some(Opcode::SNE_Vx_byte(0xA, 0x12))),
        (0x5AB0, Some(Opcode::SE_Vx_Vy(0xA, 0xB))),
        (0x5AB1, None),
        (0x6A12, Some(Opcode::LD_Vx_byte(0xA, 0x12))),
        (0x7A12, Some(Opcode::ADD_Vx_byte(0xA, 0x12))),
        (0x8AB0, Some(Opcode::LD_Vx_Vy(0xA, 0xB))),
        (0x8AB1, Some(Opcode::OR_Vx_Vy(0xA, 0xB))),
        (0x8AB2, Some(Opcode::AND_Vx_Vy(0xA, 0xB))),
        (0x8AB3, Some(Opcode::XOR_Vx_Vy(0xA, 0xB))),
        (0x8AB4, Some(Opcode::ADD_Vx_Vy(0xA, 0xB))),
        (0x8AB5, Some(Opcode::SUB_Vx_Vy(0xA, 0xB))),
        (0x8AB6, Some(Opcode::SHR_Vx_Vy(0xA, 0xB))),
        (0x8AB7, Some(Opcode::SUBN_Vx_Vy(0xA, 0xB))),
        (0x8ABE, Some(Opcode::SHL_Vx_Vy(0xA, 0xB))),
        (0x8AB8, None),
        (0x9AB0, Some(Opcode::SNE_Vx_Vy(0xA, 0xB))),
        (0x9AB1, None),
        (0xA123, Some(Opcode::LD_I_addr(0x123))),
        (0xB123, Some(Opcode::JP_V0_addr(0x123))),
        (0xCA12, Some(Opcode::RND_Vx_byte(0xA, 0x12))),
        (0xDAB5, Some(Opcode::DRW_Vx_Vy_nibble(0xA, 0xB, 5))),
        (0xEA9E, Some(Opcode::SKP_Vx(0xA))),
        (0xEAA1, Some(Opcode::SKNP_Vx(0xA))),
        (0xEA00, None),
        (0xFA07, Some(Opcode::LD_Vx_DT(0xA))),
        (0xFA0A, Some(Opcode::LD_Vx_K(0xA))),
        (0xFA15, Some(Opcode::LD_DT_Vx(0xA))),
        (0xFA18, Some(Opcode::LD_ST_Vx(0xA))),
        (0xFA1E, Some(Opcode::ADD_I_Vx(0xA))),
        (0xFA29, Some(Opcode::LD_F_Vx(0xA))),
        (0xFA33, Some(Opcode::LD_B_Vx(0xA))),
        (0xFA55, Some(Opcode::LD_I_Vx(0xA))),
        (0xFA65, Some(Opcode::LD_Vx_I(0xA))),
        (0xFAFF, None),
    ];
    for (op, expected) in cases {
        assert_eq!(Opcode::decode(op), expected, "opcode {:04X}", op);
    }
}
