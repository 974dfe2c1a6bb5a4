use chip8::{
    decode_word, Chip8, ExecError, Instruction, Memory, CPU, DISPLAY_HEIGHT, DISPLAY_WIDTH,
    MEMORY_START_OFFSET,
};

fn run(cpu: &mut CPU, mem: &mut Memory, ins: Instruction) {
    assert_eq!(cpu.execute_with_random(mem, &ins, 0), Ok(()));
}

fn lit_pixels(cpu: &CPU) -> usize {
    let mut count = 0;
    for x in 0..DISPLAY_WIDTH {
        for y in 0..DISPLAY_HEIGHT {
            if cpu.vram()[x][y] != 0 {
                count += 1;
            }
        }
    }
    count
}

#[test]
fn test_digits() {
    let mut cpu = CPU::new();
    let mut mem = Memory::new();
    run(&mut cpu, &mut mem, Instruction::LD(0, 156));
    run(&mut cpu, &mut mem, Instruction::LDI(0x300));
    run(&mut cpu, &mut mem, Instruction::LDB(0));
    assert_eq!(mem.read(0x302), 6);
    assert_eq!(mem.read(0x301), 5);
    assert_eq!(mem.read(0x300), 1);
}

#[test]
fn test_0x6_bit_masking() {
    let high: u8 = 0x61;
    let low: u8 = 0x1f;
    assert_eq!(0x6, high >> 4);
    assert_eq!(0x1, high & 0xf);
    assert_eq!(0x1f, low);
    assert_eq!(decode_word(high, low), Instruction::LD(0x1, 0x1f));
}

#[test]
fn test_0x1_bit_masking() {
    let high: u8 = 0x12;
    let low: u8 = 0x08;
    assert_eq!(decode_word(high, low), Instruction::JP(0x208));
}

#[test]
fn test_0x8xy2_bit_masking() {
    let high: u8 = 0x8a;
    let low: u8 = 0x12;
    let cpu = CPU::new();
    assert_eq!(cpu.decode(high, low), Instruction::AND(0xa, 0x1));
}

#[test]
fn decode_covers_table() {
    assert_eq!(decode_word(0x00, 0xE0), Instruction::CLS);
    assert_eq!(decode_word(0x00, 0xEE), Instruction::RET);
    assert_eq!(decode_word(0x2A, 0xBC), Instruction::CALL(0xABC));
    assert_eq!(decode_word(0x35, 0x07), Instruction::SE(5, 7));
    assert_eq!(decode_word(0x45, 0x07), Instruction::SNE(5, 7));
    assert_eq!(decode_word(0x7E, 0xFF), Instruction::ADD(0xE, 0xFF));
    assert_eq!(decode_word(0x81, 0x20), Instruction::LDR(1, 2));
    assert_eq!(decode_word(0x81, 0x23), Instruction::XOR(1, 2));
    assert_eq!(decode_word(0x81, 0x24), Instruction::ADDC(1, 2));
    assert_eq!(decode_word(0x81, 0x25), Instruction::SUB(1, 2));
    assert_eq!(decode_word(0xA1, 0x23), Instruction::LDI(0x123));
    assert_eq!(decode_word(0xC3, 0x0F), Instruction::RND(3, 0x0F));
    assert_eq!(decode_word(0xD1, 0x25), Instruction::DRW(1, 2, 5));
    assert_eq!(decode_word(0xF4, 0x07), Instruction::DTLD(4));
    assert_eq!(decode_word(0xF4, 0x15), Instruction::LDDT(4));
    assert_eq!(decode_word(0xF4, 0x18), Instruction::LDST(4));
    assert_eq!(decode_word(0xF4, 0x1E), Instruction::ADDI(4));
    assert_eq!(decode_word(0xF4, 0x29), Instruction::LDF(4));
    assert_eq!(decode_word(0xF4, 0x33), Instruction::LDB(4));
    assert_eq!(decode_word(0xF4, 0x55), Instruction::LDRM(4));
    assert_eq!(decode_word(0xF4, 0x65), Instruction::LDV(4));
}

#[test]
fn decode_unknown_words() {
    assert_eq!(decode_word(0x00, 0x00), Instruction::Unknown(0x00, 0x00));
    assert_eq!(decode_word(0x81, 0x21), Instruction::Unknown(0x81, 0x21));
    assert_eq!(decode_word(0xB1, 0x23), Instruction::Unknown(0xB1, 0x23));
    assert_eq!(decode_word(0xE1, 0x9E), Instruction::Unknown(0xE1, 0x9E));
    assert_eq!(decode_word(0xF1, 0x0A), Instruction::Unknown(0xF1, 0x0A));
}

#[test]
fn add_wraps_round() {
    let mut cpu = CPU::new();
    let mut mem = Memory::new();
    run(&mut cpu, &mut mem, Instruction::LD(2, 200));
    run(&mut cpu, &mut mem, Instruction::ADD(2, 100));
    assert_eq!(cpu.register(2), 44);
}

#[test]
fn addc_overflow_keeps_destination() {
    let mut cpu = CPU::new();
    let mut mem = Memory::new();
    run(&mut cpu, &mut mem, Instruction::LD(1, 200));
    run(&mut cpu, &mut mem, Instruction::LD(2, 100));
    run(&mut cpu, &mut mem, Instruction::ADDC(1, 2));
    assert_eq!(cpu.register(1), 200);
    assert_eq!(cpu.register(15), 1);
}

#[test]
fn addc_exactly_256_overflows() {
    let mut cpu = CPU::new();
    let mut mem = Memory::new();
    run(&mut cpu, &mut mem, Instruction::LD(1, 128));
    run(&mut cpu, &mut mem, Instruction::LD(2, 128));
    run(&mut cpu, &mut mem, Instruction::ADDC(1, 2));
    assert_eq!(cpu.register(1), 128);
    assert_eq!(cpu.register(15), 1);
}

#[test]
fn addc_without_carry_leaves_flag() {
    let mut cpu = CPU::new();
    let mut mem = Memory::new();
    run(&mut cpu, &mut mem, Instruction::LD(15, 7));
    run(&mut cpu, &mut mem, Instruction::LD(1, 100));
    run(&mut cpu, &mut mem, Instruction::LD(2, 155));
    run(&mut cpu, &mut mem, Instruction::ADDC(1, 2));
    assert_eq!(cpu.register(1), 255);
    assert_eq!(cpu.register(15), 7);
}

#[test]
fn sub_when_greater() {
    let mut cpu = CPU::new();
    let mut mem = Memory::new();
    run(&mut cpu, &mut mem, Instruction::LD(1, 50));
    run(&mut cpu, &mut mem, Instruction::LD(2, 20));
    run(&mut cpu, &mut mem, Instruction::SUB(1, 2));
    assert_eq!(cpu.register(1), 30);
    assert_eq!(cpu.register(15), 1);
}

#[test]
fn sub_when_not_greater_changes_nothing() {
    let mut cpu = CPU::new();
    let mut mem = Memory::new();
    run(&mut cpu, &mut mem, Instruction::LD(15, 9));
    run(&mut cpu, &mut mem, Instruction::LD(1, 20));
    run(&mut cpu, &mut mem, Instruction::LD(2, 20));
    run(&mut cpu, &mut mem, Instruction::SUB(1, 2));
    assert_eq!(cpu.register(1), 20);
    assert_eq!(cpu.register(15), 9);
    run(&mut cpu, &mut mem, Instruction::LD(2, 30));
    run(&mut cpu, &mut mem, Instruction::SUB(1, 2));
    assert_eq!(cpu.register(1), 20);
    assert_eq!(cpu.register(15), 9);
}

#[test]
fn bitwise_and_transfer() {
    let mut cpu = CPU::new();
    let mut mem = Memory::new();
    run(&mut cpu, &mut mem, Instruction::LD(1, 0b1100));
    run(&mut cpu, &mut mem, Instruction::LD(2, 0b1010));
    run(&mut cpu, &mut mem, Instruction::LDR(3, 1));
    run(&mut cpu, &mut mem, Instruction::AND(3, 2));
    assert_eq!(cpu.register(3), 0b1000);
    run(&mut cpu, &mut mem, Instruction::XOR(1, 2));
    assert_eq!(cpu.register(1), 0b0110);
}

#[test]
fn cls_blanks_screen() {
    let mut cpu = CPU::new();
    let mut mem = Memory::from_rom(&[]);
    run(&mut cpu, &mut mem, Instruction::LD(0, 0xF));
    run(&mut cpu, &mut mem, Instruction::LDF(0));
    run(&mut cpu, &mut mem, Instruction::DRW(1, 2, 5));
    assert!(lit_pixels(&cpu) > 0);
    run(&mut cpu, &mut mem, Instruction::CLS);
    assert_eq!(lit_pixels(&cpu), 0);
}

#[test]
fn draw_twice_restores_screen() {
    let mut cpu = CPU::new();
    let mut mem = Memory::from_rom(&[]);
    run(&mut cpu, &mut mem, Instruction::LD(1, 60));
    run(&mut cpu, &mut mem, Instruction::LD(2, 30));
    run(&mut cpu, &mut mem, Instruction::LD(3, 0x8));
    run(&mut cpu, &mut mem, Instruction::LDF(3));
    run(&mut cpu, &mut mem, Instruction::DRW(2, 2, 5));
    let before: Vec<Vec<u8>> = cpu.vram().iter().map(|c| c.to_vec()).collect();
    run(&mut cpu, &mut mem, Instruction::DRW(1, 2, 5));
    assert_ne!(lit_pixels(&cpu), 0);
    run(&mut cpu, &mut mem, Instruction::DRW(1, 2, 5));
    let after: Vec<Vec<u8>> = cpu.vram().iter().map(|c| c.to_vec()).collect();
    assert_eq!(before, after);
}

#[test]
fn draw_wraps_and_sets_flag() {
    let mut cpu = CPU::new();
    let mut mem = Memory::new();
    mem.write(0x300, 0xFF);
    run(&mut cpu, &mut mem, Instruction::LDI(0x300));
    run(&mut cpu, &mut mem, Instruction::LD(1, 62));
    run(&mut cpu, &mut mem, Instruction::LD(2, 31));
    run(&mut cpu, &mut mem, Instruction::DRW(1, 2, 1));
    assert_eq!(cpu.vram()[62][31], 1);
    assert_eq!(cpu.vram()[63][31], 1);
    assert_eq!(cpu.vram()[0][31], 1);
    assert_eq!(cpu.vram()[5][31], 1);
    assert_eq!(cpu.vram()[6][31], 0);
    assert_eq!(lit_pixels(&cpu), 8);
    assert_eq!(cpu.register(15), 0);
    run(&mut cpu, &mut mem, Instruction::DRW(1, 2, 1));
    assert_eq!(lit_pixels(&cpu), 0);
    assert_eq!(cpu.register(15), 1);
}

#[test]
fn draw_flag_reflects_last_bit_only() {
    let mut cpu = CPU::new();
    let mut mem = Memory::new();
    mem.write(0x300, 0x80);
    mem.write(0x301, 0xFE);
    run(&mut cpu, &mut mem, Instruction::LDI(0x300));
    run(&mut cpu, &mut mem, Instruction::DRW(0, 0, 1));
    run(&mut cpu, &mut mem, Instruction::LDI(0x301));
    run(&mut cpu, &mut mem, Instruction::DRW(0, 0, 1));
    assert_eq!(cpu.vram()[0][0], 0);
    assert_eq!(cpu.register(15), 0);
}

#[test]
fn ldb_stores_digits_of_156() {
    let mut cpu = CPU::new();
    let mut mem = Memory::new();
    run(&mut cpu, &mut mem, Instruction::LD(4, 156));
    run(&mut cpu, &mut mem, Instruction::LDI(0x400));
    run(&mut cpu, &mut mem, Instruction::LDB(4));
    assert_eq!((mem.read(0x400), mem.read(0x401), mem.read(0x402)), (1, 5, 6));
}

#[test]
fn call_then_ret_returns_after_call() {
    let rom = [0x22u8, 0x06, 0x00, 0x00, 0x00, 0x00, 0x00, 0xEE];
    let mut machine = Chip8::from_rom(&rom);
    assert_eq!(machine.cpu.pc(), 0x200);
    assert_eq!(machine.cycle(), Ok(()));
    assert_eq!(machine.cpu.pc(), 0x206);
    assert_eq!(machine.cpu.stack_depth(), 1);
    assert_eq!(machine.cycle(), Ok(()));
    assert_eq!(machine.cpu.pc(), 0x202);
    assert_eq!(machine.cpu.stack_depth(), 0);
}

#[test]
fn delay_timer_runs_down_to_zero() {
    let mut cpu = CPU::new();
    let mut mem = Memory::new();
    run(&mut cpu, &mut mem, Instruction::LD(0, 5));
    run(&mut cpu, &mut mem, Instruction::LDDT(0));
    assert_eq!(cpu.delay_timer(), 5);
    for _ in 0..5 {
        run(&mut cpu, &mut mem, Instruction::LD(1, 1));
    }
    assert_eq!(cpu.delay_timer(), 0);
    for _ in 0..3 {
        run(&mut cpu, &mut mem, Instruction::LD(1, 1));
    }
    assert_eq!(cpu.delay_timer(), 0);
}

#[test]
fn sound_timer_and_dtld() {
    let mut cpu = CPU::new();
    let mut mem = Memory::new();
    assert!(!cpu.play_sound());
    run(&mut cpu, &mut mem, Instruction::LD(0, 2));
    run(&mut cpu, &mut mem, Instruction::LDST(0));
    assert_eq!(cpu.sound_timer(), 2);
    assert!(cpu.play_sound());
    run(&mut cpu, &mut mem, Instruction::LDDT(0));
    run(&mut cpu, &mut mem, Instruction::DTLD(3));
    assert_eq!(cpu.register(3), 1);
    run(&mut cpu, &mut mem, Instruction::CLS);
    assert!(!cpu.play_sound());
}

#[test]
fn ldf_points_at_glyph() {
    let mut cpu = CPU::new();
    let mut mem = Memory::from_rom(&[]);
    run(&mut cpu, &mut mem, Instruction::LD(0, 0xA));
    run(&mut cpu, &mut mem, Instruction::LDF(0));
    assert_eq!(cpu.index(), 50);
    assert_eq!(mem.read(50), 0xF0);
    assert_eq!(mem.read(51), 0x90);
}

#[test]
fn skips_on_compare() {
    let mut cpu = CPU::from_pc(0x200);
    let mut mem = Memory::new();
    run(&mut cpu, &mut mem, Instruction::LD(0, 7));
    run(&mut cpu, &mut mem, Instruction::SE(0, 7));
    assert_eq!(cpu.pc(), 0x202);
    run(&mut cpu, &mut mem, Instruction::SE(0, 8));
    assert_eq!(cpu.pc(), 0x202);
    run(&mut cpu, &mut mem, Instruction::SNE(0, 8));
    assert_eq!(cpu.pc(), 0x204);
    run(&mut cpu, &mut mem, Instruction::SNE(0, 7));
    assert_eq!(cpu.pc(), 0x204);
    run(&mut cpu, &mut mem, Instruction::JP(0x300));
    assert_eq!(cpu.pc(), 0x300);
}

#[test]
fn register_block_copies_exclude_last() {
    let mut cpu = CPU::new();
    let mut mem = Memory::new();
    run(&mut cpu, &mut mem, Instruction::LD(0, 10));
    run(&mut cpu, &mut mem, Instruction::LD(1, 11));
    run(&mut cpu, &mut mem, Instruction::LD(2, 12));
    run(&mut cpu, &mut mem, Instruction::LDI(0x500));
    run(&mut cpu, &mut mem, Instruction::LDRM(2));
    assert_eq!(mem.read(0x500), 10);
    assert_eq!(mem.read(0x501), 11);
    assert_eq!(mem.read(0x502), 0);
    mem.write(0x500, 20);
    mem.write(0x501, 21);
    mem.write(0x502, 22);
    run(&mut cpu, &mut mem, Instruction::LDV(2));
    assert_eq!(cpu.register(0), 20);
    assert_eq!(cpu.register(1), 21);
    assert_eq!(cpu.register(2), 12);
}

#[test]
fn addi_adds_register() {
    let mut cpu = CPU::new();
    let mut mem = Memory::new();
    run(&mut cpu, &mut mem, Instruction::LDI(0x100));
    run(&mut cpu, &mut mem, Instruction::LD(5, 0x20));
    run(&mut cpu, &mut mem, Instruction::ADDI(5));
    assert_eq!(cpu.index(), 0x120);
}

#[test]
fn rnd_masks_byte() {
    let mut cpu = CPU::new();
    let mut mem = Memory::new();
    assert_eq!(cpu.execute_with_random(&mut mem, &Instruction::RND(1, 0x0F), 0xAB), Ok(()));
    assert_eq!(cpu.register(1), 0x0B);
    assert_eq!(cpu.execute(&mut mem, &Instruction::RND(2, 0x00)), Ok(()));
    assert_eq!(cpu.register(2), 0);
    assert_eq!(cpu.execute(&mut mem, &Instruction::RND(3, 0x03)), Ok(()));
    assert!(cpu.register(3) <= 3);
}

#[test]
fn unknown_instruction_is_an_error() {
    let mut cpu = CPU::new();
    let mut mem = Memory::new();
    assert_eq!(
        cpu.execute(&mut mem, &Instruction::Unknown(0xB1, 0x23)),
        Err(ExecError::UnknownInstruction(0xB1, 0x23))
    );
}

#[test]
fn ret_on_empty_stack_is_an_error() {
    let mut cpu = CPU::new();
    let mut mem = Memory::new();
    assert_eq!(cpu.execute(&mut mem, &Instruction::RET), Err(ExecError::StackUnderflow));
}

#[test]
fn out_of_range_accesses_are_errors() {
    let mut cpu = CPU::new();
    let mut mem = Memory::new();
    run(&mut cpu, &mut mem, Instruction::LDI(0xFFE));
    assert_eq!(cpu.execute(&mut mem, &Instruction::LDB(0)), Err(ExecError::AddressOutOfRange));
    assert_eq!(cpu.execute(&mut mem, &Instruction::DRW(0, 0, 3)), Err(ExecError::AddressOutOfRange));
    assert_eq!(cpu.execute(&mut mem, &Instruction::LDRM(3)), Err(ExecError::AddressOutOfRange));
    assert_eq!(cpu.execute(&mut mem, &Instruction::LDV(3)), Err(ExecError::AddressOutOfRange));
    assert_eq!(cpu.execute(&mut mem, &Instruction::DRW(0, 0, 2)), Ok(()));
    let mut high = CPU::from_pc(0xFFFE);
    run(&mut high, &mut mem, Instruction::LD(0, 1));
    assert_eq!(high.execute(&mut mem, &Instruction::SE(0, 1)), Err(ExecError::AddressOutOfRange));
    run(&mut high, &mut mem, Instruction::LDI(0xFFFF));
    assert_eq!(high.execute(&mut mem, &Instruction::ADDI(0)), Err(ExecError::AddressOutOfRange));
}

#[test]
fn cycle_past_memory_is_an_error() {
    let rom = [0x1Fu8, 0xFF];
    let mut machine = Chip8::from_rom(&rom);
    assert_eq!(machine.cycle(), Ok(()));
    assert_eq!(machine.cpu.pc(), 0xFFF);
    assert_eq!(machine.cycle(), Err(ExecError::AddressOutOfRange));
}

#[test]
fn rom_image_layout() {
    let mem = Memory::from_rom(&[0xAB, 0xCD]);
    assert_eq!(mem.read(0), 0xF0);
    assert_eq!(mem.read(79), 0x80);
    assert_eq!(mem.read(80), 0);
    assert_eq!(mem.read(MEMORY_START_OFFSET as u16), 0xAB);
    assert_eq!(mem.read(MEMORY_START_OFFSET as u16 + 1), 0xCD);
    assert_eq!(mem.read(MEMORY_START_OFFSET as u16 + 2), 0);
    let full = vec![7u8; 4096 - MEMORY_START_OFFSET];
    let big = Memory::from_rom(&full);
    assert_eq!(big.read(4095), 7);
}

#[test]
fn keypad_flags() {
    let mut cpu = CPU::new();
    assert!(!cpu.is_key_pressed(3));
    cpu.set_key(3);
    assert!(cpu.is_key_pressed(3));
    cpu.reset_key(3);
    assert!(!cpu.is_key_pressed(3));
}
