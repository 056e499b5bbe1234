use chip8::decode::Instruction;
use chip8::error::{Chip8Error, RomTooLarge};
use chip8::font::FONTSET;
use chip8::host::{Control, HostEvent, Tile};
use chip8::machine::Chip8;

fn machine_with(program: &[u16]) -> Chip8 {
    let mut rom = Vec::new();
    for opcode in program {
        rom.push((opcode >> 8) as u8);
        rom.push((opcode & 0xFF) as u8);
    }
    let mut vm = Chip8::new();
    vm.load(&rom).unwrap();
    vm
}

fn run(vm: &mut Chip8, steps: usize) {
    for _ in 0..steps {
        vm.step().unwrap();
    }
}

fn snapshot(vm: &Chip8) -> (Vec<u8>, Vec<u8>, u16, u16, Vec<u16>, Vec<bool>, u8, u8, Vec<bool>) {
    (
        vm.registers().to_vec(),
        vm.memory().to_vec(),
        vm.index(),
        vm.pc(),
        vm.stack().to_vec(),
        vm.screen().pixels().to_vec(),
        vm.delay_timer(),
        vm.sound_timer(),
        (0..16u8).map(|k| vm.is_key_pressed(k)).collect(),
    )
}

/// What a failed step leaves once the fetch has succeeded: the state from
/// before the step with the program counter behind the opcode.
fn fetched(
    before: &(Vec<u8>, Vec<u8>, u16, u16, Vec<u16>, Vec<bool>, u8, u8, Vec<bool>),
) -> (Vec<u8>, Vec<u8>, u16, u16, Vec<u16>, Vec<bool>, u8, u8, Vec<bool>) {
    let mut after = before.clone();
    after.3 += 2;
    after
}

#[test]
fn new_machine_is_at_rest_with_the_font_loaded() {
    let vm = Chip8::new();
    assert_eq!(vm.registers(), &[0u8; 16]);
    assert_eq!(vm.memory().len(), 4096);
    assert_eq!(&vm.memory()[0x50..0x50 + 80], &FONTSET[..]);
    assert!(vm.memory()[..0x50].iter().all(|b| *b == 0));
    assert!(vm.memory()[0x50 + 80..].iter().all(|b| *b == 0));
    assert_eq!(vm.memory()[0x50], 0xF0);
    assert_eq!(vm.memory()[0x50 + 79], 0x80);
    assert_eq!(vm.index(), 0);
    assert_eq!(vm.pc(), 0x200);
    assert!(vm.stack().is_empty());
    assert!(vm.screen().pixels().iter().all(|p| !*p));
    assert_eq!(vm.delay_timer(), 0);
    assert_eq!(vm.sound_timer(), 0);
}

#[test]
fn load_copies_the_image_to_0x200() {
    let mut vm = Chip8::new();
    assert_eq!(vm.load(&[0x60, 0x05, 0x70, 0x03]), Ok(()));
    assert_eq!(&vm.memory()[0x200..0x204], &[0x60, 0x05, 0x70, 0x03]);
    assert_eq!(vm.memory()[0x204], 0);
    assert_eq!(vm.memory()[0x1FF], 0);
    assert_eq!(vm.memory()[0x50], 0xF0);
    assert_eq!(vm.pc(), 0x200);
}

#[test]
fn load_accepts_the_largest_image_and_rejects_a_larger_one() {
    let mut vm = Chip8::new();
    let full = vec![0xAB; 4096 - 0x200];
    assert_eq!(vm.load(&full), Ok(()));
    assert_eq!(vm.memory()[0xFFF], 0xAB);
    assert_eq!(vm.memory()[0x200], 0xAB);

    let mut other = Chip8::new();
    let before = snapshot(&other);
    let too_large = vec![0xCD; 4096 - 0x200 + 1];
    assert_eq!(other.load(&too_large), Err(RomTooLarge { size: 4096 - 0x200 + 1 }));
    assert_eq!(snapshot(&other), before);
}

#[test]
fn load_resets_the_program_counter() {
    let mut vm = machine_with(&[0x1300]);
    run(&mut vm, 1);
    assert_eq!(vm.pc(), 0x300);
    vm.load(&[0x00, 0xE0]).unwrap();
    assert_eq!(vm.pc(), 0x200);
}

#[test]
fn load_then_add_leaves_eight() {
    let mut vm = machine_with(&[0x6005, 0x7003]);
    assert_eq!(vm.step(), Ok(()));
    assert_eq!(vm.registers()[0], 5);
    assert_eq!(vm.pc(), 0x202);
    assert_eq!(vm.step(), Ok(()));
    assert_eq!(vm.registers()[0], 8);
    assert_eq!(vm.pc(), 0x204);
}

#[test]
fn fetch_reads_big_endian() {
    let vm = machine_with(&[0x12AB]);
    assert_eq!(vm.fetch(), Ok(0x12AB));
    assert_eq!(vm.next_instruction(), Ok(Instruction::Jump { addr: 0x2AB }));
}

#[test]
fn unknown_opcode_is_reported_and_only_the_fetch_has_happened() {
    let mut vm = Chip8::new();
    vm.load(&[0x55, 0x55]).unwrap();
    let before = snapshot(&vm);
    assert_eq!(vm.pc(), 0x200);
    assert_eq!(vm.step(), Err(Chip8Error::DecodeError { opcode: 0x5555, pc: 0x200 }));
    assert_eq!(vm.pc(), 0x202);
    assert_eq!(vm.registers(), &before.0[..]);
    assert_eq!(vm.memory(), &before.1[..]);
    assert_eq!(vm.index(), before.2);
    assert_eq!(vm.stack(), &before.4[..]);
    assert_eq!(vm.screen().pixels(), &before.5[..]);
    assert_eq!(snapshot(&vm), fetched(&before));
}

#[test]
fn unknown_opcode_after_other_instructions() {
    let mut vm = machine_with(&[0x6A07, 0x5555, 0x6B09]);
    run(&mut vm, 1);
    let before = snapshot(&vm);
    assert_eq!(vm.step(), Err(Chip8Error::DecodeError { opcode: 0x5555, pc: 0x202 }));
    assert_eq!(snapshot(&vm), fetched(&before));
    assert_eq!(vm.pc(), 0x204);
    assert_eq!(vm.registers()[0xA], 7);
    // The host may go on behind the opcode that was no instruction.
    assert_eq!(vm.step(), Ok(()));
    assert_eq!(vm.registers()[0xB], 9);
}

#[test]
fn zeroed_memory_is_no_instruction() {
    let mut vm = Chip8::new();
    assert_eq!(vm.step(), Err(Chip8Error::DecodeError { opcode: 0x0000, pc: 0x200 }));
    assert_eq!(vm.pc(), 0x202);
}

#[test]
fn sixteen_nested_calls_succeed_and_the_next_overflows() {
    // Each call jumps to the call that follows it.
    let program: Vec<u16> = (0..17u16).map(|k| 0x2000 | (0x202 + 2 * k)).collect();
    let mut vm = machine_with(&program);
    for depth in 1..=16usize {
        assert_eq!(vm.step(), Ok(()));
        assert_eq!(vm.stack().len(), depth);
        assert_eq!(vm.stack()[depth - 1], 0x200 + 2 * depth as u16);
        assert_eq!(vm.pc(), 0x200 + 2 * depth as u16);
    }
    let before = snapshot(&vm);
    assert_eq!(vm.step(), Err(Chip8Error::StackOverflow));
    assert_eq!(snapshot(&vm), fetched(&before));
    assert_eq!(vm.stack().len(), 16);
}

#[test]
fn return_without_call_underflows() {
    let mut vm = machine_with(&[0x00EE]);
    let before = snapshot(&vm);
    assert_eq!(vm.step(), Err(Chip8Error::StackUnderflow));
    assert_eq!(snapshot(&vm), fetched(&before));
    assert_eq!(vm.pc(), 0x202);
}

#[test]
fn call_and_return_come_back_behind_the_call() {
    // 0x200: CALL 0x206; 0x202: V1 := 9; 0x206: RET
    let mut vm = machine_with(&[0x2206, 0x6109, 0x0000, 0x00EE]);
    run(&mut vm, 1);
    assert_eq!(vm.pc(), 0x206);
    assert_eq!(vm.stack(), &[0x202]);
    run(&mut vm, 1);
    assert_eq!(vm.pc(), 0x202);
    assert!(vm.stack().is_empty());
    run(&mut vm, 1);
    assert_eq!(vm.registers()[1], 9);
}

#[test]
fn jumps() {
    let mut vm = machine_with(&[0x1ABC]);
    run(&mut vm, 1);
    assert_eq!(vm.pc(), 0xABC);

    let mut vm = machine_with(&[0x6010, 0xB300]);
    run(&mut vm, 2);
    assert_eq!(vm.pc(), 0x310);
}

#[test]
fn a_jump_out_of_memory_fails_at_the_next_fetch() {
    let mut vm = machine_with(&[0x60FF, 0xBFFF]);
    run(&mut vm, 2);
    assert_eq!(vm.pc(), 0xFFF + 0xFF);
    let before = snapshot(&vm);
    assert_eq!(vm.step(), Err(Chip8Error::MemoryOutOfBounds { address: 0xFFF + 0xFF }));
    assert_eq!(snapshot(&vm), before);
}

#[test]
fn fetch_at_the_last_byte_is_out_of_bounds() {
    let mut vm = machine_with(&[0x1FFF]);
    run(&mut vm, 1);
    assert_eq!(vm.pc(), 0xFFF);
    let before = snapshot(&vm);
    assert_eq!(vm.fetch(), Err(Chip8Error::MemoryOutOfBounds { address: 4096 }));
    assert_eq!(vm.step(), Err(Chip8Error::MemoryOutOfBounds { address: 4096 }));
    assert_eq!(snapshot(&vm), before);
}

/// A machine whose memory from 0x200 on is zero but for `last` at 0xFFE,
/// about to run that instruction.
fn machine_at_the_end(last: u16, setup: &[u16]) -> Chip8 {
    let mut rom = vec![0u8; 4096 - 0x200];
    let mut at = 0;
    for opcode in setup {
        rom[at] = (opcode >> 8) as u8;
        rom[at + 1] = (opcode & 0xFF) as u8;
        at += 2;
    }
    rom[at] = 0x1F;
    rom[at + 1] = 0xFE;
    let end = rom.len() - 2;
    rom[end] = (last >> 8) as u8;
    rom[end + 1] = (last & 0xFF) as u8;
    let mut vm = Chip8::new();
    vm.load(&rom).unwrap();
    run(&mut vm, setup.len() + 1);
    assert_eq!(vm.pc(), 0xFFE);
    vm
}

#[test]
fn the_last_instruction_in_memory_runs_and_the_next_fetch_fails() {
    let mut vm = machine_at_the_end(0x6107, &[]);
    assert_eq!(vm.step(), Ok(()));
    assert_eq!(vm.registers()[1], 7);
    assert_eq!(vm.pc(), 0x1000);
    let before = snapshot(&vm);
    assert_eq!(vm.step(), Err(Chip8Error::MemoryOutOfBounds { address: 0x1000 }));
    assert_eq!(snapshot(&vm), before);
}

#[test]
fn a_jump_as_the_last_instruction_in_memory_runs() {
    let mut vm = machine_at_the_end(0x1200, &[]);
    assert_eq!(vm.step(), Ok(()));
    assert_eq!(vm.pc(), 0x200);
}

#[test]
fn a_skip_at_the_end_of_memory_leaves_memory() {
    let mut vm = machine_at_the_end(0x3105, &[0x6105]);
    assert_eq!(vm.step(), Ok(()));
    assert_eq!(vm.pc(), 0x1002);
    assert_eq!(vm.step(), Err(Chip8Error::MemoryOutOfBounds { address: 0x1002 }));
    assert_eq!(vm.pc(), 0x1002);
}

#[test]
fn an_unknown_opcode_at_the_end_of_memory() {
    let mut vm = machine_at_the_end(0x5555, &[]);
    let before = snapshot(&vm);
    assert_eq!(vm.step(), Err(Chip8Error::DecodeError { opcode: 0x5555, pc: 0xFFE }));
    assert_eq!(snapshot(&vm), fetched(&before));
    assert_eq!(vm.pc(), 0x1000);
}

#[test]
fn skips_on_immediates() {
    let mut vm = machine_with(&[0x6107, 0x3107]);
    run(&mut vm, 2);
    assert_eq!(vm.pc(), 0x206);
    let mut vm = machine_with(&[0x6107, 0x3108]);
    run(&mut vm, 2);
    assert_eq!(vm.pc(), 0x204);
    let mut vm = machine_with(&[0x6107, 0x4107]);
    run(&mut vm, 2);
    assert_eq!(vm.pc(), 0x204);
    let mut vm = machine_with(&[0x6107, 0x4108]);
    run(&mut vm, 2);
    assert_eq!(vm.pc(), 0x206);
}

#[test]
fn skips_on_registers() {
    let mut vm = machine_with(&[0x6107, 0x6207, 0x5120]);
    run(&mut vm, 3);
    assert_eq!(vm.pc(), 0x208);
    let mut vm = machine_with(&[0x6107, 0x6208, 0x5120]);
    run(&mut vm, 3);
    assert_eq!(vm.pc(), 0x206);
    let mut vm = machine_with(&[0x6107, 0x6207, 0x9120]);
    run(&mut vm, 3);
    assert_eq!(vm.pc(), 0x206);
    let mut vm = machine_with(&[0x6107, 0x6208, 0x9120]);
    run(&mut vm, 3);
    assert_eq!(vm.pc(), 0x208);
}

#[test]
fn add_immediate_wraps_without_flag() {
    let mut vm = machine_with(&[0x61FF, 0x7102]);
    run(&mut vm, 2);
    assert_eq!(vm.registers()[1], 1);
    assert_eq!(vm.registers()[0xF], 0);
}

#[test]
fn logic_operations() {
    let mut vm = machine_with(&[0x61CC, 0x62AA, 0x8310, 0x8321, 0x8410, 0x8422, 0x8510, 0x8523]);
    run(&mut vm, 8);
    assert_eq!(vm.registers()[3], 0xCC | 0xAA);
    assert_eq!(vm.registers()[4], 0xCC & 0xAA);
    assert_eq!(vm.registers()[5], 0xCC ^ 0xAA);
    assert_eq!(vm.registers()[1], 0xCC);
    assert_eq!(vm.registers()[2], 0xAA);
}

#[test]
fn add_sets_carry() {
    let mut vm = machine_with(&[0x61C8, 0x6264, 0x8124]);
    run(&mut vm, 3);
    assert_eq!(vm.registers()[1], 44);
    assert_eq!(vm.registers()[0xF], 1);

    let mut vm = machine_with(&[0x6101, 0x6202, 0x6F01, 0x8124]);
    run(&mut vm, 4);
    assert_eq!(vm.registers()[1], 3);
    assert_eq!(vm.registers()[0xF], 0);
}

#[test]
fn sub_sets_not_borrow() {
    let mut vm = machine_with(&[0x6105, 0x6205, 0x8125]);
    run(&mut vm, 3);
    assert_eq!(vm.registers()[1], 0);
    assert_eq!(vm.registers()[0xF], 1);

    let mut vm = machine_with(&[0x6105, 0x6206, 0x6F01, 0x8125]);
    run(&mut vm, 4);
    assert_eq!(vm.registers()[1], 255);
    assert_eq!(vm.registers()[0xF], 0);
}

#[test]
fn subn_subtracts_the_other_way() {
    let mut vm = machine_with(&[0x6105, 0x6209, 0x8127]);
    run(&mut vm, 3);
    assert_eq!(vm.registers()[1], 4);
    assert_eq!(vm.registers()[0xF], 1);

    let mut vm = machine_with(&[0x6109, 0x6205, 0x8127]);
    run(&mut vm, 3);
    assert_eq!(vm.registers()[1], 252);
    assert_eq!(vm.registers()[0xF], 0);
}

#[test]
fn shifts_move_the_lost_bit_into_vf() {
    let mut vm = machine_with(&[0x6105, 0x8106]);
    run(&mut vm, 2);
    assert_eq!(vm.registers()[1], 2);
    assert_eq!(vm.registers()[0xF], 1);

    let mut vm = machine_with(&[0x6181, 0x810E]);
    run(&mut vm, 2);
    assert_eq!(vm.registers()[1], 2);
    assert_eq!(vm.registers()[0xF], 1);

    let mut vm = machine_with(&[0x6140, 0x6F01, 0x810E]);
    run(&mut vm, 3);
    assert_eq!(vm.registers()[1], 0x80);
    assert_eq!(vm.registers()[0xF], 0);
}

#[test]
fn the_flag_wins_where_the_target_is_vf() {
    let mut vm = machine_with(&[0x6FC8, 0x6264, 0x8F24]);
    run(&mut vm, 3);
    assert_eq!(vm.registers()[0xF], 1);
    let mut vm = machine_with(&[0x6F03, 0x8F06]);
    run(&mut vm, 2);
    assert_eq!(vm.registers()[0xF], 1);
}

#[test]
fn index_register_operations() {
    let mut vm = machine_with(&[0xA123, 0x6110, 0xF11E]);
    run(&mut vm, 3);
    assert_eq!(vm.index(), 0x133);

    let mut vm = machine_with(&[0x610A, 0xF129]);
    run(&mut vm, 2);
    assert_eq!(vm.index(), 0x50 + 50);
}

#[test]
fn add_index_wraps_at_sixteen_bits() {
    let mut vm = Chip8::new();
    vm.execute(Instruction::LoadIndex { addr: 0xFFF }, 0).unwrap();
    vm.execute(Instruction::LoadImm { x: 1, kk: 0xFF }, 0).unwrap();
    for _ in 0..241 {
        vm.execute(Instruction::AddIndex { x: 1 }, 0).unwrap();
    }
    // 0xFFF + 241 * 0xFF = 0x1_0000 + 14
    assert_eq!(vm.index(), 14);
}

#[test]
fn bcd_of_157() {
    let mut vm = machine_with(&[0x639D, 0xA300, 0xF333]);
    run(&mut vm, 3);
    assert_eq!(&vm.memory()[0x300..0x303], &[1, 5, 7]);
    assert_eq!(vm.memory()[0x303], 0);
    assert_eq!(vm.index(), 0x300);
}

#[test]
fn bcd_out_of_bounds_fails_and_changes_nothing() {
    let mut vm = machine_with(&[0x639D, 0xAFFE, 0xF333]);
    run(&mut vm, 2);
    let before = snapshot(&vm);
    assert_eq!(vm.step(), Err(Chip8Error::MemoryOutOfBounds { address: 4096 }));
    assert_eq!(snapshot(&vm), fetched(&before));

    let mut vm = machine_with(&[0x639D, 0xAFFD, 0xF333]);
    run(&mut vm, 3);
    assert_eq!(&vm.memory()[0xFFD..0x1000], &[1, 5, 7]);
}

#[test]
fn store_and_load_include_vx() {
    let mut vm = machine_with(&[0x6011, 0x6122, 0x6233, 0x6344, 0xA400, 0xF255]);
    run(&mut vm, 6);
    assert_eq!(&vm.memory()[0x400..0x404], &[0x11, 0x22, 0x33, 0x00]);
    assert_eq!(vm.index(), 0x400);

    let mut vm = machine_with(&[0xA050, 0x63EE, 0xF265]);
    run(&mut vm, 3);
    assert_eq!(&vm.registers()[0..4], &[0xF0, 0x90, 0x90, 0xEE]);
}

#[test]
fn store_out_of_bounds_reports_the_first_address_outside() {
    let mut vm = machine_with(&[0xAFFF, 0xF155]);
    run(&mut vm, 1);
    let before = snapshot(&vm);
    assert_eq!(vm.step(), Err(Chip8Error::MemoryOutOfBounds { address: 4096 }));
    assert_eq!(snapshot(&vm), fetched(&before));

    let mut vm = machine_with(&[0xAFFF, 0x60FF, 0xF01E, 0xF01E, 0xF065]);
    run(&mut vm, 4);
    assert_eq!(vm.index(), 0xFFF + 2 * 0xFF);
    let before = snapshot(&vm);
    assert_eq!(vm.step(), Err(Chip8Error::MemoryOutOfBounds { address: 0xFFF + 2 * 0xFF }));
    assert_eq!(snapshot(&vm), fetched(&before));
}

#[test]
fn timers_are_read_and_written_by_instructions() {
    let mut vm = machine_with(&[0x6105, 0xF115, 0xF118, 0xF207]);
    run(&mut vm, 3);
    assert_eq!(vm.delay_timer(), 5);
    assert_eq!(vm.sound_timer(), 5);
    vm.tick_timers();
    assert_eq!(vm.delay_timer(), 4);
    run(&mut vm, 1);
    assert_eq!(vm.registers()[2], 4);
}

#[test]
fn steps_do_not_tick_the_timers() {
    let mut vm = machine_with(&[0x6105, 0xF115, 0x6000, 0x6000, 0x6000]);
    run(&mut vm, 5);
    assert_eq!(vm.delay_timer(), 5);
}

#[test]
fn machine_timers_run_down_and_stay_at_zero() {
    let mut vm = machine_with(&[0x61FF, 0xF115, 0x6203, 0xF218]);
    run(&mut vm, 4);
    for _ in 0..3 {
        vm.tick_timers();
    }
    assert_eq!((vm.delay_timer(), vm.sound_timer()), (252, 0));
    for _ in 0..252 {
        vm.tick_timers();
    }
    assert_eq!((vm.delay_timer(), vm.sound_timer()), (0, 0));
    vm.tick_timers();
    assert_eq!((vm.delay_timer(), vm.sound_timer()), (0, 0));
}

#[test]
fn key_skips_read_the_pad_without_changing_it() {
    let mut vm = machine_with(&[0x6107, 0xE19E, 0x0000, 0xE1A1, 0xE19E]);
    assert!(vm.key_down(7));
    run(&mut vm, 2);
    assert_eq!(vm.pc(), 0x206);
    assert!(vm.is_key_pressed(7));
    run(&mut vm, 1);
    assert_eq!(vm.pc(), 0x208);
    assert!(vm.is_key_pressed(7));
    assert!(vm.key_up(7));
    run(&mut vm, 1);
    assert_eq!(vm.pc(), 0x20A);
    assert!(!vm.is_key_pressed(7));
}

#[test]
fn a_register_that_names_no_key_is_never_pressed() {
    let mut vm = machine_with(&[0x6110, 0xE19E, 0xE1A1]);
    for key in 0..16u8 {
        vm.key_down(key);
    }
    run(&mut vm, 2);
    assert_eq!(vm.pc(), 0x204);
    run(&mut vm, 1);
    assert_eq!(vm.pc(), 0x208);
}

#[test]
fn random_is_masked() {
    let mut vm = machine_with(&[0xC10F, 0x1200]);
    for _ in 0..200 {
        run(&mut vm, 2);
        assert!(vm.registers()[1] <= 0x0F);
    }
    let mut vm = machine_with(&[0x61FF, 0xC100]);
    run(&mut vm, 2);
    assert_eq!(vm.registers()[1], 0);
}

#[test]
fn random_bytes_vary() {
    let mut vm = machine_with(&[0xC1FF, 0x1200]);
    let mut seen = std::collections::HashSet::new();
    for _ in 0..64 {
        run(&mut vm, 2);
        seen.insert(vm.registers()[1]);
    }
    assert!(seen.len() > 1);
}

#[test]
fn step_with_uses_the_given_byte() {
    let mut vm = machine_with(&[0xC13C]);
    assert_eq!(vm.step_with(0xA5), Ok(()));
    assert_eq!(vm.registers()[1], 0xA5 & 0x3C);
    assert_eq!(vm.pc(), 0x202);
}

#[test]
fn draw_blits_the_sprite_at_the_index() {
    // Glyph "0" at (V1, V2) = (3, 4).
    let mut vm = machine_with(&[0x6103, 0x6204, 0xA050, 0xD125]);
    run(&mut vm, 4);
    assert_eq!(vm.registers()[0xF], 0);
    let expected: [u8; 5] = [0xF0, 0x90, 0x90, 0x90, 0xF0];
    for (r, row) in expected.iter().enumerate() {
        for c in 0..8usize {
            let bit = (row >> (7 - c)) & 1 == 1;
            assert_eq!(vm.screen().get(3 + c, 4 + r), Some(bit));
        }
    }
    assert_eq!(vm.screen().pixels().iter().filter(|p| **p).count(), 14);
}

#[test]
fn drawing_twice_restores_the_screen_and_reports_the_collision() {
    let mut vm = machine_with(&[0x6103, 0x6204, 0xA050, 0xD125, 0xD125]);
    run(&mut vm, 4);
    assert_eq!(vm.registers()[0xF], 0);
    run(&mut vm, 1);
    assert_eq!(vm.registers()[0xF], 1);
    assert!(vm.screen().pixels().iter().all(|p| !*p));
}

#[test]
fn draw_wraps_around_both_edges() {
    // V1 := 62, V2 := 31, I := 0x300, draw two rows; the sprite is at 0x300.
    let mut image = vec![0u8; 0x102];
    image[..8].copy_from_slice(&[0x61, 0x3E, 0x62, 0x1F, 0xA3, 0x00, 0xD1, 0x22]);
    image[0x100] = 0xC0;
    image[0x101] = 0xC0;
    let mut vm = Chip8::new();
    vm.load(&image).unwrap();
    run(&mut vm, 4);
    let mut lit = Vec::new();
    for y in 0..32usize {
        for x in 0..64usize {
            if vm.screen().get(x, y) == Some(true) {
                lit.push((x, y));
            }
        }
    }
    assert_eq!(lit, vec![(62, 0), (63, 0), (62, 31), (63, 31)]);
    assert_eq!(vm.registers()[0xF], 0);
}

#[test]
fn draw_out_of_bounds_fails_and_changes_nothing() {
    let mut vm = machine_with(&[0xAFFE, 0xD003]);
    run(&mut vm, 1);
    let before = snapshot(&vm);
    assert_eq!(vm.step(), Err(Chip8Error::MemoryOutOfBounds { address: 4096 }));
    assert_eq!(snapshot(&vm), fetched(&before));

    let mut vm = machine_with(&[0xAFFE, 0xD002]);
    run(&mut vm, 2);
    assert_eq!(vm.pc(), 0x204);
}

#[test]
fn draw_of_no_rows_clears_the_flag() {
    let mut vm = machine_with(&[0x6F01, 0xD000]);
    run(&mut vm, 2);
    assert_eq!(vm.registers()[0xF], 0);
    assert!(vm.screen().pixels().iter().all(|p| !*p));
}

#[test]
fn clear_screen() {
    let mut vm = machine_with(&[0xA050, 0xD005, 0x00E0]);
    run(&mut vm, 2);
    assert!(vm.screen().pixels().iter().any(|p| *p));
    run(&mut vm, 1);
    assert!(vm.screen().pixels().iter().all(|p| !*p));
    assert_eq!(vm.pc(), 0x206);
}

#[test]
fn execute_applies_one_instruction_and_leaves_the_program_counter() {
    let mut vm = Chip8::new();
    assert_eq!(vm.execute(Instruction::LoadImm { x: 3, kk: 0x42 }, 0), Ok(()));
    assert_eq!(vm.registers()[3], 0x42);
    assert_eq!(vm.pc(), 0x200);
    assert_eq!(vm.execute(Instruction::Random { x: 4, kk: 0xF0 }, 0xAB), Ok(()));
    assert_eq!(vm.registers()[4], 0xA0);
    assert_eq!(vm.pc(), 0x200);
}

#[test]
fn execute_failure_has_no_effect() {
    let mut vm = Chip8::new();
    let before = snapshot(&vm);
    assert_eq!(vm.execute(Instruction::Return, 0), Err(Chip8Error::StackUnderflow));
    assert_eq!(snapshot(&vm), before);
    vm.execute(Instruction::LoadIndex { addr: 0xFFF }, 0).unwrap();
    let before = snapshot(&vm);
    assert_eq!(
        vm.execute(Instruction::Store { x: 1 }, 0),
        Err(Chip8Error::MemoryOutOfBounds { address: 4096 })
    );
    assert_eq!(snapshot(&vm), before);
}

#[test]
fn execute_control_flow_from_the_fetched_state() {
    let mut vm = Chip8::new();
    assert_eq!(vm.execute(Instruction::Call { addr: 0x300 }, 0), Ok(()));
    assert_eq!(vm.pc(), 0x300);
    assert_eq!(vm.stack(), &[0x200]);
    assert_eq!(vm.execute(Instruction::SkipEqImm { x: 0, kk: 0 }, 0), Ok(()));
    assert_eq!(vm.pc(), 0x302);
    assert_eq!(vm.execute(Instruction::SkipNeImm { x: 0, kk: 0 }, 0), Ok(()));
    assert_eq!(vm.pc(), 0x302);
    assert_eq!(vm.execute(Instruction::Return, 0), Ok(()));
    assert_eq!(vm.pc(), 0x200);
    assert!(vm.stack().is_empty());
}

#[test]
fn add_and_sub_work_wherever_the_program_counter_is() {
    let mut vm = machine_at_the_end(0x8124, &[0x61C8, 0x6264]);
    assert_eq!(vm.step(), Ok(()));
    assert_eq!(vm.registers()[1], 44);
    assert_eq!(vm.registers()[0xF], 1);
    let mut vm = machine_at_the_end(0x8125, &[0x6105, 0x6206]);
    assert_eq!(vm.step(), Ok(()));
    assert_eq!(vm.registers()[1], 255);
    assert_eq!(vm.registers()[0xF], 0);
}

#[test]
fn tiles_cover_the_screen_in_row_major_order() {
    let mut vm = machine_with(&[0x6102, 0x6201, 0xA050, 0xD121]);
    run(&mut vm, 4);
    let tiles = vm.draw();
    assert_eq!(tiles.len(), 2048);
    assert_eq!(tiles[0], Tile { x: 0, y: 0, lit: false });
    assert_eq!(tiles[63], Tile { x: 630, y: 0, lit: false });
    assert_eq!(tiles[64], Tile { x: 0, y: 10, lit: false });
    assert_eq!(tiles[64 + 2], Tile { x: 20, y: 10, lit: true });
    assert_eq!(tiles[64 + 5], Tile { x: 50, y: 10, lit: true });
    assert_eq!(tiles[64 + 6], Tile { x: 60, y: 10, lit: false });
    assert_eq!(tiles[2047], Tile { x: 630, y: 310, lit: false });
    assert_eq!(tiles.iter().filter(|t| t.lit).count(), 4);
}

#[test]
fn host_events_drive_the_machine() {
    let mut vm = machine_with(&[0x6105, 0xF115, 0x5555]);
    assert_eq!(vm.handle_event(HostEvent::KeyDown { key: 3 }), Control::Continue);
    assert!(vm.is_key_pressed(3));
    assert_eq!(vm.handle_event(HostEvent::KeyDown { key: 16 }), Control::Continue);
    assert_eq!(vm.handle_event(HostEvent::KeyUp { key: 3 }), Control::Continue);
    assert!(!vm.is_key_pressed(3));
    assert_eq!(vm.handle_event(HostEvent::Cycle), Control::Continue);
    assert_eq!(vm.handle_event(HostEvent::Cycle), Control::Continue);
    assert_eq!(vm.delay_timer(), 5);
    assert_eq!(vm.handle_event(HostEvent::TimerTick), Control::Continue);
    assert_eq!(vm.delay_timer(), 4);
    let before = snapshot(&vm);
    assert_eq!(
        vm.handle_event(HostEvent::Cycle),
        Control::Fault { error: Chip8Error::DecodeError { opcode: 0x5555, pc: 0x204 } }
    );
    assert_eq!(snapshot(&vm), fetched(&before));
    assert_eq!(vm.pc(), 0x206);
    let after = snapshot(&vm);
    assert_eq!(vm.handle_event(HostEvent::Quit), Control::Quit);
    assert_eq!(snapshot(&vm), after);
}
