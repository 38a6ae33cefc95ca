use chip8::cpu::{CPU, EmuError};
use chip8::display::Display;
use chip8::keypad::Keypad;

fn pixel(cpu: &CPU, x: usize, y: usize) -> bool {
    cpu.display.vram[x + y * 64]
}

#[test]
fn add_vx_vy_with_carry() {
    let mut cpu = CPU::new();
    cpu.load(&[0x80, 0x14]).unwrap();
    cpu.v[0] = 200;
    cpu.v[1] = 100;
    cpu.emulate_cycle().unwrap();
    assert_eq!(cpu.v[0], 44); // (200 + 100) mod 256
    assert_eq!(cpu.v[0xF], 1);
    assert_eq!(cpu.pc, 0x202);
}

#[test]
fn add_vx_vy_without_carry() {
    let mut cpu = CPU::new();
    cpu.load(&[0x80, 0x14]).unwrap();
    cpu.v[0] = 10;
    cpu.v[1] = 20;
    cpu.emulate_cycle().unwrap();
    assert_eq!(cpu.v[0], 30);
    assert_eq!(cpu.v[0xF], 0);
}

#[test]
fn add_vx_kk_wraps_without_touching_flag() {
    let mut cpu = CPU::new();
    cpu.load(&[0x70, 0xFF]).unwrap();
    cpu.v[0] = 2;
    cpu.v[0xF] = 7;
    cpu.emulate_cycle().unwrap();
    assert_eq!(cpu.v[0], 1); // (2 + 255) mod 256
    assert_eq!(cpu.v[0xF], 7);
}

#[test]
fn sub_vx_vy_with_borrow() {
    let mut cpu = CPU::new();
    cpu.load(&[0x80, 0x15]).unwrap();
    cpu.v[0] = 10;
    cpu.v[1] = 20;
    cpu.emulate_cycle().unwrap();
    assert_eq!(cpu.v[0], 246); // (10 - 20) mod 256
    assert_eq!(cpu.v[0xF], 0); // borrow occurred
}

#[test]
fn sub_vx_vy_without_borrow() {
    let mut cpu = CPU::new();
    cpu.load(&[0x80, 0x15]).unwrap();
    cpu.v[0] = 20;
    cpu.v[1] = 10;
    cpu.emulate_cycle().unwrap();
    assert_eq!(cpu.v[0], 10);
    assert_eq!(cpu.v[0xF], 1);
}

#[test]
fn sub_vx_vy_equal_operands() {
    let mut cpu = CPU::new();
    cpu.load(&[0x80, 0x15]).unwrap();
    cpu.v[0] = 33;
    cpu.v[1] = 33;
    cpu.emulate_cycle().unwrap();
    assert_eq!(cpu.v[0], 0);
    assert_eq!(cpu.v[0xF], 0);
}

#[test]
fn subn_follows_the_same_rule_as_sub() {
    let mut cpu = CPU::new();
    cpu.load(&[0x80, 0x17]).unwrap();
    cpu.v[0] = 20;
    cpu.v[1] = 10;
    cpu.emulate_cycle().unwrap();
    assert_eq!(cpu.v[0], 10);
    assert_eq!(cpu.v[0xF], 1);
}

#[test]
fn draw_twice_restores_the_framebuffer() {
    let mut d = Display::new();
    let sprite = [0xFFu8, 0x81, 0x3C];
    let first = d.draw(3, 5, &sprite);
    assert!(!first);
    assert!(d.vram.iter().any(|&p| p));
    let second = d.draw(3, 5, &sprite);
    assert!(second); // every pixel the first draw set collides now
    assert!(d.vram.iter().all(|&p| !p));
}

#[test]
fn draw_wraps_around_the_right_edge() {
    let mut d = Display::new();
    let collision = d.draw(60, 0, &[0xFF]);
    assert!(!collision);
    for col in 60..64 {
        assert!(d.vram[col], "column {} should be on", col);
    }
    for col in 0..4 {
        assert!(d.vram[col], "wrapped column {} should be on", col);
    }
    for col in 4..60 {
        assert!(!d.vram[col], "column {} should be off", col);
    }
    for cell in 64..2048 {
        assert!(!d.vram[cell]);
    }
}

#[test]
fn draw_wraps_around_the_bottom_edge() {
    let mut d = Display::new();
    d.draw(0, 31, &[0x80, 0x80]);
    assert!(d.vram[31 * 64]); // (0, 31)
    assert!(d.vram[0]); // wrapped to (0, 0)
}

#[test]
fn call_then_ret_returns_past_the_call() {
    let mut cpu = CPU::new();
    let mut image = vec![0u8; 0x102];
    image[0] = 0x23; // CALL 0x300
    image[1] = 0x00;
    image[0x100] = 0x00; // RET, sitting at 0x300
    image[0x101] = 0xEE;
    cpu.load(&image).unwrap();
    cpu.emulate_cycle().unwrap();
    assert_eq!(cpu.pc, 0x300);
    assert_eq!(cpu.sp, 1);
    assert_eq!(cpu.stack[0], 0x202);
    cpu.emulate_cycle().unwrap();
    assert_eq!(cpu.pc, 0x202);
    assert_eq!(cpu.sp, 0);
}

#[test]
fn bcd_store_of_231() {
    let mut cpu = CPU::new();
    cpu.load(&[0xF0, 0x33]).unwrap();
    cpu.v[0] = 231;
    cpu.i = 0x500;
    cpu.emulate_cycle().unwrap();
    assert_eq!(cpu.memory[0x500], 2);
    assert_eq!(cpu.memory[0x501], 3);
    assert_eq!(cpu.memory[0x502], 1);
}

#[test]
fn bcd_store_edges() {
    let mut cpu = CPU::new();
    cpu.load(&[0xF0, 0x33]).unwrap();
    cpu.v[0] = 0;
    cpu.i = 0x600;
    cpu.emulate_cycle().unwrap();
    assert_eq!(&cpu.memory[0x600..0x603], &[0, 0, 0]);
    let mut cpu = CPU::new();
    cpu.load(&[0xF0, 0x33]).unwrap();
    cpu.v[0] = 255;
    cpu.i = 0x600;
    cpu.emulate_cycle().unwrap();
    assert_eq!(&cpu.memory[0x600..0x603], &[2, 5, 5]);
}

#[test]
fn load_registers_set_index_draw_glyph() {
    let mut cpu = CPU::new();
    let mut image = vec![0u8; 0x35];
    image[0] = 0x60; // LD V0, 5
    image[1] = 0x05;
    image[2] = 0xA2; // LD I, 0x230
    image[3] = 0x30;
    image[4] = 0xD0; // DRW V0, V0, 5
    image[5] = 0x05;
    // the glyph for digit 5, placed at 0x230 in the image
    let glyph = [0xF0u8, 0x80, 0xF0, 0x10, 0xF0];
    image[0x30..0x35].copy_from_slice(&glyph);
    cpu.load(&image).unwrap();
    cpu.emulate_cycle().unwrap();
    cpu.emulate_cycle().unwrap();
    let out = cpu.emulate_cycle().unwrap();
    assert_eq!(cpu.v[0], 5);
    assert_eq!(cpu.i, 0x230);
    assert_eq!(cpu.v[0xF], 0); // the screen was blank: no collision
    for (j, row) in glyph.iter().enumerate() {
        for i in 0..8 {
            let expected = row >> (7 - i) & 1 == 1;
            assert_eq!(pixel(&cpu, 5 + i, 5 + j), expected, "pixel ({}, {})", 5 + i, 5 + j);
        }
    }
    let vram = out.get_vram();
    assert_eq!(vram.len(), 2048);
    assert_eq!(vram[5 + 5 * 64], 1);
    assert!(!out.beep);
}

#[test]
fn reset_restores_the_construction_state() {
    let mut cpu = CPU::new();
    let mut image = vec![0u8; 0x40];
    image[0] = 0x6A; // LD V10, 0x42
    image[1] = 0x42;
    image[2] = 0xA2; // LD I, 0x230
    image[3] = 0x30;
    image[4] = 0xD0; // DRW V0, V0, 4
    image[5] = 0x04;
    image[0x30] = 0xFF;
    cpu.load(&image).unwrap();
    cpu.emulate_cycle().unwrap();
    cpu.emulate_cycle().unwrap();
    cpu.emulate_cycle().unwrap();
    cpu.key_down(4);
    cpu.dt = 9;
    cpu.st = 9;
    cpu.reset();
    let fresh = CPU::new();
    assert_eq!(cpu.memory, fresh.memory);
    assert_eq!(cpu.v, fresh.v);
    assert_eq!(cpu.stack, fresh.stack);
    assert_eq!(cpu.sp, fresh.sp);
    assert_eq!(cpu.pc, fresh.pc);
    assert_eq!(cpu.i, fresh.i);
    assert_eq!(cpu.dt, fresh.dt);
    assert_eq!(cpu.st, fresh.st);
    assert_eq!(cpu.display.vram, fresh.display.vram);
    assert_eq!(cpu.keypad.keys, fresh.keypad.keys);
}

#[test]
fn memory_starts_with_the_font_table() {
    let cpu = CPU::new();
    assert_eq!(&cpu.memory[0..5], &[0xF0, 0x90, 0x90, 0x90, 0xF0]); // glyph 0
    assert_eq!(&cpu.memory[25..30], &[0xF0, 0x80, 0xF0, 0x10, 0xF0]); // glyph 5
    assert_eq!(&cpu.memory[75..80], &[0xF0, 0x80, 0xF0, 0x80, 0x80]); // glyph F
    assert!(cpu.memory[80..].iter().all(|&b| b == 0));
    assert_eq!(cpu.pc, 0x200);
}

#[test]
fn load_rejects_an_oversized_image() {
    let mut cpu = CPU::new();
    let too_big = vec![7u8; 4096 - 0x200 + 1];
    assert_eq!(cpu.load(&too_big), Err(EmuError::ProgramLoadOverflow));
    assert!(cpu.memory[0x200..].iter().all(|&b| b == 0)); // nothing was copied
    let just_fits = vec![7u8; 4096 - 0x200];
    assert_eq!(cpu.load(&just_fits), Ok(()));
    assert!(cpu.memory[0x200..].iter().all(|&b| b == 7));
}

#[test]
fn call_overflows_after_sixteen_nested_calls() {
    let mut cpu = CPU::new();
    cpu.load(&[0x22, 0x00]).unwrap(); // CALL 0x200, forever
    for _ in 0..16 {
        cpu.emulate_cycle().unwrap();
    }
    assert_eq!(cpu.sp, 16);
    assert!(matches!(cpu.emulate_cycle(), Err(EmuError::StackOverflow)));
    assert_eq!(cpu.sp, 16); // untouched by the failing cycle
    assert_eq!(cpu.pc, 0x200);
}

#[test]
fn ret_underflows_on_an_empty_stack() {
    let mut cpu = CPU::new();
    cpu.load(&[0x00, 0xEE]).unwrap();
    cpu.dt = 5;
    assert!(matches!(cpu.emulate_cycle(), Err(EmuError::StackUnderflow)));
    assert_eq!(cpu.pc, 0x200);
    assert_eq!(cpu.dt, 5); // an erroneous cycle does not tick the timers
}

#[test]
fn unknown_opcode_only_advances() {
    let mut cpu = CPU::new();
    cpu.load(&[0x02, 0x00]).unwrap();
    let before_v = cpu.v.clone();
    cpu.emulate_cycle().unwrap();
    assert_eq!(cpu.pc, 0x202);
    assert_eq!(cpu.v, before_v);
}

#[test]
fn timers_decrement_every_cycle_and_floor_at_zero() {
    let mut cpu = CPU::new();
    cpu.load(&[0x00, 0x00, 0x00, 0x00]).unwrap();
    cpu.dt = 2;
    cpu.st = 1;
    let out = cpu.emulate_cycle().unwrap();
    assert_eq!(cpu.dt, 1);
    assert_eq!(cpu.st, 0);
    assert!(!out.beep);
    let out = cpu.emulate_cycle().unwrap();
    assert_eq!(cpu.dt, 0);
    assert_eq!(cpu.st, 0);
    assert!(!out.beep);
}

#[test]
fn sound_timer_beeps_while_nonzero() {
    let mut cpu = CPU::new();
    cpu.load(&[0x00, 0x00]).unwrap();
    cpu.st = 2;
    let out = cpu.emulate_cycle().unwrap();
    assert_eq!(cpu.st, 1);
    assert!(out.beep);
}

#[test]
fn timer_read_sees_this_cycle_s_decrement() {
    let mut cpu = CPU::new();
    cpu.load(&[0xF1, 0x07]).unwrap(); // LD V1, DT
    cpu.dt = 5;
    cpu.emulate_cycle().unwrap();
    assert_eq!(cpu.v[1], 4);
}

#[test]
fn timer_writes() {
    let mut cpu = CPU::new();
    cpu.load(&[0xF0, 0x15, 0xF1, 0x18]).unwrap();
    cpu.v[0] = 7;
    cpu.v[1] = 9;
    cpu.emulate_cycle().unwrap();
    assert_eq!(cpu.dt, 7);
    cpu.emulate_cycle().unwrap();
    assert_eq!(cpu.st, 9);
    assert_eq!(cpu.dt, 6); // ticked once more on the second cycle
}

#[test]
fn wait_for_keypress_holds_then_advances() {
    let mut cpu = CPU::new();
    cpu.load(&[0xF0, 0x0A]).unwrap();
    cpu.dt = 3;
    cpu.emulate_cycle().unwrap();
    assert_eq!(cpu.pc, 0x200); // still waiting
    assert_eq!(cpu.dt, 2); // but the timers keep running
    cpu.emulate_cycle().unwrap();
    assert_eq!(cpu.pc, 0x200);
    cpu.key_down(7);
    cpu.key_down(3);
    cpu.emulate_cycle().unwrap();
    assert_eq!(cpu.v[0], 3); // the lowest pressed key
    assert_eq!(cpu.pc, 0x202);
}

#[test]
fn skip_instructions() {
    let mut cpu = CPU::new();
    cpu.load(&[0x30, 0x05]).unwrap(); // SE V0, 5
    cpu.v[0] = 5;
    cpu.emulate_cycle().unwrap();
    assert_eq!(cpu.pc, 0x204);

    let mut cpu = CPU::new();
    cpu.load(&[0x30, 0x05]).unwrap();
    cpu.v[0] = 4;
    cpu.emulate_cycle().unwrap();
    assert_eq!(cpu.pc, 0x202);

    let mut cpu = CPU::new();
    cpu.load(&[0x40, 0x05]).unwrap(); // SNE V0, 5
    cpu.v[0] = 4;
    cpu.emulate_cycle().unwrap();
    assert_eq!(cpu.pc, 0x204);

    let mut cpu = CPU::new();
    cpu.load(&[0x50, 0x10]).unwrap(); // SE V0, V1
    cpu.v[0] = 9;
    cpu.v[1] = 9;
    cpu.emulate_cycle().unwrap();
    assert_eq!(cpu.pc, 0x204);

    let mut cpu = CPU::new();
    cpu.load(&[0x90, 0x10]).unwrap(); // SNE V0, V1
    cpu.v[0] = 9;
    cpu.v[1] = 8;
    cpu.emulate_cycle().unwrap();
    assert_eq!(cpu.pc, 0x204);
}

#[test]
fn register_moves_and_bitwise_ops() {
    let mut cpu = CPU::new();
    cpu.load(&[0x81, 0x00, 0x81, 0x21, 0x81, 0x32, 0x81, 0x43]).unwrap();
    cpu.v[0] = 0b1010;
    cpu.v[2] = 0b0110;
    cpu.v[3] = 0b1100;
    cpu.v[4] = 0b0101;
    cpu.emulate_cycle().unwrap(); // LD V1, V0
    assert_eq!(cpu.v[1], 0b1010);
    cpu.emulate_cycle().unwrap(); // OR V1, V2
    assert_eq!(cpu.v[1], 0b1110);
    cpu.emulate_cycle().unwrap(); // AND V1, V3
    assert_eq!(cpu.v[1], 0b1100);
    cpu.emulate_cycle().unwrap(); // XOR V1, V4
    assert_eq!(cpu.v[1], 0b1001);
}

#[test]
fn shifts_set_the_flag_from_the_shifted_out_bit() {
    let mut cpu = CPU::new();
    cpu.load(&[0x80, 0x06]).unwrap(); // SHR V0
    cpu.v[0] = 5;
    cpu.emulate_cycle().unwrap();
    assert_eq!(cpu.v[0], 2);
    assert_eq!(cpu.v[0xF], 1);

    let mut cpu = CPU::new();
    cpu.load(&[0x80, 0x0E]).unwrap(); // SHL V0
    cpu.v[0] = 0x81;
    cpu.emulate_cycle().unwrap();
    assert_eq!(cpu.v[0], 2);
    assert_eq!(cpu.v[0xF], 1);
}

#[test]
fn jumps() {
    let mut cpu = CPU::new();
    cpu.load(&[0x12, 0x34]).unwrap(); // JP 0x234
    cpu.emulate_cycle().unwrap();
    assert_eq!(cpu.pc, 0x234);

    let mut cpu = CPU::new();
    cpu.load(&[0xB2, 0x00]).unwrap(); // JP V0, 0x200
    cpu.v[0] = 4;
    cpu.emulate_cycle().unwrap();
    assert_eq!(cpu.pc, 0x204);
}

#[test]
fn index_register_instructions() {
    let mut cpu = CPU::new();
    cpu.load(&[0xA1, 0x23, 0xF0, 0x1E, 0xF1, 0x29]).unwrap();
    cpu.v[0] = 2;
    cpu.v[1] = 0xA;
    cpu.emulate_cycle().unwrap(); // LD I, 0x123
    assert_eq!(cpu.i, 0x123);
    cpu.emulate_cycle().unwrap(); // ADD I, V0
    assert_eq!(cpu.i, 0x125);
    cpu.emulate_cycle().unwrap(); // LD F, V1
    assert_eq!(cpu.i, 50); // glyph for 0xA sits at 10 * 5
}

#[test]
fn add_to_index_wraps_at_sixteen_bits() {
    let mut cpu = CPU::new();
    cpu.load(&[0xF0, 0x1E]).unwrap();
    cpu.i = 0xFFFF;
    cpu.v[0] = 2;
    cpu.emulate_cycle().unwrap();
    assert_eq!(cpu.i, 1);
}

#[test]
fn block_store_and_load_are_inclusive() {
    let mut cpu = CPU::new();
    cpu.load(&[0xF2, 0x55]).unwrap(); // LD [I], V2
    cpu.v[0] = 1;
    cpu.v[1] = 2;
    cpu.v[2] = 3;
    cpu.v[3] = 4;
    cpu.i = 0x400;
    cpu.emulate_cycle().unwrap();
    assert_eq!(&cpu.memory[0x400..0x403], &[1, 2, 3]);
    assert_eq!(cpu.memory[0x403], 0); // v[3] stays behind

    let mut cpu = CPU::new();
    cpu.load(&[0xF2, 0x65]).unwrap(); // LD V2, [I]
    cpu.i = 0x000; // read the first font bytes
    cpu.v[3] = 77;
    cpu.emulate_cycle().unwrap();
    assert_eq!(cpu.v[0], 0xF0);
    assert_eq!(cpu.v[1], 0x90);
    assert_eq!(cpu.v[2], 0x90);
    assert_eq!(cpu.v[3], 77); // untouched
}

#[test]
fn random_byte_is_masked() {
    for _ in 0..8 {
        let mut cpu = CPU::new();
        cpu.load(&[0xC0, 0x0F]).unwrap(); // RND V0, 0x0F
        cpu.emulate_cycle().unwrap();
        assert_eq!(cpu.v[0] & !0x0F, 0);
    }
    let mut cpu = CPU::new();
    cpu.load(&[0xC0, 0x00]).unwrap(); // a zero mask pins the result
    cpu.v[0] = 9;
    cpu.emulate_cycle().unwrap();
    assert_eq!(cpu.v[0], 0);
}

#[test]
fn drw_reports_collision_on_the_second_draw() {
    let mut cpu = CPU::new();
    let mut image = vec![0u8; 0x31];
    image[0] = 0xD0; // DRW V0, V0, 1
    image[1] = 0x01;
    image[2] = 0xD0; // and again
    image[3] = 0x01;
    image[0x30] = 0xFF;
    cpu.load(&image).unwrap();
    cpu.i = 0x230;
    cpu.emulate_cycle().unwrap();
    assert_eq!(cpu.v[0xF], 0);
    assert!(pixel(&cpu, 0, 0));
    cpu.emulate_cycle().unwrap();
    assert_eq!(cpu.v[0xF], 1);
    assert!(!pixel(&cpu, 0, 0));
}

#[test]
fn drw_out_of_memory_is_rejected() {
    let mut cpu = CPU::new();
    cpu.load(&[0xD0, 0x0F]).unwrap();
    cpu.i = 4090; // 4090 + 15 reaches past the end of memory
    assert!(matches!(cpu.emulate_cycle(), Err(EmuError::MemoryOutOfBounds)));
}

#[test]
fn fetch_at_the_end_of_memory_is_rejected() {
    let mut cpu = CPU::new();
    cpu.pc = 4095;
    assert!(matches!(cpu.emulate_cycle(), Err(EmuError::MemoryOutOfBounds)));
    cpu.pc = 5000;
    assert!(matches!(cpu.emulate_cycle(), Err(EmuError::MemoryOutOfBounds)));
}

#[test]
fn bcd_near_the_end_of_memory_is_rejected() {
    let mut cpu = CPU::new();
    cpu.load(&[0xF0, 0x33]).unwrap();
    cpu.i = 4094; // needs 4094, 4095 and 4096
    assert!(matches!(cpu.emulate_cycle(), Err(EmuError::MemoryOutOfBounds)));
}

#[test]
fn block_store_past_the_end_of_memory_is_rejected() {
    let mut cpu = CPU::new();
    cpu.load(&[0xF2, 0x55]).unwrap();
    cpu.i = 4094;
    assert!(matches!(cpu.emulate_cycle(), Err(EmuError::MemoryOutOfBounds)));
}

#[test]
fn key_skip_instructions() {
    let mut cpu = CPU::new();
    cpu.load(&[0xE0, 0x9E]).unwrap(); // SKP V0
    cpu.v[0] = 4;
    cpu.key_down(4);
    cpu.emulate_cycle().unwrap();
    assert_eq!(cpu.pc, 0x204);

    let mut cpu = CPU::new();
    cpu.load(&[0xE0, 0x9E]).unwrap();
    cpu.v[0] = 4;
    cpu.emulate_cycle().unwrap();
    assert_eq!(cpu.pc, 0x202);

    let mut cpu = CPU::new();
    cpu.load(&[0xE0, 0xA1]).unwrap(); // SKNP V0
    cpu.v[0] = 4;
    cpu.emulate_cycle().unwrap();
    assert_eq!(cpu.pc, 0x204);
}

#[test]
fn key_skip_with_a_non_key_value_is_rejected() {
    let mut cpu = CPU::new();
    cpu.load(&[0xE0, 0x9E]).unwrap();
    cpu.v[0] = 200;
    assert!(matches!(cpu.emulate_cycle(), Err(EmuError::KeyOutOfRange)));
}

#[test]
fn cls_clears_the_screen() {
    let mut cpu = CPU::new();
    let mut image = vec![0u8; 0x31];
    image[0] = 0xD0; // DRW V0, V0, 1
    image[1] = 0x01;
    image[2] = 0x00; // CLS
    image[3] = 0xE0;
    image[0x30] = 0xFF;
    cpu.load(&image).unwrap();
    cpu.i = 0x230;
    cpu.emulate_cycle().unwrap();
    assert!(cpu.display.vram.iter().any(|&p| p));
    cpu.emulate_cycle().unwrap();
    assert!(cpu.display.vram.iter().all(|&p| !p));
    assert_eq!(cpu.pc, 0x204);
}

#[test]
fn keypad_tracks_presses_and_releases() {
    let mut kp = Keypad::new();
    assert!(!kp.is_key_pressed(9));
    kp.key_down(9);
    assert!(kp.is_key_pressed(9));
    assert!(!kp.is_key_pressed(8));
    kp.key_up(9);
    assert!(!kp.is_key_pressed(9));
}

#[test]
fn display_set_and_get_pixel() {
    let mut d = Display::new();
    assert!(!d.get_pixel(12, 7));
    d.set_pixel(12, 7, true);
    assert!(d.get_pixel(12, 7));
    assert!(d.vram[12 + 7 * 64]);
    d.set_pixel(12, 7, false);
    assert!(!d.get_pixel(12, 7));
}

#[test]
fn copy_vram_to_vec_marks_lit_pixels() {
    let mut d = Display::new();
    d.set_pixel(1, 0, true);
    let v = d.copy_vram_to_vec();
    assert_eq!(v.len(), 2048);
    assert_eq!(v[0], 0);
    assert_eq!(v[1], 1);
}

#[test]
fn output_snapshot_matches_the_framebuffer() {
    let mut cpu = CPU::new();
    let mut image = vec![0u8; 0x31];
    image[0] = 0xD0;
    image[1] = 0x01;
    image[0x30] = 0x80; // a single pixel at (0, 0)
    cpu.load(&image).unwrap();
    cpu.i = 0x230;
    let out = cpu.emulate_cycle().unwrap();
    let vram = out.get_vram();
    assert_eq!(vram[0], 1);
    assert!(vram[1..].iter().all(|&b| b == 0));
}
