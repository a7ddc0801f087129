use chip8::cpu::CPU;
use chip8::fault::Fault;

fn machine() -> CPU {
    CPU::new(vec![])
}

fn with_registers(values: &[(u8, u8)]) -> CPU {
    let mut cpu = machine();
    for (x, value) in values {
        cpu.set_x_mem(0x60 | x, *value);
    }
    cpu
}

fn registers(cpu: &CPU) -> Vec<u8> {
    (0..16).map(|x| cpu.register(x).unwrap()).collect()
}

#[test]
fn set_x_mem_loads_an_immediate() {
    let mut cpu = machine();
    cpu.set_x_mem(0x6A, 0x42);
    assert_eq!(cpu.register(0xA), Ok(0x42));
    assert_eq!(cpu.pc(), 0x200);
    let mut expected = vec![0u8; 16];
    expected[0xA] = 0x42;
    assert_eq!(registers(&cpu), expected);
}

#[test]
fn add_x_mem_wraps_without_touching_the_flag() {
    let mut cpu = with_registers(&[(3, 250), (0xF, 7)]);
    cpu.add_x_mem(0x73, 10);
    assert_eq!(cpu.register(3), Ok(4));
    assert_eq!(cpu.register(0xF), Ok(7));
    cpu.add_x_mem(0x73, 1);
    assert_eq!(cpu.register(3), Ok(5));
}

#[test]
fn set_x_y_copies_a_register() {
    let mut cpu = with_registers(&[(1, 11), (2, 22)]);
    cpu.set_x_y(0x81, 0x20);
    assert_eq!(cpu.register(1), Ok(22));
    assert_eq!(cpu.register(2), Ok(22));
}

#[test]
fn bitwise_operations() {
    let mut cpu = with_registers(&[(1, 0b1100), (2, 0b1010)]);
    cpu.set_x_or_y(0x81, 0x21);
    assert_eq!(cpu.register(1), Ok(0b1110));
    let mut cpu = with_registers(&[(1, 0b1100), (2, 0b1010)]);
    cpu.set_x_and_y(0x81, 0x22);
    assert_eq!(cpu.register(1), Ok(0b1000));
    let mut cpu = with_registers(&[(1, 0b1100), (2, 0b1010)]);
    cpu.set_x_xor_y(0x81, 0x23);
    assert_eq!(cpu.register(1), Ok(0b0110));
    assert_eq!(cpu.register(2), Ok(0b1010));
}

#[test]
fn add_without_carry() {
    let mut cpu = with_registers(&[(1, 100), (2, 55), (0xF, 9)]);
    cpu.set_x_add_y(0x81, 0x24);
    assert_eq!(cpu.register(1), Ok(155));
    assert_eq!(cpu.register(2), Ok(55));
    assert_eq!(cpu.register(0xF), Ok(0));
}

#[test]
fn add_with_carry() {
    let mut cpu = with_registers(&[(1, 200), (2, 100)]);
    cpu.set_x_add_y(0x81, 0x24);
    assert_eq!(cpu.register(1), Ok(44));
    assert_eq!(cpu.register(0xF), Ok(1));
}

#[test]
fn add_at_the_carry_boundary() {
    let mut cpu = with_registers(&[(1, 255), (2, 0)]);
    cpu.set_x_add_y(0x81, 0x24);
    assert_eq!((cpu.register(1), cpu.register(0xF)), (Ok(255), Ok(0)));
    let mut cpu = with_registers(&[(1, 255), (2, 1)]);
    cpu.set_x_add_y(0x81, 0x24);
    assert_eq!((cpu.register(1), cpu.register(0xF)), (Ok(0), Ok(1)));
    let mut cpu = with_registers(&[(1, 255), (2, 255)]);
    cpu.set_x_add_y(0x81, 0x24);
    assert_eq!((cpu.register(1), cpu.register(0xF)), (Ok(254), Ok(1)));
}

#[test]
fn add_for_every_pair_of_values() {
    for a in 0..=255u16 {
        for b in [0u16, 1, 2, 127, 128, 254, 255] {
            let mut cpu = with_registers(&[(4, a as u8), (5, b as u8)]);
            cpu.set_x_add_y(0x84, 0x54);
            assert_eq!(cpu.register(4), Ok(((a + b) % 256) as u8));
            assert_eq!(cpu.register(0xF), Ok(if a + b >= 256 { 1 } else { 0 }));
        }
    }
}

#[test]
fn add_into_the_flag_register_keeps_the_flag() {
    let mut cpu = with_registers(&[(0xF, 3), (1, 4)]);
    cpu.set_x_add_y(0x8F, 0x14);
    assert_eq!(cpu.register(0xF), Ok(0));
    let mut cpu = with_registers(&[(0xF, 200), (1, 100)]);
    cpu.set_x_add_y(0x8F, 0x14);
    assert_eq!(cpu.register(0xF), Ok(1));
}

#[test]
fn add_a_register_to_itself() {
    let mut cpu = with_registers(&[(1, 200)]);
    cpu.set_x_add_y(0x81, 0x14);
    assert_eq!((cpu.register(1), cpu.register(0xF)), (Ok(144), Ok(1)));
}

#[test]
fn sub_without_borrow() {
    let mut cpu = with_registers(&[(1, 100), (2, 55)]);
    cpu.set_x_sub_y(0x81, 0x25);
    assert_eq!(cpu.register(1), Ok(45));
    assert_eq!(cpu.register(0xF), Ok(1));
}

#[test]
fn sub_with_borrow() {
    let mut cpu = with_registers(&[(1, 55), (2, 100)]);
    cpu.set_x_sub_y(0x81, 0x25);
    assert_eq!(cpu.register(1), Ok(211));
    assert_eq!(cpu.register(0xF), Ok(0));
}

#[test]
fn sub_of_equal_values_does_not_borrow() {
    let mut cpu = with_registers(&[(1, 77), (2, 77)]);
    cpu.set_x_sub_y(0x81, 0x25);
    assert_eq!(cpu.register(1), Ok(0));
    assert_eq!(cpu.register(0xF), Ok(1));
}

#[test]
fn sub_flag_for_every_pair_of_values() {
    for a in 0..=255u8 {
        for b in [0u8, 1, 2, 127, 128, 254, 255] {
            let mut cpu = with_registers(&[(4, a), (5, b)]);
            cpu.set_x_sub_y(0x84, 0x55);
            assert_eq!(cpu.register(4), Ok(a.wrapping_sub(b)));
            assert_eq!(cpu.register(0xF), Ok(if a >= b { 1 } else { 0 }));
        }
    }
}

#[test]
fn reverse_sub() {
    let mut cpu = with_registers(&[(1, 55), (2, 100)]);
    cpu.set_x_diff_x(0x81, 0x27);
    assert_eq!(cpu.register(1), Ok(45));
    assert_eq!(cpu.register(2), Ok(100));
    assert_eq!(cpu.register(0xF), Ok(1));
    let mut cpu = with_registers(&[(1, 100), (2, 55)]);
    cpu.set_x_diff_x(0x81, 0x27);
    assert_eq!(cpu.register(1), Ok(211));
    assert_eq!(cpu.register(0xF), Ok(0));
}

#[test]
fn shift_right_moves_the_low_bit_to_the_flag() {
    let mut cpu = with_registers(&[(1, 0b0000_0101)]);
    cpu.set_x_r_shift(0x81, 0x26);
    assert_eq!(cpu.register(1), Ok(0b0000_0010));
    assert_eq!(cpu.register(0xF), Ok(1));
    cpu.set_x_r_shift(0x81, 0x26);
    assert_eq!(cpu.register(1), Ok(0b0000_0001));
    assert_eq!(cpu.register(0xF), Ok(0));
}

#[test]
fn shift_right_of_the_flag_register() {
    let mut cpu = with_registers(&[(0xF, 0b0000_0111)]);
    cpu.set_x_r_shift(0x8F, 0x06);
    assert_eq!(cpu.register(0xF), Ok(0));
}

#[test]
fn shift_left_moves_the_high_bit_to_the_flag() {
    let mut cpu = with_registers(&[(1, 0b1100_0001)]);
    cpu.set_x_l_shift(0x81, 0x2E);
    assert_eq!(cpu.register(1), Ok(0b1000_0010));
    assert_eq!(cpu.register(0xF), Ok(1));
    let mut cpu = with_registers(&[(1, 0b0100_0001)]);
    cpu.set_x_l_shift(0x81, 0x2E);
    assert_eq!(cpu.register(1), Ok(0b1000_0010));
    assert_eq!(cpu.register(0xF), Ok(0));
}

#[test]
fn shift_left_of_the_flag_register() {
    let mut cpu = with_registers(&[(0xF, 0b1000_0001)]);
    cpu.set_x_l_shift(0x8F, 0x0E);
    assert_eq!(cpu.register(0xF), Ok(2));
    let mut cpu = with_registers(&[(0xF, 0b0111_1111)]);
    cpu.set_x_l_shift(0x8F, 0x0E);
    assert_eq!(cpu.register(0xF), Ok(0));
}

#[test]
fn skips_on_an_immediate() {
    let mut cpu = with_registers(&[(1, 0x42)]);
    cpu.skip_eq_mem(0x31, 0x42);
    assert_eq!(cpu.pc(), 0x202);
    cpu.skip_eq_mem(0x31, 0x43);
    assert_eq!(cpu.pc(), 0x202);
    cpu.skip_no_eq(0x41, 0x43);
    assert_eq!(cpu.pc(), 0x204);
    cpu.skip_no_eq(0x41, 0x42);
    assert_eq!(cpu.pc(), 0x204);
}

#[test]
fn skips_on_a_register() {
    let mut cpu = with_registers(&[(1, 7), (2, 7), (3, 8)]);
    cpu.skip_eq_reg(0x51, 0x20);
    assert_eq!(cpu.pc(), 0x202);
    cpu.skip_eq_reg(0x51, 0x30);
    assert_eq!(cpu.pc(), 0x202);
    cpu.skip_x_not_y(0x91, 0x30);
    assert_eq!(cpu.pc(), 0x204);
    cpu.skip_x_not_y(0x91, 0x20);
    assert_eq!(cpu.pc(), 0x204);
}

#[test]
fn skip_compares_values_and_not_indices() {
    let mut cpu = with_registers(&[(1, 7), (2, 9)]);
    cpu.skip_eq_reg(0x51, 0x10);
    assert_eq!(cpu.pc(), 0x202);
    cpu.skip_eq_reg(0x52, 0x10);
    assert_eq!(cpu.pc(), 0x202);
}

#[test]
fn skips_on_a_key() {
    let mut cpu = with_registers(&[(1, 0xA), (2, 0x3B)]);
    let mut keys = [false; 16];
    keys[0xA] = true;
    cpu.set_keys(keys);
    cpu.skip_is_key(0xE1, 0x9E);
    assert_eq!(cpu.pc(), 0x202);
    cpu.skip_is_not_key(0xE1, 0xA1);
    assert_eq!(cpu.pc(), 0x202);
    cpu.skip_is_key(0xE2, 0x9E);
    assert_eq!(cpu.pc(), 0x202);
    cpu.skip_is_not_key(0xE2, 0xA1);
    assert_eq!(cpu.pc(), 0x204);
    keys[0xB] = true;
    cpu.set_keys(keys);
    cpu.skip_is_key(0xE2, 0x9E);
    assert_eq!(cpu.pc(), 0x206);
}

#[test]
fn goto_address_sets_the_program_counter() {
    let mut cpu = machine();
    cpu.goto_address(0x1A, 0xBC);
    assert_eq!(cpu.pc(), 0xABC);
    cpu.goto_address(0x10, 0x00);
    assert_eq!(cpu.pc(), 0x000);
    cpu.goto_address(0x1F, 0xFF);
    assert_eq!(cpu.pc(), 0xFFF);
}

#[test]
fn jump_to_mem_adds_v0() {
    let mut cpu = with_registers(&[(0, 0x10)]);
    cpu.jump_to_mem(0xB3, 0x00);
    assert_eq!(cpu.pc(), 0x310);
    let mut cpu = with_registers(&[(0, 0xFF)]);
    cpu.jump_to_mem(0xBF, 0xFF);
    assert_eq!(cpu.pc(), 0x10FE);
}

#[test]
fn call_and_return() {
    let mut cpu = machine();
    assert_eq!(cpu.sub_call(0x23, 0x45), Ok(()));
    assert_eq!(cpu.pc(), 0x345);
    assert_eq!(cpu.stack_depth(), 1);
    assert_eq!(cpu.sub_return(), Ok(()));
    assert_eq!(cpu.pc(), 0x200);
    assert_eq!(cpu.stack_depth(), 0);
}

#[test]
fn return_on_an_empty_stack_underflows() {
    let mut cpu = machine();
    assert_eq!(cpu.sub_return(), Err(Fault::StackUnderflow));
    assert_eq!(cpu.pc(), 0x200);
    assert_eq!(cpu.stack_depth(), 0);
}

#[test]
fn the_seventeenth_call_overflows() {
    let mut cpu = machine();
    for depth in 0..16u8 {
        assert_eq!(cpu.stack_depth(), depth);
        assert_eq!(cpu.sub_call(0x23, depth), Ok(()));
    }
    assert_eq!(cpu.stack_depth(), 16);
    assert_eq!(cpu.sub_call(0x2F, 0xFF), Err(Fault::StackOverflow));
    assert_eq!(cpu.stack_depth(), 16);
    assert_eq!(cpu.pc(), 0x30F);
    for depth in (0..16u16).rev() {
        assert_eq!(cpu.sub_return(), Ok(()));
        assert_eq!(cpu.pc(), if depth == 0 { 0x200 } else { 0x300 + depth - 1 });
    }
    assert_eq!(cpu.sub_return(), Err(Fault::StackUnderflow));
}

#[test]
fn set_i_mem_loads_the_index() {
    let mut cpu = machine();
    cpu.set_i_mem(0xA1, 0x23);
    assert_eq!(cpu.index(), 0x123);
    cpu.set_i_mem(0xAF, 0xFF);
    assert_eq!(cpu.index(), 0xFFF);
}

#[test]
fn set_i_add_x_adds_and_wraps() {
    let mut cpu = with_registers(&[(1, 0x10), (2, 0xFF)]);
    cpu.set_i_mem(0xA1, 0x00);
    cpu.set_i_add_x(0xF1, 0x1E);
    assert_eq!(cpu.index(), 0x110);
    cpu.set_i_mem(0xAF, 0xFF);
    cpu.set_i_add_x(0xF2, 0x1E);
    assert_eq!(cpu.index(), 0x10FE);
    for _ in 0..239 {
        cpu.set_i_add_x(0xF2, 0x1E);
    }
    assert_eq!(cpu.index(), 0xFF0F);
    cpu.set_i_add_x(0xF2, 0x1E);
    assert_eq!(cpu.index(), 0x000E);
}

#[test]
fn timers_are_copied_through_registers() {
    let mut cpu = with_registers(&[(1, 30), (2, 5)]);
    cpu.set_delay_x(0xF1, 0x15);
    cpu.set_sound_x(0xF2, 0x18);
    assert_eq!(cpu.delay(), 30);
    assert_eq!(cpu.sound(), 5);
    cpu.set_x_delay(0xF3, 0x07);
    assert_eq!(cpu.register(3), Ok(30));
}

#[test]
fn timers_count_down_to_zero_and_stay() {
    let mut cpu = with_registers(&[(1, 2), (2, 1)]);
    cpu.set_delay_x(0xF1, 0x15);
    cpu.set_sound_x(0xF2, 0x18);
    cpu.tick_timers();
    assert_eq!((cpu.delay(), cpu.sound()), (1, 0));
    cpu.tick_timers();
    assert_eq!((cpu.delay(), cpu.sound()), (0, 0));
    cpu.tick_timers();
    assert_eq!((cpu.delay(), cpu.sound()), (0, 0));
    assert_eq!(cpu.pc(), 0x200);
}

#[test]
fn glyph_addresses() {
    for digit in 0..16u8 {
        let mut cpu = with_registers(&[(1, digit)]);
        cpu.set_i_sprt_adr(0xF1, 0x29);
        assert_eq!(cpu.index(), 0x50 + 5 * digit as u16);
    }
    let mut cpu = with_registers(&[(1, 0x3A)]);
    cpu.set_i_sprt_adr(0xF1, 0x29);
    assert_eq!(cpu.index(), 0x50 + 50);
    for (offset, row) in [0xF0u8, 0x90, 0xF0, 0x90, 0x90].iter().enumerate() {
        assert_eq!(cpu.peek(cpu.index() + offset as u16), Ok(*row));
    }
}

#[test]
fn bcd_writes_three_digits() {
    let mut cpu = with_registers(&[(1, 254), (2, 7), (3, 90)]);
    cpu.set_i_mem(0xA3, 0x00);
    assert_eq!(cpu.parse_x_to_i(0xF1, 0x33), Ok(()));
    assert_eq!((cpu.peek(0x300), cpu.peek(0x301), cpu.peek(0x302)), (Ok(2), Ok(5), Ok(4)));
    assert_eq!(cpu.parse_x_to_i(0xF2, 0x33), Ok(()));
    assert_eq!((cpu.peek(0x300), cpu.peek(0x301), cpu.peek(0x302)), (Ok(0), Ok(0), Ok(7)));
    assert_eq!(cpu.parse_x_to_i(0xF3, 0x33), Ok(()));
    assert_eq!((cpu.peek(0x300), cpu.peek(0x301), cpu.peek(0x302)), (Ok(0), Ok(9), Ok(0)));
    assert_eq!(cpu.peek(0x2FF), Ok(0));
    assert_eq!(cpu.peek(0x303), Ok(0));
    assert_eq!(cpu.index(), 0x300);
}

#[test]
fn bcd_at_the_end_of_memory() {
    let mut cpu = with_registers(&[(1, 123)]);
    cpu.set_i_mem(0xAF, 0xFD);
    assert_eq!(cpu.parse_x_to_i(0xF1, 0x33), Ok(()));
    assert_eq!((cpu.peek(0xFFD), cpu.peek(0xFFE), cpu.peek(0xFFF)), (Ok(1), Ok(2), Ok(3)));
    cpu.set_i_mem(0xAF, 0xFE);
    assert_eq!(cpu.parse_x_to_i(0xF1, 0x33), Err(Fault::InvalidAddress { address: 0xFFE }));
    assert_eq!((cpu.peek(0xFFE), cpu.peek(0xFFF)), (Ok(2), Ok(3)));
}

#[test]
fn reg_dump_writes_v0_to_vx() {
    let mut cpu = with_registers(&[(0, 10), (1, 11), (2, 12), (3, 13)]);
    cpu.set_i_mem(0xA4, 0x00);
    assert_eq!(cpu.reg_dump(0xF2, 0x55), Ok(()));
    assert_eq!(cpu.peek(0x3FF), Ok(0));
    assert_eq!(cpu.peek(0x400), Ok(10));
    assert_eq!(cpu.peek(0x401), Ok(11));
    assert_eq!(cpu.peek(0x402), Ok(12));
    assert_eq!(cpu.peek(0x403), Ok(0));
    assert_eq!(cpu.index(), 0x400);
}

#[test]
fn reg_dump_of_v0_alone() {
    let mut cpu = with_registers(&[(0, 10), (1, 11)]);
    cpu.set_i_mem(0xAF, 0xFF);
    assert_eq!(cpu.reg_dump(0xF0, 0x55), Ok(()));
    assert_eq!(cpu.peek(0xFFF), Ok(10));
    assert_eq!(cpu.reg_dump(0xF1, 0x55), Err(Fault::InvalidAddress { address: 0xFFF }));
    assert_eq!(cpu.peek(0xFFF), Ok(10));
}

#[test]
fn reg_fill_reads_v0_to_vx() {
    let mut cpu = with_registers(&[(0, 10), (1, 11), (2, 12), (3, 13)]);
    cpu.set_i_mem(0xA4, 0x00);
    cpu.reg_dump(0xF3, 0x55).unwrap();
    let mut cpu2 = CPU::new(vec![1, 2, 3, 4, 5]);
    cpu2.set_x_mem(0x6E, 0xEE);
    cpu2.set_i_mem(0xA2, 0x01);
    assert_eq!(cpu2.reg_fill(0xF2, 0x65), Ok(()));
    let mut expected = vec![0u8; 16];
    expected[0] = 2;
    expected[1] = 3;
    expected[2] = 4;
    expected[0xE] = 0xEE;
    assert_eq!(registers(&cpu2), expected);
    assert_eq!(cpu2.index(), 0x201);
    cpu.set_x_mem(0x60, 0);
    cpu.set_x_mem(0x61, 0);
    assert_eq!(cpu.reg_fill(0xF1, 0x65), Ok(()));
    assert_eq!(registers(&cpu)[..4], [10, 11, 12, 13]);
}

#[test]
fn reg_fill_past_the_end_of_memory() {
    let mut cpu = with_registers(&[(5, 55)]);
    cpu.set_i_mem(0xAF, 0xF1);
    assert_eq!(cpu.reg_fill(0xFF, 0x65), Err(Fault::InvalidAddress { address: 0xFF1 }));
    assert_eq!(cpu.register(5), Ok(55));
    cpu.set_i_mem(0xAF, 0xF0);
    assert_eq!(cpu.reg_fill(0xFF, 0x65), Ok(()));
    assert_eq!(registers(&cpu), vec![0u8; 16]);
}

#[test]
fn random_with_the_byte_given() {
    let mut cpu = machine();
    cpu.set_x_rand_with(0xC1, 0x0F, 0xAB);
    assert_eq!(cpu.register(1), Ok(0x0B));
    cpu.set_x_rand_with(0xC2, 0xFF, 0xAB);
    assert_eq!(cpu.register(2), Ok(0xAB));
    cpu.set_x_rand_with(0xC3, 0x00, 0xAB);
    assert_eq!(cpu.register(3), Ok(0x00));
    assert_eq!(cpu.pc(), 0x200);
}

#[test]
fn random_stays_within_the_mask() {
    let mut cpu = with_registers(&[(2, 0x77)]);
    let mut seen = [false; 16];
    for _ in 0..2000 {
        cpu.set_x_rand(0xC1, 0x0F);
        let value = cpu.register(1).unwrap();
        assert!(value <= 0x0F);
        seen[value as usize] = true;
        assert_eq!(cpu.register(2), Ok(0x77));
    }
    assert!(seen.iter().filter(|hit| **hit).count() > 1);
    cpu.set_x_rand(0xC1, 0x00);
    assert_eq!(cpu.register(1), Ok(0));
}

#[test]
fn display_clear_blanks_the_screen() {
    let mut cpu = machine();
    cpu.set_i_sprt_adr(0xF0, 0x29);
    cpu.draw(0xD0, 0x05).unwrap();
    assert!(cpu.display().snapshot().iter().any(|cell| *cell));
    cpu.display_clear();
    assert!(cpu.display().snapshot().iter().all(|cell| !cell));
}

#[test]
fn validate_index_accepts_sixteen_registers() {
    let cpu = machine();
    for index in 0..16 {
        assert_eq!(cpu.validate_index(index), Ok(()));
    }
    assert_eq!(cpu.validate_index(16), Err(Fault::InvalidRegister { index: 16 }));
    assert_eq!(cpu.validate_index(17), Err(Fault::InvalidRegister { index: 17 }));
    assert_eq!(
        cpu.validate_index(usize::MAX),
        Err(Fault::InvalidRegister { index: usize::MAX })
    );
}

#[test]
fn test_function_reports_the_invalid_index() {
    let cpu = machine();
    assert_eq!(cpu.test_function(), Err(Fault::InvalidRegister { index: 88 }));
}

#[test]
fn register_checks_its_index() {
    let cpu = with_registers(&[(0xF, 9)]);
    assert_eq!(cpu.register(15), Ok(9));
    assert_eq!(cpu.register(16), Err(Fault::InvalidRegister { index: 16 }));
}

#[test]
fn peek_checks_its_address() {
    let cpu = CPU::new(vec![0xAB]);
    assert_eq!(cpu.peek(0x200), Ok(0xAB));
    assert_eq!(cpu.peek(0xFFF), Ok(0));
    assert_eq!(cpu.peek(0x1000), Err(Fault::InvalidAddress { address: 0x1000 }));
    assert_eq!(cpu.peek(0xFFFF), Err(Fault::InvalidAddress { address: 0xFFFF }));
}
