use keypad_drivers::shift_register::{load, LineOp, ShiftRegister, ShiftRegisterChip};

#[test]
fn load_sets_the_parallel_outputs() {
    let mut driver = ShiftRegister::new();
    let mut chip = ShiftRegisterChip::new();
    load(&mut driver, &mut chip, &[1, 0, 1, 1, 0, 0, 1, 0]);
    assert_eq!(
        chip.outputs(),
        [true, false, true, true, false, false, true, false]
    );
}

#[test]
fn bit_order_convention_is_index_for_index() {
    let mut driver = ShiftRegister::new();
    let mut chip = ShiftRegisterChip::new();
    load(&mut driver, &mut chip, &[0, 1, 0, 0, 0, 0, 0, 0]);
    assert_eq!(
        chip.outputs(),
        [false, true, false, false, false, false, false, false]
    );
}

#[test]
fn frame_is_data_clock_pulses_then_one_lock_pulse() {
    let mut driver = ShiftRegister::new();
    let ops = driver.write_array(&[1, 0, 0, 0, 0, 0, 0, 1]);
    assert_eq!(ops.len(), 26);
    for (i, op) in ops.iter().enumerate().take(24) {
        let expected = match i % 3 {
            0 => LineOp::SetData(i / 3 == 0 || i / 3 == 7),
            1 => LineOp::SetClock(true),
            _ => LineOp::SetClock(false),
        };
        assert_eq!(*op, expected);
    }
    assert_eq!(ops[24], LineOp::SetLock(true));
    assert_eq!(ops[25], LineOp::SetLock(false));
}

#[test]
fn two_loads_expose_exactly_two_output_states() {
    let mut driver = ShiftRegister::new();
    let mut chip = ShiftRegisterChip::new();
    let mut states: Vec<[bool; 8]> = vec![chip.outputs()];
    for bits in [[1, 0, 0, 0, 0, 0, 0, 0], [0, 0, 0, 0, 0, 0, 0, 0]] {
        let ops = driver.write_array(&bits);
        for op in &ops {
            chip.apply(*op);
            if chip.outputs() != *states.last().unwrap() {
                states.push(chip.outputs());
            }
        }
    }
    // the initial all-low state, the first pattern, and the second pattern:
    // the first load changed the outputs once (to the first pattern), the
    // second load once more (back to all-low), and nothing in between.
    assert_eq!(
        states,
        vec![
            [false; 8],
            [true, false, false, false, false, false, false, false],
            [false; 8],
        ]
    );
}

#[test]
fn outputs_move_only_at_the_lock_pulse() {
    let mut driver = ShiftRegister::new();
    let mut chip = ShiftRegisterChip::new();
    let before = chip.outputs();
    let ops = driver.write_array(&[0, 1, 1, 0, 1, 0, 0, 1]);
    for (i, op) in ops.iter().enumerate() {
        chip.apply(*op);
        if i < 24 {
            assert_eq!(chip.outputs(), before);
        } else {
            assert_eq!(
                chip.outputs(),
                [false, true, true, false, true, false, false, true]
            );
        }
    }
}

#[test]
fn reloading_the_same_bits_is_unobservable() {
    let bits = [0, 1, 0, 1, 1, 0, 1, 0];
    let mut driver = ShiftRegister::new();
    let mut chip = ShiftRegisterChip::new();
    load(&mut driver, &mut chip, &bits);
    let settled = chip.outputs();
    let ops = driver.write_array(&bits);
    for op in &ops {
        chip.apply(*op);
        assert_eq!(chip.outputs(), settled);
    }
}

#[test]
fn driver_lines_rest_low_between_frames() {
    let mut driver = ShiftRegister::new();
    let ops = driver.write_array(&[1, 1, 1, 1, 1, 1, 1, 1]);
    assert_eq!(*ops.last().unwrap(), LineOp::SetLock(false));
    // a second frame is accepted right away, and its clock pulses are again
    // clean rising edges
    let mut chip = ShiftRegisterChip::new();
    chip.apply_all(&ops);
    load(&mut driver, &mut chip, &[0, 0, 0, 0, 0, 0, 0, 0]);
    assert_eq!(chip.outputs(), [false; 8]);
}
