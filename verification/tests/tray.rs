use dice_roller::dice::{die_faces, DicesState, COUNT_MAX, DICE_NUM};

#[test]
fn face_counts_follow_the_canonical_order() {
    assert_eq!(DICE_NUM, 5);
    assert_eq!(die_faces(0), 4);
    assert_eq!(die_faces(1), 6);
    assert_eq!(die_faces(2), 12);
    assert_eq!(die_faces(3), 20);
    assert_eq!(die_faces(4), 100);
}

#[test]
fn new_keeps_counts_and_modifier() {
    let state = DicesState::<5>::new([1, 2, 3, 4, 5], 6);
    assert_eq!(state.dice_num, [1, 2, 3, 4, 5]);
    assert_eq!(state.constant, 6);
}

#[test]
fn description_of_two_d6_plus_one() {
    let state = DicesState::<5>::new([0, 2, 0, 0, 0], 1);
    assert_eq!(state.gen_description(), "2D6 + 1");
}

#[test]
fn description_joins_terms_in_kind_order() {
    let state = DicesState::<5>::new([0, 2, 0, 1, 0], 3);
    assert_eq!(state.gen_description(), "2D6 + 1D20 + 3");
}

#[test]
fn description_of_every_kind() {
    let state = DicesState::<5>::new([1, 2, 3, 4, 5], 0);
    assert_eq!(state.gen_description(), "1D4 + 2D6 + 3D12 + 4D20 + 5D100");
}

#[test]
fn description_of_a_single_kind_has_no_plus() {
    let state = DicesState::<5>::new([0, 0, 0, 0, 100], 0);
    assert_eq!(state.gen_description(), "100D100");
}

#[test]
fn description_of_the_modifier_alone() {
    let state = DicesState::<5>::new([0, 0, 0, 0, 0], 7);
    assert_eq!(state.gen_description(), "7");
}

#[test]
fn description_of_a_blank_tray_is_empty() {
    let state = DicesState::<5>::new([0, 0, 0, 0, 0], 0);
    assert_eq!(state.gen_description(), "");
}

#[test]
fn description_is_empty_only_for_a_blank_tray() {
    for kind in 0..5 {
        let mut counts = [0; 5];
        counts[kind] = 1;
        assert_ne!(DicesState::<5>::new(counts, 0).gen_description(), "");
    }
    assert_ne!(DicesState::<5>::new([0; 5], 1).gen_description(), "");
}

#[test]
fn description_writes_negative_numbers_with_a_sign() {
    let state = DicesState::<5>::new([-3, 0, 0, 0, 0], -12);
    assert_eq!(state.gen_description(), "-3D4 + -12");
    let extreme = DicesState::<5>::new([i32::MIN, 0, 0, 0, 0], i32::MAX);
    assert_eq!(extreme.gen_description(), "-2147483648D4 + 2147483647");
}

#[test]
fn description_of_a_shorter_tray() {
    let state = DicesState::<2>::new([1, 1], 0);
    assert_eq!(state.gen_description(), "1D4 + 1D6");
}

#[test]
fn valid_needs_a_die() {
    assert!(!DicesState::<5>::new([0, 0, 0, 0, 0], 0).valid());
    assert!(!DicesState::<5>::new([0, 0, 0, 0, 0], 5).valid());
    assert!(DicesState::<5>::new([0, 0, 0, 0, 1], 0).valid());
    assert!(DicesState::<5>::new([1, 0, 0, 0, 0], 0).valid());
    assert!(DicesState::<5>::new([0, 0, -1, 0, 0], 0).valid());
}

#[test]
fn reset_blanks_the_tray() {
    let mut state = DicesState::<5>::new([1, 2, 3, 4, 5], 6);
    state.reset();
    assert_eq!(state.dice_num, [0, 0, 0, 0, 0]);
    assert_eq!(state.constant, 0);
    assert!(!state.valid());
    assert_eq!(state.gen_description(), "");
}

#[test]
fn set_count_holds_the_value_to_its_range() {
    let mut state = DicesState::<5>::new([0; 5], 0);
    state.set_count(1, 7);
    assert_eq!(state.dice_num, [0, 7, 0, 0, 0]);
    state.set_count(1, -4);
    assert_eq!(state.dice_num, [0, 0, 0, 0, 0]);
    state.set_count(4, 101);
    assert_eq!(state.dice_num, [0, 0, 0, 0, COUNT_MAX]);
    state.set_count(0, 100);
    assert_eq!(state.dice_num, [100, 0, 0, 0, 100]);
    state.set_count(0, 0);
    assert_eq!(state.dice_num, [0, 0, 0, 0, 100]);
    assert_eq!(state.constant, 0);
}

#[test]
fn set_constant_holds_the_value_to_its_range() {
    let mut state = DicesState::<5>::new([1, 0, 0, 0, 0], 0);
    state.set_constant(42);
    assert_eq!(state.constant, 42);
    state.set_constant(-1);
    assert_eq!(state.constant, 0);
    state.set_constant(1000);
    assert_eq!(state.constant, COUNT_MAX);
    assert_eq!(state.dice_num, [1, 0, 0, 0, 0]);
}

#[test]
fn heading_shows_the_term_even_at_zero() {
    let state = DicesState::<5>::new([0, 2, 0, 0, 13], 0);
    assert_eq!(state.heading(0), "0D4");
    assert_eq!(state.heading(1), "2D6");
    assert_eq!(state.heading(2), "0D12");
    assert_eq!(state.heading(3), "0D20");
    assert_eq!(state.heading(4), "13D100");
}

#[test]
fn rollable_asks_for_a_die_and_no_overflow() {
    assert!(DicesState::<5>::new([0, 2, 0, 0, 0], 1).rollable());
    assert!(DicesState::<5>::new([100, 100, 100, 100, 100], 100).rollable());
    assert!(DicesState::<5>::new([1, 0, 0, 0, 0], -50).rollable());
    assert!(!DicesState::<5>::new([0, 0, 0, 0, 0], 1).rollable());
    assert!(!DicesState::<5>::new([0, -1, 0, 0, 1], 0).rollable());
    assert!(DicesState::<5>::new([0, 0, 0, 0, 21_474_836], 47).rollable());
    assert!(!DicesState::<5>::new([0, 0, 0, 0, 21_474_836], 48).rollable());
    assert!(!DicesState::<5>::new([i32::MAX, 0, 0, 0, 0], 0).rollable());
    assert!(DicesState::<5>::new([1, 0, 0, 0, 0], i32::MAX - 4).rollable());
    assert!(!DicesState::<5>::new([1, 0, 0, 0, 0], i32::MAX - 3).rollable());
}

#[test]
fn rollable_knows_only_kinds_with_faces() {
    assert!(DicesState::<6>::new([1, 0, 0, 0, 0, 0], 0).rollable());
    assert!(!DicesState::<6>::new([1, 0, 0, 0, 0, 1], 0).rollable());
}
