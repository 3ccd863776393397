use blinkie::morse::CircularBuffer;

fn slots_of(tape: &CircularBuffer) -> Vec<char> {
    tape.iter().copied().collect()
}

#[test]
fn new_tape_is_all_empty() {
    let tape = CircularBuffer::new();
    assert_eq!(CircularBuffer::MAX_SLOTS, 32);
    assert_eq!(tape.current_slot(), 0);
    assert_eq!(tape.filled_count(), 0);
    assert_eq!(slots_of(&tape), vec!['\0'; 32]);
    assert!(tape.has_unused_slots());
}

#[test]
fn insert_writes_under_the_cursor_and_advances() {
    let mut tape = CircularBuffer::new();
    tape.insert('s');
    assert_eq!(tape.current_slot(), 1);
    assert_eq!(tape.filled_count(), 1);
    assert_eq!(tape.get(0), 's');
    assert_eq!(tape.get(1), '\0');
    tape.insert('o').insert('s');
    assert_eq!(tape.current_slot(), 3);
    assert_eq!(tape.filled_count(), 3);
    let mut expected = vec!['\0'; 32];
    expected[0] = 's';
    expected[1] = 'o';
    expected[2] = 's';
    assert_eq!(slots_of(&tape), expected);
}

#[test]
fn insert_takes_any_character() {
    let mut tape = CircularBuffer::new();
    tape.insert('~').insert('A');
    assert_eq!(tape.get(0), '~');
    assert_eq!(tape.get(1), 'A');
    assert_eq!(tape.filled_count(), 2);
}

#[test]
fn one_insert_beyond_capacity_overwrites_the_oldest() {
    let mut tape = CircularBuffer::new();
    let written: Vec<char> = (0..33u32).map(|i| char::from_u32('A' as u32 + i).unwrap()).collect();
    for c in written.iter() {
        tape.insert(*c);
    }
    assert_eq!(tape.filled_count(), 32);
    assert_eq!(tape.current_slot(), 1);
    assert_eq!(tape.get(0), written[32]);
    for i in 1..32 {
        assert_eq!(tape.get(i), written[i]);
    }
    assert!(!tape.has_unused_slots());
}

#[test]
fn exactly_full_tape_wraps_the_cursor() {
    let mut tape = CircularBuffer::new();
    for _ in 0..32 {
        tape.insert('x');
    }
    assert_eq!(tape.filled_count(), 32);
    assert_eq!(tape.current_slot(), 0);
    assert!(!tape.has_unused_slots());
}

#[test]
fn fill_count_saturates_over_many_wraps() {
    let mut tape = CircularBuffer::new();
    for i in 0..100u32 {
        tape.insert(char::from_u32('a' as u32 + i % 26).unwrap());
    }
    assert_eq!(tape.filled_count(), 32);
    assert_eq!(tape.current_slot(), 100 % 32);
    // slot 3 was last written by the write of index 99
    assert_eq!(tape.get(3), char::from_u32('a' as u32 + 99 % 26).unwrap());
    // slot 4 was last written by the write of index 68
    assert_eq!(tape.get(4), char::from_u32('a' as u32 + 68 % 26).unwrap());
}

#[test]
fn has_unused_slots_until_the_last_slot_is_written() {
    let mut tape = CircularBuffer::new();
    for _ in 0..31 {
        tape.insert('a');
        assert!(tape.has_unused_slots());
    }
    tape.insert('a');
    assert!(!tape.has_unused_slots());
}

#[test]
fn clear_gives_back_the_new_tape() {
    let mut tape = CircularBuffer::new();
    for _ in 0..40 {
        tape.insert('q');
    }
    tape.clear();
    let fresh = CircularBuffer::new();
    assert_eq!(tape.current_slot(), fresh.current_slot());
    assert_eq!(tape.filled_count(), fresh.filled_count());
    assert_eq!(slots_of(&tape), slots_of(&fresh));
    assert_eq!(tape.has_unused_slots(), fresh.has_unused_slots());
    assert_eq!(tape.debug(), fresh.debug());
    assert_eq!(slots_of(&tape), vec!['\0'; 32]);
}

#[test]
fn clear_of_a_new_tape_changes_nothing() {
    let mut tape = CircularBuffer::new();
    tape.clear();
    assert_eq!(tape.current_slot(), 0);
    assert_eq!(tape.filled_count(), 0);
    assert_eq!(slots_of(&tape), vec!['\0'; 32]);
}

#[test]
fn clear_can_be_followed_by_insert() {
    let mut tape = CircularBuffer::new();
    tape.insert('a').insert('b');
    tape.clear().insert('c');
    assert_eq!(tape.get(0), 'c');
    assert_eq!(tape.get(1), '\0');
    assert_eq!(tape.filled_count(), 1);
}

#[test]
fn iter_is_restartable_and_in_slot_order() {
    let mut tape = CircularBuffer::new();
    tape.insert('a').insert('b');
    let first: Vec<char> = tape.iter().copied().collect();
    let second: Vec<char> = tape.iter().copied().collect();
    assert_eq!(first.len(), 32);
    assert_eq!(first, second);
    assert_eq!(&first[..3], &['a', 'b', '\0']);
    assert_eq!(tape.current_slot(), 2);
}

#[test]
fn debug_text_marks_the_cursor_and_shows_slots_as_held() {
    let mut tape = CircularBuffer::new();
    tape.insert('h').insert('i');
    let text: String = tape.debug().into_iter().collect();
    let mut expected = String::new();
    expected.push_str("Debug-------------------\r\n");
    expected.push_str("  V");
    expected.push_str(&" ".repeat(29));
    expected.push_str("\r\n");
    expected.push_str("hi");
    expected.push_str(&"\0".repeat(30));
    expected.push_str("\r\n");
    expected.push_str("------------------------\r\n");
    assert_eq!(text, expected);
}

#[test]
fn debug_text_of_a_new_tape_holds_the_empty_marks() {
    let tape = CircularBuffer::new();
    let text = tape.debug();
    assert_eq!(text.len(), 26 + 34 + 34 + 26);
    assert_eq!(text[26], 'V');
    for i in 0..32 {
        assert_eq!(text[60 + i], '\0');
    }
    assert!(!text.contains(&'~'));
}

#[test]
fn debug_text_shows_a_stored_tilde_as_a_tilde() {
    let mut tape = CircularBuffer::new();
    tape.insert('~');
    let text = tape.debug();
    assert_eq!(text[60], '~');
    assert_eq!(text[61], '\0');
}

#[test]
fn debug_text_of_a_wrapped_tape_is_in_slot_order() {
    let mut tape = CircularBuffer::new();
    for _ in 0..32 {
        tape.insert('x');
    }
    tape.insert('y');
    let text: String = tape.debug().into_iter().collect();
    let expected = format!(
        "Debug-------------------\r\n V{}\r\ny{}\r\n------------------------\r\n",
        " ".repeat(30),
        "x".repeat(31)
    );
    assert_eq!(text, expected);
    assert_eq!(tape.current_slot(), 1);
    assert_eq!(tape.get(0), 'y');
}

#[test]
fn blank_mark_differs_from_the_empty_mark() {
    assert_eq!(CircularBuffer::EMPTY, '\0');
    assert_eq!(CircularBuffer::BLANK, '~');
    assert!(!blinkie::morse::Code::is_valid_ascii(&CircularBuffer::BLANK));
    assert!(!blinkie::morse::Code::is_valid_ascii(&CircularBuffer::EMPTY));
}

#[test]
fn cursor_of_a_full_tape_rests_on_the_oldest_character() {
    let mut tape = CircularBuffer::new();
    let written: Vec<char> = (0..50u32).map(|i| char::from_u32('0' as u32 + i).unwrap()).collect();
    for (n, c) in written.iter().enumerate() {
        tape.insert(*c);
        let n = n + 1;
        if n >= 32 {
            assert_eq!(tape.get(tape.current_slot()), written[n - 32]);
        } else {
            assert_eq!(tape.get(tape.current_slot()), '\0');
            assert_eq!(tape.get(n - 1), written[n - 1]);
        }
    }
}

#[test]
fn filled_tape_without_empty_marks_has_no_unused_slot() {
    let mut tape = CircularBuffer::new();
    tape.insert('\0');
    for i in 0..32u32 {
        tape.insert(char::from_u32('a' as u32 + i % 26).unwrap());
    }
    assert!(!tape.has_unused_slots());
}

#[test]
fn stored_empty_mark_counts_as_unused() {
    let mut tape = CircularBuffer::new();
    for i in 0..33u32 {
        tape.insert(if i == 5 { '\0' } else { 'a' });
    }
    assert_eq!(tape.filled_count(), 32);
    assert!(tape.has_unused_slots());
}
