use blinkie::morse::{Code, Sequence, Symbols};

const MORSE: [(char, &str); 54] = [
    ('a', "._"), ('b', "_..."), ('c', "_._."), ('d', "_.."), ('e', "."), ('f', ".._."),
    ('g', "__."), ('h', "...."), ('i', ".."), ('j', ".___"), ('k', "_._"), ('l', "._.."),
    ('m', "__"), ('n', "_."), ('o', "___"), ('p', ".__."), ('q', "__._"), ('r', "._."),
    ('s', "..."), ('t', "_"), ('u', ".._"), ('v', "..._"), ('w', ".__"), ('x', "_.._"),
    ('y', "_.__"), ('z', "__.."),
    ('0', "_____"), ('1', ".____"), ('2', "..___"), ('3', "...__"), ('4', "...._"),
    ('5', "....."), ('6', "_...."), ('7', "__..."), ('8', "___.."), ('9', "____."),
    ('.', "._._._"), (',', "__..__"), ('?', "..__.."), ('\'', ".____."), ('!', "_._.__"),
    ('/', "_.._."), ('(', "_.__."), (')', "_.__._"), ('&', "._..."), (':', "___..."),
    (';', "_._._."), ('=', "_..._"), ('+', "._._."), ('-', "_...._"), ('_', "..__._"),
    ('"', "._.._."), ('$', "..._.._"), ('@', ".__._."),
];

#[test]
fn symbol_constants_are_dot_and_underscore() {
    assert_eq!(Symbols::DOT, '.');
    assert_eq!(Symbols::DASH, '_');
    assert_eq!(Symbols::S1.as_char(), '.');
    assert_eq!(Symbols::S2.as_char(), '_');
}

#[test]
fn spot_checks_of_the_table() {
    assert_eq!(Code::char_to_symbol(&'a'), "._");
    assert_eq!(Code::char_to_symbol(&'0'), "_____");
    assert_eq!(Code::char_to_symbol(&'e'), ".");
    assert_eq!(Code::char_to_symbol(&'s'), "...");
    assert_eq!(Code::char_to_symbol(&'o'), "___");
    assert_eq!(Code::char_to_symbol(&'@'), ".__._.");
    assert_eq!(Code::char_to_symbol(&'$'), "..._.._");
}

#[test]
fn table_matches_international_morse() {
    for (c, symbols) in MORSE.iter() {
        assert!(Code::is_valid_ascii(c), "{:?} must be encodable", c);
        assert_eq!(Code::char_to_symbol(c), *symbols, "symbols of {:?}", c);
    }
}

#[test]
fn every_symbol_string_is_a_short_run_of_dots_and_dashes() {
    for c in Code::VALID_CHARACTERS.iter() {
        if *c == ' ' {
            continue;
        }
        let symbols = Code::char_to_symbol(c);
        assert!(!symbols.is_empty());
        assert!(symbols.len() <= 7);
        assert!(symbols.chars().all(|s| s == Symbols::DOT || s == Symbols::DASH));
    }
}

#[test]
fn no_two_characters_share_a_symbol_string() {
    for (i, (_, a)) in MORSE.iter().enumerate() {
        for (_, b) in MORSE.iter().skip(i + 1) {
            assert_ne!(Code::char_to_symbol(&MORSE[i].0), *b);
            assert_ne!(a, b);
        }
    }
}

#[test]
fn alphabet_has_fifty_five_characters() {
    assert_eq!(Code::VALID_CHARACTERS.len(), 55);
    let mut count = 0;
    for code in 0u32..0x250 {
        if let Some(c) = char::from_u32(code) {
            if Code::is_valid_ascii(&c) {
                count += 1;
                assert!(Code::VALID_CHARACTERS.contains(&c));
            }
        }
    }
    assert_eq!(count, 55);
}

#[test]
fn space_is_encodable() {
    assert!(Code::is_valid_ascii(&' '));
}

#[test]
fn characters_outside_the_alphabet_are_rejected() {
    for c in ['~', '#', '[', ']', '<', '>', '*', '\0', '\n', '\r', 'A', 'Z', '%', '^', 'é', '{'] {
        assert!(!Code::is_valid_ascii(&c), "{:?} must not be encodable", c);
    }
}

#[test]
fn sequence_exists_for_every_encodable_character_but_space() {
    for c in Code::VALID_CHARACTERS.iter() {
        assert_eq!(Sequence::of(c).is_some(), *c != ' ');
    }
    assert!(Sequence::of(&'~').is_none());
    assert!(Sequence::of(&'\0').is_none());
    assert!(Sequence::of(&'A').is_none());
}

#[test]
fn sequence_walks_its_marks_in_order() {
    let b = Sequence::of(&'b').unwrap();
    assert_eq!(b.len(), 4);
    assert_eq!(b.chars().collect::<Vec<char>>(), vec!['_', '.', '.', '.']);
    let e = Sequence::of(&'e').unwrap();
    assert_eq!(e.len(), 1);
    assert_eq!(e.chars().collect::<Vec<char>>(), vec!['.']);
    let dollar = Sequence::of(&'$').unwrap();
    assert_eq!(dollar.len(), 7);
    assert_eq!(dollar.chars().collect::<String>(), "..._.._");
}

#[test]
fn sequence_agrees_with_the_table() {
    for (c, symbols) in MORSE.iter() {
        let sequence = Sequence::of(c).unwrap();
        assert_eq!(sequence.len(), symbols.len());
        assert_eq!(sequence.chars().collect::<String>(), *symbols);
    }
}
