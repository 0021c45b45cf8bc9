use passgen::characters::{add_value, get_char, get_char_type, PreviousCharacters};
use passgen::random::{Draw, RandomSource, ScriptedSource, ThreadRandom};
use passgen::symbols::{Symbols, BASIC_SYMBOLS, DIGITS, EXTRA_SYMBOLS, LOWER, UPPER};
use passgen::{generate, run, Config, GenerateError};

fn config(len: i32, classes: &str, check_rep: bool) -> Config {
    Config {
        len,
        upper: classes.contains('u'),
        lower: classes.contains('l'),
        numbers: classes.contains('n'),
        basic_sym: classes.contains('b'),
        extra_sym: classes.contains('e'),
        check_rep,
    }
}

fn bounds(source: &ScriptedSource) -> Vec<usize> {
    source.served().iter().map(|draw| draw.bound).collect()
}

fn draw(bound: usize, value: usize) -> Draw {
    Draw { bound, value }
}

#[test]
fn alphabets_are_the_fixed_ones() {
    assert_eq!(UPPER, "ABCDEFGHIJKLMNOPQRSTUVWXYZ");
    assert_eq!(LOWER, "abcdefghijklmnopqrstuvwxyz");
    assert_eq!(DIGITS, "0123456789");
    assert_eq!(BASIC_SYMBOLS, "-+=*/><[]{}()");
    assert_eq!(EXTRA_SYMBOLS, "?!@#$%&_|;:");
}

#[test]
fn scripted_source_replays_its_script_then_zeros() {
    let mut source = ScriptedSource::new(vec![7, 12, 3]);
    assert_eq!(source.below(10), 7);
    assert_eq!(source.below(10), 2);
    assert_eq!(source.below(2), 1);
    assert_eq!(source.below(5), 0);
    assert_eq!(source.below(1), 0);
    assert_eq!(
        source.served(),
        &vec![draw(10, 7), draw(10, 2), draw(2, 1), draw(5, 0), draw(1, 0)]
    );
}

#[test]
fn thread_source_stays_below_the_bound() {
    let mut source = ThreadRandom::new();
    for bound in 1..40 {
        for _ in 0..50 {
            assert!(source.below(bound) < bound);
        }
    }
}

#[test]
fn thread_source_reaches_every_value() {
    let mut source = ThreadRandom::new();
    let mut seen = [false; 4];
    for _ in 0..2000 {
        seen[source.below(4)] = true;
    }
    assert_eq!(seen, [true; 4]);
}

#[test]
fn digits_with_draws_of_zero_give_zeros() {
    let mut source = ScriptedSource::new(vec![]);
    let made = generate(&config(5, "n", false), &mut source);
    assert_eq!(made, Ok(String::from("00000")));
    assert_eq!(source.served(), &vec![draw(10, 0); 5]);
}

#[test]
fn length_zero_gives_the_empty_password() {
    for classes in ["", "u", "ln", "ulnbe"] {
        for check_rep in [false, true] {
            let mut source = ScriptedSource::new(vec![3, 1, 4]);
            let made = generate(&config(0, classes, check_rep), &mut source);
            assert_eq!(made, Ok(String::new()));
            assert!(source.served().is_empty());
            assert_eq!(run(config(0, classes, check_rep)), Ok(String::new()));
        }
    }
}

#[test]
fn negative_length_is_refused_before_any_draw() {
    for len in [-1, -16, i32::MIN] {
        let mut source = ScriptedSource::new(vec![3, 1, 4]);
        let made = generate(&config(len, "ul", true), &mut source);
        assert_eq!(made, Err(GenerateError::InvalidLength));
        assert!(source.served().is_empty());
        assert_eq!(run(config(len, "ul", true)), Err(GenerateError::InvalidLength));
    }
}

#[test]
fn invalid_length_has_a_message() {
    assert_eq!(
        GenerateError::InvalidLength.message(),
        "ERROR: The password length cannot be negative."
    );
}

#[test]
fn no_class_falls_back_to_letters_and_digits() {
    let password = run(config(400, "", false)).unwrap();
    assert_eq!(password.chars().count(), 400);
    assert!(password.chars().all(|c| c.is_ascii_alphanumeric()));

    // Class draws are made among three classes: the third is the digits.
    let mut source = ScriptedSource::new(vec![2, 9, 1, 25, 0, 25]);
    let made = generate(&config(3, "", false), &mut source);
    assert_eq!(made, Ok(String::from("9zZ")));
    assert_eq!(bounds(&source), vec![3, 10, 3, 26, 3, 26]);
}

#[test]
fn password_has_the_length_asked_for() {
    for len in [1, 2, 3, 4, 17, 256] {
        for classes in ["", "u", "e", "ub", "lne", "ulnbe"] {
            for check_rep in [false, true] {
                let password = run(config(len, classes, check_rep)).unwrap();
                assert_eq!(password.chars().count(), len as usize);
            }
        }
    }
}

#[test]
fn characters_come_from_the_enabled_alphabets() {
    let cases = [
        ("u", UPPER.to_string()),
        ("l", LOWER.to_string()),
        ("n", DIGITS.to_string()),
        ("b", BASIC_SYMBOLS.to_string()),
        ("e", EXTRA_SYMBOLS.to_string()),
        ("ne", format!("{DIGITS}{EXTRA_SYMBOLS}")),
        ("ulb", format!("{UPPER}{LOWER}{BASIC_SYMBOLS}")),
        ("ulnbe", format!("{UPPER}{LOWER}{DIGITS}{BASIC_SYMBOLS}{EXTRA_SYMBOLS}")),
    ];
    for (classes, alphabet) in cases {
        for check_rep in [false, true] {
            let password = run(config(300, classes, check_rep)).unwrap();
            assert!(password.chars().all(|c| alphabet.contains(c)), "{classes}: {password}");
        }
    }
}

#[test]
fn every_character_of_an_alphabet_can_be_drawn() {
    // The last character of each alphabet is reached with the largest draw.
    let mut source = ScriptedSource::new(vec![25]);
    assert_eq!(generate(&config(1, "u", false), &mut source), Ok(String::from("Z")));
    let mut source = ScriptedSource::new(vec![25]);
    assert_eq!(generate(&config(1, "l", false), &mut source), Ok(String::from("z")));
    let mut source = ScriptedSource::new(vec![9]);
    assert_eq!(generate(&config(1, "n", false), &mut source), Ok(String::from("9")));
    let mut source = ScriptedSource::new(vec![12]);
    assert_eq!(generate(&config(1, "b", false), &mut source), Ok(String::from(")")));
    let mut source = ScriptedSource::new(vec![10]);
    assert_eq!(generate(&config(1, "e", false), &mut source), Ok(String::from(":")));
}

#[test]
fn classes_are_chosen_by_their_place() {
    let mut source = ScriptedSource::new(vec![0, 1, 1, 2, 2, 3, 3, 4, 4, 5]);
    let made = generate(&config(5, "ulnbe", false), &mut source);
    assert_eq!(made, Ok(String::from("Bc3/%")));
    assert_eq!(bounds(&source), vec![5, 26, 5, 26, 5, 10, 5, 13, 5, 11]);
}

#[test]
fn script_decides_the_password() {
    let mut source = ScriptedSource::new(vec![4, 27, 7, 15, 2, 30]);
    let made = generate(&config(3, "unb", true), &mut source);
    assert_eq!(made, Ok(String::from("75/")));
    assert_eq!(
        source.served(),
        &vec![draw(3, 1), draw(10, 7), draw(3, 1), draw(10, 5), draw(3, 2), draw(13, 4)]
    );
}

#[test]
fn same_draws_give_the_same_password() {
    let script = vec![1, 5, 0, 7, 1, 1, 1, 2, 1, 3, 0, 4, 1, 9, 8, 1, 6, 0, 0, 2, 11, 4];
    for check_rep in [false, true] {
        let chosen = config(8, "ln", check_rep);
        let mut first = ScriptedSource::new(script.clone());
        let mut second = ScriptedSource::new(script.clone());
        let one = generate(&chosen, &mut first).unwrap();
        let two = generate(&chosen, &mut second).unwrap();
        assert_eq!(one, two);
        assert_eq!(first.served(), second.served());

        // What follows the draws that were taken does not matter.
        let taken = first.served().len();
        let mut longer = script[..taken].to_vec();
        longer.extend([99, 98, 97]);
        let mut third = ScriptedSource::new(longer);
        assert_eq!(generate(&chosen, &mut third).unwrap(), one);
    }
}

#[test]
fn guard_draws_the_third_of_a_class_again() {
    // One class only: no draw chooses the class.
    let mut source = ScriptedSource::new(vec![1, 2, 3, 4, 5, 6]);
    let made = generate(&config(4, "l", true), &mut source);
    assert_eq!(made, Ok(String::from("bceg")));
    assert_eq!(bounds(&source), vec![26; 6]);

    let mut source = ScriptedSource::new(vec![1, 2, 3, 4, 5, 6]);
    let made = generate(&config(4, "l", false), &mut source);
    assert_eq!(made, Ok(String::from("bcde")));
    assert_eq!(bounds(&source), vec![26; 4]);
}

#[test]
fn guard_rerolls_within_the_same_class() {
    // Draws of zero choose the first class every time.
    let mut source = ScriptedSource::new(vec![]);
    let made = generate(&config(4, "ul", true), &mut source);
    assert_eq!(made, Ok(String::from("AAAA")));
    assert_eq!(bounds(&source), vec![2, 26, 2, 26, 2, 26, 26, 2, 26, 26]);

    let mut source = ScriptedSource::new(vec![]);
    let made = generate(&config(4, "ul", false), &mut source);
    assert_eq!(made, Ok(String::from("AAAA")));
    assert_eq!(bounds(&source), vec![2, 26, 2, 26, 2, 26, 2, 26]);
}

#[test]
fn guard_counts_classes_not_characters() {
    // upper, lower, upper, then upper again: two of the last three are upper.
    let script = vec![0, 0, 1, 0, 0, 0, 0, 0, 7, 1, 0, 0, 6, 5];
    let mut source = ScriptedSource::new(script);
    let made = generate(&config(6, "ul", true), &mut source);
    // Positions: A, a, A, then A is drawn and H replaces it, then a, then
    // upper again with two of the last three upper: G is drawn, F replaces it.
    assert_eq!(made, Ok(String::from("AaAHaF")));
    assert_eq!(bounds(&source), vec![2, 26, 2, 26, 2, 26, 2, 26, 26, 2, 26, 2, 26, 26]);
}

#[test]
fn guard_makes_a_single_second_draw() {
    // The second draw lands on the same character and is kept.
    let mut source = ScriptedSource::new(vec![4, 4, 4, 4, 4, 4, 4]);
    let made = generate(&config(5, "n", true), &mut source);
    assert_eq!(made, Ok(String::from("44440")));
    assert_eq!(bounds(&source), vec![10; 8]);
}

#[test]
fn get_char_type_draws_only_among_several() {
    let mut source = ScriptedSource::new(vec![3, 8]);
    assert_eq!(get_char_type(&mut source, 1), 0);
    assert!(source.served().is_empty());
    assert_eq!(get_char_type(&mut source, 5), 3);
    assert_eq!(get_char_type(&mut source, 5), 3);
    assert_eq!(source.served(), &vec![draw(5, 3), draw(5, 3)]);
}

#[test]
fn get_char_slices_one_character() {
    let mut source = ScriptedSource::new(vec![2, 9, 30]);
    assert_eq!(get_char(&mut source, DIGITS, 10), "2");
    assert_eq!(get_char(&mut source, DIGITS, 10), "9");
    assert_eq!(get_char(&mut source, UPPER, 26), "E");
    assert_eq!(get_char(&mut source, UPPER, 3), "A");
    assert_eq!(source.served(), &vec![draw(10, 2), draw(10, 9), draw(26, 4), draw(3, 0)]);
}

#[test]
fn add_value_appends_and_records() {
    let mut source = ScriptedSource::new(vec![1, 2, 3, 4]);
    let mut password = String::from("x");
    let mut previous = PreviousCharacters::new();
    add_value(&mut source, &mut password, LOWER, 26, 1, &mut previous);
    add_value(&mut source, &mut password, LOWER, 26, 1, &mut previous);
    assert_eq!(password, "xbc");
    assert_eq!(previous.get_characters(), (1, 1, -1));
    add_value(&mut source, &mut password, LOWER, 26, 1, &mut previous);
    assert_eq!(password, "xbce");
    assert_eq!(previous.get_characters(), (1, 1, 1));
    add_value(&mut source, &mut password, DIGITS, 10, 2, &mut previous);
    assert_eq!(password, "xbce0");
    assert_eq!(previous.get_characters(), (2, 1, 1));
    assert_eq!(bounds(&source), vec![26, 26, 26, 26, 10]);
}

#[test]
fn symbols_follow_the_configuration() {
    let mut source = ScriptedSource::new(vec![0, 1]);
    let symbols = Symbols::new(&config(1, "be", false));
    assert_eq!(symbols.get_char_type(&mut source), (BASIC_SYMBOLS, 0));
    assert_eq!(symbols.get_char_type(&mut source), (EXTRA_SYMBOLS, 1));
    assert_eq!(bounds(&source), vec![2, 2]);

    let mut source = ScriptedSource::new(vec![5]);
    let symbols = Symbols::new(&config(1, "n", false));
    assert_eq!(symbols.get_char_type(&mut source), (DIGITS, 0));
    assert!(source.served().is_empty());

    let symbols = Symbols::new(&config(1, "", true));
    let mut source = ScriptedSource::new(vec![0, 1, 2]);
    assert_eq!(symbols.get_char_type(&mut source), (UPPER, 0));
    assert_eq!(symbols.get_char_type(&mut source), (LOWER, 1));
    assert_eq!(symbols.get_char_type(&mut source), (DIGITS, 2));
    assert_eq!(bounds(&source), vec![3, 3, 3]);
}

#[test]
fn symbols_draw_characters() {
    let symbols = Symbols::new(&config(1, "e", false));
    let mut source = ScriptedSource::new(vec![0, 10, 11]);
    assert_eq!(symbols.get_char(&mut source, EXTRA_SYMBOLS), '?');
    assert_eq!(symbols.get_char(&mut source, EXTRA_SYMBOLS), ':');
    assert_eq!(symbols.get_char(&mut source, EXTRA_SYMBOLS), '?');
    assert_eq!(bounds(&source), vec![11, 11, 11]);
}

#[test]
fn symbols_place_characters_with_and_without_guard() {
    let guarded = config(1, "un", true);
    let symbols = Symbols::new(&guarded);
    let mut source = ScriptedSource::new(vec![1, 2, 3, 4]);
    let mut password = String::new();
    let mut previous = PreviousCharacters::new();
    previous.adjust(1);
    previous.adjust(1);
    symbols.add_value(&guarded, &mut source, &mut password, DIGITS, 1, &mut previous);
    assert_eq!(password, "2");
    assert_eq!(previous.get_characters(), (1, 1, 1));

    let free = config(1, "un", false);
    symbols.add_value(&free, &mut source, &mut password, DIGITS, 1, &mut previous);
    assert_eq!(password, "23");
    symbols.add_value(&free, &mut source, &mut password, UPPER, 0, &mut previous);
    assert_eq!(password, "23E");
    assert_eq!(previous.get_characters(), (0, 1, 1));
    assert_eq!(bounds(&source), vec![10, 10, 10, 26]);
}
