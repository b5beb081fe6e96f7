use tictactoe::{parse_move, Game, InputError, Symbol};

#[test]
fn marks_are_named_by_their_letter() {
    assert_eq!(Symbol::Empty.to_string(), "");
    assert_eq!(Symbol::X.to_string(), "X");
    assert_eq!(Symbol::O.to_string(), "O");
}

#[test]
fn empty_board_is_drawn_with_underscores() {
    assert_eq!(Game::new().render(), " 123\n1___\n2___\n3___\n");
}

#[test]
fn board_is_drawn_row_by_row() {
    let mut game = Game::new();
    game.make_move(0, 0, Symbol::X);
    game.make_move(0, 2, Symbol::O);
    game.make_move(1, 0, Symbol::O);
    game.make_move(1, 2, Symbol::X);
    game.make_move(2, 0, Symbol::O);
    game.make_move(2, 1, Symbol::X);
    game.make_move(2, 2, Symbol::O);
    assert_eq!(game.render(), " 123\n1X_O\n2O_X\n3OXO\n");
}

#[test]
fn each_cell_is_drawn_in_its_place() {
    for x in 0..3 {
        for y in 0..3 {
            let mut game = Game::new();
            game.make_move(x, y, Symbol::X);
            let text = game.render();
            let lines: Vec<&str> = text.lines().collect();
            assert_eq!(lines.len(), 4);
            assert_eq!(lines[0], " 123");
            for r in 0..3 {
                let mut expected = format!("{}___", r + 1);
                if r == x {
                    expected.replace_range(y + 1..y + 2, "X");
                }
                assert_eq!(lines[r + 1], expected);
            }
            assert!(text.ends_with('\n'));
            assert_eq!(text.chars().count(), 20);
        }
    }
}

#[test]
fn move_is_read_as_column_then_row() {
    assert_eq!(parse_move("1 1"), Ok((0, 0)));
    assert_eq!(parse_move("2 3"), Ok((2, 1)));
    assert_eq!(parse_move("3 1"), Ok((0, 2)));
    assert_eq!(parse_move("1 3"), Ok((2, 0)));
    assert_eq!(parse_move("3 3"), Ok((2, 2)));
}

#[test]
fn every_cell_can_be_named() {
    for row in 1..=3usize {
        for col in 1..=3usize {
            assert_eq!(parse_move(&format!("{col} {row}\n")), Ok((row - 1, col - 1)));
        }
    }
}

#[test]
fn white_space_around_the_numbers_is_passed_over() {
    assert_eq!(parse_move("2 1\n"), Ok((0, 1)));
    assert_eq!(parse_move("2 1\r\n"), Ok((0, 1)));
    assert_eq!(parse_move("  2\t \t1  "), Ok((0, 1)));
    assert_eq!(parse_move("\n2\n1\n"), Ok((0, 1)));
    assert_eq!(parse_move("2\u{a0}1"), Ok((0, 1)));
    assert_eq!(parse_move("\u{3000}2\u{2003}1\u{85}"), Ok((0, 1)));
}

#[test]
fn numbers_may_carry_a_plus_sign_and_leading_zeros() {
    assert_eq!(parse_move("+2 +1"), Ok((0, 1)));
    assert_eq!(parse_move("02 0001"), Ok((0, 1)));
    assert_eq!(parse_move("+03 2"), Ok((1, 2)));
}

#[test]
fn line_without_two_words_is_malformed() {
    assert_eq!(parse_move(""), Err(InputError::Malformed));
    assert_eq!(parse_move("\n"), Err(InputError::Malformed));
    assert_eq!(parse_move("   \t "), Err(InputError::Malformed));
    assert_eq!(parse_move("1"), Err(InputError::Malformed));
    assert_eq!(parse_move(" 2 \n"), Err(InputError::Malformed));
    assert_eq!(parse_move("12"), Err(InputError::Malformed));
    assert_eq!(parse_move("1 2 3"), Err(InputError::Malformed));
    assert_eq!(parse_move("1 2 x"), Err(InputError::Malformed));
    assert_eq!(parse_move("9 9 9 9"), Err(InputError::Malformed));
    assert_eq!(parse_move("1,2"), Err(InputError::Malformed));
    assert_eq!(parse_move("1\u{200b}2"), Err(InputError::Malformed));
}

#[test]
fn word_that_is_no_number_is_malformed() {
    assert_eq!(parse_move("a b"), Err(InputError::Malformed));
    assert_eq!(parse_move("x 1"), Err(InputError::Malformed));
    assert_eq!(parse_move("1 y"), Err(InputError::Malformed));
    assert_eq!(parse_move("-1 2"), Err(InputError::Malformed));
    assert_eq!(parse_move("1 -2"), Err(InputError::Malformed));
    assert_eq!(parse_move("+ 1"), Err(InputError::Malformed));
    assert_eq!(parse_move("1 +"), Err(InputError::Malformed));
    assert_eq!(parse_move("++1 1"), Err(InputError::Malformed));
    assert_eq!(parse_move("1+ 1"), Err(InputError::Malformed));
    assert_eq!(parse_move("1.0 2"), Err(InputError::Malformed));
    assert_eq!(parse_move("1_0 2"), Err(InputError::Malformed));
    assert_eq!(parse_move("0x1 2"), Err(InputError::Malformed));
    assert_eq!(parse_move("2a 2"), Err(InputError::Malformed));
    assert_eq!(parse_move("\u{ff11} \u{ff12}"), Err(InputError::Malformed));
    assert_eq!(parse_move("\u{661} 1"), Err(InputError::Malformed));
}

#[test]
fn number_too_large_for_the_machine_is_malformed() {
    assert_eq!(parse_move("340282366920938463463374607431768211456 1"), Err(InputError::Malformed));
    assert_eq!(parse_move("1 99999999999999999999999999999999999999999"), Err(InputError::Malformed));
    assert_eq!(parse_move(&format!("{}0 1", usize::MAX)), Err(InputError::Malformed));
    assert_eq!(parse_move(&format!("1 {}9", usize::MAX / 10 + 1)), Err(InputError::Malformed));
}

#[test]
fn number_off_the_board_is_out_of_range() {
    assert_eq!(parse_move("0 1"), Err(InputError::OutOfRange));
    assert_eq!(parse_move("1 0"), Err(InputError::OutOfRange));
    assert_eq!(parse_move("0 0"), Err(InputError::OutOfRange));
    assert_eq!(parse_move("4 1"), Err(InputError::OutOfRange));
    assert_eq!(parse_move("1 4"), Err(InputError::OutOfRange));
    assert_eq!(parse_move("4 4"), Err(InputError::OutOfRange));
    assert_eq!(parse_move("5 2"), Err(InputError::OutOfRange));
    assert_eq!(parse_move("2 10"), Err(InputError::OutOfRange));
    assert_eq!(parse_move("+0 3"), Err(InputError::OutOfRange));
    assert_eq!(parse_move("000 3"), Err(InputError::OutOfRange));
    assert_eq!(parse_move(&format!("{} 1", usize::MAX)), Err(InputError::OutOfRange));
    assert_eq!(parse_move(&format!("1 {}", usize::MAX)), Err(InputError::OutOfRange));
}

#[test]
fn malformed_comes_before_out_of_range() {
    assert_eq!(parse_move("9 x"), Err(InputError::Malformed));
    assert_eq!(parse_move("x 9"), Err(InputError::Malformed));
    assert_eq!(parse_move("9 9 9"), Err(InputError::Malformed));
}

/// What the standard library makes of a line: its words, each read as a
/// `usize`.
fn read_with_std(line: &str) -> Result<(usize, usize), InputError> {
    let found: Vec<&str> = line.split_whitespace().collect();
    if found.len() != 2 {
        return Err(InputError::Malformed);
    }
    let col = found[0].parse::<usize>().map_err(|_| InputError::Malformed)?;
    let row = found[1].parse::<usize>().map_err(|_| InputError::Malformed)?;
    if !(1..=3).contains(&col) || !(1..=3).contains(&row) {
        return Err(InputError::OutOfRange);
    }
    Ok((row - 1, col - 1))
}

#[test]
fn every_character_separates_words_as_in_the_standard_library() {
    for code in 0..=0x10FFFFu32 {
        if let Some(c) = char::from_u32(code) {
            let between = format!("2{c}3");
            assert_eq!(parse_move(&between), read_with_std(&between), "U+{code:04X} between");
            let around = format!("{c}1 2{c}");
            assert_eq!(parse_move(&around), read_with_std(&around), "U+{code:04X} around");
        }
    }
}

#[test]
fn short_lines_are_read_as_by_the_standard_library() {
    let alphabet = ['0', '1', '3', '4', '9', '+', '-', ' ', '\t', 'x', '\u{a0}'];
    let mut lines = vec![String::new()];
    for _ in 0..5 {
        let mut longer = Vec::new();
        for line in &lines {
            for c in alphabet {
                let mut next = line.clone();
                next.push(c);
                longer.push(next);
            }
        }
        for line in &longer {
            assert_eq!(parse_move(line), read_with_std(line), "line {line:?}");
        }
        lines = longer;
    }
}
