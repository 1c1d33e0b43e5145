use snake::game::score_line;
use snake::screen_buffer::{GameContent, ScreenBuffer};

#[test]
fn new_buffer_is_filled_with_the_initial_content() {
    let buffer = ScreenBuffer::new(4, 3, GameContent::Empty);
    for row in 0..3 {
        for col in 0..4 {
            assert_eq!(buffer.get_at(row, col), GameContent::Empty);
        }
    }
}

#[test]
fn set_at_changes_exactly_one_cell() {
    let mut buffer = ScreenBuffer::new(5, 5, GameContent::Empty);
    buffer.set_at(2, 3, GameContent::Food);
    for row in 0..5 {
        for col in 0..5 {
            if (row, col) == (2, 3) {
                assert_eq!(buffer.get_at(row, col), GameContent::Food);
            } else {
                assert_eq!(buffer.get_at(row, col), GameContent::Empty);
            }
        }
    }
}

#[test]
fn set_all_overwrites_everything() {
    let mut buffer = ScreenBuffer::new(5, 4, GameContent::Food);
    buffer.set_all(GameContent::Border);
    for row in 0..4 {
        for col in 0..5 {
            assert_eq!(buffer.get_at(row, col), GameContent::Border);
        }
    }
}

#[test]
fn add_border_frames_the_grid_and_keeps_the_inside() {
    let mut buffer = ScreenBuffer::new(6, 5, GameContent::Empty);
    buffer.set_at(2, 2, GameContent::Food);
    buffer.add_border(GameContent::Border);
    for row in 0..5 {
        for col in 0..6 {
            let expected = if row == 0 || row == 4 || col == 0 || col == 5 {
                GameContent::Border
            } else if (row, col) == (2, 2) {
                GameContent::Food
            } else {
                GameContent::Empty
            };
            assert_eq!(buffer.get_at(row, col), expected);
        }
    }
}

#[test]
fn centered_text_starts_at_the_computed_column() {
    // width 21, text of length 5: the text starts at column (21-5)/2 = 8
    let mut buffer = ScreenBuffer::new(21, 5, GameContent::Empty);
    buffer.set_centered_text_at_row(2, "SNAKE");
    let expected = ['S', 'N', 'A', 'K', 'E'];
    for (i, glyph) in expected.iter().enumerate() {
        assert_eq!(buffer.get_at(2, 8 + i), GameContent::Character(*glyph));
    }
    assert_eq!(buffer.get_at(2, 7), GameContent::Empty);
    assert_eq!(buffer.get_at(2, 13), GameContent::Empty);
}

#[test]
fn text_on_the_top_row_is_tagged_as_border_text() {
    let mut buffer = ScreenBuffer::new(9, 4, GameContent::Empty);
    buffer.set_centered_text_at_row(0, "HI");
    // (9-2)/2 = 3
    assert_eq!(buffer.get_at(0, 3), GameContent::CharacterOnBorder('H'));
    assert_eq!(buffer.get_at(0, 4), GameContent::CharacterOnBorder('I'));
    assert_eq!(buffer.get_at(1, 3), GameContent::Empty);
}

#[test]
fn score_line_spells_the_score_in_decimal() {
    assert_eq!(score_line(0), "Score: 0".chars().collect::<Vec<char>>());
    assert_eq!(score_line(7), "Score: 7".chars().collect::<Vec<char>>());
    assert_eq!(score_line(12345), "Score: 12345".chars().collect::<Vec<char>>());
    assert_eq!(
        score_line(u64::MAX),
        "Score: 18446744073709551615".chars().collect::<Vec<char>>()
    );
}
