use qwy3::block_types::Point2i;
use qwy3::font::{CharacterDetails, Font};

fn details(x: i32, y: i32, w: i32, h: i32) -> Option<CharacterDetails> {
    Some(CharacterDetails {
        rect_in_atlas_xy: Point2i { x, y },
        dimensions_in_pixels: Point2i { x: w, y: h },
    })
}

#[test]
fn font_letters_with_the_wider_ones() {
    let font = Font::font_01();
    assert_eq!(font.character_details('a'), details(0, 50, 3, 5));
    assert_eq!(font.character_details('l'), details(44, 50, 3, 5));
    assert_eq!(font.character_details('m'), details(48, 50, 5, 5));
    assert_eq!(font.character_details('n'), details(54, 50, 4, 5));
    assert_eq!(font.character_details('o'), details(59, 50, 3, 5));
    assert_eq!(font.character_details('q'), details(67, 50, 4, 5));
    assert_eq!(font.character_details('w'), details(92, 50, 5, 5));
    assert_eq!(font.character_details('z'), details(106, 50, 3, 5));
}

#[test]
fn font_is_case_insensitive() {
    let font = Font::font_01();
    for (lower, upper) in ('a'..='z').zip('A'..='Z') {
        assert!(font.character_details(lower).is_some());
        assert_eq!(font.character_details(lower), font.character_details(upper));
    }
}

#[test]
fn font_digits_and_punctuation() {
    let font = Font::font_01();
    assert_eq!(font.character_details('0'), details(0, 44, 3, 5));
    assert_eq!(font.character_details('9'), details(36, 44, 3, 5));
    assert_eq!(font.character_details('|'), details(0, 32, 1, 5));
    assert_eq!(font.character_details('!'), details(6, 32, 1, 5));
    assert_eq!(font.character_details(','), details(8, 32, 2, 5));
    assert_eq!(font.character_details('`'), details(29, 32, 2, 5));
    assert_eq!(font.character_details('_'), details(0, 38, 3, 5));
    assert_eq!(font.character_details('"'), details(20, 38, 3, 5));
    assert_eq!(font.character_details('¨'), details(68, 38, 3, 5));
    assert_eq!(font.character_details('°'), details(76, 38, 3, 5));
}

#[test]
fn font_unknown_characters_and_error_character() {
    let font = Font::font_01();
    assert_eq!(font.character_details(' '), None);
    assert_eq!(font.character_details('é'), None);
    assert_eq!(font.character_details('$'), None);
    assert_eq!(Some(font.error_character_details()), details(109, 32, 3, 5));
    assert_eq!(font.max_character_height_in_pixels(), 5);
}
