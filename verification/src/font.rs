//! The bitmap font: where each character is taken from in the texture atlas.
//!
//! The font's sprite sheet is loaded in the atlas from the height of `FONT_SHEET_Y` pixels
//! upwards. Its rows, from the bottom: 1 and 2 pixels wide punctuation, 3 pixels wide
//! punctuation, digits, letters (case insensitive, a few of them wider).

use vstd::prelude::*;

use crate::block_types::Point2i;

verus! {

/// Where the font's sprite sheet starts vertically in the atlas, in pixels.
pub const FONT_SHEET_Y: i32 = 32;

/// The height of a row of the sprite sheet, in pixels (the characters are 5 pixels high, and
/// rows are 1 pixel apart).
pub const ROW_HEIGHT: i32 = 6;

/// Where a character is taken from in the atlas, in pixels.
#[derive(Debug, Clone, Copy, PartialEq, Eq, Structural)]
pub struct CharacterDetails {
    /// The corner of the character's rectangle in the atlas, in pixels (its texture
    /// coordinates are these divided by the atlas's dimensions).
    pub rect_in_atlas_xy: Point2i,
    /// The width and the height of the character's rectangle, in pixels.
    pub dimensions_in_pixels: Point2i,
}

/// The details of the character at `(x, y)` (in pixels) in the sprite sheet, of width `w` and
/// height `h`.
pub open spec fn sheet_details(x: int, y: int, w: int, h: int) -> CharacterDetails {
    CharacterDetails {
        rect_in_atlas_xy: Point2i { x: x as i32, y: (y + FONT_SHEET_Y) as i32 },
        dimensions_in_pixels: Point2i { x: w as i32, y: h as i32 },
    }
}

/// How many pixels wider than 3 the letter of index `l` (`0` for `a`) is.
pub open spec fn letter_extra_width(l: int) -> int {
    if l == 12 {
        2  // m
    } else if l == 13 {
        1  // n
    } else if l == 16 {
        1  // q
    } else if l == 22 {
        2  // w
    } else {
        0
    }
}

/// The horizontal position of the letter of index `l`: 4 pixels per letter, plus what the
/// wider letters before it take.
pub open spec fn letter_x(l: int) -> int {
    4 * l + (if l > 12 {
        2int
    } else {
        0
    }) + (if l > 13 {
        1int
    } else {
        0
    }) + (if l > 16 {
        1int
    } else {
        0
    }) + (if l > 22 {
        2int
    } else {
        0
    })
}

pub open spec fn letter_details(l: int) -> CharacterDetails {
    sheet_details(letter_x(l), 3 * ROW_HEIGHT, 3 + letter_extra_width(l), 5)
}

pub open spec fn digit_details(d: int) -> CharacterDetails {
    sheet_details(4 * d, 2 * ROW_HEIGHT, 3, 5)
}

/// The 1 pixel wide punctuation.
pub open spec fn punctuation_1() -> Seq<char> {
    seq!['|', '.', ':', '!']
}

/// The 2 pixel wide punctuation.
pub open spec fn punctuation_2() -> Seq<char> {
    seq![',', ';', '\'', '[', ']', '(', ')', '`']
}

/// The 3 pixel wide punctuation.
pub open spec fn punctuation_3() -> Seq<char> {
    seq![
        '_', '/', '\\', '%', '#', '"', '^', '{', '}', '?', '*', '+', '-', '=', '@', '<', '>', '¨',
        '~', '°',
    ]
}

/// The last index of `c` in `s`, if it is there.
pub open spec fn last_index(s: Seq<char>, c: char) -> Option<int>
    decreases s.len(),
{
    if s.len() == 0 {
        None
    } else if s.last() == c {
        Some(s.len() - 1)
    } else {
        last_index(s.drop_last(), c)
    }
}

/// The details of each character of the font `font_01`, where later rows of the table take
/// precedence (no character is in two of them).
pub open spec fn font_01_details(c: char) -> Option<CharacterDetails> {
    match last_index(punctuation_3(), c) {
        Some(j) => Some(sheet_details(4 * j, ROW_HEIGHT as int, 3, 5)),
        None => match last_index(punctuation_2(), c) {
            Some(j) => Some(sheet_details(2 * punctuation_1().len() + 3 * j, 0, 2, 5)),
            None => match last_index(punctuation_1(), c) {
                Some(j) => Some(sheet_details(2 * j, 0, 1, 5)),
                None => if '0' <= c <= '9' {
                    Some(digit_details(c as int - '0' as int))
                } else if 'a' <= c <= 'z' {
                    Some(letter_details(c as int - 'a' as int))
                } else if 'A' <= c <= 'Z' {
                    Some(letter_details(c as int - 'A' as int))
                } else {
                    None
                },
            },
        },
    }
}

/// The details that a table of characters gives to `c`: those of the last entry for `c`.
pub open spec fn table_details(table: Seq<(char, CharacterDetails)>, c: char) -> Option<
    CharacterDetails,
>
    decreases table.len(),
{
    if table.len() == 0 {
        None
    } else if table.last().0 == c {
        Some(table.last().1)
    } else {
        table_details(table.drop_last(), c)
    }
}

/// A bitmap font: the details of the characters it has, those of the character drawn in place
/// of the others, and the height of its tallest character.
pub struct Font {
    /// The characters and their details; a later entry for a character replaces an earlier one.
    character_details_table: Vec<(char, CharacterDetails)>,
    error_character_details: CharacterDetails,
    max_character_height_in_pixels: i32,
}

/// The details of one more entry of the table.
fn push_details(
    table: &mut Vec<(char, CharacterDetails)>,
    c: char,
    x: i32,
    y: i32,
    w: i32,
    h: i32,
)
    requires
        0 <= y <= 100,
    ensures
        final(table)@ == old(table)@.push((c, sheet_details(x as int, y as int, w as int, h as int))),
{
    let details = CharacterDetails {
        rect_in_atlas_xy: Point2i { x, y: y + FONT_SHEET_Y },
        dimensions_in_pixels: Point2i { x: w, y: h },
    };
    table.push((c, details));
}

impl Font {
    /// The details of the character `c` in the font, if it has it.
    pub closed spec fn details(self, c: char) -> Option<CharacterDetails> {
        table_details(self.character_details_table@, c)
    }

    /// The details of the character drawn in place of those that the font does not have.
    pub closed spec fn error_details(self) -> CharacterDetails {
        self.error_character_details
    }

    pub closed spec fn max_height(self) -> int {
        self.max_character_height_in_pixels as int
    }

    /// The font of the sprite sheet in the atlas.
    pub fn font_01() -> (r: Font)
        ensures
            forall|c: char| #[trigger] r.details(c) == font_01_details(c),
            r.error_details() == sheet_details(109, 0, 3, 5),
            r.max_height() == 5,
            forall|c: char|
                #[trigger] r.details(c) matches Some(d) ==> d.dimensions_in_pixels.y
                    <= r.max_height(),
    {
        let mut table: Vec<(char, CharacterDetails)> = Vec::new();

        // The letters, on the fourth row, both cases.
        let mut l: u8 = 0;
        while l < 26
            invariant
                l <= 26,
                forall|c: char|
                    #[trigger] table_details(table@, c) == if 'a' <= c < 'a' as int + l {
                        Some(letter_details(c as int - 'a' as int))
                    } else if 'A' <= c < 'A' as int + l {
                        Some(letter_details(c as int - 'A' as int))
                    } else {
                        None
                    },
            decreases 26 - l,
        {
            let lowercase = (97u8 + l) as char;
            let uppercase = (65u8 + l) as char;
            let mut x: i32 = l as i32 * 4;
            let mut w: i32 = 3;
            let wider_letters: [(u8, i32); 4] = [(12, 2), (13, 1), (16, 1), (22, 2)];
            let mut k: usize = 0;
            while k < 4
                invariant
                    k <= 4,
                    l < 26,
                    wider_letters@ == seq![(12u8, 2i32), (13u8, 1i32), (16u8, 1i32), (22u8, 2i32)],
                    x == 4 * l + (if l > 12 && k > 0 {
                        2int
                    } else {
                        0
                    }) + (if l > 13 && k > 1 {
                        1int
                    } else {
                        0
                    }) + (if l > 16 && k > 2 {
                        1int
                    } else {
                        0
                    }) + (if l > 22 && k > 3 {
                        2int
                    } else {
                        0
                    }),
                    w == 3 + (if (l == 12 && k > 0) || (l == 22 && k > 3) {
                        2int
                    } else if (l == 13 && k > 1) || (l == 16 && k > 2) {
                        1int
                    } else {
                        0
                    }),
                decreases 4 - k,
            {
                let (wider_letter, how_much_wider) = wider_letters[k];
                if l == wider_letter {
                    w = w + how_much_wider;
                } else if l > wider_letter {
                    x = x + how_much_wider;
                }
                k = k + 1;
            }
            let ghost before = table@;
            push_details(&mut table, lowercase, x, 3 * ROW_HEIGHT, w, 5);
            let ghost middle = table@;
            push_details(&mut table, uppercase, x, 3 * ROW_HEIGHT, w, 5);
            proof {
                lemma_table_details_push(before, middle.last());
                lemma_table_details_push(middle, table@.last());
                assert(middle == before.push(middle.last()));
                assert(table@ == middle.push(table@.last()));
                assert(letter_x(l as int) == x);
                assert(3 + letter_extra_width(l as int) == w);
            }
            l = l + 1;
        }

        // The digits, on the third row.
        let mut d: u8 = 0;
        while d < 10
            invariant
                d <= 10,
                forall|c: char|
                    #[trigger] table_details(table@, c) == if '0' <= c < '0' as int + d {
                        Some(digit_details(c as int - '0' as int))
                    } else if 'a' <= c <= 'z' {
                        Some(letter_details(c as int - 'a' as int))
                    } else if 'A' <= c <= 'Z' {
                        Some(letter_details(c as int - 'A' as int))
                    } else {
                        None
                    },
            decreases 10 - d,
        {
            let digit = (48u8 + d) as char;
            let ghost before = table@;
            push_details(&mut table, digit, d as i32 * 4, 2 * ROW_HEIGHT, 3, 5);
            proof {
                lemma_table_details_push(before, table@.last());
                assert(table@ == before.push(table@.last()));
            }
            d = d + 1;
        }
        proof {
            assert forall|c: char| #[trigger] table_details(table@, c) == match last_index(
                punctuation_1().take(0),
                c,
            ) {
                Some(j) => Some(sheet_details(2 * j, 0, 1, 5)),
                None => font_01_details_of_letters_and_digits(c),
            } by {
                assert(punctuation_1().take(0).len() == 0);
            }
        }

        // The 1 pixel wide punctuation, at the beginning of the first row.
        let punctuation_1_chars: [char; 4] = ['|', '.', ':', '!'];
        let mut i: usize = 0;
        while i < 4
            invariant
                i <= 4,
                punctuation_1_chars@ == punctuation_1(),
                forall|c: char|
                    #[trigger] table_details(table@, c) == match last_index(
                        punctuation_1().take(i as int),
                        c,
                    ) {
                        Some(j) => Some(sheet_details(2 * j, 0, 1, 5)),
                        None => font_01_details_of_letters_and_digits(c),
                    },
            decreases 4 - i,
        {
            let ghost before = table@;
            push_details(&mut table, punctuation_1_chars[i], i as i32 * 2, 0, 1, 5);
            proof {
                lemma_table_details_push(before, table@.last());
                assert(table@ == before.push(table@.last()));
                lemma_last_index_push(punctuation_1().take(i as int), punctuation_1()[i as int]);
                assert(punctuation_1().take(i + 1) =~= punctuation_1().take(i as int).push(
                    punctuation_1()[i as int],
                ));
            }
            i = i + 1;
        }
        proof {
            assert(punctuation_1().take(4) =~= punctuation_1());
            assert forall|c: char| #[trigger] table_details(table@, c) == match last_index(
                punctuation_2().take(0),
                c,
            ) {
                Some(j) => Some(sheet_details(2 * punctuation_1().len() + 3 * j, 0, 2, 5)),
                None => font_01_details_of_row_0_1(c),
            } by {
                assert(punctuation_2().take(0).len() == 0);
            }
        }

        // The 2 pixel wide punctuation, at the end of the first row.
        let punctuation_2_chars: [char; 8] = [',', ';', '\'', '[', ']', '(', ')', '`'];
        let mut i: usize = 0;
        while i < 8
            invariant
                i <= 8,
                punctuation_2_chars@ == punctuation_2(),
                forall|c: char|
                    #[trigger] table_details(table@, c) == match last_index(
                        punctuation_2().take(i as int),
                        c,
                    ) {
                        Some(j) => Some(sheet_details(2 * punctuation_1().len() + 3 * j, 0, 2, 5)),
                        None => font_01_details_of_row_0_1(c),
                    },
            decreases 8 - i,
        {
            let ghost before = table@;
            push_details(&mut table, punctuation_2_chars[i], 4 * 2 + i as i32 * 3, 0, 2, 5);
            proof {
                lemma_table_details_push(before, table@.last());
                assert(table@ == before.push(table@.last()));
                lemma_last_index_push(punctuation_2().take(i as int), punctuation_2()[i as int]);
                assert(punctuation_2().take(i + 1) =~= punctuation_2().take(i as int).push(
                    punctuation_2()[i as int],
                ));
            }
            i = i + 1;
        }
        proof {
            assert(punctuation_2().take(8) =~= punctuation_2());
            assert forall|c: char| #[trigger] table_details(table@, c) == match last_index(
                punctuation_3().take(0),
                c,
            ) {
                Some(j) => Some(sheet_details(4 * j, ROW_HEIGHT as int, 3, 5)),
                None => font_01_details_of_row_0(c),
            } by {
                assert(punctuation_3().take(0).len() == 0);
            }
        }

        // The 3 pixel wide punctuation, on the second row.
        let punctuation_3_chars: [char; 20] = [
            '_', '/', '\\', '%', '#', '"', '^', '{', '}', '?', '*', '+', '-', '=', '@', '<', '>',
            '¨', '~', '°',
        ];
        let mut i: usize = 0;
        while i < 20
            invariant
                i <= 20,
                punctuation_3_chars@ == punctuation_3(),
                forall|c: char|
                    #[trigger] table_details(table@, c) == match last_index(
                        punctuation_3().take(i as int),
                        c,
                    ) {
                        Some(j) => Some(sheet_details(4 * j, ROW_HEIGHT as int, 3, 5)),
                        None => font_01_details_of_row_0(c),
                    },
            decreases 20 - i,
        {
            let ghost before = table@;
            push_details(&mut table, punctuation_3_chars[i], i as i32 * 4, ROW_HEIGHT, 3, 5);
            proof {
                lemma_table_details_push(before, table@.last());
                assert(table@ == before.push(table@.last()));
                lemma_last_index_push(punctuation_3().take(i as int), punctuation_3()[i as int]);
                assert(punctuation_3().take(i + 1) =~= punctuation_3().take(i as int).push(
                    punctuation_3()[i as int],
                ));
            }
            i = i + 1;
        }
        proof {
            assert(punctuation_3().take(20) =~= punctuation_3());
        }

        let error_character_details = CharacterDetails {
            rect_in_atlas_xy: Point2i { x: 109, y: FONT_SHEET_Y },
            dimensions_in_pixels: Point2i { x: 3, y: 5 },
        };
        Font {
            character_details_table: table,
            error_character_details,
            max_character_height_in_pixels: 5,
        }
    }

    /// The details of the character, if the font has it.
    pub fn character_details(&self, character: char) -> (r: Option<CharacterDetails>)
        ensures
            r == self.details(character),
    {
        let table = &self.character_details_table;
        let mut i: usize = table.len();
        proof {
            assert(table@.take(i as int) =~= table@);
        }
        while i > 0
            invariant
                table@ == self.character_details_table@,
                i <= table@.len(),
                table_details(table@, character) == table_details(table@.take(i as int), character),
            decreases i,
        {
            proof {
                assert(table@.take(i as int).drop_last() =~= table@.take(i - 1));
                assert(table@.take(i as int).last() == table@[i - 1]);
            }
            if table[i - 1].0 == character {
                proof {
                    assert(table_details(table@.take(i as int), character) == Some(table@[i - 1].1));
                }
                return Some(table[i - 1].1);
            }
            i = i - 1;
        }
        None
    }

    /// The details of the character drawn in place of those that the font does not have.
    pub fn error_character_details(&self) -> (r: CharacterDetails)
        ensures
            r == self.error_details(),
    {
        self.error_character_details
    }

    /// The height of the tallest character of the font, in pixels.
    pub fn max_character_height_in_pixels(&self) -> (r: i32)
        ensures
            r == self.max_height(),
    {
        self.max_character_height_in_pixels
    }
}

/// `font_01_details` for the digits and the letters only.
pub open spec fn font_01_details_of_letters_and_digits(c: char) -> Option<CharacterDetails> {
    if '0' <= c <= '9' {
        Some(digit_details(c as int - '0' as int))
    } else if 'a' <= c <= 'z' {
        Some(letter_details(c as int - 'a' as int))
    } else if 'A' <= c <= 'Z' {
        Some(letter_details(c as int - 'A' as int))
    } else {
        None
    }
}

/// `font_01_details` without the 3 pixel wide punctuation and the 2 pixel wide one.
pub open spec fn font_01_details_of_row_0_1(c: char) -> Option<CharacterDetails> {
    match last_index(punctuation_1(), c) {
        Some(j) => Some(sheet_details(2 * j, 0, 1, 5)),
        None => font_01_details_of_letters_and_digits(c),
    }
}

/// `font_01_details` without the 3 pixel wide punctuation.
pub open spec fn font_01_details_of_row_0(c: char) -> Option<CharacterDetails> {
    match last_index(punctuation_2(), c) {
        Some(j) => Some(sheet_details(2 * punctuation_1().len() + 3 * j, 0, 2, 5)),
        None => font_01_details_of_row_0_1(c),
    }
}

/// The font `font_01` is case insensitive: a letter and its uppercase have the same details.
pub proof fn law_font_01_is_case_insensitive(l: int)
    requires
        0 <= l < 26,
    ensures
        font_01_details(('a' as int + l) as char) == font_01_details(('A' as int + l) as char),
        font_01_details(('a' as int + l) as char) is Some,
{
    let lower = ('a' as int + l) as char;
    let upper = ('A' as int + l) as char;
    assert(last_index(punctuation_3(), lower) is None) by {
        lemma_not_in_last_index(punctuation_3(), lower);
    }
    assert(last_index(punctuation_3(), upper) is None) by {
        lemma_not_in_last_index(punctuation_3(), upper);
    }
    assert(last_index(punctuation_2(), lower) is None) by {
        lemma_not_in_last_index(punctuation_2(), lower);
    }
    assert(last_index(punctuation_2(), upper) is None) by {
        lemma_not_in_last_index(punctuation_2(), upper);
    }
    assert(last_index(punctuation_1(), lower) is None) by {
        lemma_not_in_last_index(punctuation_1(), lower);
    }
    assert(last_index(punctuation_1(), upper) is None) by {
        lemma_not_in_last_index(punctuation_1(), upper);
    }
}

proof fn lemma_table_details_push(t: Seq<(char, CharacterDetails)>, x: (char, CharacterDetails))
    ensures
        forall|c: char|
            #[trigger] table_details(t.push(x), c) == if x.0 == c {
                Some(x.1)
            } else {
                table_details(t, c)
            },
{
    assert(t.push(x).drop_last() =~= t);
}

proof fn lemma_last_index_push(s: Seq<char>, x: char)
    ensures
        forall|c: char|
            #[trigger] last_index(s.push(x), c) == if x == c {
                Some(s.len() as int)
            } else {
                last_index(s, c)
            },
{
    assert(s.push(x).drop_last() =~= s);
}

/// A character that is not in the sequence has no index in it.
proof fn lemma_not_in_last_index(s: Seq<char>, c: char)
    requires
        forall|i: int| 0 <= i < s.len() ==> s[i] != c,
    ensures
        last_index(s, c) is None,
    decreases s.len(),
{
    if s.len() > 0 {
        lemma_not_in_last_index(s.drop_last(), c);
    }
}

} // verus!
