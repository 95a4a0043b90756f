//! The control bindings file: which control (a key or a mouse button) triggers which action.
//!
//! Each line of the file is a command: `bind_control <control> <action>` binds the control to
//! the action, where the control is `key:<key name>` or `mouse_button:<button name>`. Empty
//! lines are ignored, and a line of an unknown command gets a warning.

use vstd::prelude::*;
use crate::lang::tokenize::{chars_of, is_whitespace, push_char, spec_is_whitespace};

verus! {

// ---------------------------------------------------------------- lines and words

/// The index of the first `'\n'` of `text` from `k` on, or the length of `text` if there is
/// none.
pub open spec fn newline_from(text: Seq<char>, k: int) -> int
    decreases text.len() - k,
{
    if k >= text.len() {
        text.len() as int
    } else if text[k] == '\n' {
        k
    } else {
        newline_from(text, k + 1)
    }
}

/// A line without its final `'\r'`, if it has one.
pub open spec fn strip_cr(line: Seq<char>) -> Seq<char> {
    if line.len() > 0 && line.last() == '\r' {
        line.drop_last()
    } else {
        line
    }
}

/// The lines of the text, as `str::lines` gives them: the text is split after each `'\n'`, the
/// line ending (`"\n"` or `"\r\n"`) is removed, and a final empty line is not a line.
pub open spec fn lines_of(text: Seq<char>) -> Seq<Seq<char>>
    decreases text.len(),
{
    if text.len() == 0 {
        Seq::empty()
    } else {
        let n = newline_from(text, 0);
        if n >= text.len() {
            seq![text]
        } else {
            proof {
                lemma_newline_from_bounds(text, 0);
            }
            seq![strip_cr(text.take(n))] + lines_of(text.skip(n + 1))
        }
    }
}

/// `newline_from` finds the first `'\n'` from `k` on.
pub proof fn lemma_newline_from_bounds(text: Seq<char>, k: int)
    requires
        0 <= k,
    ensures
        k <= newline_from(text, k) || (k > text.len() && newline_from(text, k) == text.len()),
        newline_from(text, k) <= text.len() || k > text.len(),
        newline_from(text, k) < text.len() ==> text[newline_from(text, k)] == '\n',
        forall|j: int| k <= j < newline_from(text, k) ==> text[j] != '\n',
    decreases text.len() - k,
{
    if k < text.len() && text[k] != '\n' {
        lemma_newline_from_bounds(text, k + 1);
    }
}

/// The end of the word of `line` that starts at `k`: the first whitespace from `k` on, or the
/// end of the line.
pub open spec fn word_end(line: Seq<char>, k: int) -> int
    decreases line.len() - k,
{
    if k >= line.len() || spec_is_whitespace(line[k]) {
        k
    } else {
        word_end(line, k + 1)
    }
}

/// The words of `line` from `k` on, as `str::split_whitespace` gives them: the maximal runs of
/// characters that are not whitespace.
pub open spec fn words_from(line: Seq<char>, k: int) -> Seq<Seq<char>>
    decreases line.len() - k, 1int,
{
    if k < 0 || k >= line.len() {
        Seq::empty()
    } else if spec_is_whitespace(line[k]) {
        words_from(line, k + 1)
    } else {
        let e = word_end(line, k);
        proof {
            lemma_word_end_bounds(line, k);
        }
        seq![line.subrange(k, e)] + words_from(line, e)
    }
}

/// `word_end` finds the first whitespace after the start of a word.
pub proof fn lemma_word_end_bounds(line: Seq<char>, k: int)
    requires
        0 <= k < line.len(),
        !spec_is_whitespace(line[k]),
    ensures
        k < word_end(line, k) <= line.len(),
        forall|j: int| k <= j < word_end(line, k) ==> !spec_is_whitespace(line[j]),
        word_end(line, k) < line.len() ==> spec_is_whitespace(line[word_end(line, k)]),
    decreases line.len() - k,
{
    assert(word_end(line, k) == word_end(line, k + 1));
    if k + 1 < line.len() && !spec_is_whitespace(line[k + 1]) {
        lemma_word_end_bounds(line, k + 1);
    } else {
        assert(word_end(line, k + 1) == k + 1);
    }
}

/// The words of the line.
pub open spec fn words_of(line: Seq<char>) -> Seq<Seq<char>> {
    words_from(line, 0)
}

/// The views of a sequence of character vectors.
pub open spec fn views_of(v: Seq<Vec<char>>) -> Seq<Seq<char>> {
    v.map_values(|w: Vec<char>| w@)
}

proof fn lemma_lines_step(cur: Seq<char>, rest: Seq<char>)
    requires
        rest.len() > 0,
        forall|j: int| 0 <= j < cur.len() ==> cur[j] != '\n',
    ensures
        rest[0] == '\n' ==> lines_of(cur + rest) == seq![strip_cr(cur)] + lines_of(rest.drop_first()),
        rest[0] != '\n' ==> lines_of(cur + rest) == lines_of(cur.push(rest[0]) + rest.drop_first()),
{
    let t = cur + rest;
    lemma_newline_from_bounds(t, 0);
    lemma_newline_from_bounds(cur.push(rest[0]) + rest.drop_first(), 0);
    assert(cur.push(rest[0]) + rest.drop_first() =~= t);
    if rest[0] == '\n' {
        assert(t[cur.len() as int] == '\n');
        assert(newline_from(t, 0) == cur.len()) by {
            let n = newline_from(t, 0);
            if n < cur.len() {
                assert(t[n] == cur[n]);
            }
        }
        assert(t.take(cur.len() as int) =~= cur);
        assert(t.skip(cur.len() + 1int) =~= rest.drop_first());
    }
}

proof fn lemma_lines_end(cur: Seq<char>)
    requires
        forall|j: int| 0 <= j < cur.len() ==> cur[j] != '\n',
    ensures
        lines_of(cur) == if cur.len() == 0 {
            Seq::<Seq<char>>::empty()
        } else {
            seq![cur]
        },
{
    if cur.len() > 0 {
        lemma_newline_from_bounds(cur, 0);
        assert(newline_from(cur, 0) >= cur.len()) by {
            let n = newline_from(cur, 0);
            if n < cur.len() {
                assert(cur[n] == '\n');
            }
        }
    }
}

/// The characters of `line` without its final `'\r'`, if it has one.
fn strip_cr_exec(line: Vec<char>) -> (r: Vec<char>)
    ensures
        r@ == strip_cr(line@),
{
    let mut line = line;
    if line.len() > 0 && line[line.len() - 1] == '\r' {
        line.pop();
    }
    line
}

/// Splits the text into lines, as `str::lines` does.
pub fn lines(text: &Vec<char>) -> (r: Vec<Vec<char>>)
    ensures
        views_of(r@) == lines_of(text@),
{
    let mut r: Vec<Vec<char>> = Vec::new();
    let mut cur: Vec<char> = Vec::new();
    let mut i: usize = 0;
    proof {
        assert(cur@ + text@.skip(0) =~= text@);
        assert(views_of(r@) + lines_of(text@) =~= lines_of(text@));
    }
    while i < text.len()
        invariant
            i <= text.len(),
            forall|j: int| 0 <= j < cur@.len() ==> cur@[j] != '\n',
            views_of(r@) + lines_of(cur@ + text@.skip(i as int)) == lines_of(text@),
        decreases text.len() - i,
    {
        let c = text[i];
        proof {
            lemma_lines_step(cur@, text@.skip(i as int));
            assert(text@.skip(i as int)[0] == c);
            assert(text@.skip(i as int).drop_first() =~= text@.skip(i + 1));
        }
        if c == '\n' {
            let mut line: Vec<char> = Vec::new();
            std::mem::swap(&mut line, &mut cur);
            let line = strip_cr_exec(line);
            proof {
                assert(views_of(r@.push(line)) =~= views_of(r@).push(line@));
                assert(cur@ + text@.skip(i + 1) =~= text@.skip(i + 1));
                assert(seq![line@] + lines_of(text@.skip(i + 1)) =~= seq![line@].add(
                    lines_of(text@.skip(i + 1)),
                ));
                assert(views_of(r@).push(line@) + lines_of(text@.skip(i + 1)) =~= views_of(r@) + (seq![
                    line@] + lines_of(text@.skip(i + 1))));
            }
            r.push(line);
        } else {
            cur.push(c);
        }
        i = i + 1;
    }
    proof {
        assert(cur@ + text@.skip(i as int) =~= cur@);
        lemma_lines_end(cur@);
    }
    if cur.len() > 0 {
        proof {
            assert(views_of(r@.push(cur)) =~= views_of(r@).push(cur@));
            assert(views_of(r@) + seq![cur@] =~= views_of(r@).push(cur@));
        }
        r.push(cur);
    } else {
        proof {
            assert(views_of(r@) + Seq::<Seq<char>>::empty() =~= views_of(r@));
        }
    }
    r
}

/// Splits the line into words, as `str::split_whitespace` does.
pub fn words(line: &Vec<char>) -> (r: Vec<Vec<char>>)
    ensures
        views_of(r@) == words_of(line@),
{
    let mut r: Vec<Vec<char>> = Vec::new();
    let mut k: usize = 0;
    while k < line.len()
        invariant
            k <= line.len(),
            views_of(r@) + words_from(line@, k as int) == words_of(line@),
        decreases line.len() - k,
    {
        if is_whitespace(line[k]) {
            k = k + 1;
        } else {
            let start = k;
            let mut word: Vec<char> = Vec::new();
            proof {
                lemma_word_end_bounds(line@, start as int);
            }
            while k < line.len() && !is_whitespace(line[k])
                invariant
                    start <= k <= line.len(),
                    start < line.len(),
                    !spec_is_whitespace(line@[start as int]),
                    word@ == line@.subrange(start as int, k as int),
                    forall|j: int| start <= j < k ==> !spec_is_whitespace(line@[j]),
                decreases line.len() - k,
            {
                word.push(line[k]);
                k = k + 1;
            }
            proof {
                assert(k == word_end(line@, start as int)) by {
                    lemma_word_end_is_first_space(line@, start as int, k as int);
                }
                assert(views_of(r@.push(word)) =~= views_of(r@).push(word@));
                assert(views_of(r@).push(word@) + words_from(line@, k as int) =~= views_of(r@) + (seq![
                    word@] + words_from(line@, k as int)));
            }
            r.push(word);
        }
    }
    proof {
        assert(views_of(r@) + words_from(line@, k as int) =~= views_of(r@));
    }
    r
}

proof fn lemma_word_end_is_first_space(line: Seq<char>, start: int, k: int)
    requires
        0 <= start <= k <= line.len(),
        forall|j: int| start <= j < k ==> !spec_is_whitespace(line[j]),
        k == line.len() || spec_is_whitespace(line[k]),
    ensures
        word_end(line, start) == k,
    decreases k - start,
{
    if start < k {
        lemma_word_end_is_first_space(line, start + 1, k);
    }
}

// ---------------------------------------------------------------- controls and actions

/// What `char::is_alphabetic` says of the character: whether it has the Unicode `Alphabetic`
/// property.
pub uninterp spec fn alphabetic(c: char) -> bool;

/// What `char::to_lowercase` gives for the character, collected into a string.
pub uninterp spec fn lowercase(c: char) -> Seq<char>;

pub open spec fn is_ascii_letter(c: char) -> bool {
    ('a' <= c && c <= 'z') || ('A' <= c && c <= 'Z')
}

pub open spec fn is_ascii_digit_char(c: char) -> bool {
    '0' <= c && c <= '9'
}

/// `char::is_alphabetic`: whether the character has the Unicode `Alphabetic` property, which
/// the ASCII letters have and the other ASCII characters do not.
#[verifier::external_body]
fn is_alphabetic(c: char) -> (r: bool)
    ensures
        r == alphabetic(c),
        is_ascii_letter(c) ==> r,
        (c as u32) < 128 && !is_ascii_letter(c) ==> !r,
{
    c.is_alphabetic()
}

/// `char::to_lowercase`, collected into a string: the lowercase mapping of the character, which
/// maps an ASCII uppercase letter to its lowercase letter and leaves the other ASCII
/// characters as they are.
#[verifier::external_body]
fn to_lowercase_string(c: char) -> (r: String)
    ensures
        r@ == lowercase(c),
        'A' <= c <= 'Z' ==> r@ == seq![((c as u32) + 32) as char],
        (c as u32) < 128 && !('A' <= c <= 'Z') ==> r@ == seq![c],
{
    c.to_lowercase().to_string()
}

/// The value of the decimal digits `d`.
pub open spec fn decimal_value(d: Seq<char>) -> nat
    decreases d.len(),
{
    if d.len() == 0 {
        0
    } else {
        decimal_value(d.drop_last()) * 10 + (d.last() as nat - '0' as nat) as nat
    }
}

/// What `str::parse` gives for an unsigned integer type of maximum `max`: an optional `+`
/// followed by at least one decimal digit and nothing else, of a value up to `max`.
pub open spec fn parse_unsigned(s: Seq<char>, max: nat) -> Option<nat> {
    let d = if s.len() > 0 && s[0] == '+' {
        s.drop_first()
    } else {
        s
    };
    if d.len() > 0 && (forall|i: int| 0 <= i < d.len() ==> is_ascii_digit_char(#[trigger] d[i]))
        && decimal_value(d) <= max {
        Some(decimal_value(d))
    } else {
        None
    }
}

/// `str::parse::<u32>`: the integer that the string writes in decimal, if it writes one that
/// fits.
#[verifier::external_body]
fn parse_u32(s: &str) -> (r: Option<u32>)
    ensures
        r is Some <==> parse_unsigned(s@, u32::MAX as nat) is Some,
        r matches Some(v) ==> parse_unsigned(s@, u32::MAX as nat) == Some(v as nat),
{
    s.parse::<u32>().ok()
}

/// `str::parse::<u16>`: the integer that the string writes in decimal, if it writes one that
/// fits.
#[verifier::external_body]
fn parse_u16(s: &str) -> (r: Option<u16>)
    ensures
        r is Some <==> parse_unsigned(s@, u16::MAX as nat) is Some,
        r matches Some(v) ==> parse_unsigned(s@, u16::MAX as nat) == Some(v as nat),
{
    s.parse::<u16>().ok()
}

/// A key of the keyboard that a control can name.
#[derive(Debug, Clone, PartialEq, Eq, Hash)]
pub enum Key {
    /// A key that types a character, by the lowercase of that character.
    Character(String),
    /// A function key, `F1` to `F12`.
    F(u8),
    ArrowUp,
    ArrowDown,
    ArrowLeft,
    ArrowRight,
    Space,
    Shift,
    Tab,
    Enter,
}

#[derive(Debug, Clone, Copy, PartialEq, Eq, Hash, Structural)]
pub enum MouseButton {
    Left,
    Right,
    Middle,
    Other(u16),
}

/// A control: a key or a mouse button.
#[derive(Debug, Clone, PartialEq, Eq, Hash)]
pub enum Control {
    KeyboardKey(Key),
    MouseButton(MouseButton),
}

/// What a control can be bound to.
#[derive(Debug, Clone, Copy, PartialEq, Eq, Hash, Structural)]
pub enum Action {
    WalkForward,
    WalkBackward,
    WalkLeftward,
    WalkRightward,
    Jump,
    TogglePhysics,
    ToggleWorldGeneration,
    CycleFirstAndThirdPersonViews,
    ToggleDisplayPlayerBox,
    ToggleSunView,
    ToggleCursorCaptured,
    PrintCoords,
    PlaceOrRemoveBlockUnderPlayer,
    PlaceBlockAtTarget,
    RemoveBlockAtTarget,
    ToggleDisplayInterface,
    OpenCommandLine,
    ToggleDisplayNotSurroundedChunksAsBoxes,
    ToggleDisplayInterfaceDebugBoxes,
    ToggleFog,
    ToggleFullscreen,
    ThrowBlock,
    ToggleDisplayChunksWithEntitiesAsBoxes,
}

/// A key, as plain values.
pub enum KeyModel {
    Character(Seq<char>),
    F(u8),
    ArrowUp,
    ArrowDown,
    ArrowLeft,
    ArrowRight,
    Space,
    Shift,
    Tab,
    Enter,
}

/// A control, as plain values.
pub enum ControlModel {
    KeyboardKey(KeyModel),
    MouseButton(MouseButton),
}

impl Key {
    pub open spec fn model(&self) -> KeyModel {
        match self {
            Key::Character(s) => KeyModel::Character(s@),
            Key::F(n) => KeyModel::F(*n),
            Key::ArrowUp => KeyModel::ArrowUp,
            Key::ArrowDown => KeyModel::ArrowDown,
            Key::ArrowLeft => KeyModel::ArrowLeft,
            Key::ArrowRight => KeyModel::ArrowRight,
            Key::Space => KeyModel::Space,
            Key::Shift => KeyModel::Shift,
            Key::Tab => KeyModel::Tab,
            Key::Enter => KeyModel::Enter,
        }
    }
}

impl Control {
    pub open spec fn model(&self) -> ControlModel {
        match self {
            Control::KeyboardKey(k) => ControlModel::KeyboardKey(k.model()),
            Control::MouseButton(b) => ControlModel::MouseButton(*b),
        }
    }
}

/// Why a control bindings file is refused.
#[derive(Debug)]
pub enum ControlsError {
    /// A `bind_control` command without a control name.
    ExpectedControlName,
    /// A `bind_control` command without an action name.
    ExpectedActionName,
    /// A key name of one character that is neither alphabetic nor an ASCII digit.
    UnknownSingleCharacterKeyName(char),
    UnknownKeyName(String),
    UnknownMouseButtonName(String),
    /// A control that starts neither with `key:` nor with `mouse_button:`.
    UnknownControl(String),
    UnknownActionName(String),
}

/// A control bindings file error, as plain values.
pub enum ErrorModel {
    ExpectedControlName,
    ExpectedActionName,
    UnknownSingleCharacterKeyName(char),
    UnknownKeyName(Seq<char>),
    UnknownMouseButtonName(Seq<char>),
    UnknownControl(Seq<char>),
    UnknownActionName(Seq<char>),
}

impl ControlsError {
    pub open spec fn model(&self) -> ErrorModel {
        match self {
            ControlsError::ExpectedControlName => ErrorModel::ExpectedControlName,
            ControlsError::ExpectedActionName => ErrorModel::ExpectedActionName,
            ControlsError::UnknownSingleCharacterKeyName(c) => ErrorModel::UnknownSingleCharacterKeyName(*c),
            ControlsError::UnknownKeyName(s) => ErrorModel::UnknownKeyName(s@),
            ControlsError::UnknownMouseButtonName(s) => ErrorModel::UnknownMouseButtonName(s@),
            ControlsError::UnknownControl(s) => ErrorModel::UnknownControl(s@),
            ControlsError::UnknownActionName(s) => ErrorModel::UnknownActionName(s@),
        }
    }
}

/// A warning about a line of a control bindings file (the line numbers start at 1).
#[derive(Debug)]
pub enum ControlsWarning {
    /// `left_shift` and `right_shift` both name both shift keys.
    ShiftKeysNotDistinguished { line_number: usize },
    /// `toggle_third_person_view` is the old name of `cycle_first_and_third_person_views`.
    DeprecatedActionName { line_number: usize },
    UnknownCommandName { line_number: usize, command_name: String },
}

/// A warning, as plain values.
pub enum WarningModel {
    ShiftKeysNotDistinguished(nat),
    DeprecatedActionName(nat),
    UnknownCommandName(nat, Seq<char>),
}

impl ControlsWarning {
    pub open spec fn model(&self) -> WarningModel {
        match self {
            ControlsWarning::ShiftKeysNotDistinguished { line_number } => WarningModel::ShiftKeysNotDistinguished(*line_number as nat),
            ControlsWarning::DeprecatedActionName { line_number } => WarningModel::DeprecatedActionName(*line_number as nat),
            ControlsWarning::UnknownCommandName { line_number, command_name } => WarningModel::UnknownCommandName(*line_number as nat, command_name@),
        }
    }
}

// ---------------------------------------------------------------- parsing, as specified

/// `name` without `prefix`, if it starts with it.
pub open spec fn strip_prefix_spec(name: Seq<char>, prefix: Seq<char>) -> Option<Seq<char>> {
    if prefix.len() <= name.len() && name.take(prefix.len() as int) == prefix {
        Some(name.skip(prefix.len() as int))
    } else {
        None
    }
}

/// The function key that a key name like `F11` or `f11` names.
pub open spec fn f_key_spec(key_name: Seq<char>) -> Option<KeyModel> {
    let number = match strip_prefix_spec(key_name, "F"@) {
        Some(rest) => Some(rest),
        None => strip_prefix_spec(key_name, "f"@),
    };
    match number {
        Some(digits) => match parse_unsigned(digits, u32::MAX as nat) {
            Some(n) => if 1 <= n <= 12 {
                Some(KeyModel::F(n as u8))
            } else {
                None
            },
            None => None,
        },
        None => None,
    }
}

/// The key that a key name names, and whether it gets the warning that both shift keys are one.
pub open spec fn key_spec(key_name: Seq<char>) -> Result<(KeyModel, bool), ErrorModel> {
    if key_name.len() == 1 {
        let c = key_name[0];
        if alphabetic(c) || is_ascii_digit_char(c) {
            Ok((KeyModel::Character(lowercase(c)), false))
        } else {
            Err(ErrorModel::UnknownSingleCharacterKeyName(c))
        }
    } else if f_key_spec(key_name) is Some {
        Ok((f_key_spec(key_name).unwrap(), false))
    } else if key_name == "up"@ {
        Ok((KeyModel::ArrowUp, false))
    } else if key_name == "down"@ {
        Ok((KeyModel::ArrowDown, false))
    } else if key_name == "left"@ {
        Ok((KeyModel::ArrowLeft, false))
    } else if key_name == "right"@ {
        Ok((KeyModel::ArrowRight, false))
    } else if key_name == "space"@ {
        Ok((KeyModel::Space, false))
    } else if key_name == "left_shift"@ || key_name == "right_shift"@ {
        Ok((KeyModel::Shift, true))
    } else if key_name == "tab"@ {
        Ok((KeyModel::Tab, false))
    } else if key_name == "return"@ || key_name == "enter"@ {
        Ok((KeyModel::Enter, false))
    } else {
        Err(ErrorModel::UnknownKeyName(key_name))
    }
}

/// Whether the key name names the key `k`.
pub open spec fn names_key(key_name: Seq<char>, k: KeyModel) -> bool {
    key_spec(key_name) matches Ok((kk, _)) && kk == k
}

/// Each named key is named by its own name (or names) and by no other: a key name gives the up,
/// down, left or right arrow, the space bar or the tab key exactly when it is "up", "down",
/// "left", "right", "space" or "tab", the shift key exactly when it is "left_shift" or
/// "right_shift" (and only these get the warning that both shift keys are one), and the enter
/// key exactly when it is "return" or "enter".
pub proof fn law_key_names(key_name: Seq<char>)
    ensures
        names_key(key_name, KeyModel::ArrowUp) <==> key_name == "up"@,
        names_key(key_name, KeyModel::ArrowDown) <==> key_name == "down"@,
        names_key(key_name, KeyModel::ArrowLeft) <==> key_name == "left"@,
        names_key(key_name, KeyModel::ArrowRight) <==> key_name == "right"@,
        names_key(key_name, KeyModel::Space) <==> key_name == "space"@,
        names_key(key_name, KeyModel::Tab) <==> key_name == "tab"@,
        names_key(key_name, KeyModel::Shift) <==> (key_name == "left_shift"@ || key_name
            == "right_shift"@),
        names_key(key_name, KeyModel::Enter) <==> (key_name == "return"@ || key_name == "enter"@),
        (key_spec(key_name) matches Ok((_, w)) && w) <==> (key_name == "left_shift"@ || key_name
            == "right_shift"@),
{
    reveal_strlit("F");
    reveal_strlit("f");
    reveal_strlit("up");
    reveal_strlit("down");
    reveal_strlit("left");
    reveal_strlit("right");
    reveal_strlit("space");
    reveal_strlit("tab");
    reveal_strlit("left_shift");
    reveal_strlit("right_shift");
    reveal_strlit("return");
    reveal_strlit("enter");
    if key_name.len() > 1 {
        assert(key_name.take(1) == seq![key_name[0]]);
    }
}

/// Each of the three named mouse buttons is named by its own name and by no other: a button
/// name gives the left button exactly when it is "left", the right button exactly when it is
/// "right", and the middle button exactly when it is "middle" (any other name gives a button
/// by its number, or an error).
pub proof fn law_mouse_button_names(button_name: Seq<char>)
    ensures
        (mouse_button_spec(button_name) == Ok::<MouseButton, ErrorModel>(MouseButton::Left))
            <==> button_name == "left"@,
        (mouse_button_spec(button_name) == Ok::<MouseButton, ErrorModel>(MouseButton::Right))
            <==> button_name == "right"@,
        (mouse_button_spec(button_name) == Ok::<MouseButton, ErrorModel>(MouseButton::Middle))
            <==> button_name == "middle"@,
{
    reveal_strlit("left");
    reveal_strlit("right");
    reveal_strlit("middle");
}

/// The mouse button that a button name names.
pub open spec fn mouse_button_spec(button_name: Seq<char>) -> Result<MouseButton, ErrorModel> {
    if button_name == "left"@ {
        Ok(MouseButton::Left)
    } else if button_name == "right"@ {
        Ok(MouseButton::Right)
    } else if button_name == "middle"@ {
        Ok(MouseButton::Middle)
    } else {
        match parse_unsigned(button_name, u16::MAX as nat) {
            Some(n) => Ok(MouseButton::Other(n as u16)),
            None => Err(ErrorModel::UnknownMouseButtonName(button_name)),
        }
    }
}

/// The control that a control name names, and whether it gets the warning that both shift
/// keys are one.
pub open spec fn control_spec(control_name: Seq<char>) -> Result<(ControlModel, bool), ErrorModel> {
    match strip_prefix_spec(control_name, "key:"@) {
        Some(key_name) => match key_spec(key_name) {
            Ok((k, w)) => Ok((ControlModel::KeyboardKey(k), w)),
            Err(e) => Err(e),
        },
        None => match strip_prefix_spec(control_name, "mouse_button:"@) {
            Some(button_name) => match mouse_button_spec(button_name) {
                Ok(b) => Ok((ControlModel::MouseButton(b), false)),
                Err(e) => Err(e),
            },
            None => Err(ErrorModel::UnknownControl(control_name)),
        },
    }
}

/// The action that an action name names, and whether the name is deprecated
/// (`toggle_third_person_view`, the old name of `cycle_first_and_third_person_views`).
pub open spec fn action_spec(action_name: Seq<char>) -> Result<(Action, bool), ErrorModel> {
    if action_name == "walk_forward"@ {
        Ok((Action::WalkForward, false))
    } else if action_name == "walk_backward"@ {
        Ok((Action::WalkBackward, false))
    } else if action_name == "walk_leftward"@ {
        Ok((Action::WalkLeftward, false))
    } else if action_name == "walk_rightward"@ {
        Ok((Action::WalkRightward, false))
    } else if action_name == "jump"@ {
        Ok((Action::Jump, false))
    } else if action_name == "toggle_physics"@ {
        Ok((Action::TogglePhysics, false))
    } else if action_name == "toggle_world_generation"@ {
        Ok((Action::ToggleWorldGeneration, false))
    } else if action_name == "cycle_first_and_third_person_views"@ {
        Ok((Action::CycleFirstAndThirdPersonViews, false))
    } else if action_name == "toggle_display_player_box"@ {
        Ok((Action::ToggleDisplayPlayerBox, false))
    } else if action_name == "toggle_sun_view"@ {
        Ok((Action::ToggleSunView, false))
    } else if action_name == "toggle_cursor_captured"@ {
        Ok((Action::ToggleCursorCaptured, false))
    } else if action_name == "print_coords"@ {
        Ok((Action::PrintCoords, false))
    } else if action_name == "place_or_remove_block_under_player"@ {
        Ok((Action::PlaceOrRemoveBlockUnderPlayer, false))
    } else if action_name == "place_block_at_target"@ {
        Ok((Action::PlaceBlockAtTarget, false))
    } else if action_name == "remove_block_at_target"@ {
        Ok((Action::RemoveBlockAtTarget, false))
    } else if action_name == "toggle_display_interface"@ {
        Ok((Action::ToggleDisplayInterface, false))
    } else if action_name == "open_command_line"@ {
        Ok((Action::OpenCommandLine, false))
    } else if action_name == "toggle_display_not_surrounded_chunks_as_boxes"@ {
        Ok((Action::ToggleDisplayNotSurroundedChunksAsBoxes, false))
    } else if action_name == "toggle_display_interfaces_debug_boxes"@ {
        Ok((Action::ToggleDisplayInterfaceDebugBoxes, false))
    } else if action_name == "toggle_fog"@ {
        Ok((Action::ToggleFog, false))
    } else if action_name == "toggle_fullscreen"@ {
        Ok((Action::ToggleFullscreen, false))
    } else if action_name == "throw_block"@ {
        Ok((Action::ThrowBlock, false))
    } else if action_name == "toggle_display_chunks_with_entities_as_boxes"@ {
        Ok((Action::ToggleDisplayChunksWithEntitiesAsBoxes, false))
    } else if action_name == "toggle_third_person_view"@ {
        Ok((Action::CycleFirstAndThirdPersonViews, true))
    } else {
        Err(ErrorModel::UnknownActionName(action_name))
    }
}

/// Whether the action name names the action `a` (by its current name, not a deprecated one).
pub open spec fn names_action(action_name: Seq<char>, a: Action) -> bool {
    action_spec(action_name) matches Ok((aa, d)) && aa == a && !d
}

/// Each action is named by its own name and by no other (and the only deprecated name,
/// "toggle_third_person_view", is the old name of the cycling of the first and third person
/// views).
#[verifier::rlimit(100)]
pub proof fn law_action_names(action_name: Seq<char>)
    ensures
        names_action(action_name, Action::WalkForward) <==> action_name == "walk_forward"@,
        names_action(action_name, Action::WalkBackward) <==> action_name == "walk_backward"@,
        names_action(action_name, Action::WalkLeftward) <==> action_name == "walk_leftward"@,
        names_action(action_name, Action::WalkRightward) <==> action_name == "walk_rightward"@,
        names_action(action_name, Action::Jump) <==> action_name == "jump"@,
        names_action(action_name, Action::TogglePhysics) <==> action_name == "toggle_physics"@,
        names_action(action_name, Action::ToggleWorldGeneration) <==> action_name == "toggle_world_generation"@,
        names_action(action_name, Action::CycleFirstAndThirdPersonViews) <==> action_name == "cycle_first_and_third_person_views"@,
        names_action(action_name, Action::ToggleDisplayPlayerBox) <==> action_name == "toggle_display_player_box"@,
        names_action(action_name, Action::ToggleSunView) <==> action_name == "toggle_sun_view"@,
        names_action(action_name, Action::ToggleCursorCaptured) <==> action_name == "toggle_cursor_captured"@,
        names_action(action_name, Action::PrintCoords) <==> action_name == "print_coords"@,
        names_action(action_name, Action::PlaceOrRemoveBlockUnderPlayer) <==> action_name == "place_or_remove_block_under_player"@,
        names_action(action_name, Action::PlaceBlockAtTarget) <==> action_name == "place_block_at_target"@,
        names_action(action_name, Action::RemoveBlockAtTarget) <==> action_name == "remove_block_at_target"@,
        names_action(action_name, Action::ToggleDisplayInterface) <==> action_name == "toggle_display_interface"@,
        names_action(action_name, Action::OpenCommandLine) <==> action_name == "open_command_line"@,
        names_action(action_name, Action::ToggleDisplayNotSurroundedChunksAsBoxes) <==> action_name == "toggle_display_not_surrounded_chunks_as_boxes"@,
        names_action(action_name, Action::ToggleDisplayInterfaceDebugBoxes) <==> action_name == "toggle_display_interfaces_debug_boxes"@,
        names_action(action_name, Action::ToggleFog) <==> action_name == "toggle_fog"@,
        names_action(action_name, Action::ToggleFullscreen) <==> action_name == "toggle_fullscreen"@,
        names_action(action_name, Action::ThrowBlock) <==> action_name == "throw_block"@,
        names_action(action_name, Action::ToggleDisplayChunksWithEntitiesAsBoxes) <==> action_name == "toggle_display_chunks_with_entities_as_boxes"@,
        (action_spec(action_name) matches Ok((a, true)) && a == Action::CycleFirstAndThirdPersonViews) <==> action_name == "toggle_third_person_view"@,
        (action_spec(action_name) matches Ok((_, d)) && d) <==> action_name == "toggle_third_person_view"@,
{
    reveal_strlit("walk_forward");
    reveal_strlit("walk_backward");
    reveal_strlit("walk_leftward");
    reveal_strlit("walk_rightward");
    reveal_strlit("jump");
    reveal_strlit("toggle_physics");
    reveal_strlit("toggle_world_generation");
    reveal_strlit("cycle_first_and_third_person_views");
    reveal_strlit("toggle_display_player_box");
    reveal_strlit("toggle_sun_view");
    reveal_strlit("toggle_cursor_captured");
    reveal_strlit("print_coords");
    reveal_strlit("place_or_remove_block_under_player");
    reveal_strlit("place_block_at_target");
    reveal_strlit("remove_block_at_target");
    reveal_strlit("toggle_display_interface");
    reveal_strlit("open_command_line");
    reveal_strlit("toggle_display_not_surrounded_chunks_as_boxes");
    reveal_strlit("toggle_display_interfaces_debug_boxes");
    reveal_strlit("toggle_fog");
    reveal_strlit("toggle_fullscreen");
    reveal_strlit("throw_block");
    reveal_strlit("toggle_display_chunks_with_entities_as_boxes");
    reveal_strlit("toggle_third_person_view");
    assert("walk_forward"@.len() == 12);
    assert("walk_backward"@.len() == 13);
    assert("walk_leftward"@.len() == 13);
    assert("walk_rightward"@.len() == 14);
    assert("jump"@.len() == 4);
    assert("toggle_physics"@.len() == 14);
    assert("toggle_world_generation"@.len() == 23);
    assert("cycle_first_and_third_person_views"@.len() == 34);
    assert("toggle_display_player_box"@.len() == 25);
    assert("toggle_sun_view"@.len() == 15);
    assert("toggle_cursor_captured"@.len() == 22);
    assert("print_coords"@.len() == 12);
    assert("place_or_remove_block_under_player"@.len() == 34);
    assert("place_block_at_target"@.len() == 21);
    assert("remove_block_at_target"@.len() == 22);
    assert("toggle_display_interface"@.len() == 24);
    assert("open_command_line"@.len() == 17);
    assert("toggle_display_not_surrounded_chunks_as_boxes"@.len() == 45);
    assert("toggle_display_interfaces_debug_boxes"@.len() == 37);
    assert("toggle_fog"@.len() == 10);
    assert("toggle_fullscreen"@.len() == 17);
    assert("throw_block"@.len() == 11);
    assert("toggle_display_chunks_with_entities_as_boxes"@.len() == 44);
    assert("toggle_third_person_view"@.len() == 24);
    assert("walk_backward"@ != "walk_leftward"@) by {
        assert("walk_backward"@[5] != "walk_leftward"@[5]);
    }
    assert("walk_rightward"@ != "toggle_physics"@) by {
        assert("walk_rightward"@[0] != "toggle_physics"@[0]);
    }
    assert("walk_forward"@ != "print_coords"@) by {
        assert("walk_forward"@[0] != "print_coords"@[0]);
    }
    assert("cycle_first_and_third_person_views"@ != "place_or_remove_block_under_player"@) by {
        assert("cycle_first_and_third_person_views"@[0] != "place_or_remove_block_under_player"@[0]);
    }
    assert("toggle_cursor_captured"@ != "remove_block_at_target"@) by {
        assert("toggle_cursor_captured"@[0] != "remove_block_at_target"@[0]);
    }
    assert("open_command_line"@ != "toggle_fullscreen"@) by {
        assert("open_command_line"@[0] != "toggle_fullscreen"@[0]);
    }
    assert("toggle_display_interface"@ != "toggle_third_person_view"@) by {
        assert("toggle_display_interface"@[7] != "toggle_third_person_view"@[7]);
    }
}

/// What parsing a control bindings file gives: the bindings (each control at most once, with
/// the action of its last binding), the warnings, and the error that stopped the parsing, if
/// any.
pub struct ControlsOutcome {
    pub bindings: Seq<(ControlModel, Action)>,
    pub warnings: Seq<WarningModel>,
    pub error: Option<ErrorModel>,
}

/// The bindings with the control bound to the action (replacing its earlier binding, if any).
pub open spec fn bind(bindings: Seq<(ControlModel, Action)>, c: ControlModel, a: Action) -> Seq<
    (ControlModel, Action),
> {
    if exists|i: int| 0 <= i < bindings.len() && bindings[i].0 == c {
        let i = choose|i: int| 0 <= i < bindings.len() && bindings[i].0 == c;
        bindings.update(i, (c, a))
    } else {
        bindings.push((c, a))
    }
}

/// The outcome after the line of the given number (its words are `words`).
pub open spec fn process_line(o: ControlsOutcome, line_number: nat, words: Seq<Seq<char>>) -> ControlsOutcome {
    if words.len() == 0 {
        o
    } else if words[0] == "bind_control"@ {
        if words.len() < 2 {
            ControlsOutcome { error: Some(ErrorModel::ExpectedControlName), ..o }
        } else if words.len() < 3 {
            ControlsOutcome { error: Some(ErrorModel::ExpectedActionName), ..o }
        } else {
            match control_spec(words[1]) {
                Err(e) => ControlsOutcome { error: Some(e), ..o },
                Ok((c, shift_warning)) => {
                    let warnings = if shift_warning {
                        o.warnings.push(WarningModel::ShiftKeysNotDistinguished(line_number))
                    } else {
                        o.warnings
                    };
                    match action_spec(words[2]) {
                        Err(e) => ControlsOutcome { warnings, error: Some(e), ..o },
                        Ok((a, deprecated)) => {
                            let warnings = if deprecated {
                                warnings.push(WarningModel::DeprecatedActionName(line_number))
                            } else {
                                warnings
                            };
                            ControlsOutcome { bindings: bind(o.bindings, c, a), warnings, error: None }
                        },
                    }
                },
            }
        }
    } else {
        ControlsOutcome {
            warnings: o.warnings.push(WarningModel::UnknownCommandName(line_number, words[0])),
            ..o
        }
    }
}

/// The outcome after the first `k` lines (the parsing stops at the first error).
pub open spec fn process_lines(lines: Seq<Seq<char>>, k: int) -> ControlsOutcome
    decreases k,
{
    if k <= 0 {
        ControlsOutcome { bindings: Seq::empty(), warnings: Seq::empty(), error: None }
    } else {
        let o = process_lines(lines, k - 1);
        if o.error is Some {
            o
        } else {
            process_line(o, k as nat, words_of(lines[k - 1]))
        }
    }
}

/// What parsing the text of a control bindings file gives.
pub open spec fn parse_controls_spec(text: Seq<char>) -> ControlsOutcome {
    process_lines(lines_of(text), lines_of(text).len() as int)
}

// ---------------------------------------------------------------- parsing

/// Whether the characters are those of the literal.
fn word_is(w: &Vec<char>, lit: &str) -> (r: bool)
    ensures
        r == (w@ == lit@),
{
    let l = chars_of(lit);
    if w.len() != l.len() {
        return false;
    }
    let mut i: usize = 0;
    while i < w.len()
        invariant
            w@.len() == l@.len(),
            l@ == lit@,
            i <= w.len(),
            forall|j: int| 0 <= j < i ==> w@[j] == l@[j],
        decreases w.len() - i,
    {
        if w[i] != l[i] {
            return false;
        }
        i = i + 1;
    }
    assert(w@ =~= l@);
    true
}

/// The characters without the prefix, if they start with it.
fn strip_prefix(w: &Vec<char>, prefix: &str) -> (r: Option<Vec<char>>)
    ensures
        match strip_prefix_spec(w@, prefix@) {
            Some(rest) => r matches Some(v) && v@ == rest,
            None => r is None,
        },
{
    let p = chars_of(prefix);
    if p.len() > w.len() {
        return None;
    }
    let mut i: usize = 0;
    while i < p.len()
        invariant
            p@ == prefix@,
            p@.len() <= w@.len(),
            i <= p.len(),
            forall|j: int| 0 <= j < i ==> w@[j] == p@[j],
        decreases p.len() - i,
    {
        if w[i] != p[i] {
            assert(w@.take(p@.len() as int)[i as int] != p@[i as int]);
            return None;
        }
        i = i + 1;
    }
    assert(w@.take(p@.len() as int) =~= p@);
    let mut rest: Vec<char> = Vec::new();
    let mut k: usize = p.len();
    while k < w.len()
        invariant
            p@.len() <= k <= w@.len(),
            rest@ == w@.subrange(p@.len() as int, k as int),
        decreases w.len() - k,
    {
        rest.push(w[k]);
        k = k + 1;
    }
    assert(rest@ =~= w@.skip(p@.len() as int));
    Some(rest)
}

/// The string of the characters.
fn string_of(w: &Vec<char>) -> (r: String)
    ensures
        r@ == w@,
{
    let mut s = String::new();
    let mut i: usize = 0;
    while i < w.len()
        invariant
            i <= w.len(),
            s@ == w@.take(i as int),
        decreases w.len() - i,
    {
        push_char(&mut s, w[i]);
        proof {
            assert(w@.take(i + 1) =~= w@.take(i as int).push(w@[i as int]));
        }
        i = i + 1;
    }
    assert(w@.take(i as int) =~= w@);
    s
}

/// Parses key names like `F11` (or `f11`) to the function key they name.
fn try_paring_f_key(key_name: &Vec<char>) -> (r: Option<Key>)
    ensures
        match f_key_spec(key_name@) {
            Some(k) => r matches Some(k2) && k2.model() == k,
            None => r is None,
        },
{
    let number = match strip_prefix(key_name, "F") {
        Some(rest) => Some(rest),
        None => strip_prefix(key_name, "f"),
    };
    match number {
        Some(digits) => {
            let digits_string = string_of(&digits);
            match parse_u32(digits_string.as_str()) {
                Some(n) => {
                    if 1 <= n && n <= 12 {
                        Some(Key::F(n as u8))
                    } else {
                        None
                    }
                },
                None => None,
            }
        },
        None => None,
    }
}

/// The key that a key name names, and whether it gets the warning that both shift keys are one.
fn key_of_name(key_name: &Vec<char>) -> (r: Result<(Key, bool), ControlsError>)
    ensures
        match key_spec(key_name@) {
            Ok((k, w)) => r matches Ok((k2, w2)) && k2.model() == k && w2 == w,
            Err(e) => r matches Err(e2) && e2.model() == e,
        },
{
    if key_name.len() == 1 {
        let c = key_name[0];
        if is_alphabetic(c) || crate::lang::tokenize::is_ascii_digit(c) {
            return Ok((Key::Character(to_lowercase_string(c)), false));
        } else {
            return Err(ControlsError::UnknownSingleCharacterKeyName(c));
        }
    }
    match try_paring_f_key(key_name) {
        Some(k) => {
            return Ok((k, false));
        },
        None => {},
    }
    if word_is(key_name, "up") {
        Ok((Key::ArrowUp, false))
    } else if word_is(key_name, "down") {
        Ok((Key::ArrowDown, false))
    } else if word_is(key_name, "left") {
        Ok((Key::ArrowLeft, false))
    } else if word_is(key_name, "right") {
        Ok((Key::ArrowRight, false))
    } else if word_is(key_name, "space") {
        Ok((Key::Space, false))
    } else if word_is(key_name, "left_shift") || word_is(key_name, "right_shift") {
        Ok((Key::Shift, true))
    } else if word_is(key_name, "tab") {
        Ok((Key::Tab, false))
    } else if word_is(key_name, "return") || word_is(key_name, "enter") {
        Ok((Key::Enter, false))
    } else {
        Err(ControlsError::UnknownKeyName(string_of(key_name)))
    }
}

/// The mouse button that a button name names.
fn mouse_button_of_name(button_name: &Vec<char>) -> (r: Result<MouseButton, ControlsError>)
    ensures
        match mouse_button_spec(button_name@) {
            Ok(b) => r == Ok::<MouseButton, ControlsError>(b),
            Err(e) => r matches Err(e2) && e2.model() == e,
        },
{
    if word_is(button_name, "left") {
        Ok(MouseButton::Left)
    } else if word_is(button_name, "right") {
        Ok(MouseButton::Right)
    } else if word_is(button_name, "middle") {
        Ok(MouseButton::Middle)
    } else {
        let name = string_of(button_name);
        match parse_u16(name.as_str()) {
            Some(number) => Ok(MouseButton::Other(number)),
            None => Err(ControlsError::UnknownMouseButtonName(name)),
        }
    }
}

/// The control that a control name names, and whether it gets the warning that both shift
/// keys are one.
fn control_of_name(control_name: &Vec<char>) -> (r: Result<(Control, bool), ControlsError>)
    ensures
        match control_spec(control_name@) {
            Ok((c, w)) => r matches Ok((c2, w2)) && c2.model() == c && w2 == w,
            Err(e) => r matches Err(e2) && e2.model() == e,
        },
{
    match strip_prefix(control_name, "key:") {
        Some(key_name) => match key_of_name(&key_name) {
            Ok((k, w)) => Ok((Control::KeyboardKey(k), w)),
            Err(e) => Err(e),
        },
        None => match strip_prefix(control_name, "mouse_button:") {
            Some(button_name) => match mouse_button_of_name(&button_name) {
                Ok(b) => Ok((Control::MouseButton(b), false)),
                Err(e) => Err(e),
            },
            None => Err(ControlsError::UnknownControl(string_of(control_name))),
        },
    }
}

/// The action that an action name names, and whether the name is deprecated.
fn action_of_name(action_name: &Vec<char>) -> (r: Result<(Action, bool), ControlsError>)
    ensures
        match action_spec(action_name@) {
            Ok((a, d)) => r == Ok::<(Action, bool), ControlsError>((a, d)),
            Err(e) => r matches Err(e2) && e2.model() == e,
        },
{
    if word_is(action_name, "walk_forward") {
        return Ok((Action::WalkForward, false));
    }
    if word_is(action_name, "walk_backward") {
        return Ok((Action::WalkBackward, false));
    }
    if word_is(action_name, "walk_leftward") {
        return Ok((Action::WalkLeftward, false));
    }
    if word_is(action_name, "walk_rightward") {
        return Ok((Action::WalkRightward, false));
    }
    if word_is(action_name, "jump") {
        return Ok((Action::Jump, false));
    }
    if word_is(action_name, "toggle_physics") {
        return Ok((Action::TogglePhysics, false));
    }
    if word_is(action_name, "toggle_world_generation") {
        return Ok((Action::ToggleWorldGeneration, false));
    }
    if word_is(action_name, "cycle_first_and_third_person_views") {
        return Ok((Action::CycleFirstAndThirdPersonViews, false));
    }
    if word_is(action_name, "toggle_display_player_box") {
        return Ok((Action::ToggleDisplayPlayerBox, false));
    }
    if word_is(action_name, "toggle_sun_view") {
        return Ok((Action::ToggleSunView, false));
    }
    if word_is(action_name, "toggle_cursor_captured") {
        return Ok((Action::ToggleCursorCaptured, false));
    }
    if word_is(action_name, "print_coords") {
        return Ok((Action::PrintCoords, false));
    }
    if word_is(action_name, "place_or_remove_block_under_player") {
        return Ok((Action::PlaceOrRemoveBlockUnderPlayer, false));
    }
    if word_is(action_name, "place_block_at_target") {
        return Ok((Action::PlaceBlockAtTarget, false));
    }
    if word_is(action_name, "remove_block_at_target") {
        return Ok((Action::RemoveBlockAtTarget, false));
    }
    if word_is(action_name, "toggle_display_interface") {
        return Ok((Action::ToggleDisplayInterface, false));
    }
    if word_is(action_name, "open_command_line") {
        return Ok((Action::OpenCommandLine, false));
    }
    if word_is(action_name, "toggle_display_not_surrounded_chunks_as_boxes") {
        return Ok((Action::ToggleDisplayNotSurroundedChunksAsBoxes, false));
    }
    if word_is(action_name, "toggle_display_interfaces_debug_boxes") {
        return Ok((Action::ToggleDisplayInterfaceDebugBoxes, false));
    }
    if word_is(action_name, "toggle_fog") {
        return Ok((Action::ToggleFog, false));
    }
    if word_is(action_name, "toggle_fullscreen") {
        return Ok((Action::ToggleFullscreen, false));
    }
    if word_is(action_name, "throw_block") {
        return Ok((Action::ThrowBlock, false));
    }
    if word_is(action_name, "toggle_display_chunks_with_entities_as_boxes") {
        return Ok((Action::ToggleDisplayChunksWithEntitiesAsBoxes, false));
    }
    if word_is(action_name, "toggle_third_person_view") {
        return Ok((Action::CycleFirstAndThirdPersonViews, true));
    }
    Err(ControlsError::UnknownActionName(string_of(action_name)))
}

/// Whether the two keys are the same key.
fn same_key(a: &Key, b: &Key) -> (r: bool)
    ensures
        r == (a.model() == b.model()),
{
    match (a, b) {
        (Key::Character(x), Key::Character(y)) => x.eq(y),
        (Key::F(m), Key::F(n)) => *m == *n,
        (Key::ArrowUp, Key::ArrowUp) => true,
        (Key::ArrowDown, Key::ArrowDown) => true,
        (Key::ArrowLeft, Key::ArrowLeft) => true,
        (Key::ArrowRight, Key::ArrowRight) => true,
        (Key::Space, Key::Space) => true,
        (Key::Shift, Key::Shift) => true,
        (Key::Tab, Key::Tab) => true,
        (Key::Enter, Key::Enter) => true,
        _ => false,
    }
}

/// Whether the two controls are the same control.
fn same_control(a: &Control, b: &Control) -> (r: bool)
    ensures
        r == (a.model() == b.model()),
{
    match (a, b) {
        (Control::KeyboardKey(x), Control::KeyboardKey(y)) => same_key(x, y),
        (Control::MouseButton(x), Control::MouseButton(y)) => *x == *y,
        _ => false,
    }
}

/// The bindings, as plain values.
pub open spec fn bindings_model(v: Seq<(Control, Action)>) -> Seq<(ControlModel, Action)> {
    v.map_values(|b: (Control, Action)| (b.0.model(), b.1))
}

/// The warnings, as plain values.
pub open spec fn warnings_model(v: Seq<ControlsWarning>) -> Seq<WarningModel> {
    v.map_values(|w: ControlsWarning| w.model())
}

/// No control is bound twice.
pub open spec fn controls_distinct(bindings: Seq<(ControlModel, Action)>) -> bool {
    forall|i: int, j: int|
        0 <= i < j < bindings.len() ==> #[trigger] bindings[i].0 != #[trigger] bindings[j].0
}

/// Binds the control to the action, replacing its earlier binding, if any.
fn bind_control(bindings: &mut Vec<(Control, Action)>, control: Control, action: Action)
    requires
        controls_distinct(bindings_model(old(bindings)@)),
    ensures
        bindings_model(final(bindings)@) == bind(bindings_model(old(bindings)@), control.model(), action),
        controls_distinct(bindings_model(final(bindings)@)),
{
    let ghost old_model = bindings_model(bindings@);
    let mut i: usize = 0;
    while i < bindings.len()
        invariant
            i <= bindings@.len(),
            bindings@ == old(bindings)@,
            old_model == bindings_model(bindings@),
            controls_distinct(old_model),
            forall|j: int| 0 <= j < i ==> old_model[j].0 != control.model(),
        decreases bindings.len() - i,
    {
        if same_control(&bindings[i].0, &control) {
            proof {
                assert(old_model[i as int].0 == control.model());
                assert(exists|k: int| 0 <= k < old_model.len() && old_model[k].0 == control.model());
                let k = choose|k: int| 0 <= k < old_model.len() && old_model[k].0 == control.model();
                if k != i {
                    if k < i {
                        assert(old_model[k].0 != control.model());
                    } else {
                        assert(old_model[i as int].0 != old_model[k].0);
                    }
                }
            }
            let ghost model = control.model();
            bindings.set(i, (control, action));
            proof {
                assert(bindings_model(bindings@) =~= old_model.update(i as int, (model, action)));
            }
            return;
        }
        i = i + 1;
    }
    let ghost model = control.model();
    bindings.push((control, action));
    proof {
        assert(bindings_model(bindings@) =~= old_model.push((model, action)));
    }
}

/// What parsing a control bindings file gave: the bindings (each control at most once, with
/// the action of its last binding), the warnings, and the error that stopped the parsing,
/// if any.
pub struct ParsedControls {
    pub bindings: Vec<(Control, Action)>,
    pub warnings: Vec<ControlsWarning>,
    pub error: Option<ControlsError>,
}

impl ParsedControls {
    pub open spec fn model(&self) -> ControlsOutcome {
        ControlsOutcome {
            bindings: bindings_model(self.bindings@),
            warnings: warnings_model(self.warnings@),
            error: match &self.error {
                Some(e) => Some(e.model()),
                None => None,
            },
        }
    }
}

proof fn lemma_process_lines_distinct(lines: Seq<Seq<char>>, k: int)
    ensures
        controls_distinct(process_lines(lines, k).bindings),
    decreases k,
{
    if k > 0 {
        lemma_process_lines_distinct(lines, k - 1);
        let o = process_lines(lines, k - 1);
        let bs = o.bindings;
        assert forall|c: ControlModel, a: Action| controls_distinct(#[trigger] bind(bs, c, a)) by {
            if exists|i: int| 0 <= i < bs.len() && bs[i].0 == c {
                let i = choose|i: int| 0 <= i < bs.len() && bs[i].0 == c;
                assert forall|x: int, y: int| 0 <= x < y < bind(bs, c, a).len() implies #[trigger] bind(
                    bs,
                    c,
                    a,
                )[x].0 != #[trigger] bind(bs, c, a)[y].0 by {
                    assert(bs[x].0 != bs[y].0);
                }
            } else {
                assert forall|x: int, y: int| 0 <= x < y < bind(bs, c, a).len() implies #[trigger] bind(
                    bs,
                    c,
                    a,
                )[x].0 != #[trigger] bind(bs, c, a)[y].0 by {
                    if y < bs.len() {
                        assert(bs[x].0 != bs[y].0);
                    } else {
                        assert(bs[x].0 != c);
                    }
                }
            }
        }
    }
}

proof fn lemma_process_lines_stops(lines: Seq<Seq<char>>, k0: int, k: int)
    requires
        0 <= k0 <= k,
        process_lines(lines, k0).error is Some,
    ensures
        process_lines(lines, k) == process_lines(lines, k0),
    decreases k - k0,
{
    if k > k0 {
        lemma_process_lines_stops(lines, k0, k - 1);
    }
}

/// Parses the text of a control bindings file, line by line, stopping at the first error.
pub fn parse_control_bindings(text: &str) -> (r: ParsedControls)
    ensures
        r.model() == parse_controls_spec(text@),
        controls_distinct(bindings_model(r.bindings@)),
{
    let chars = chars_of(text);
    let lines = lines(&chars);
    let ghost all_lines = lines_of(text@);
    let mut bindings: Vec<(Control, Action)> = Vec::new();
    let mut warnings: Vec<ControlsWarning> = Vec::new();
    let mut error: Option<ControlsError> = None;
    let mut line_index: usize = 0;
    proof {
        assert(bindings_model(bindings@) =~= Seq::<(ControlModel, Action)>::empty());
        assert(warnings_model(warnings@) =~= Seq::<WarningModel>::empty());
    }
    while line_index < lines.len() && error.is_none()
        invariant
            views_of(lines@) == all_lines,
            line_index <= lines@.len(),
            (ParsedControls { bindings, warnings, error }).model() == process_lines(all_lines, line_index as int),
        decreases lines.len() - line_index,
    {
        let line_number = line_index + 1;
        let words = words(&lines[line_index]);
        proof {
            assert(views_of(lines@)[line_index as int] == lines@[line_index as int]@);
            lemma_process_lines_distinct(all_lines, line_index as int);
        }
        let ghost before = (ParsedControls { bindings, warnings, error }).model();
        let ghost ws = words_of(all_lines[line_index as int]);
        assert(views_of(words@) == ws);
        if words.len() == 0 {
        } else if word_is(&words[0], "bind_control") {
            proof {
                assert(views_of(words@)[0] == words@[0]@);
            }
            if words.len() < 2 {
                error = Some(ControlsError::ExpectedControlName);
            } else if words.len() < 3 {
                error = Some(ControlsError::ExpectedActionName);
            } else {
                proof {
                    assert(views_of(words@)[1] == words@[1]@);
                    assert(views_of(words@)[2] == words@[2]@);
                }
                match control_of_name(&words[1]) {
                    Err(e) => {
                        error = Some(e);
                    },
                    Ok((control, shift_warning)) => {
                        if shift_warning {
                            let ghost w0 = warnings@;
                            warnings.push(ControlsWarning::ShiftKeysNotDistinguished { line_number });
                            proof {
                                assert(warnings_model(warnings@) =~= warnings_model(w0).push(
                                    WarningModel::ShiftKeysNotDistinguished(line_number as nat),
                                ));
                            }
                        }
                        match action_of_name(&words[2]) {
                            Err(e) => {
                                error = Some(e);
                            },
                            Ok((action, deprecated)) => {
                                if deprecated {
                                    let ghost w0 = warnings@;
                                    warnings.push(ControlsWarning::DeprecatedActionName { line_number });
                                    proof {
                                        assert(warnings_model(warnings@) =~= warnings_model(w0).push(
                                            WarningModel::DeprecatedActionName(line_number as nat),
                                        ));
                                    }
                                }
                                bind_control(&mut bindings, control, action);
                            },
                        }
                    },
                }
            }
        } else {
            proof {
                assert(views_of(words@)[0] == words@[0]@);
            }
            let ghost w0 = warnings@;
            let command_name = string_of(&words[0]);
            warnings.push(ControlsWarning::UnknownCommandName { line_number, command_name });
            proof {
                assert(warnings_model(warnings@) =~= warnings_model(w0).push(
                    WarningModel::UnknownCommandName(line_number as nat, ws[0]),
                ));
            }
        }
        line_index = line_index + 1;
    }
    proof {
        if error.is_some() {
            lemma_process_lines_stops(all_lines, line_index as int, all_lines.len() as int);
        }
        lemma_process_lines_distinct(all_lines, all_lines.len() as int);
    }
    ParsedControls { bindings, warnings, error }
}

} // verus!
