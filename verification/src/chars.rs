//! Classes of characters, and the conversion between strings and characters.
use vstd::prelude::*;

verus! {

/// `String::push` appends the given character to the end of the string.
pub assume_specification[ String::push ](text: &mut String, ch: char)
    ensures
        final(text)@ == old(text)@.push(ch),
;

/// A class of characters by which text is trimmed and split.
#[derive(Clone, Copy, Debug, PartialEq, Eq, Structural)]
pub enum CharClass {
    /// The characters with the Unicode property `White_Space`.
    Space,
    /// Every character that is not white space.
    NonSpace,
    /// The characters a keyword is made of: ASCII letters and digits, `_` and `-`.
    Keyword,
    /// The hyphen alone.
    Hyphen,
}

/// The characters with the Unicode property `White_Space`.
pub open spec fn is_white_space(ch: char) -> bool {
    let code = ch as u32;
    ||| 0x9 <= code <= 0xd
    ||| code == 0x20
    ||| code == 0x85
    ||| code == 0xa0
    ||| code == 0x1680
    ||| 0x2000 <= code <= 0x200a
    ||| code == 0x2028
    ||| code == 0x2029
    ||| code == 0x202f
    ||| code == 0x205f
    ||| code == 0x3000
}

pub open spec fn is_ascii_digit(ch: char) -> bool {
    '0' <= ch <= '9'
}

pub open spec fn is_ascii_letter(ch: char) -> bool {
    'a' <= ch <= 'z' || 'A' <= ch <= 'Z'
}

impl CharClass {
    /// The class holds the character.
    pub open spec fn has(self, ch: char) -> bool {
        match self {
            CharClass::Space => is_white_space(ch),
            CharClass::NonSpace => !is_white_space(ch),
            CharClass::Keyword => is_ascii_letter(ch) || is_ascii_digit(ch) || ch == '_' || ch
                == '-',
            CharClass::Hyphen => ch == '-',
        }
    }

    /// Decides whether the class holds the character.
    pub fn holds(self, ch: char) -> (held: bool)
        ensures
            held == self.has(ch),
    {
        match self {
            CharClass::Space => white_space(ch),
            CharClass::NonSpace => !white_space(ch),
            CharClass::Keyword => ('a' <= ch && ch <= 'z') || ('A' <= ch && ch <= 'Z') || digit(ch)
                || ch == '_' || ch == '-',
            CharClass::Hyphen => ch == '-',
        }
    }
}

/// Decides whether the character is white space.
pub fn white_space(ch: char) -> (held: bool)
    ensures
        held == is_white_space(ch),
{
    let code: u32 = ch as u32;
    (0x9 <= code && code <= 0xd) || code == 0x20 || code == 0x85 || code == 0xa0 || code == 0x1680
        || (0x2000 <= code && code <= 0x200a) || code == 0x2028 || code == 0x2029 || code == 0x202f
        || code == 0x205f || code == 0x3000
}

/// Decides whether the character is an ASCII digit.
pub fn digit(ch: char) -> (held: bool)
    ensures
        held == is_ascii_digit(ch),
{
    '0' <= ch && ch <= '9'
}

/// The ASCII lower-case form of a character; every other character is its own.
pub open spec fn ascii_lower(ch: char) -> char {
    if 'A' <= ch <= 'Z' {
        ((ch as u32) + 32) as char
    } else {
        ch
    }
}

/// The ASCII lower-case form of a character.
pub fn lower_char(ch: char) -> (low: char)
    ensures
        low == ascii_lower(ch),
{
    if 'A' <= ch && ch <= 'Z' {
        ((ch as u8) + 32) as char
    } else {
        ch
    }
}

/// The characters of a string, in order.
pub fn chars_of(text: &str) -> (chars: Vec<char>)
    ensures
        chars@ == text@,
{
    let mut chars: Vec<char> = Vec::new();
    for ch in it: text.chars()
        invariant
            it.seq() == text@,
            chars@ == text@.take(it.index() as int),
    {
        chars.push(ch);
    }
    chars
}

/// The string made of the characters from `from` up to, but without, `to`.
pub fn string_of(chars: &[char], from: usize, to: usize) -> (text: String)
    requires
        from <= to <= chars@.len(),
    ensures
        text@ == chars@.subrange(from as int, to as int),
{
    let mut text = String::new();
    let mut i: usize = from;
    while i < to
        invariant
            from <= i <= to <= chars@.len(),
            text@ == chars@.subrange(from as int, i as int),
        decreases to - i,
    {
        text.push(chars[i]);
        i += 1;
        assert(text@ =~= chars@.subrange(from as int, i as int));
    }
    text
}

} // verus!
