//! Trimming, splitting, searching and joining of text.
//!
//! Text is modelled as the sequence of its characters.
use vstd::prelude::*;
use vstd::string::*;

use crate::chars::{ascii_lower, chars_of, lower_char, string_of, CharClass};

verus! {

// ---- Spans, trimming and runs ----

/// The end of the stretch of characters of `class` that starts at `i`.
pub open spec fn span_end(s: Seq<char>, class: CharClass, i: int) -> int
    decreases s.len() - i,
{
    if 0 <= i < s.len() && class.has(s[i]) {
        span_end(s, class, i + 1)
    } else {
        i
    }
}

/// The start of the stretch of characters of `class` that ends before `i`.
pub open spec fn span_start(s: Seq<char>, class: CharClass, i: int) -> int
    decreases i,
{
    if 0 < i <= s.len() && class.has(s[i - 1]) {
        span_start(s, class, i - 1)
    } else {
        i
    }
}

/// The text without the characters of `class` at either end.
pub open spec fn trimmed_of(s: Seq<char>, class: CharClass) -> Seq<char> {
    let from = span_end(s, class, 0);
    let to = span_start(s, class, s.len() as int);
    if from < to {
        s.subrange(from, to)
    } else {
        Seq::empty()
    }
}

/// The text without white space at either end.
pub open spec fn trimmed(s: Seq<char>) -> Seq<char> {
    trimmed_of(s, CharClass::Space)
}

/// A text is blank when nothing but white space is in it.
pub open spec fn is_blank(s: Seq<char>) -> bool {
    trimmed(s).len() == 0
}

/// The longest stretches of characters of `class` from `i` on, in order.
pub open spec fn runs_from(s: Seq<char>, class: CharClass, i: int) -> Seq<Seq<char>>
    decreases s.len() - i,
{
    if !(0 <= i < s.len()) {
        Seq::empty()
    } else if class.has(s[i]) {
        proof {
            lemma_span_end(s, class, i + 1);
        }
        let end = span_end(s, class, i + 1);
        seq![s.subrange(i, end)] + runs_from(s, class, end)
    } else {
        runs_from(s, class, i + 1)
    }
}

/// The longest stretches of characters of `class`, in order.
pub open spec fn runs(s: Seq<char>, class: CharClass) -> Seq<Seq<char>> {
    runs_from(s, class, 0)
}

/// A span lies within the text, and only characters of the class are in it.
pub proof fn lemma_span_end(s: Seq<char>, class: CharClass, i: int)
    requires
        0 <= i <= s.len(),
    ensures
        i <= span_end(s, class, i) <= s.len(),
        forall|j: int| i <= j < span_end(s, class, i) ==> class.has(#[trigger] s[j]),
        span_end(s, class, i) < s.len() ==> !class.has(s[span_end(s, class, i)]),
    decreases s.len() - i,
{
    if i < s.len() && class.has(s[i]) {
        lemma_span_end(s, class, i + 1);
    }
}

/// A span that is read backwards lies within the text too.
pub proof fn lemma_span_start(s: Seq<char>, class: CharClass, i: int)
    requires
        0 <= i <= s.len(),
    ensures
        0 <= span_start(s, class, i) <= i,
        forall|j: int| span_start(s, class, i) <= j < i ==> class.has(#[trigger] s[j]),
        0 < span_start(s, class, i) ==> !class.has(s[span_start(s, class, i) - 1]),
    decreases i,
{
    if i > 0 && class.has(s[i - 1]) {
        lemma_span_start(s, class, i - 1);
    }
}

/// Finds where the stretch of characters of `class` that starts at `from` ends.
pub fn find_span_end(chars: &[char], class: CharClass, from: usize) -> (end: usize)
    requires
        from <= chars@.len(),
    ensures
        end == span_end(chars@, class, from as int),
        from <= end <= chars@.len(),
{
    let mut i: usize = from;
    while i < chars.len() && class.holds(chars[i])
        invariant
            from <= i <= chars@.len(),
            span_end(chars@, class, from as int) == span_end(chars@, class, i as int),
        decreases chars@.len() - i,
    {
        i += 1;
    }
    i
}

/// Finds where the stretch of characters of `class` that ends before `to` starts.
pub fn find_span_start(chars: &[char], class: CharClass, to: usize) -> (start: usize)
    requires
        to <= chars@.len(),
    ensures
        start == span_start(chars@, class, to as int),
        start <= to,
{
    let mut i: usize = to;
    while i > 0 && class.holds(chars[i - 1])
        invariant
            i <= to <= chars@.len(),
            span_start(chars@, class, to as int) == span_start(chars@, class, i as int),
        decreases i,
    {
        i -= 1;
    }
    i
}

/// Drops the characters of `class` from either end of the text.
pub fn trim_class(text: &str, class: CharClass) -> (out: &str)
    ensures
        out@ == trimmed_of(text@, class),
{
    let chars = chars_of(text);
    let from: usize = find_span_end(&chars, class, 0);
    let to: usize = find_span_start(&chars, class, chars.len());
    if from < to {
        text.substring_char(from, to)
    } else {
        text.substring_char(0, 0)
    }
}

/// Drops the white space from either end of the text.
pub fn trim(text: &str) -> (out: &str)
    ensures
        out@ == trimmed(text@),
{
    trim_class(text, CharClass::Space)
}

/// Decides whether nothing but white space is in the text.
pub fn blank(text: &str) -> (held: bool)
    ensures
        held == is_blank(text@),
{
    trim(text).is_empty()
}

/// Splits the text into its longest stretches of characters of `class`.
pub fn split_runs(text: &str, class: CharClass) -> (parts: Vec<String>)
    ensures
        parts.deep_view() == runs(text@, class),
{
    let chars = chars_of(text);
    let mut parts: Vec<String> = Vec::new();
    let mut i: usize = 0;
    assert(parts.deep_view() =~= Seq::<Seq<char>>::empty());
    while i < chars.len()
        invariant
            i <= chars@.len(),
            chars@ == text@,
            runs(text@, class) =~= parts.deep_view() + runs_from(chars@, class, i as int),
        decreases chars@.len() - i,
    {
        if class.holds(chars[i]) {
            let end: usize = find_span_end(&chars, class, i + 1);
            let ghost before = parts.deep_view();
            parts.push(string_of(&chars, i, end));
            assert(parts.deep_view() =~= before.push(chars@.subrange(i as int, end as int)));
            i = end;
        } else {
            i += 1;
        }
    }
    parts
}

// ---- Letter case and equality ----

/// The text with its ASCII letters in lower case.
pub open spec fn lowered(s: Seq<char>) -> Seq<char> {
    s.map_values(|ch: char| ascii_lower(ch))
}

/// Puts the ASCII letters of the text in lower case, and hands out its characters.
pub fn lower_chars(text: &str) -> (out: Vec<char>)
    ensures
        out@ == lowered(text@),
{
    let chars = chars_of(text);
    let mut out: Vec<char> = Vec::new();
    let mut i: usize = 0;
    while i < chars.len()
        invariant
            i <= chars@.len(),
            chars@ == text@,
            out@ == lowered(text@).take(i as int),
        decreases chars@.len() - i,
    {
        out.push(lower_char(chars[i]));
        i += 1;
        assert(out@ =~= lowered(text@).take(i as int));
    }
    assert(lowered(text@).take(i as int) =~= lowered(text@));
    out
}

/// The text with its ASCII letters in lower case.
pub fn lower_text(text: &str) -> (out: String)
    ensures
        out@ == lowered(text@),
{
    let low = lower_chars(text);
    let out = string_of(&low, 0, low.len());
    assert(out@ =~= lowered(text@));
    out
}

/// Decides whether the characters spell the given text.
pub fn spells(chars: &[char], text: &str) -> (held: bool)
    ensures
        held == (chars@ == text@),
{
    let other = chars_of(text);
    if chars.len() != other.len() {
        return false;
    }
    let mut i: usize = 0;
    while i < chars.len()
        invariant
            i <= chars@.len() == other@.len(),
            other@ == text@,
            forall|j: int| 0 <= j < i ==> chars@[j] == other@[j],
        decreases chars@.len() - i,
    {
        if chars[i] != other[i] {
            return false;
        }
        i += 1;
    }
    assert(chars@ =~= other@);
    true
}

/// Decides whether two texts are the same.
pub fn same_text(a: &str, b: &str) -> (held: bool)
    ensures
        held == (a@ == b@),
{
    let chars = chars_of(a);
    spells(&chars, b)
}

// ---- Searching ----

/// `part` stands in `s` at `i`.
pub open spec fn occurs_at(s: Seq<char>, part: Seq<char>, i: int) -> bool {
    0 <= i && i + part.len() <= s.len() && s.subrange(i, i + part.len()) == part
}

/// `part` stands somewhere in `s`.
pub open spec fn contains_text(s: Seq<char>, part: Seq<char>) -> bool {
    exists|i: int| occurs_at(s, part, i)
}

/// Where `part` first stands in `s`, from `i` on.
pub open spec fn find_from(s: Seq<char>, part: Seq<char>, i: int) -> Option<int>
    decreases s.len() + 1 - i,
{
    if !(0 <= i && i + part.len() <= s.len()) {
        None
    } else if occurs_at(s, part, i) {
        Some(i)
    } else {
        find_from(s, part, i + 1)
    }
}

/// Where `part` last stands in `s`, no later than `i`.
pub open spec fn find_back(s: Seq<char>, part: Seq<char>, i: int) -> Option<int>
    decreases i + 1,
{
    if i < 0 {
        None
    } else if occurs_at(s, part, i) {
        Some(i)
    } else {
        find_back(s, part, i - 1)
    }
}

/// Where `part` first stands in `s`.
pub open spec fn first_place(s: Seq<char>, part: Seq<char>) -> Option<int> {
    find_from(s, part, 0)
}

/// Where `part` last stands in `s`.
pub open spec fn last_place(s: Seq<char>, part: Seq<char>) -> Option<int> {
    find_back(s, part, s.len() - part.len())
}

/// What `find_from` gives is the first place, and it gives one where there is one.
pub proof fn lemma_find_from(s: Seq<char>, part: Seq<char>, i: int)
    requires
        0 <= i,
    ensures
        match find_from(s, part, i) {
            Some(at) => i <= at && occurs_at(s, part, at) && forall|j: int|
                i <= j < at ==> !#[trigger] occurs_at(s, part, j),
            None => forall|j: int| i <= j ==> !#[trigger] occurs_at(s, part, j),
        },
    decreases s.len() + 1 - i,
{
    if i + part.len() <= s.len() && !occurs_at(s, part, i) {
        lemma_find_from(s, part, i + 1);
    }
}

/// What `find_back` gives is the last place, and it gives one where there is one.
pub proof fn lemma_find_back(s: Seq<char>, part: Seq<char>, i: int)
    ensures
        match find_back(s, part, i) {
            Some(at) => 0 <= at <= i && occurs_at(s, part, at) && forall|j: int|
                at < j <= i ==> !#[trigger] occurs_at(s, part, j),
            None => forall|j: int| j <= i ==> !#[trigger] occurs_at(s, part, j),
        },
    decreases i + 1,
{
    if i >= 0 && !occurs_at(s, part, i) {
        lemma_find_back(s, part, i - 1);
    }
}

/// Decides whether `part` stands in the text at `at`.
pub fn stands_at(chars: &[char], part: &[char], at: usize) -> (held: bool)
    ensures
        held == occurs_at(chars@, part@, at as int),
{
    if part.len() > chars.len() || at > chars.len() - part.len() {
        return false;
    }
    let mut i: usize = 0;
    while i < part.len()
        invariant
            i <= part@.len(),
            at + part@.len() <= chars.len(),
            forall|j: int| 0 <= j < i ==> chars@[at + j] == part@[j],
        decreases part@.len() - i,
    {
        if chars[at + i] != part[i] {
            assert(chars@.subrange(at as int, at + part@.len())[i as int] != part@[i as int]);
            return false;
        }
        i += 1;
    }
    assert(chars@.subrange(at as int, at + part@.len()) =~= part@);
    true
}

/// Finds the first place of `part` in the text.
pub fn find_first(chars: &[char], part: &str) -> (place: Option<usize>)
    ensures
        match place {
            Some(at) => first_place(chars@, part@) == Some(at as int) && at + part@.len()
                <= chars@.len(),
            None => first_place(chars@, part@) is None,
        },
{
    let wanted = chars_of(part);
    let mut i: usize = 0;
    while wanted.len() <= chars.len() && i <= chars.len() - wanted.len()
        invariant
            wanted@ == part@,
            i <= chars@.len() + 1,
            first_place(chars@, part@) == find_from(chars@, part@, i as int),
        decreases chars@.len() + 1 - i,
    {
        if stands_at(chars, &wanted, i) {
            return Some(i);
        }
        if i == chars.len() - wanted.len() {
            assert(find_from(chars@, part@, i + 1) is None);
            return None;
        }
        i += 1;
    }
    None
}

/// Finds the last place of `part` in the text.
pub fn find_last(chars: &[char], part: &str) -> (place: Option<usize>)
    ensures
        match place {
            Some(at) => last_place(chars@, part@) == Some(at as int) && at + part@.len()
                <= chars@.len(),
            None => last_place(chars@, part@) is None,
        },
{
    let wanted = chars_of(part);
    if wanted.len() > chars.len() {
        return None;
    }
    let mut i: usize = chars.len() - wanted.len();
    loop
        invariant
            wanted@ == part@,
            i + wanted@.len() <= chars@.len(),
            last_place(chars@, part@) == find_back(chars@, part@, i as int),
        decreases i,
    {
        if stands_at(chars, &wanted, i) {
            return Some(i);
        }
        if i == 0 {
            assert(find_back(chars@, part@, -1) is None);
            return None;
        }
        i -= 1;
    }
}

/// Decides whether `part` stands somewhere in the text.
pub fn has_text(chars: &[char], part: &str) -> (held: bool)
    ensures
        held == contains_text(chars@, part@),
{
    proof {
        lemma_find_from(chars@, part@, 0);
    }
    find_first(chars, part).is_some()
}

/// Decides whether the text begins with `part`.
pub fn begins_with(chars: &[char], part: &str) -> (held: bool)
    ensures
        held == occurs_at(chars@, part@, 0),
{
    let wanted = chars_of(part);
    stands_at(chars, &wanted, 0)
}

/// Decides whether the character is somewhere in the text.
pub fn has_char(chars: &[char], wanted: char) -> (held: bool)
    ensures
        held == chars@.contains(wanted),
{
    let mut i: usize = 0;
    while i < chars.len()
        invariant
            i <= chars@.len(),
            forall|j: int| 0 <= j < i ==> chars@[j] != wanted,
        decreases chars@.len() - i,
    {
        if chars[i] == wanted {
            return true;
        }
        i += 1;
    }
    false
}

// ---- Lines ----

/// The place of the first line feed from `i` on, or the end of the text.
pub open spec fn line_end(s: Seq<char>, i: int) -> int
    decreases s.len() - i,
{
    if 0 <= i < s.len() && s[i] != '\n' {
        line_end(s, i + 1)
    } else {
        i
    }
}

/// A line without the carriage return that stood before its line feed.
pub open spec fn without_return(s: Seq<char>) -> Seq<char> {
    if s.len() > 0 && s.last() == '\r' {
        s.drop_last()
    } else {
        s
    }
}

/// The lines of the text from `i` on. A line ends with a line feed, or with a carriage
/// return and a line feed; the last line may lack its ending.
pub open spec fn lines_from(s: Seq<char>, i: int) -> Seq<Seq<char>>
    decreases s.len() - i,
{
    if !(0 <= i < s.len()) {
        Seq::empty()
    } else {
        let end = line_end(s, i);
        if i <= end < s.len() {
            seq![without_return(s.subrange(i, end))] + lines_from(s, end + 1)
        } else {
            seq![s.subrange(i, s.len() as int)]
        }
    }
}

/// The lines of the text, without their endings.
pub open spec fn lines(s: Seq<char>) -> Seq<Seq<char>> {
    lines_from(s, 0)
}

/// A line ends within the text.
pub proof fn lemma_line_end(s: Seq<char>, i: int)
    requires
        0 <= i <= s.len(),
    ensures
        i <= line_end(s, i) <= s.len(),
        forall|j: int| i <= j < line_end(s, i) ==> #[trigger] s[j] != '\n',
    decreases s.len() - i,
{
    if i < s.len() && s[i] != '\n' {
        lemma_line_end(s, i + 1);
    }
}

/// Splits the text into its lines.
pub fn split_lines(text: &str) -> (parts: Vec<String>)
    ensures
        parts.deep_view() == lines(text@),
{
    let chars = chars_of(text);
    let mut parts: Vec<String> = Vec::new();
    let mut i: usize = 0;
    assert(parts.deep_view() =~= Seq::<Seq<char>>::empty());
    while i < chars.len()
        invariant
            i <= chars@.len(),
            chars@ == text@,
            lines(text@) =~= parts.deep_view() + lines_from(chars@, i as int),
        decreases chars@.len() - i,
    {
        let ghost before = parts.deep_view();
        let mut end: usize = i;
        while end < chars.len() && chars[end] != '\n'
            invariant
                i <= end <= chars@.len(),
                line_end(chars@, i as int) == line_end(chars@, end as int),
            decreases chars@.len() - end,
        {
            end += 1;
        }
        let ghost line = chars@.subrange(i as int, end as int);
        if end < chars.len() {
            let stop: usize = if end > i && chars[end - 1] == '\r' {
                end - 1
            } else {
                end
            };
            assert(chars@.subrange(i as int, stop as int) =~= without_return(line));
            parts.push(string_of(&chars, i, stop));
            assert(parts.deep_view() =~= before.push(without_return(line)));
            i = end + 1;
        } else {
            parts.push(string_of(&chars, i, end));
            assert(parts.deep_view() =~= before.push(line));
            i = end;
        }
    }
    parts
}

// ---- Joining and cutting ----

/// The texts one after the other, with `gap` between each two of them.
pub open spec fn joined(parts: Seq<Seq<char>>, gap: Seq<char>) -> Seq<char>
    decreases parts.len(),
{
    if parts.len() <= 1 {
        if parts.len() == 1 {
            parts[0]
        } else {
            Seq::empty()
        }
    } else {
        joined(parts.drop_last(), gap) + gap + parts.last()
    }
}

/// Joins the texts, with `gap` between each two of them.
pub fn join_texts(parts: &Vec<String>, gap: &str) -> (out: String)
    ensures
        out@ == joined(parts.deep_view(), gap@),
{
    let mut out = String::new();
    let mut i: usize = 0;
    while i < parts.len()
        invariant
            i <= parts@.len(),
            out@ == joined(parts.deep_view().take(i as int), gap@),
        decreases parts@.len() - i,
    {
        if i > 0 {
            out.append(gap);
        }
        out.append(parts[i].as_str());
        proof {
            let longer = parts.deep_view().take(i + 1);
            assert(longer.drop_last() =~= parts.deep_view().take(i as int));
        }
        i += 1;
    }
    assert(parts.deep_view().take(i as int) =~= parts.deep_view());
    out
}

/// The text with every stretch of white space made a single space, and none at its ends.
pub open spec fn collapsed(s: Seq<char>) -> Seq<char> {
    joined(runs(s, CharClass::NonSpace), " "@)
}

/// Makes every stretch of white space a single space, and drops those at the ends.
pub fn collapse_white_space(text: &str) -> (out: String)
    ensures
        out@ == collapsed(text@),
{
    let parts = split_runs(text, CharClass::NonSpace);
    join_texts(&parts, " ")
}

/// At most the first `max` characters of the text.
pub open spec fn first_chars(s: Seq<char>, max: nat) -> Seq<char> {
    if s.len() <= max {
        s
    } else {
        s.take(max as int)
    }
}

/// At most the first `max` characters of the text.
pub fn head(text: &str, max: usize) -> (out: &str)
    ensures
        out@ == first_chars(text@, max as nat),
{
    let count: usize = text.unicode_len();
    if count <= max {
        text
    } else {
        text.substring_char(0, max)
    }
}

} // verus!
