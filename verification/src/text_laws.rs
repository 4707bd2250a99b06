//! What is redacted, cut and kept of a text, told by the text itself.
use vstd::prelude::*;
use vstd::utf8::encode_utf8;

use crate::chars::{is_ascii_digit, CharClass};
use crate::excerpt::capped;
use crate::numeral::{all_digits, decimal, digits_value, parsed_number};
use crate::patterns::regex_replaced;
use crate::patterns::{
    COMMAND_ARGS, COMMAND_MESSAGE, COMMAND_NAME, COMMAND_OUTPUT, COMMAND_STDERR, COMMAND_STDOUT,
    COMMAND_TAG, FENCED_CODE, LONG_SECRET_LIKE, SECRET_ASSIGNMENT, SECRET_TOKEN, SYSTEM_REMINDER,
    UNIX_PATH, URL_QUERY, WINDOWS_PATH,
};
use crate::redact::{
    code_redacted, is_code_like, kept_lines, noise_round, noise_rounds, summary_text,
};
use crate::redact::{
    looks_like_code_or_file_content, redact_code_like_lines, redact_safe_text,
    strip_snapshot_noise_blocks,
};
use crate::text::{
    collapsed, contains_text, first_place, joined, last_place, lemma_find_back, lemma_find_from,
    lemma_line_end, lemma_span_end, lemma_span_start, line_end, lines, lines_from, lowered,
    occurs_at, runs, runs_from, span_end, span_start, trimmed,
};

verus! {

// ---- White space around a text ----

/// Every character of the text is white space.
pub open spec fn all_space(s: Seq<char>) -> bool {
    forall|i: int| 0 <= i < s.len() ==> CharClass::Space.has(#[trigger] s[i])
}

/// What is left of a trimmed text is its stretch from the first character that is not white
/// space to the last; nothing is left where there is none.
pub proof fn law_trimming_finds_the_ends(s: Seq<char>, from: int, to: int)
    requires
        0 <= from <= to <= s.len(),
        all_space(s.take(from)),
        all_space(s.skip(to)),
        from < to ==> !CharClass::Space.has(s[from]) && !CharClass::Space.has(s[to - 1]),
    ensures
        trimmed(s) == s.subrange(from, to),
{
    let a = span_end(s, CharClass::Space, 0);
    let b = span_start(s, CharClass::Space, s.len() as int);
    lemma_span_end(s, CharClass::Space, 0);
    lemma_span_start(s, CharClass::Space, s.len() as int);
    assert forall|i: int| 0 <= i < from implies CharClass::Space.has(#[trigger] s[i]) by {
        assert(s.take(from)[i] == s[i]);
    }
    assert forall|i: int| to <= i < s.len() implies CharClass::Space.has(#[trigger] s[i]) by {
        assert(s.skip(to)[i - to] == s[i]);
    }
    if from < to {
        assert(a == from) by {
            if a > from {
                assert(CharClass::Space.has(s[from]));
            }
        }
        assert(b == to) by {
            if b < to {
                assert(CharClass::Space.has(s[to - 1]));
            }
        }
    } else {
        assert(a == s.len());
        assert(s.subrange(from, to) =~= Seq::<char>::empty());
    }
}

/// White space around a text does not matter to what is left of it.
pub proof fn law_outer_white_space_does_not_matter(
    before: Seq<char>,
    s: Seq<char>,
    behind: Seq<char>,
)
    requires
        all_space(before),
        all_space(behind),
    ensures
        trimmed(before + s + behind) == trimmed(s),
{
    let a = span_end(s, CharClass::Space, 0);
    let b = span_start(s, CharClass::Space, s.len() as int);
    lemma_span_end(s, CharClass::Space, 0);
    lemma_span_start(s, CharClass::Space, s.len() as int);
    let all = before + s + behind;
    let n = before.len() as int;
    if a < b {
        assert forall|i: int| 0 <= i < n + a implies CharClass::Space.has(#[trigger] all[i]) by {
            if i < n {
                assert(all[i] == before[i]);
            } else {
                assert(all[i] == s[i - n]);
            }
        }
        assert forall|i: int| n + b <= i < all.len() implies CharClass::Space.has(
            #[trigger] all[i],
        ) by {
            if i < n + s.len() {
                assert(all[i] == s[i - n]);
            } else {
                assert(all[i] == behind[i - n - s.len()]);
            }
        }
        assert(all[n + a] == s[a]);
        assert(all[n + b - 1] == s[b - 1]);
        law_trimming_finds_the_ends(all, n + a, n + b);
        assert(all.subrange(n + a, n + b) =~= s.subrange(a, b));
    } else {
        assert(all_space(s)) by {
            assert forall|i: int| 0 <= i < s.len() implies CharClass::Space.has(
                #[trigger] s[i],
            ) by {
                if i >= a {
                    assert(b <= i);
                }
            }
        }
        assert forall|i: int| 0 <= i < all.len() implies CharClass::Space.has(#[trigger] all[i]) by {
            if i < n {
                assert(all[i] == before[i]);
            } else if i < n + s.len() {
                assert(all[i] == s[i - n]);
            } else {
                assert(all[i] == behind[i - n - s.len()]);
            }
        }
        law_trimming_finds_the_ends(all, all.len() as int, all.len() as int);
        assert(trimmed(all) =~= trimmed(s));
    }
}

/// Letters from A to Z become their lower-case forms, and no other character changes.
pub proof fn law_lower_case_changes_ascii_letters(s: Seq<char>, i: int)
    requires
        0 <= i < s.len(),
    ensures
        lowered(s).len() == s.len(),
        'A' <= s[i] <= 'Z' ==> lowered(s)[i] as u32 == s[i] as u32 + 32,
        !('A' <= s[i] <= 'Z') ==> lowered(s)[i] == s[i],
{
}

// ---- Code ----

/// The signs of code, and of the contents of a file, in a text with no white space around it.
pub open spec fn shows_code(t: Seq<char>) -> bool {
    ||| "fn "@.is_prefix_of(t) || "pub "@.is_prefix_of(t) || "use "@.is_prefix_of(t)
    ||| "impl "@.is_prefix_of(t) || "class "@.is_prefix_of(t) || "def "@.is_prefix_of(t)
    ||| "function "@.is_prefix_of(t) || "import "@.is_prefix_of(t)
    ||| "stack trace"@.is_prefix_of(lowered(t)) || "thread '"@.is_prefix_of(lowered(t))
    ||| contains_text(lowered(t), "begin file"@) || contains_text(lowered(t), "file contents"@)
    ||| t.len() > 0 && t.last() == ';' && (t.contains('=') || contains_text(t, "::"@))
    ||| t.contains('{') && t.contains('}') && encode_utf8(t).len() > 30
    ||| (t.contains('{') || t.contains('=')) && encode_utf8(t).len() > 140
}

/// A line is taken as code just where the line without the white space around it shows one of
/// the signs. So indentation does not matter.
pub proof fn law_code_is_known_by_its_signs(line: Seq<char>)
    ensures
        is_code_like(line) <==> trimmed(line).len() > 0 && shows_code(trimmed(line)),
        forall|text: &str, held: bool| #[trigger]
            call_ensures(looks_like_code_or_file_content, (text,), held) && text@ == line
                ==> held == (trimmed(line).len() > 0 && shows_code(trimmed(line))),
{
    let t = trimmed(line);
    assert forall|s: Seq<char>, p: Seq<char>| #[trigger] occurs_at(s, p, 0) == p.is_prefix_of(s) by {
        if p.is_prefix_of(s) {
            assert(s.subrange(0, p.len() as int) =~= p);
        }
    }
    assert(occurs_at(t, "fn "@, 0) == "fn "@.is_prefix_of(t));
    assert(occurs_at(t, "pub "@, 0) == "pub "@.is_prefix_of(t));
    assert(occurs_at(t, "use "@, 0) == "use "@.is_prefix_of(t));
    assert(occurs_at(t, "impl "@, 0) == "impl "@.is_prefix_of(t));
    assert(occurs_at(t, "class "@, 0) == "class "@.is_prefix_of(t));
    assert(occurs_at(t, "def "@, 0) == "def "@.is_prefix_of(t));
    assert(occurs_at(t, "function "@, 0) == "function "@.is_prefix_of(t));
    assert(occurs_at(t, "import "@, 0) == "import "@.is_prefix_of(t));
    assert(occurs_at(lowered(t), "stack trace"@, 0) == "stack trace"@.is_prefix_of(lowered(t)));
    assert(occurs_at(lowered(t), "thread '"@, 0) == "thread '"@.is_prefix_of(lowered(t)));
}

/// White space around a line does not matter to whether it is taken as code.
pub proof fn law_indented_code_is_code(before: Seq<char>, line: Seq<char>, behind: Seq<char>)
    requires
        all_space(before),
        all_space(behind),
    ensures
        is_code_like(before + line + behind) == is_code_like(line),
{
    law_outer_white_space_does_not_matter(before, line, behind);
    law_code_is_known_by_its_signs(before + line + behind);
    law_code_is_known_by_its_signs(line);
}

/// Among redacted lines there is none that shows a sign of code, however it is indented.
pub proof fn law_redacted_lines_show_no_code(all: Seq<Seq<char>>, i: int)
    requires
        0 <= i < code_redacted(all).len(),
    ensures
        trimmed(code_redacted(all)[i]).len() == 0 || !shows_code(trimmed(code_redacted(all)[i])),
{
    crate::laws::law_no_code_is_left(all, i);
    law_code_is_known_by_its_signs(code_redacted(all)[i]);
}

/// The lines that show no sign of code are kept as they are, each where it stood between the
/// others; what is before such a line and what is behind it do not touch each other.
pub proof fn law_plain_lines_are_kept(
    before: Seq<Seq<char>>,
    line: Seq<char>,
    behind: Seq<Seq<char>>,
)
    requires
        trimmed(line).len() == 0 || !shows_code(trimmed(line)),
    ensures
        code_redacted(before.push(line) + behind) == code_redacted(before).push(line)
            + code_redacted(behind),
    decreases behind.len(),
{
    law_code_is_known_by_its_signs(line);
    if behind.len() == 0 {
        assert(before.push(line) + behind =~= before.push(line));
        assert(before.push(line).drop_last() =~= before);
        assert(code_redacted(before).push(line) + code_redacted(behind) =~= code_redacted(
            before,
        ).push(line));
    } else {
        let all = before.push(line) + behind;
        assert(all.drop_last() =~= before.push(line) + behind.drop_last());
        law_plain_lines_are_kept(before, line, behind.drop_last());
        assert(all.last() == behind.last());
        if behind.len() >= 2 {
            assert(all[all.len() - 2] == behind[behind.len() - 2]);
        } else {
            assert(all[all.len() - 2] == line);
        }
        assert(code_redacted(all) =~= code_redacted(before).push(line) + code_redacted(behind));
    }
}

/// A stretch of lines that all show code becomes one notice.
pub proof fn law_a_stretch_of_code_is_one_notice(all: Seq<Seq<char>>)
    requires
        all.len() > 0,
        forall|i: int|
            0 <= i < all.len() ==> trimmed(#[trigger] all[i]).len() > 0 && shows_code(
                trimmed(all[i]),
            ),
    ensures
        code_redacted(all) == seq!["<code/file content redacted>"@],
    decreases all.len(),
{
    law_code_is_known_by_its_signs(all.last());
    assert(all[all.len() - 1] == all.last());
    if all.len() >= 2 {
        assert forall|i: int| 0 <= i < all.len() - 1 implies #[trigger] all.drop_last()[i]
            == all[i] by {}
        law_code_is_known_by_its_signs(all[all.len() - 2]);
        law_a_stretch_of_code_is_one_notice(all.drop_last());
    } else {
        assert(code_redacted(all.drop_last()) =~= Seq::<Seq<char>>::empty());
        assert(code_redacted(all) =~= seq!["<code/file content redacted>"@]);
    }
}

/// A text of which no line shows a sign of code keeps all its lines.
pub proof fn law_text_without_code_keeps_its_lines(value: &str, out: &String)
    requires
        call_ensures(redact_code_like_lines, (value,), *out),
        forall|i: int|
            0 <= i < lines(value@).len() ==> trimmed(#[trigger] lines(value@)[i]).len() == 0
                || !shows_code(trimmed(lines(value@)[i])),
    ensures
        out@ == joined(lines(value@), "\n"@),
{
    lemma_nothing_redacted(lines(value@));
}

proof fn lemma_nothing_redacted(all: Seq<Seq<char>>)
    requires
        forall|i: int|
            0 <= i < all.len() ==> trimmed(#[trigger] all[i]).len() == 0 || !shows_code(
                trimmed(all[i]),
            ),
    ensures
        code_redacted(all) == all,
    decreases all.len(),
{
    if all.len() > 0 {
        assert forall|i: int| 0 <= i < all.len() - 1 implies #[trigger] all.drop_last()[i]
            == all[i] by {}
        lemma_nothing_redacted(all.drop_last());
        assert(all[all.len() - 1] == all.last());
        law_code_is_known_by_its_signs(all.last());
        assert(all.drop_last().push(all.last()) =~= all);
    } else {
        assert(code_redacted(all) =~= all);
    }
}

// ---- Lines ----

/// The lines of a text that is one line, a line feed and more are that line and the lines of
/// the rest. A carriage return before the line feed is part of the ending.
pub proof fn law_lines_end_at_line_feeds(line: Seq<char>, rest: Seq<char>)
    requires
        !line.contains('\n'),
    ensures
        lines(line + "\n"@ + rest) == seq![
            if line.len() > 0 && line.last() == '\r' {
                line.drop_last()
            } else {
                line
            },
        ] + lines(rest),
        lines(line) == if line.len() == 0 {
            Seq::empty()
        } else {
            seq![line]
        },
{
    reveal_strlit("\n");
    let all = line + "\n"@ + rest;
    let n = line.len() as int;
    assert(all[n] == '\n');
    assert forall|i: int| 0 <= i < n implies #[trigger] all[i] != '\n' by {
        assert(all[i] == line[i]);
        assert(line.contains(line[i]));
    }
    lemma_line_end(all, 0);
    lemma_line_end_at(all, 0, n);
    assert(all.subrange(0, n) =~= line);
    assert(all.skip(n + 1) =~= rest);
    lemma_lines_from(all, n + 1);
    if line.len() > 0 {
        lemma_line_end(line, 0);
        let end = line_end(line, 0);
        lemma_line_end_is_end(line, 0);
        if end < line.len() {
            assert(line.contains(line[end]));
        }
        assert(line.subrange(0, n) =~= line);
        assert(lines(line) =~= seq![line]);
    }
}

proof fn lemma_line_end_at(s: Seq<char>, i: int, n: int)
    requires
        0 <= i <= n < s.len(),
        s[n] == '\n',
        forall|j: int| i <= j < n ==> #[trigger] s[j] != '\n',
    ensures
        line_end(s, i) == n,
    decreases n - i,
{
    if i < n {
        lemma_line_end_at(s, i + 1, n);
    }
}

proof fn lemma_line_end_is_end(s: Seq<char>, i: int)
    requires
        0 <= i <= s.len(),
    ensures
        line_end(s, i) < s.len() ==> s[line_end(s, i)] == '\n',
    decreases s.len() - i,
{
    if i < s.len() && s[i] != '\n' {
        lemma_line_end_is_end(s, i + 1);
    }
}

/// The lines from a place on are those of the rest.
proof fn lemma_lines_from(s: Seq<char>, i: int)
    requires
        0 <= i <= s.len(),
    ensures
        lines_from(s, i) == lines(s.skip(i)),
    decreases s.len() - i,
{
    let rest = s.skip(i);
    if i < s.len() {
        lemma_line_end(s, i);
        lemma_same_end(s, i, 0);
        let end = line_end(s, i);
        if end < s.len() {
            lemma_lines_from(s, end + 1);
            lemma_lines_from(rest, end + 1 - i);
            assert(rest.skip(end + 1 - i) =~= s.skip(end + 1));
            assert(rest.subrange(0, end - i) =~= s.subrange(i, end));
        } else {
            assert(rest.subrange(0, rest.len() as int) =~= s.subrange(i, s.len() as int));
        }
    }
}

proof fn lemma_same_end(s: Seq<char>, i: int, k: int)
    requires
        0 <= i <= s.len(),
        0 <= k <= s.len() - i,
    ensures
        line_end(s, i + k) == i + line_end(s.skip(i), k),
    decreases s.len() - i - k,
{
    if i + k < s.len() {
        assert(s.skip(i)[k] == s[i + k]);
        if s[i + k] != '\n' {
            lemma_same_end(s, i, k + 1);
        }
    }
}

// ---- Words ----

/// The stretches of a text on both sides of a character that belongs to none are those of the
/// two sides.
pub proof fn law_stretches_of_two_sides(one: Seq<char>, gap: char, two: Seq<char>, class: CharClass)
    requires
        !class.has(gap),
    ensures
        runs(one.push(gap) + two, class) == runs(one, class) + runs(two, class),
{
    lemma_runs_of_sides(one, gap, two, class, 0);
}

proof fn lemma_runs_of_sides(
    one: Seq<char>,
    gap: char,
    two: Seq<char>,
    class: CharClass,
    i: int,
)
    requires
        !class.has(gap),
        0 <= i <= one.len(),
    ensures
        runs_from(one.push(gap) + two, class, i) == runs_from(one, class, i) + runs(two, class),
    decreases one.len() - i,
{
    let all = one.push(gap) + two;
    if i == one.len() {
        assert(all[i] == gap);
        lemma_runs_from(all, class, i + 1);
        assert(all.skip(i + 1) =~= two);
        assert(runs_from(one, class, i) + runs(two, class) =~= runs(two, class));
    } else {
        assert(all[i] == one[i]);
        if class.has(one[i]) {
            lemma_span_end(one, class, i + 1);
            lemma_span_of_side(one, gap, two, class, i + 1);
            let end = span_end(one, class, i + 1);
            assert(all.subrange(i, end) =~= one.subrange(i, end));
            lemma_runs_of_sides(one, gap, two, class, end);
            assert(runs_from(all, class, i) =~= runs_from(one, class, i) + runs(two, class));
        } else {
            lemma_runs_of_sides(one, gap, two, class, i + 1);
        }
    }
}

proof fn lemma_span_of_side(one: Seq<char>, gap: char, two: Seq<char>, class: CharClass, i: int)
    requires
        !class.has(gap),
        0 <= i <= one.len(),
    ensures
        span_end(one.push(gap) + two, class, i) == span_end(one, class, i),
    decreases one.len() - i,
{
    let all = one.push(gap) + two;
    if i < one.len() {
        assert(all[i] == one[i]);
        if class.has(one[i]) {
            lemma_span_of_side(one, gap, two, class, i + 1);
        }
    } else {
        assert(all[i] == gap);
    }
}

/// The stretches from a place on are those of the rest.
proof fn lemma_runs_from(s: Seq<char>, class: CharClass, i: int)
    requires
        0 <= i <= s.len(),
    ensures
        runs_from(s, class, i) == runs(s.skip(i), class),
    decreases s.len() - i,
{
    let rest = s.skip(i);
    if i < s.len() {
        assert(rest[0] == s[i]);
        if class.has(s[i]) {
            lemma_span_end(s, class, i + 1);
            lemma_same_span(s, class, i, 1);
            let end = span_end(s, class, i + 1);
            lemma_runs_from(s, class, end);
            lemma_runs_from(rest, class, end - i);
            assert(rest.skip(end - i) =~= s.skip(end));
            assert(rest.subrange(0, end - i) =~= s.subrange(i, end));
        } else {
            lemma_runs_from(s, class, i + 1);
            lemma_runs_from(rest, class, 1);
            assert(rest.skip(1) =~= s.skip(i + 1));
        }
    }
}

proof fn lemma_same_span(s: Seq<char>, class: CharClass, i: int, k: int)
    requires
        0 <= i <= s.len(),
        0 <= k <= s.len() - i,
    ensures
        span_end(s, class, i + k) == i + span_end(s.skip(i), class, k),
    decreases s.len() - i - k,
{
    if i + k < s.len() {
        assert(s.skip(i)[k] == s[i + k]);
        if class.has(s[i + k]) {
            lemma_same_span(s, class, i, k + 1);
        }
    }
}

/// A text that is one stretch has that stretch, and no other.
pub proof fn law_stretch_of_a_whole(s: Seq<char>, class: CharClass)
    requires
        s.len() > 0,
        forall|i: int| 0 <= i < s.len() ==> class.has(#[trigger] s[i]),
    ensures
        runs(s, class) == seq![s],
{
    lemma_span_end(s, class, 1);
    assert(span_end(s, class, 1) == s.len());
    assert(s.subrange(0, s.len() as int) =~= s);
    assert(runs_from(s, class, s.len() as int) =~= Seq::<Seq<char>>::empty());
    assert(runs(s, class) =~= seq![s]);
}

/// White space is collapsed: words keep their order, with one space between them, whatever white
/// space stood there.
pub proof fn law_words_keep_their_order(one: Seq<char>, gap: char, two: Seq<char>)
    requires
        CharClass::Space.has(gap),
    ensures
        trimmed(one).len() == 0 ==> collapsed(one.push(gap) + two) == collapsed(two),
        trimmed(two).len() == 0 ==> collapsed(one.push(gap) + two) == collapsed(one),
        trimmed(one).len() > 0 && trimmed(two).len() > 0 ==> collapsed(one.push(gap) + two)
            == collapsed(one) + " "@ + collapsed(two),
{
    let class = CharClass::NonSpace;
    law_stretches_of_two_sides(one, gap, two, class);
    lemma_no_words(one);
    lemma_no_words(two);
    let a = runs(one, class);
    let b = runs(two, class);
    if a.len() == 0 {
        assert(a + b =~= b);
    }
    if b.len() == 0 {
        assert(a + b =~= a);
    }
    if a.len() > 0 && b.len() > 0 {
        lemma_joined_sides(a, b, " "@);
    }
}

/// A word is shown as it is.
pub proof fn law_a_word_is_kept(s: Seq<char>)
    requires
        s.len() > 0,
        forall|i: int| 0 <= i < s.len() ==> !CharClass::Space.has(#[trigger] s[i]),
    ensures
        collapsed(s) == s,
{
    law_stretch_of_a_whole(s, CharClass::NonSpace);
}

proof fn lemma_no_words(s: Seq<char>)
    ensures
        runs(s, CharClass::NonSpace).len() == 0 <==> trimmed(s).len() == 0,
{
    lemma_no_runs(s, 0);
    lemma_span_end(s, CharClass::Space, 0);
    lemma_span_start(s, CharClass::Space, s.len() as int);
    let a = span_end(s, CharClass::Space, 0);
    let b = span_start(s, CharClass::Space, s.len() as int);
    if trimmed(s).len() == 0 {
        assert forall|i: int| 0 <= i < s.len() implies CharClass::Space.has(#[trigger] s[i]) by {
            if i >= a {
                assert(b <= i);
            }
        }
    }
}

proof fn lemma_no_runs(s: Seq<char>, i: int)
    requires
        0 <= i <= s.len(),
    ensures
        runs_from(s, CharClass::NonSpace, i).len() == 0 <==> forall|j: int|
            i <= j < s.len() ==> CharClass::Space.has(#[trigger] s[j]),
    decreases s.len() - i,
{
    if i < s.len() {
        if CharClass::Space.has(s[i]) {
            lemma_no_runs(s, i + 1);
        }
    }
}

/// The texts of two lists are joined as the lists are.
proof fn lemma_joined_sides(a: Seq<Seq<char>>, b: Seq<Seq<char>>, gap: Seq<char>)
    requires
        a.len() > 0,
        b.len() > 0,
    ensures
        joined(a + b, gap) == joined(a, gap) + gap + joined(b, gap),
    decreases b.len(),
{
    let all = a + b;
    if b.len() == 1 {
        assert(all.drop_last() =~= a);
        assert(all.last() == b[0]);
    } else {
        assert(all.drop_last() =~= a + b.drop_last());
        lemma_joined_sides(a, b.drop_last(), gap);
        assert(all.last() == b.last());
        assert(joined(all, gap) =~= joined(a, gap) + gap + joined(b, gap));
    }
}

// ---- The summary in a response ----

/// Where an opening tag of a summary is followed by a closing one, the summary is what stands
/// between the first opening tag and the last closing one, in any letter case and without the
/// white space around it. Otherwise, and where nothing stands between them, it is the whole.
pub proof fn law_summary_stands_between_its_tags(cleaned: Seq<char>, i: int, j: int)
    requires
        occurs_at(lowered(trimmed(cleaned)), "<summary>"@, i),
        forall|k: int| 0 <= k < i ==> !#[trigger] occurs_at(
            lowered(trimmed(cleaned)),
            "<summary>"@,
            k,
        ),
        occurs_at(lowered(trimmed(cleaned)), "</summary>"@, j),
        forall|k: int| j < k ==> !#[trigger] occurs_at(
            lowered(trimmed(cleaned)),
            "</summary>"@,
            k,
        ),
    ensures
        summary_text(cleaned) == Some(
            if i + 9 < j && trimmed(trimmed(cleaned).subrange(i + 9, j)).len() > 0 {
                trimmed(trimmed(cleaned).subrange(i + 9, j))
            } else {
                trimmed(cleaned)
            },
        ),
{
    reveal_strlit("<summary>");
    reveal_strlit("</summary>");
    let low = lowered(trimmed(cleaned));
    lemma_find_from(low, "<summary>"@, 0);
    lemma_find_back(low, "</summary>"@, low.len() - "</summary>"@.len());
    assert(low.len() == trimmed(cleaned).len());
    assert(first_place(low, "<summary>"@) == Some(i));
    assert(last_place(low, "</summary>"@) == Some(j));
}

/// A response without one of the tags is its own summary, where it is not blank.
pub proof fn law_response_without_tags_is_its_summary(cleaned: Seq<char>)
    requires
        !contains_text(lowered(trimmed(cleaned)), "<summary>"@) || !contains_text(
            lowered(trimmed(cleaned)),
            "</summary>"@,
        ),
    ensures
        summary_text(cleaned) == if trimmed(cleaned).len() == 0 {
            None
        } else {
            Some(trimmed(cleaned))
        },
{
    let low = lowered(trimmed(cleaned));
    lemma_find_from(low, "<summary>"@, 0);
    lemma_find_back(low, "</summary>"@, low.len() - "</summary>"@.len());
}

/// The noise of a prompt is taken out tag by tag, in up to four rounds; then blank lines are
/// dropped and the others trimmed.
pub proof fn law_noise_is_taken_out_tag_by_tag(
    raw: &str,
    out: &String,
    round: spec_fn(Seq<char>,
) -> Seq<char>)
    requires
        call_ensures(strip_snapshot_noise_blocks, (raw,), *out),
        forall|text: Seq<char>| #[trigger]
            round(text) == regex_replaced(
                COMMAND_STDERR@,
                regex_replaced(
                    COMMAND_STDOUT@,
                    regex_replaced(
                        COMMAND_ARGS@,
                        regex_replaced(
                            COMMAND_MESSAGE@,
                            regex_replaced(
                                COMMAND_NAME@,
                                regex_replaced(SYSTEM_REMINDER@, text, ""@),
                                ""@,
                            ),
                            ""@,
                        ),
                        ""@,
                    ),
                    ""@,
                ),
                ""@,
            ),
    ensures
        out@ == joined(kept_lines(lines(round(round(round(round(raw@)))))), "\n"@),
{
    reveal_with_fuel(noise_rounds, 5);
    let a = round(raw@);
    let b = round(a);
    let c = round(b);
    let d = round(c);
    assert(noise_round(raw@) == a && noise_round(a) == b && noise_round(b) == c);
    assert(noise_round(c) == d);
    assert(noise_rounds(raw@, 4) == d);
}

/// Of tidied lines the blank ones are gone, and the others stand there in their order, each
/// without the white space around it.
pub proof fn law_tidied_lines_keep_their_order(before: Seq<Seq<char>>, line: Seq<char>)
    ensures
        kept_lines(before.push(line)) == if trimmed(line).len() == 0 {
            kept_lines(before)
        } else {
            kept_lines(before).push(trimmed(line))
        },
        kept_lines(Seq::empty()) == Seq::<Seq<char>>::empty(),
{
    assert(before.push(line).drop_last() =~= before);
}

// ---- Cutting ----

/// A text that is short enough is shown as it is. Of a longer one the beginning is shown, three
/// characters less than may be, and three dots.
pub proof fn law_cut_text_is_the_beginning(s: Seq<char>, max: nat)
    ensures
        s.len() <= max ==> capped(s, max) == s,
        s.len() > max ==> {
            let shown = if max >= 3 {
                max - 3
            } else {
                0
            };
            capped(s, max) == s.subrange(0, shown) + "..."@
        },
{
}

// ---- Numbers ----

/// A number that was written is read back as it was, unless it is too large; a plus sign before
/// it does not matter. It is written in digits, without zeros before it.
pub proof fn law_numbers_are_read_back(n: nat, limit: nat)
    ensures
        parsed_number(decimal(n), limit) == if n <= limit {
            Some(n)
        } else {
            None
        },
        parsed_number("+"@ + decimal(n), limit) == parsed_number(decimal(n), limit),
        n > 0 ==> decimal(n)[0] != '0',
{
    reveal_strlit("+");
    lemma_decimal(n);
    let written = decimal(n);
    assert(is_ascii_digit(written[0]));
    assert(("+"@ + written).skip(1) =~= written);
    assert(("+"@ + written)[0] == '+');
}

proof fn lemma_decimal(n: nat)
    ensures
        all_digits(decimal(n)),
        digits_value(decimal(n)) == n,
        n > 0 ==> decimal(n)[0] != '0',
    decreases n,
{
    let written = decimal(n);
    if n >= 10 {
        lemma_decimal(n / 10);
        let before = decimal(n / 10);
        assert(written.drop_last() =~= before);
        assert forall|i: int| 0 <= i < written.len() implies is_ascii_digit(
            #[trigger] written[i],
        ) by {
            if i < before.len() {
                assert(written[i] == before[i]);
            }
        }
        assert(written[0] == before[0]);
    } else {
        assert(written.drop_last() =~= Seq::<char>::empty());
        assert(written.last() as u32 == 0x30 + n);
        assert(digits_value(written.drop_last()) == 0);
    }
}

// ---- The patterns ----

/// The patterns by which noise is found. Each takes a tag from its opening to the nearest
/// closing one, over line ends.
pub proof fn law_patterns_of_noise()
    ensures
        SYSTEM_REMINDER@ == r"(?s)<system-reminder\b[^>]*>.*?</system-reminder>"@,
        COMMAND_NAME@ == r"(?s)<command-name\b[^>]*>.*?</command-name>"@,
        COMMAND_MESSAGE@ == r"(?s)<command-message\b[^>]*>.*?</command-message>"@,
        COMMAND_ARGS@ == r"(?s)<command-args\b[^>]*>.*?</command-args>"@,
        COMMAND_STDOUT@ == r"(?s)<local-command-stdout\b[^>]*>.*?</local-command-stdout>"@,
        COMMAND_STDERR@ == r"(?s)<local-command-stderr\b[^>]*>.*?</local-command-stderr>"@,
{
}

/// The patterns by which it is found what a safe excerpt must not show.
pub proof fn law_patterns_of_secrets()
    ensures
        COMMAND_OUTPUT@
            == r#"(?s)<local-command-(stdout|stderr)\b[^>]*>.*?</local-command-(stdout|stderr)>"#@,
        COMMAND_TAG@
            == r#"(?s)<command-(name|message|args)\b[^>]*>.*?</command-(name|message|args)>"#@,
        FENCED_CODE@ == r#"(?s)```[A-Za-z0-9_-]*\n.*?```"#@,
        URL_QUERY@ == r#"(https?://[^\s<>"'\)\]]+)\?[^\s<>"'\)\]]*"#@,
        UNIX_PATH@
            == r#"(?P<prefix>^|[\s\(\["'=])/(Users|home|private|tmp|var|etc|opt|Volumes|data)(/[^\s,;\)"'\]]+)+"#@,
        WINDOWS_PATH@ == r#"(?i)\b[A-Z]:\\[^\s,;\)"'\]]+"#@,
        SECRET_ASSIGNMENT@
            == r#"(?i)\b(api[_-]?key|token|secret|password|authorization|bearer)\s*[:=]\s*["']?[^"'\s,;\)]+["']?"#@,
        SECRET_TOKEN@
            == r#"(?i)\b(sk-ant-[A-Za-z0-9_-]+|sk-[A-Za-z0-9_-]{12,}|xox[baprs]-[A-Za-z0-9_-]+|gh[pousr]_[A-Za-z0-9_]{12,})\b"#@,
        LONG_SECRET_LIKE@ == r#"\b[A-Za-z0-9+/=_-]{40,}\b"#@,
{
}

// ---- The order of the replacements ----

/// What is redacted first does not reach what is redacted later: output and tags of commands,
/// fenced code, lines of code, query strings, paths, assignments, tokens, long runs.
pub proof fn law_redaction_goes_in_order(value: &str, out: &String)
    requires
        call_ensures(redact_safe_text, (value,), *out),
    ensures
        ({
            let output = regex_replaced(COMMAND_OUTPUT@, value@, "<command output redacted>"@);
            let tags = regex_replaced(COMMAND_TAG@, output, "<command context redacted>"@);
            let fences = regex_replaced(FENCED_CODE@, tags, "<code block redacted>"@);
            let kept = joined(code_redacted(lines(fences)), "\n"@);
            let queries = regex_replaced(URL_QUERY@, kept, "${1}?<redacted>"@);
            let paths = regex_replaced(UNIX_PATH@, queries, "${prefix}<path>"@);
            let others = regex_replaced(WINDOWS_PATH@, paths, "<path>"@);
            let assigned = regex_replaced(SECRET_ASSIGNMENT@, others, "$1=<redacted>"@);
            let tokens = regex_replaced(SECRET_TOKEN@, assigned, "<secret>"@);
            out@ == collapsed(regex_replaced(LONG_SECRET_LIKE@, tokens, "<secret-like>"@))
        }),
{
}

} // verus!
