//! The keywords of a text, and what two texts have of them in common.
use vstd::prelude::*;
use vstd::string::*;

use crate::chars::{chars_of, digit, is_ascii_digit, string_of, CharClass};
use crate::text::{lower_chars, lower_text, same_text, spells, split_runs, trim_class};
use crate::text::{lowered, runs, trimmed_of};

verus! {

/// The most keywords that are taken from a text.
pub const KEYWORD_LIMIT: usize = 96;

/// A word that says nothing of what a text is about: one of a list, or the name of the
/// assistant that the conversation is with.
pub open spec fn is_stop_word(assistant: Seq<char>, word: Seq<char>) -> bool {
    ||| word == "about"@ || word == "after"@ || word == "again"@ || word == "also"@
    ||| word == "because"@ || word == "before"@ || word == "being"@ || word == "blackbox"@
    ||| word == lowered(assistant) || word == "could"@ || word == "from"@ || word == "have"@
    ||| word == "into"@ || word == "latest"@ || word == "more"@ || word == "must"@
    ||| word == "need"@ || word == "only"@ || word == "please"@ || word == "prompt"@
    ||| word == "request"@ || word == "session"@ || word == "should"@ || word == "summary"@
    ||| word == "that"@ || word == "their"@ || word == "there"@ || word == "these"@
    ||| word == "this"@ || word == "through"@ || word == "turn"@ || word == "using"@
    ||| word == "with"@ || word == "work"@ || word == "would"@ || word == "your"@
}

/// A keyword has four characters or more, is no stop word and is not a mere number.
pub open spec fn is_keyword(assistant: Seq<char>, word: Seq<char>) -> bool {
    &&& word.len() >= 4
    &&& !is_stop_word(assistant, word)
    &&& exists|i: int| 0 <= i < word.len() && !is_ascii_digit(#[trigger] word[i])
}

/// The keywords among the given words, without hyphens at their ends.
pub open spec fn keywords_among(assistant: Seq<char>, words: Seq<Seq<char>>) -> Seq<Seq<char>>
    decreases words.len(),
{
    if words.len() == 0 {
        Seq::empty()
    } else {
        let word = trimmed_of(words.last(), CharClass::Hyphen);
        if is_keyword(assistant, word) {
            keywords_among(assistant, words.drop_last()).push(word)
        } else {
            keywords_among(assistant, words.drop_last())
        }
    }
}

/// The first of the listed texts, up to the limit.
pub open spec fn first_items(list: Seq<Seq<char>>, limit: nat) -> Seq<Seq<char>> {
    if list.len() <= limit {
        list
    } else {
        list.take(limit as int)
    }
}

/// The keywords of a text in the order in which they stand there, up to the limit.
pub open spec fn keywords_listed(assistant: Seq<char>, text: Seq<char>) -> Seq<Seq<char>> {
    first_items(
        keywords_among(assistant, runs(lowered(text), CharClass::Keyword)),
        KEYWORD_LIMIT as nat,
    )
}

/// The keywords of a text.
pub open spec fn keywords(assistant: Seq<char>, text: Seq<char>) -> Set<Seq<char>> {
    keywords_listed(assistant, text).to_set()
}

/// A set of keywords. No keyword is in it twice.
#[derive(Debug)]
pub struct KeywordSet {
    words: Vec<String>,
}

impl View for KeywordSet {
    type V = Set<Seq<char>>;

    closed spec fn view(&self) -> Set<Seq<char>> {
        self.words.deep_view().to_set()
    }
}

impl KeywordSet {
    /// The words of the set, in the order in which they came in.
    pub closed spec fn listed(&self) -> Seq<Seq<char>> {
        self.words.deep_view()
    }

    /// No keyword is in the set twice, and there are no more of them than the limit.
    pub open spec fn wf(&self) -> bool {
        &&& self.listed().no_duplicates()
        &&& self.listed().len() <= KEYWORD_LIMIT
        &&& self@ == self.listed().to_set()
    }

    /// Decides whether the word is in the set.
    pub fn has(&self, word: &str) -> (held: bool)
        ensures
            held == self@.contains(word@),
    {
        let mut i: usize = 0;
        while i < self.words.len()
            invariant
                i <= self.words@.len(),
                forall|j: int| 0 <= j < i ==> self.words.deep_view()[j] != word@,
            decreases self.words@.len() - i,
        {
            if same_text(self.words[i].as_str(), word) {
                assert(self.words.deep_view()[i as int] == word@);
                return true;
            }
            i += 1;
        }
        false
    }

    /// The number of the keywords.
    pub fn len(&self) -> (count: usize)
        requires
            self.wf(),
        ensures
            count == self@.len(),
            count <= KEYWORD_LIMIT,
            self@.finite(),
    {
        proof {
            self.listed().unique_seq_to_set();
        }
        self.words.len()
    }

    /// The number of the keywords that are in the other set too.
    pub fn common_with(&self, other: &KeywordSet) -> (count: usize)
        requires
            self.wf(),
        ensures
            count == self@.intersect(other@).len(),
            count <= self@.len(),
    {
        let ghost all = self.listed();
        let mut count: usize = 0;
        let mut i: usize = 0;
        assert(all.take(0).to_set().intersect(other@) =~= Set::<Seq<char>>::empty());
        while i < self.words.len()
            invariant
                i <= self.words@.len(),
                count <= i,
                all == self.words.deep_view(),
                all.no_duplicates(),
                all.take(i as int).to_set().intersect(other@).finite(),
                count == all.take(i as int).to_set().intersect(other@).len(),
            decreases self.words@.len() - i,
        {
            proof {
                lemma_take_to_set(all, i as int);
                let before = all.take(i as int).to_set();
                if other@.contains(all[i as int]) {
                    assert(before.insert(all[i as int]).intersect(other@) =~= before.intersect(
                        other@,
                    ).insert(all[i as int]));
                } else {
                    assert(before.insert(all[i as int]).intersect(other@) =~= before.intersect(
                        other@,
                    ));
                }
            }
            if other.has(self.words[i].as_str()) {
                count += 1;
            }
            i += 1;
        }
        proof {
            assert(all.take(i as int) =~= all);
            all.unique_seq_to_set();
        }
        count
    }

    /// The number of the keywords that are in neither of the other sets.
    pub fn absent_from(&self, one: &KeywordSet, two: &KeywordSet) -> (count: usize)
        requires
            self.wf(),
        ensures
            count == self@.difference(one@.union(two@)).len(),
            count <= self@.len(),
    {
        let ghost all = self.listed();
        let ghost known = one@.union(two@);
        let mut count: usize = 0;
        let mut i: usize = 0;
        assert(all.take(0).to_set().difference(known) =~= Set::<Seq<char>>::empty());
        while i < self.words.len()
            invariant
                i <= self.words@.len(),
                count <= i,
                all == self.words.deep_view(),
                all.no_duplicates(),
                known == one@.union(two@),
                all.take(i as int).to_set().difference(known).finite(),
                count == all.take(i as int).to_set().difference(known).len(),
            decreases self.words@.len() - i,
        {
            proof {
                lemma_take_to_set(all, i as int);
                let before = all.take(i as int).to_set();
                if known.contains(all[i as int]) {
                    assert(before.insert(all[i as int]).difference(known) =~= before.difference(
                        known,
                    ));
                } else {
                    assert(before.insert(all[i as int]).difference(known) =~= before.difference(
                        known,
                    ).insert(all[i as int]));
                }
            }
            if !one.has(self.words[i].as_str()) && !two.has(self.words[i].as_str()) {
                count += 1;
            }
            i += 1;
        }
        proof {
            assert(all.take(i as int) =~= all);
            all.unique_seq_to_set();
        }
        count
    }

    /// The word at the given place.
    pub fn word_at(&self, i: usize) -> (word: &String)
        requires
            i < self.listed().len(),
        ensures
            word@ == self.listed()[i as int],
    {
        &self.words[i]
    }
}

/// The set of the first items of a list without repetitions grows by one item at a time.
pub proof fn lemma_take_to_set(list: Seq<Seq<char>>, i: int)
    requires
        0 <= i < list.len(),
        list.no_duplicates(),
    ensures
        list.take(i + 1).to_set() == list.take(i).to_set().insert(list[i]),
        !list.take(i).to_set().contains(list[i]),
{
    let longer = list.take(i + 1);
    let shorter = list.take(i);
    assert forall|x: Seq<char>| longer.to_set().contains(x) == shorter.to_set().insert(
        list[i],
    ).contains(x) by {
        if longer.contains(x) {
            let j = choose|j: int| 0 <= j < longer.len() && longer[j] == x;
            if j < i {
                assert(shorter[j] == x);
            }
        }
        if shorter.contains(x) {
            let j = choose|j: int| 0 <= j < shorter.len() && shorter[j] == x;
            assert(longer[j] == x);
        }
        assert(longer[i] == list[i]);
    }
    assert(longer.to_set() =~= shorter.to_set().insert(list[i]));
}

/// Decides whether a word says nothing of what a text is about.
fn stop_word(assistant: &str, word: &[char]) -> (held: bool)
    ensures
        held == is_stop_word(assistant@, word@),
{
    spells(word, "about") || spells(word, "after") || spells(word, "again")
        || spells(word, "also") || spells(word, "because") || spells(word, "before")
        || spells(word, "being") || spells(word, "blackbox")
        || spells(word, lower_text(assistant).as_str()) || spells(word, "could")
        || spells(word, "from") || spells(word, "have") || spells(word, "into")
        || spells(word, "latest") || spells(word, "more") || spells(word, "must")
        || spells(word, "need") || spells(word, "only") || spells(word, "please")
        || spells(word, "prompt") || spells(word, "request") || spells(word, "session")
        || spells(word, "should") || spells(word, "summary") || spells(word, "that")
        || spells(word, "their") || spells(word, "there") || spells(word, "these")
        || spells(word, "this") || spells(word, "through") || spells(word, "turn")
        || spells(word, "using") || spells(word, "with") || spells(word, "work")
        || spells(word, "would") || spells(word, "your")
}

/// Decides whether a word is a keyword.
pub fn keyword(assistant: &str, text: &str) -> (held: bool)
    ensures
        held == is_keyword(assistant@, text@),
{
    let word = chars_of(text);
    if word.len() < 4 || stop_word(assistant, &word) {
        return false;
    }
    let mut i: usize = 0;
    while i < word.len()
        invariant
            i <= word@.len(),
            word@ == text@,
            word@.len() >= 4,
            !is_stop_word(assistant@, word@),
            forall|j: int| 0 <= j < i ==> is_ascii_digit(#[trigger] word@[j]),
        decreases word@.len() - i,
    {
        if !digit(word[i]) {
            return true;
        }
        i += 1;
    }
    false
}

/// Collects the keywords of a text.
pub fn keyword_set(assistant: &str, value: &str) -> (set: KeywordSet)
    ensures
        set.wf(),
        set@ == keywords(assistant@, value@),
{
    let low = lower_chars(value);
    let text = string_of(&low, 0, low.len());
    assert(text@ =~= lowered(value@));
    let parts = split_runs(text.as_str(), CharClass::Keyword);
    let ghost all = runs(lowered(value@), CharClass::Keyword);
    let mut set = KeywordSet { words: Vec::new() };
    let mut taken: usize = 0;
    let mut i: usize = 0;
    assert(all.take(0) =~= Seq::<Seq<char>>::empty());
    assert(set.words.deep_view() =~= Seq::<Seq<char>>::empty());
    assert(set.words.deep_view().to_set() =~= Seq::<Seq<char>>::empty().to_set());
    while i < parts.len() && taken < KEYWORD_LIMIT
        invariant
            i <= parts@.len(),
            parts.deep_view() == all,
            taken <= KEYWORD_LIMIT,
            taken == keywords_among(assistant@, all.take(i as int)).len(),
            set.words.deep_view().no_duplicates(),
            set.words@.len() <= taken,
            set.words.deep_view().to_set() == keywords_among(
                assistant@,
                all.take(i as int),
            ).to_set(),
        decreases parts@.len() - i,
    {
        let word = trim_class(parts[i].as_str(), CharClass::Hyphen);
        let ghost listed = keywords_among(assistant@, all.take(i as int));
        let ghost before = set.words.deep_view();
        proof {
            assert(all.take(i + 1).drop_last() =~= all.take(i as int));
        }
        if keyword(assistant, word) {
            proof {
                lemma_push_to_set(listed, word@);
                lemma_push_to_set(before, word@);
            }
            if !set.has(word) {
                set.words.push(word.to_string());
                assert(set.words.deep_view() =~= before.push(word@));
            } else {
                assert(before.to_set().insert(word@) =~= before.to_set());
            }
            taken += 1;
        }
        i += 1;
    }
    proof {
        lemma_keywords_prefix(assistant@, all, i as int);
        if i == all.len() {
            assert(all.take(i as int) =~= all);
        }
        assert(first_items(keywords_among(assistant@, all), KEYWORD_LIMIT as nat) =~= keywords_among(
            assistant@,
            all.take(i as int),
        ));
    }
    set
}

/// Adding an item to a list adds it to the set.
proof fn lemma_push_to_set(list: Seq<Seq<char>>, x: Seq<char>)
    ensures
        list.push(x).to_set() == list.to_set().insert(x),
{
    assert forall|y: Seq<char>| list.push(x).to_set().contains(y) == list.to_set().insert(
        x,
    ).contains(y) by {
        if list.contains(y) {
            let j = choose|j: int| 0 <= j < list.len() && list[j] == y;
            assert(list.push(x)[j] == y);
        }
        assert(list.push(x)[list.len() as int] == x);
    }
    assert(list.push(x).to_set() =~= list.to_set().insert(x));
}

/// The keywords among the first words come first.
proof fn lemma_keywords_prefix(assistant: Seq<char>, words: Seq<Seq<char>>, k: int)
    requires
        0 <= k <= words.len(),
    ensures
        keywords_among(assistant, words.take(k)).len() <= keywords_among(assistant, words).len(),
        keywords_among(assistant, words).take(
            keywords_among(assistant, words.take(k)).len() as int,
        ) == keywords_among(
            assistant,
            words.take(k),
        ),
    decreases words.len(),
{
    if k < words.len() {
        assert(words.drop_last().take(k) =~= words.take(k));
        lemma_keywords_prefix(assistant, words.drop_last(), k);
        let n = keywords_among(assistant, words.take(k)).len() as int;
        assert(keywords_among(assistant, words).take(n) =~= keywords_among(
            assistant,
            words.drop_last(),
        ).take(n));
    } else {
        assert(words.take(k) =~= words);
        assert(keywords_among(assistant, words).take(
            keywords_among(assistant, words).len() as int,
        ) =~= keywords_among(
            assistant,
            words,
        ));
    }
}

} // verus!
