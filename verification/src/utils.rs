//! Text preparation: character classes, whitespace normalization and
//! splitting of text into whitespace-delimited words.

use vstd::prelude::*;

verus! {

/// The part a character plays when tokens are told apart.
#[derive(Clone, Copy, Debug, PartialEq, Eq, Structural)]
pub enum CharClass {
    /// White space, which separates tokens.
    Space,
    /// A decimal digit or the decimal point.
    Digit,
    /// An opening or closing parenthesis.
    Paren,
    /// Anything else: the characters of operators and words.
    Symbol,
}

/// The characters with the Unicode property `White_Space`.
pub open spec fn is_whitespace(c: char) -> bool {
    let n = c as u32;
    ||| 0x09 <= n <= 0x0D
    ||| n == 0x20
    ||| n == 0x85
    ||| n == 0xA0
    ||| n == 0x1680
    ||| 0x2000 <= n <= 0x200A
    ||| n == 0x2028
    ||| n == 0x2029
    ||| n == 0x202F
    ||| n == 0x205F
    ||| n == 0x3000
}

/// The ten ASCII decimal digits.
pub open spec fn is_digit(c: char) -> bool {
    0x30 <= c as u32 <= 0x39
}

/// The class of a character.
pub open spec fn class_of(c: char) -> CharClass {
    if is_whitespace(c) {
        CharClass::Space
    } else if is_digit(c) || c == '.' {
        CharClass::Digit
    } else if c == '(' || c == ')' {
        CharClass::Paren
    } else {
        CharClass::Symbol
    }
}

/// Whether a space has to be put between a character of class `prev` and a
/// following character of class `next`, neither of them white space: always
/// around a parenthesis, and wherever digits meet symbols.
pub open spec fn needs_space(prev: CharClass, next: CharClass) -> bool {
    prev != CharClass::Space && next != CharClass::Space && (prev != next || next
        == CharClass::Paren)
}

/// What one character contributes to the normalized text, given the class of
/// the character before it (`None` at the start of the text).
///
/// White space becomes one space, and nothing when white space precedes it.
/// Any other character is kept, with a space in front of it where
/// `needs_space` asks for one.
pub open spec fn piece(prev: Option<CharClass>, c: char) -> Seq<char> {
    match class_of(c) {
        CharClass::Space => if prev == Some(CharClass::Space) {
            Seq::empty()
        } else {
            seq![' ']
        },
        next => if prev is Some && needs_space(prev->0, next) {
            seq![' ', c]
        } else {
            seq![c]
        },
    }
}

/// The class of the last character of `s`, if there is one.
pub open spec fn last_class(s: Seq<char>) -> Option<CharClass> {
    if s.len() == 0 {
        None
    } else {
        Some(class_of(s.last()))
    }
}

/// The normalized form of a text: the pieces of its characters, in order.
pub open spec fn normalized(s: Seq<char>) -> Seq<char>
    decreases s.len(),
{
    if s.len() == 0 {
        Seq::empty()
    } else {
        normalized(s.drop_last()) + piece(last_class(s.drop_last()), s.last())
    }
}

/// The words of a text: its maximal runs of characters that are not white
/// space, in order.
pub open spec fn words(s: Seq<char>) -> Seq<Seq<char>>
    decreases s.len(),
{
    if s.len() == 0 {
        Seq::empty()
    } else {
        let before = words(s.drop_last());
        if is_whitespace(s.last()) {
            before
        } else if last_class(s.drop_last()) is Some && last_class(s.drop_last())
            != Some(CharClass::Space) {
            before.drop_last().push(before.last().push(s.last()))
        } else {
            before.push(seq![s.last()])
        }
    }
}

/// The contents of a list of strings.
pub open spec fn texts(v: Seq<String>) -> Seq<Seq<char>> {
    v.map_values(|w: String| w@)
}

/// Normalizing a text that is not empty gives a text that is not empty and
/// ends with a character of the same class.
pub proof fn lemma_normalized_last_class(s: Seq<char>)
    ensures
        last_class(normalized(s)) == last_class(s),
    decreases s.len(),
{
    if s.len() > 0 {
        lemma_normalized_last_class(s.drop_last());
    }
}

/// Whether the tokens of a text are set apart: every white space in it is a
/// single space, and no two characters touch between which `needs_space`
/// asks for a space.
pub open spec fn separated(t: Seq<char>) -> bool {
    &&& forall|i: int| 0 <= i < t.len() && is_whitespace(#[trigger] t[i]) ==> t[i] == ' '
    &&& forall|i: int|
        0 < i < t.len() ==> {
            &&& !(is_whitespace(t[i - 1]) && is_whitespace(#[trigger] t[i]))
            &&& !needs_space(class_of(t[i - 1]), class_of(t[i]))
        }
}

/// In a normalized text the tokens are set apart.
pub proof fn lemma_normalized_separated(s: Seq<char>)
    ensures
        separated(normalized(s)),
    decreases s.len(),
{
    if s.len() > 0 {
        let head = normalized(s.drop_last());
        let tail = piece(last_class(s.drop_last()), s.last());
        let whole = head + tail;
        lemma_normalized_separated(s.drop_last());
        lemma_normalized_last_class(s.drop_last());
        assert forall|i: int| 0 <= i < whole.len() && is_whitespace(#[trigger] whole[i]) implies whole[i]
            == ' ' by {
            if i < head.len() {
                assert(whole[i] == head[i]);
            } else {
                assert(whole[i] == tail[i - head.len()]);
            }
        }
        assert forall|i: int| 0 < i < whole.len() implies {
            &&& !(is_whitespace(whole[i - 1]) && is_whitespace(#[trigger] whole[i]))
            &&& !needs_space(class_of(whole[i - 1]), class_of(whole[i]))
        } by {
            if i < head.len() {
                assert(whole[i] == head[i]);
                assert(whole[i - 1] == head[i - 1]);
            } else if i == head.len() {
                assert(whole[i] == tail[0]);
                assert(whole[i - 1] == head.last());
            } else {
                assert(whole[i] == tail[1]);
                assert(whole[i - 1] == tail[0]);
            }
        }
    }
}

/// Normalizing is idempotent: a normalized text is its own normalized form.
pub proof fn lemma_normalized_idempotent(s: Seq<char>)
    ensures
        normalized(normalized(s)) == normalized(s),
    decreases s.len(),
{
    if s.len() > 0 {
        let c = s.last();
        let head = normalized(s.drop_last());
        let prev = last_class(s.drop_last());
        let tail = piece(prev, c);
        lemma_normalized_idempotent(s.drop_last());
        lemma_normalized_last_class(s.drop_last());
        if tail.len() == 0 {
            assert(head + tail == head);
        } else if tail.len() == 1 {
            assert((head + tail).drop_last() == head);
        } else {
            let mid = head.push(' ');
            assert((head + tail).drop_last() == mid);
            assert(mid.drop_last() == head);
            assert(normalized(mid) == mid);
            assert(head + tail == mid.push(c));
        }
    }
}

/// `String::push` appends the given character to the end of the string.
pub assume_specification[ String::push ](s: &mut String, c: char)
    ensures
        final(s)@ == old(s)@.push(c),
;

/// The characters of a text.
pub fn characters(s: &str) -> (result: Vec<char>)
    ensures
        result@ == s@,
{
    let mut result: Vec<char> = Vec::new();
    for c in it: s.chars()
        invariant
            it.seq() == s@,
            result@ == s@.take(it.index() as int),
    {
        result.push(c);
    }
    result
}

/// Whether a character is a decimal digit.
pub fn is_decimal_digit(c: char) -> (b: bool)
    ensures
        b == is_digit(c),
{
    let n: u32 = c as u32;
    0x30 <= n && n <= 0x39
}

/// Classifies a character.
pub fn classify(c: char) -> (class: CharClass)
    ensures
        class == class_of(c),
{
    let n: u32 = c as u32;
    if (0x09 <= n && n <= 0x0D) || n == 0x20 || n == 0x85 || n == 0xA0 || n == 0x1680 || (0x2000
        <= n && n <= 0x200A) || n == 0x2028 || n == 0x2029 || n == 0x202F || n == 0x205F || n
        == 0x3000 {
        CharClass::Space
    } else if is_decimal_digit(c) || c == '.' {
        CharClass::Digit
    } else if c == '(' || c == ')' {
        CharClass::Paren
    } else {
        CharClass::Symbol
    }
}

/// Puts a space wherever a number, an operator or a parenthesis touches the
/// next token, and replaces each run of white space by one space.
pub fn normalize_whitespace(s: &str) -> (result: String)
    ensures
        result@ == normalized(s@),
{
    let mut result = String::new();
    let mut prev: Option<CharClass> = None;
    for c in it: s.chars()
        invariant
            it.seq() == s@,
            result@ == normalized(s@.take(it.index() as int)),
            prev == last_class(s@.take(it.index() as int)),
    {
        let ghost i = it.index() as int;
        assert(s@.take(i + 1).drop_last() == s@.take(i));
        let class = classify(c);
        match class {
            CharClass::Space => {
                if prev != Some(CharClass::Space) {
                    result.push(' ');
                }
            },
            _ => {
                let gap = match prev {
                    None => false,
                    Some(p) => p != CharClass::Space && (p != class || class == CharClass::Paren),
                };
                if gap {
                    result.push(' ');
                }
                result.push(c);
            },
        }
        prev = Some(class);
    }
    assert(s@.take(s@.len() as int) == s@);
    result
}

/// Splits a text into its words.
pub fn split_whitespace(s: &str) -> (result: Vec<String>)
    ensures
        texts(result@) == words(s@),
{
    let mut result: Vec<String> = Vec::new();
    let mut word = String::new();
    let mut open = false;
    for c in it: s.chars()
        invariant
            it.seq() == s@,
            open == (word@.len() > 0),
            open == (last_class(s@.take(it.index() as int)) is Some && last_class(
                s@.take(it.index() as int),
            ) != Some(CharClass::Space)),
            words(s@.take(it.index() as int)) == if open {
                texts(result@).push(word@)
            } else {
                texts(result@)
            },
    {
        let ghost i = it.index() as int;
        let ghost done = texts(result@);
        assert(s@.take(i + 1).drop_last() == s@.take(i));
        if classify(c) == CharClass::Space {
            if open {
                result.push(word);
                assert(texts(result@) == done.push(word@));
                word = String::new();
                open = false;
            }
        } else {
            let ghost begun = word@;
            word.push(c);
            assert(done.push(begun).drop_last() == done);
            assert(!open ==> word@ == seq![c]);
            open = true;
        }
    }
    assert(s@.take(s@.len() as int) == s@);
    if open {
        let ghost done = texts(result@);
        result.push(word);
        assert(texts(result@) == done.push(word@));
    }
    result
}

} // verus!
