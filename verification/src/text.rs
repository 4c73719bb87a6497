//! Operations on text, stated over the characters of a string.
use vstd::prelude::*;

verus! {

/// `String::push` appends one character to a string.
pub assume_specification[ std::string::String::push ](s: &mut std::string::String, c: char)
    ensures
        final(s)@ == old(s)@.push(c),
;

/// `String::from_utf8` takes the bytes of a string back to the string. It refuses
/// exactly the bytes that are not valid UTF-8.
#[verifier::external_body]
fn string_from_utf8(bytes: Vec<u8>) -> (text: Option<String>)
    ensures
        match text {
            Some(t) => vstd::utf8::encode_utf8(t@) == bytes@,
            None => !vstd::utf8::valid_utf8(bytes@),
        },
{
    String::from_utf8(bytes).ok()
}

/// The text that some bytes spell, if they are valid UTF-8.
pub open spec fn spelled(bytes: Seq<u8>) -> Option<Seq<char>> {
    if vstd::utf8::valid_utf8(bytes) {
        Some(vstd::utf8::decode_utf8(bytes))
    } else {
        None
    }
}

/// Reads bytes as UTF-8.
pub fn read_utf8(bytes: Vec<u8>) -> (text: Option<String>)
    ensures
        match text {
            Some(t) => spelled(bytes@) == Some(t@),
            None => spelled(bytes@) is None,
        },
{
    let text = string_from_utf8(bytes);
    proof {
        if text is Some {
            let t = text->0;
            vstd::utf8::encode_utf8_valid_utf8(t@);
            vstd::utf8::encode_utf8_decode_utf8(t@);
        }
    }
    text
}

/// The characters of a text.
pub fn chars_of(text: &str) -> (chars: Vec<char>)
    ensures
        chars@ == text@,
{
    let mut chars: Vec<char> = Vec::new();
    for c in it: text.chars()
        invariant
            it.seq() == text@,
            chars@ == text@.take(it.index() as int),
    {
        chars.push(c);
        assert(text@.take(it.index() + 1) =~= text@.take(it.index() as int).push(c));
    }
    assert(text@.take(text@.len() as int) =~= text@);
    chars
}

/// Whether a text starts with a character.
pub open spec fn starts_with(text: Seq<char>, first: char) -> bool {
    text.len() > 0 && text[0] == first
}

/// Whether a text starts with a character.
pub fn has_first(text: &str, first: char) -> (starts: bool)
    ensures
        starts == starts_with(text@, first),
{
    match text.chars().next() {
        Some(c) => c == first,
        None => false,
    }
}

/// Whether a text ends with a suffix.
pub open spec fn ends_with(text: Seq<char>, suffix: Seq<char>) -> bool {
    &&& suffix.len() <= text.len()
    &&& text.skip(text.len() - suffix.len()) == suffix
}

/// A text without a suffix, or the whole text where it does not end with it.
pub open spec fn stripped(text: Seq<char>, suffix: Seq<char>) -> Seq<char> {
    if ends_with(text, suffix) {
        text.take(text.len() - suffix.len())
    } else {
        text
    }
}

/// Whether a text ends with a suffix.
pub fn has_suffix(text: &str, suffix: &str) -> (ends: bool)
    ensures
        ends == ends_with(text@, suffix@),
{
    let all = chars_of(text);
    let tail = chars_of(suffix);
    if tail.len() > all.len() {
        return false;
    }
    let start: usize = all.len() - tail.len();
    let mut i: usize = 0;
    while i < tail.len()
        invariant
            all@ == text@,
            tail@ == suffix@,
            start + tail.len() == all.len(),
            i <= tail@.len(),
            forall|j: int| 0 <= j < i ==> text@[start + j] == suffix@[j],
        decreases tail@.len() - i,
    {
        if all[start + i] != tail[i] {
            assert(text@.skip(start as int)[i as int] != suffix@[i as int]);
            return false;
        }
        i += 1;
    }
    assert(text@.skip(start as int) =~= suffix@);
    true
}

/// Takes a suffix off a text, if it is there.
pub fn without_suffix(text: &str, suffix: &str) -> (rest: String)
    ensures
        rest@ == stripped(text@, suffix@),
{
    if !has_suffix(text, suffix) {
        return text.to_owned();
    }
    let all = chars_of(text);
    let tail = chars_of(suffix);
    let keep: usize = all.len() - tail.len();
    let mut rest = String::new();
    let mut i: usize = 0;
    while i < keep
        invariant
            all@ == text@,
            keep <= all@.len(),
            i <= keep,
            rest@ == text@.take(i as int),
        decreases keep - i,
    {
        rest.push(all[i]);
        i += 1;
        assert(text@.take(i as int) =~= text@.take(i - 1).push(text@[i - 1]));
    }
    rest
}

/// Several texts in one, with a separator between them.
pub open spec fn joined(parts: Seq<Seq<char>>, separator: Seq<char>) -> Seq<char>
    decreases parts.len(),
{
    if parts.len() == 0 {
        Seq::empty()
    } else if parts.len() == 1 {
        parts[0]
    } else {
        joined(parts.drop_last(), separator) + separator + parts.last()
    }
}

/// The texts of a list of strings.
pub open spec fn texts(parts: Seq<String>) -> Seq<Seq<char>> {
    Seq::new(parts.len(), |i: int| parts[i]@)
}

/// Joins texts with a separator.
pub fn join(parts: &Vec<String>, separator: &str) -> (text: String)
    ensures
        text@ == joined(texts(parts@), separator@),
{
    let mut text = String::new();
    let mut i: usize = 0;
    while i < parts.len()
        invariant
            i <= parts@.len(),
            text@ == joined(texts(parts@).take(i as int), separator@),
        decreases parts@.len() - i,
    {
        if i > 0 {
            text.append(separator);
        }
        text.append(parts[i].as_str());
        i += 1;
        proof {
            let now = texts(parts@).take(i as int);
            assert(now.drop_last() =~= texts(parts@).take(i - 1));
            assert(now.last() == parts@[i - 1]@);
            if i == 1 {
                assert(texts(parts@).take(0) =~= Seq::empty());
                assert(text@ =~= now[0]);
            }
        }
    }
    assert(texts(parts@).take(i as int) =~= texts(parts@));
    text
}

} // verus!
