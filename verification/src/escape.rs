//! Escaping of rendered values.
use vstd::prelude::*;

verus! {

/// What a character becomes in html and xml text.
pub open spec fn html_entity(c: char) -> Seq<char> {
    if c == '&' {
        "&amp;"@
    } else if c == '"' {
        "&quot;"@
    } else if c == '<' {
        "&lt;"@
    } else if c == '>' {
        "&gt;"@
    } else {
        seq![c]
    }
}

/// A text with each of its characters replaced.
pub open spec fn html_escaped(text: Seq<char>) -> Seq<char>
    decreases text.len(),
{
    if text.len() == 0 {
        Seq::empty()
    } else {
        html_escaped(text.drop_last()) + html_entity(text.last())
    }
}

/// The default *escape fn* replaces the characters `&"<>`
/// with the equivalent html / xml entities.
pub fn html_escape(data: &str) -> (escaped: String)
    ensures
        escaped@ == html_escaped(data@),
{
    let mut escaped = String::new();
    for c in it: data.chars()
        invariant
            it.seq() == data@,
            escaped@ == html_escaped(data@.take(it.index() as int)),
    {
        if c == '&' {
            escaped.append("&amp;");
        } else if c == '"' {
            escaped.append("&quot;");
        } else if c == '<' {
            escaped.append("&lt;");
        } else if c == '>' {
            escaped.append("&gt;");
        } else {
            let ghost before = escaped@;
            escaped.push(c);
            assert(escaped@ =~= before + seq![c]);
        }
        assert(data@.take(it.index() + 1).drop_last() =~= data@.take(it.index() as int));
    }
    assert(data@.take(data@.len() as int) =~= data@);
    escaped
}

/// `EscapeFn` that does not change anything. Useful when using in a non-html
/// environment.
pub fn no_escape(data: &str) -> (escaped: String)
    ensures
        escaped@ == data@,
{
    data.to_owned()
}

/// This type represents an *escape fn*, that is a function whose purpose it is
/// to escape potentially problematic characters in a string.
pub enum EscapeFn<F> {
    /// The default: [`html_escape`].
    Html,
    /// A function of the user's.
    Custom(F),
}

impl<F: Fn(&str) -> String> EscapeFn<F> {
    /// Applies the *escape fn* to a text.
    pub fn apply(&self, data: &str) -> (escaped: String)
        requires
            *self matches EscapeFn::Custom(f) ==> call_requires(f, (data,)),
        ensures
            match *self {
                EscapeFn::Html => escaped@ == html_escaped(data@),
                EscapeFn::Custom(f) => call_ensures(f, (data,), escaped),
            },
    {
        match self {
            EscapeFn::Html => html_escape(data),
            EscapeFn::Custom(f) => f(data),
        }
    }
}

} // verus!
