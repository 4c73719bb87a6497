//! What holds of escaped text.
use vstd::prelude::*;

use crate::escape::{html_entity, html_escaped};

verus! {

/// A text is escaped piece by piece.
pub proof fn escaping_distributes(a: Seq<char>, b: Seq<char>)
    ensures
        html_escaped(a + b) == html_escaped(a) + html_escaped(b),
    decreases b.len(),
{
    if b.len() == 0 {
        assert(a + b =~= a);
        assert(html_escaped(a) + html_escaped(b) =~= html_escaped(a));
    } else {
        assert((a + b).drop_last() =~= a + b.drop_last());
        escaping_distributes(a, b.drop_last());
        assert(html_escaped(a + b) =~= html_escaped(a) + html_escaped(b));
    }
}

/// Escaped text holds no `<`, `>` or `"`.
pub proof fn escaped_text_is_harmless(text: Seq<char>, i: int)
    requires
        0 <= i < html_escaped(text).len(),
    ensures
        html_escaped(text)[i] != '<',
        html_escaped(text)[i] != '>',
        html_escaped(text)[i] != '"',
    decreases text.len(),
{
    let front = html_escaped(text.drop_last());
    if i < front.len() {
        escaped_text_is_harmless(text.drop_last(), i);
    } else {
        lemma_entities();
        assert(html_escaped(text)[i] == html_entity(text.last())[i - front.len()]);
    }
}

proof fn lemma_entities()
    ensures
        "&amp;"@ =~= seq!['&', 'a', 'm', 'p', ';'],
        "&quot;"@ =~= seq!['&', 'q', 'u', 'o', 't', ';'],
        "&lt;"@ =~= seq!['&', 'l', 't', ';'],
        "&gt;"@ =~= seq!['&', 'g', 't', ';'],
{
    reveal_strlit("&amp;");
    reveal_strlit("&quot;");
    reveal_strlit("&lt;");
    reveal_strlit("&gt;");
}

/// Text without any of the characters `&"<>` is not changed.
pub proof fn plain_text_is_not_escaped(text: Seq<char>)
    requires
        forall|i: int|
            0 <= i < text.len() ==> #[trigger] text[i] != '&' && text[i] != '"' && text[i] != '<'
                && text[i] != '>',
    ensures
        html_escaped(text) == text,
    decreases text.len(),
{
    if text.len() > 0 {
        assert forall|i: int| 0 <= i < text.drop_last().len() implies #[trigger] text.drop_last()[i]
            != '&' && text.drop_last()[i] != '"' && text.drop_last()[i] != '<'
            && text.drop_last()[i] != '>' by {
            assert(text[i] != '&');
        }
        plain_text_is_not_escaped(text.drop_last());
        assert(text.last() == text[text.len() - 1]);
        assert(html_escaped(text) =~= text);
    } else {
        assert(html_escaped(text) =~= text);
    }
}

/// Escaping loses nothing: different texts are escaped differently.
pub proof fn escaping_is_injective(a: Seq<char>, b: Seq<char>)
    requires
        html_escaped(a) == html_escaped(b),
    ensures
        a == b,
    decreases a.len(),
{
    lemma_entities();
    if a.len() == 0 || b.len() == 0 {
        if a.len() > 0 {
            assert(html_escaped(a).len() > 0);
        }
        if b.len() > 0 {
            assert(html_escaped(b).len() > 0);
        }
        assert(a =~= b);
    } else {
        let x = html_escaped(a);
        lemma_escaped_head(a);
        lemma_escaped_head(b);
        assert(x =~= html_entity(a[0]) + html_escaped(a.drop_first()));
        assert(x =~= html_entity(b[0]) + html_escaped(b.drop_first()));
        assert(x[0] == html_entity(a[0])[0]);
        assert(x[0] == html_entity(b[0])[0]);
        if html_entity(a[0]).len() > 1 && html_entity(b[0]).len() > 1 {
            assert(x[1] == html_entity(a[0])[1]);
            assert(x[1] == html_entity(b[0])[1]);
        }
        assert(a[0] == b[0]);
        let n = html_entity(a[0]).len() as int;
        assert(x.skip(n) =~= html_escaped(a.drop_first()));
        assert(x.skip(n) =~= html_escaped(b.drop_first()));
        escaping_is_injective(a.drop_first(), b.drop_first());
        assert(a =~= seq![a[0]] + a.drop_first());
        assert(b =~= seq![b[0]] + b.drop_first());
    }
}

proof fn lemma_escaped_head(text: Seq<char>)
    requires
        text.len() > 0,
    ensures
        html_escaped(text) == html_entity(text[0]) + html_escaped(text.drop_first()),
{
    let head = seq![text[0]];
    assert(text =~= head + text.drop_first());
    escaping_distributes(head, text.drop_first());
    reveal_with_fuel(html_escaped, 2);
    assert(head.drop_last() =~= Seq::empty());
    assert(html_escaped(head) =~= html_entity(text[0]));
}

/// One character is replaced by its entity where it is one of `&"<>`, and kept otherwise.
pub proof fn characters_are_escaped_one_by_one(c: char)
    ensures
        c == '&' ==> html_escaped(seq![c]) == "&amp;"@,
        c == '"' ==> html_escaped(seq![c]) == "&quot;"@,
        c == '<' ==> html_escaped(seq![c]) == "&lt;"@,
        c == '>' ==> html_escaped(seq![c]) == "&gt;"@,
        c != '&' && c != '"' && c != '<' && c != '>' ==> html_escaped(seq![c]) == seq![c],
{
    reveal_with_fuel(html_escaped, 2);
    assert(seq![c].drop_last() =~= Seq::empty());
    assert(html_escaped(seq![c]) =~= html_entity(c));
}

} // verus!
