//! Escaping of text content.

use vstd::prelude::*;

verus! {

/// What stands for `c` once markup characters are escaped: `<`, `>` and `&`
/// become entity references, every other character stays.
pub open spec fn markup_entity(c: char) -> Seq<char> {
    if c == '<' {
        seq!['&', 'l', 't', ';']
    } else if c == '>' {
        seq!['&', 'g', 't', ';']
    } else if c == '&' {
        seq!['&', 'a', 'm', 'p', ';']
    } else {
        seq![c]
    }
}

/// What stands for `c` once quotation marks are escaped.
pub open spec fn quote_entity(c: char) -> Seq<char> {
    if c == '"' {
        seq!['&', 'q', 'u', 'o', 't', ';']
    } else if c == '\'' {
        seq!['&', 'a', 'p', 'o', 's', ';']
    } else {
        seq![c]
    }
}

/// What stands for `c` in text content: each of the five reserved characters
/// becomes its entity reference.
pub open spec fn entity(c: char) -> Seq<char> {
    if c == '<' || c == '>' || c == '&' {
        markup_entity(c)
    } else {
        quote_entity(c)
    }
}

/// `s` with `<`, `>` and `&` escaped.
pub open spec fn markup_escaped(s: Seq<char>) -> Seq<char>
    decreases s.len(),
{
    if s.len() == 0 {
        Seq::empty()
    } else {
        markup_escaped(s.drop_last()) + markup_entity(s.last())
    }
}

/// `s` with `"` and `'` escaped.
pub open spec fn quotes_escaped(s: Seq<char>) -> Seq<char>
    decreases s.len(),
{
    if s.len() == 0 {
        Seq::empty()
    } else {
        quotes_escaped(s.drop_last()) + quote_entity(s.last())
    }
}

/// `s` as text content: every character replaced by its [`entity`].
pub open spec fn escaped(s: Seq<char>) -> Seq<char>
    decreases s.len(),
{
    if s.len() == 0 {
        Seq::empty()
    } else {
        escaped(s.drop_last()) + entity(s.last())
    }
}

/// Whether `s` holds none of `<`, `>`, `"` and `'`.
pub open spec fn is_markup_free(s: Seq<char>) -> bool {
    forall|i: int| 0 <= i < s.len() ==> s[i] != '<' && s[i] != '>' && s[i] != '"' && s[i] != '\''
}

/// Whether `c` is one of the five reserved characters.
pub open spec fn is_reserved(c: char) -> bool {
    c == '<' || c == '>' || c == '&' || c == '"' || c == '\''
}

/// Whether an entity reference of a reserved character stands in `s` from
/// index `i` on.
pub open spec fn entity_at(s: Seq<char>, i: int) -> bool {
    exists|c: char|
        is_reserved(c) && 0 <= i && i + entity(c).len() <= s.len() && #[trigger] s.subrange(
            i,
            i + entity(c).len(),
        ) == entity(c)
}

/// Whether every `&` of `s` starts an entity reference.
pub open spec fn ampersands_start_entities(s: Seq<char>) -> bool {
    forall|i: int| 0 <= i < s.len() && s[i] == '&' ==> entity_at(s, i)
}

/// Whether `s` can stand as text content or as an attribute value: none of
/// `<`, `>`, `"` and `'` is in it, and `&` only at the start of an entity
/// reference.
pub open spec fn is_escaped_text(s: Seq<char>) -> bool {
    is_markup_free(s) && ampersands_start_entities(s)
}

/// `xml::escape::escape_str_pcdata`: the result is the argument with each
/// `<`, `>` and `&` replaced by `&lt;`, `&gt;` and `&amp;`, and nothing else
/// changed.
#[verifier::external_body]
fn escape_markup(s: &str) -> (r: String)
    ensures
        r@ == markup_escaped(s@),
{
    xml::escape::escape_str_pcdata(s).into_owned()
}

/// `String::push`: appends one character.
pub assume_specification[ String::push ](s: &mut String, c: char)
    ensures
        final(s)@ == old(s)@.push(c),
;

proof fn lemma_quotes_escaped_concat(a: Seq<char>, b: Seq<char>)
    ensures
        quotes_escaped(a + b) == quotes_escaped(a) + quotes_escaped(b),
    decreases b.len(),
{
    if b.len() > 0 {
        lemma_quotes_escaped_concat(a, b.drop_last());
        assert((a + b).drop_last() =~= a + b.drop_last());
    }
}

proof fn lemma_quotes_escaped_plain(s: Seq<char>)
    requires
        forall|i: int| 0 <= i < s.len() ==> s[i] != '"' && s[i] != '\'',
    ensures
        quotes_escaped(s) == s,
    decreases s.len(),
{
    if s.len() > 0 {
        lemma_quotes_escaped_plain(s.drop_last());
    }
}

/// Escaping the markup characters first and the quotation marks after
/// escapes all five.
pub proof fn lemma_escaped_in_two_passes(s: Seq<char>)
    ensures
        quotes_escaped(markup_escaped(s)) == escaped(s),
    decreases s.len(),
{
    if s.len() > 0 {
        let c = s.last();
        lemma_escaped_in_two_passes(s.drop_last());
        lemma_quotes_escaped_concat(markup_escaped(s.drop_last()), markup_entity(c));
        if c == '<' || c == '>' || c == '&' {
            lemma_quotes_escaped_plain(markup_entity(c));
        } else {
            assert(quotes_escaped(markup_entity(c).drop_last()) =~= Seq::empty());
        }
    }
}

/// Escaped text holds no character that could open or close a tag or a
/// quoted value.
pub proof fn lemma_escaped_is_markup_free(s: Seq<char>)
    ensures
        is_markup_free(escaped(s)),
    decreases s.len(),
{
    if s.len() > 0 {
        lemma_escaped_is_markup_free(s.drop_last());
    }
}

/// In escaped text an `&` stands only at the start of an entity
/// reference.
pub proof fn lemma_escaped_ampersands_start_entities(s: Seq<char>)
    ensures
        ampersands_start_entities(escaped(s)),
    decreases s.len(),
{
    if s.len() > 0 {
        lemma_escaped_ampersands_start_entities(s.drop_last());
        let head = escaped(s.drop_last());
        let c = s.last();
        let tail = entity(c);
        let all = escaped(s);
        assert forall|i: int| 0 <= i < all.len() && all[i] == '&' implies entity_at(all, i) by {
            if i < head.len() {
                let d = choose|d: char|
                    is_reserved(d) && 0 <= i && i + entity(d).len() <= head.len() && #[trigger] head.subrange(
                        i,
                        i + entity(d).len(),
                    ) == entity(d);
                assert(all.subrange(i, i + entity(d).len()) =~= head.subrange(i, i + entity(d).len()));
            } else {
                assert(all.subrange(i, i + tail.len()) =~= tail);
            }
        }
    }
}

/// Escaped text can stand as text content or as an attribute value,
/// whatever was escaped.
pub proof fn lemma_escaped_is_escaped_text(s: Seq<char>)
    ensures
        is_escaped_text(escaped(s)),
{
    lemma_escaped_is_markup_free(s);
    lemma_escaped_ampersands_start_entities(s);
}

/// Text without any of the five reserved characters is its own escaped
/// form.
pub proof fn lemma_escaped_plain_text(s: Seq<char>)
    requires
        forall|i: int| 0 <= i < s.len() ==> !is_reserved(s[i]),
    ensures
        escaped(s) == s,
    decreases s.len(),
{
    if s.len() > 0 {
        lemma_escaped_plain_text(s.drop_last());
    }
}

/// Replaces each `"` and `'` of `s` by its entity reference.
fn escape_quotes(s: &str) -> (r: String)
    ensures
        r@ == quotes_escaped(s@),
{
    let mut out = String::new();
    for c in it: s.chars()
        invariant
            out@ == quotes_escaped(it.seq().take(it.index() as int)),
            it.seq() == s@,
    {
        proof {
            reveal_strlit("&quot;");
            reveal_strlit("&apos;");
            assert(it.seq().take(it.index() as int + 1).drop_last() =~= it.seq().take(it.index() as int));
        }
        if c == '"' {
            out.append("&quot;");
        } else if c == '\'' {
            out.append("&apos;");
        } else {
            out.push(c);
        }
    }
    assert(s@.take(s@.len() as int) =~= s@);
    out
}

/// Escapes `s` for use as text content.
pub fn escape_text(s: &str) -> (r: String)
    ensures
        r@ == escaped(s@),
{
    let markup = escape_markup(s);
    proof {
        lemma_escaped_in_two_passes(s@);
    }
    escape_quotes(markup.as_str())
}

} // verus!
