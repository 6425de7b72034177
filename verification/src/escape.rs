use vstd::prelude::*;
use vstd::string::*;

verus! {

/// What one character becomes in escaped text.
pub open spec fn escape_char(c: char) -> Seq<char> {
    if c == '&' {
        seq!['&', 'a', 'm', 'p', ';']
    } else if c == '<' {
        seq!['&', 'l', 't', ';']
    } else if c == '>' {
        seq!['&', 'g', 't', ';']
    } else if c == '"' {
        seq!['&', 'q', 'u', 'o', 't', ';']
    } else {
        seq![c]
    }
}

/// The escaped form of a text: each character replaced by `escape_char`, in order.
pub open spec fn escaped(s: Seq<char>) -> Seq<char>
    decreases s.len(),
{
    if s.len() == 0 {
        Seq::empty()
    } else {
        escaped(s.drop_last()) + escape_char(s.last())
    }
}

/// Puts the escaped form of `input` behind what `output` holds.
pub fn escape_to_string(input: &str, output: &mut String)
    ensures
        final(output)@ == old(output)@ + escaped(input@),
{
    let ghost before = output@;
    for c in it: input.chars()
        invariant
            it.seq() == input@,
            output@ == before + escaped(input@.take(it.index())),
    {
        proof {
            let k = it.index();
            assert(input@.take(k + 1).drop_last() =~= input@.take(k));
            assert(input@.take(k + 1).last() == c);
        }
        if c == '&' {
            output.append("&amp;");
            proof { reveal_strlit("&amp;"); }
        } else if c == '<' {
            output.append("&lt;");
            proof { reveal_strlit("&lt;"); }
        } else if c == '>' {
            output.append("&gt;");
            proof { reveal_strlit("&gt;"); }
        } else if c == '"' {
            output.append("&quot;");
            proof { reveal_strlit("&quot;"); }
        } else {
            output.push(c);
        }
        assert(output@ =~= before + escaped(input@.take(it.index() + 1)));
    }
    assert(input@.take(input@.len() as int) =~= input@);
}

/// The escaped form of `input`.
pub fn escape_string(input: &str) -> (out: String)
    ensures
        out@ == escaped(input@),
        is_safe(out@),
{
    let mut s = String::new();
    escape_to_string(input, &mut s);
    proof {
        lemma_escaped_is_safe(input@);
    }
    s
}

/// Is `c` one of the four characters that are escaped?
pub open spec fn is_special(c: char) -> bool {
    c == '&' || c == '<' || c == '>' || c == '"'
}

/// Does one of the four entities start at the index `i` of `text`?
pub open spec fn is_entity_at(text: Seq<char>, i: int) -> bool {
    ||| (i + 5 <= text.len() && text.subrange(i, i + 5) == seq!['&', 'a', 'm', 'p', ';'])
    ||| (i + 4 <= text.len() && text.subrange(i, i + 4) == seq!['&', 'l', 't', ';'])
    ||| (i + 4 <= text.len() && text.subrange(i, i + 4) == seq!['&', 'g', 't', ';'])
    ||| (i + 6 <= text.len() && text.subrange(i, i + 6) == seq!['&', 'q', 'u', 'o', 't', ';'])
}

/// Is `text` free of raw special characters: no `<`, `>` or `"`, and `&` only where an
/// entity starts?
pub open spec fn is_safe(text: Seq<char>) -> bool {
    forall|i: int|
        0 <= i < text.len() ==> {
            &&& #[trigger] text[i] != '<'
            &&& text[i] != '>'
            &&& text[i] != '"'
            &&& (text[i] == '&' ==> is_entity_at(text, i))
        }
}

/// What one character is escaped to is safe.
pub proof fn lemma_escape_char_is_safe(c: char)
    ensures
        is_safe(escape_char(c)),
        escape_char(c).len() >= 1,
{
    let e = escape_char(c);
    assert forall|i: int| 0 <= i < e.len() implies {
        &&& #[trigger] e[i] != '<'
        &&& e[i] != '>'
        &&& e[i] != '"'
        &&& (e[i] == '&' ==> is_entity_at(e, i))
    } by {
        if e[i] == '&' {
            assert(i == 0);
            assert(e.subrange(0, e.len() as int) =~= e);
        }
    }
}

/// Safe text behind safe text is safe.
pub proof fn lemma_safe_concat(a: Seq<char>, b: Seq<char>)
    requires
        is_safe(a),
        is_safe(b),
    ensures
        is_safe(a + b),
{
    let t = a + b;
    assert forall|i: int| 0 <= i < t.len() implies {
        &&& #[trigger] t[i] != '<'
        &&& t[i] != '>'
        &&& t[i] != '"'
        &&& (t[i] == '&' ==> is_entity_at(t, i))
    } by {
        if i < a.len() {
            assert(t[i] == a[i]);
            if a[i] == '&' {
                assert(is_entity_at(a, i));
                assert(i + 4 <= a.len() ==> t.subrange(i, i + 4) =~= a.subrange(i, i + 4));
                assert(i + 5 <= a.len() ==> t.subrange(i, i + 5) =~= a.subrange(i, i + 5));
                assert(i + 6 <= a.len() ==> t.subrange(i, i + 6) =~= a.subrange(i, i + 6));
            }
        } else {
            let j = i - a.len();
            assert(t[i] == b[j]);
            if b[j] == '&' {
                assert(is_entity_at(b, j));
                assert(j + 4 <= b.len() ==> t.subrange(i, i + 4) =~= b.subrange(j, j + 4));
                assert(j + 5 <= b.len() ==> t.subrange(i, i + 5) =~= b.subrange(j, j + 5));
                assert(j + 6 <= b.len() ==> t.subrange(i, i + 6) =~= b.subrange(j, j + 6));
            }
        }
    }
}

/// Escaped text holds no raw special character, whatever the text was: none of `<`, `>`
/// and `"`, and `&` only as the first character of an entity.
pub proof fn lemma_escaped_is_safe(s: Seq<char>)
    ensures
        is_safe(escaped(s)),
    decreases s.len(),
{
    if s.len() > 0 {
        lemma_escaped_is_safe(s.drop_last());
        lemma_escape_char_is_safe(s.last());
        lemma_safe_concat(escaped(s.drop_last()), escape_char(s.last()));
    }
}

/// Text without special characters is escaped to itself.
pub proof fn lemma_escaped_plain(s: Seq<char>)
    requires
        forall|i: int| 0 <= i < s.len() ==> !is_special(#[trigger] s[i]),
    ensures
        escaped(s) == s,
    decreases s.len(),
{
    if s.len() > 0 {
        lemma_escaped_plain(s.drop_last());
        assert(escaped(s) =~= s.drop_last() + seq![s.last()]);
        assert(s.drop_last() + seq![s.last()] =~= s);
    } else {
        assert(escaped(s) =~= s);
    }
}

/// The escaped form of two texts joined is their escaped forms joined.
pub proof fn lemma_escaped_concat(a: Seq<char>, b: Seq<char>)
    ensures
        escaped(a + b) == escaped(a) + escaped(b),
    decreases b.len(),
{
    if b.len() == 0 {
        assert(a + b =~= a);
        assert(escaped(a) + escaped(b) =~= escaped(a));
    } else {
        lemma_escaped_concat(a, b.drop_last());
        assert((a + b).drop_last() =~= a + b.drop_last());
        assert((a + b).last() == b.last());
        assert(escaped(a + b) =~= escaped(a) + escaped(b));
    }
}

} // verus!
