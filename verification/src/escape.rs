//! Percent-escaping of the three base64 characters that a form field cannot
//! carry unescaped.
use vstd::prelude::*;
use vstd::string::*;
use crate::text::chars_of;

verus! {

/// What stands for one character in the escaped text: `=`, `+` and `/` become
/// `%3D`, `%2B` and `%2F`, every other character stands for itself.
pub open spec fn escape_of(c: char) -> Seq<char> {
    if c == '=' {
        seq!['%', '3', 'D']
    } else if c == '+' {
        seq!['%', '2', 'B']
    } else if c == '/' {
        seq!['%', '2', 'F']
    } else {
        seq![c]
    }
}

/// The escaped text: the escapes of the characters, one after another.
pub open spec fn escaped(s: Seq<char>) -> Seq<char>
    decreases s.len(),
{
    if s.len() == 0 {
        Seq::empty()
    } else {
        escape_of(s[0]) + escaped(s.drop_first())
    }
}

/// The character that the escape at the start of `t` stands for, if `t`
/// starts with one of the three escapes.
pub open spec fn escape_at_start(t: Seq<char>) -> Option<char> {
    if t.len() >= 3 && t[0] == '%' && t[1] == '3' && t[2] == 'D' {
        Some('=')
    } else if t.len() >= 3 && t[0] == '%' && t[1] == '2' && t[2] == 'B' {
        Some('+')
    } else if t.len() >= 3 && t[0] == '%' && t[1] == '2' && t[2] == 'F' {
        Some('/')
    } else {
        None
    }
}

/// The text with each of the three escapes, read from the left, replaced by
/// the character that it stands for.
pub open spec fn unescaped(t: Seq<char>) -> Seq<char>
    decreases t.len(),
{
    if t.len() == 0 {
        Seq::empty()
    } else {
        match escape_at_start(t) {
            Some(c) => seq![c] + unescaped(t.skip(3)),
            None => seq![t[0]] + unescaped(t.drop_first()),
        }
    }
}

/// None of the three escapes occurs in `s`.
pub open spec fn escape_free(s: Seq<char>) -> bool {
    forall|i: int| 0 <= i <= s.len() ==> escape_at_start(#[trigger] s.skip(i)) is None
}

/// No character of the escaped text is `=`, `+` or `/`.
pub open spec fn field_safe(t: Seq<char>) -> bool {
    forall|i: int| 0 <= i < t.len() ==> #[trigger] t[i] != '=' && t[i] != '+' && t[i] != '/'
}

/// No character of the text is `%`.
pub open spec fn percent_free(s: Seq<char>) -> bool {
    forall|i: int| 0 <= i < s.len() ==> #[trigger] s[i] != '%'
}

/// Every `%` of the text begins one of the three escapes.
pub open spec fn percent_marks_escape(t: Seq<char>) -> bool {
    forall|i: int| 0 <= i < t.len() && #[trigger] t[i] == '%' ==> escape_at_start(t.skip(i)) is Some
}

/// The escaped text of a concatenation is the concatenation of the escaped
/// texts.
pub proof fn lemma_escaped_concat(a: Seq<char>, b: Seq<char>)
    ensures
        escaped(a + b) == escaped(a) + escaped(b),
    decreases a.len(),
{
    if a.len() == 0 {
        assert(a + b =~= b);
        assert(escaped(a) + escaped(b) =~= escaped(b));
    } else {
        assert((a + b).drop_first() =~= a.drop_first() + b);
        lemma_escaped_concat(a.drop_first(), b);
        assert(escaped(a + b) =~= escaped(a) + escaped(b));
    }
}

/// The escaped text carries none of the three characters.
pub proof fn lemma_escaped_field_safe(s: Seq<char>)
    ensures
        field_safe(escaped(s)),
    decreases s.len(),
{
    if s.len() > 0 {
        lemma_escaped_field_safe(s.drop_first());
        let head = escape_of(s[0]);
        let tail = escaped(s.drop_first());
        assert forall|i: int| 0 <= i < escaped(s).len() implies #[trigger] escaped(s)[i] != '='
            && escaped(s)[i] != '+' && escaped(s)[i] != '/' by {
            if i >= head.len() {
                assert(escaped(s)[i] == tail[i - head.len()]);
            }
        }
    }
}

/// In the escaped text of a text without `%`, every `%` begins an escape.
pub proof fn lemma_escaped_marks(s: Seq<char>)
    requires
        percent_free(s),
    ensures
        percent_marks_escape(escaped(s)),
    decreases s.len(),
{
    if s.len() > 0 {
        let rest = s.drop_first();
        assert(percent_free(rest)) by {
            assert forall|i: int| 0 <= i < rest.len() implies #[trigger] rest[i] != '%' by {
                assert(rest[i] == s[i + 1]);
            }
        }
        lemma_escaped_marks(rest);
        let head = escape_of(s[0]);
        let tail = escaped(rest);
        let t = escaped(s);
        assert(s[0] != '%');
        assert forall|i: int| 0 <= i < t.len() && #[trigger] t[i] == '%' implies escape_at_start(
            t.skip(i),
        ) is Some by {
            if i < head.len() {
                assert(i == 0);
                assert(t.skip(0) =~= t);
                assert(t[0] == head[0] && t[1] == head[1] && t[2] == head[2]);
            } else {
                assert(t[i] == tail[i - head.len()]);
                assert(t.skip(i) =~= tail.skip(i - head.len()));
            }
        }
    }
}

/// A text without `%` holds none of the three escapes.
pub proof fn lemma_percent_free_escape_free(s: Seq<char>)
    requires
        percent_free(s),
    ensures
        escape_free(s),
{
    assert forall|i: int| 0 <= i <= s.len() implies escape_at_start(#[trigger] s.skip(i))
        is None by {
        if s.skip(i).len() >= 3 {
            assert(s.skip(i)[0] == s[i]);
        }
    }
}

/// Unescaping the escaped text gives the text back, for every text in which
/// none of the three escapes occurs.
pub proof fn lemma_escape_round_trip(s: Seq<char>)
    requires
        escape_free(s),
    ensures
        unescaped(escaped(s)) == s,
    decreases s.len(),
{
    if s.len() > 0 {
        let rest = s.drop_first();
        let t = escaped(s);
        let tail = escaped(rest);
        assert(escape_free(rest)) by {
            assert forall|i: int| 0 <= i <= rest.len() implies escape_at_start(
                #[trigger] rest.skip(i),
            ) is None by {
                assert(rest.skip(i) =~= s.skip(i + 1));
            }
        }
        lemma_escape_round_trip(rest);
        let c = s[0];
        if c == '=' || c == '+' || c == '/' {
            assert(escape_at_start(t) == Some(c));
            assert(t.skip(3) =~= tail);
            assert(s =~= seq![c] + rest);
        } else {
            assert(t.drop_first() =~= tail);
            assert(t[0] == c);
            assert(escape_at_start(t) is None) by {
                if c == '%' && t.len() >= 3 {
                    assert(s.skip(0) =~= s);
                    assert(escape_at_start(s) is None);
                    // What follows `%` in the escaped text is what follows it
                    // in the text, unless an escape begins there.
                    assert(rest.len() > 0);
                    let d = rest[0];
                    let rest2 = rest.drop_first();
                    if d == '3' || d == '2' {
                        assert(tail =~= seq![d] + escaped(rest2));
                        assert(t[1] == d);
                        assert(rest2.len() > 0);
                        let e = rest2[0];
                        assert(escaped(rest2) =~= escape_of(e) + escaped(rest2.drop_first()));
                        assert(t[2] == escape_of(e)[0]);
                        assert(s[1] == d && s[2] == e);
                    } else {
                        assert(t[1] == escape_of(d)[0]);
                    }
                }
            }
            assert(s =~= seq![c] + rest);
        }
    }
}

/// Escapes `=`, `+` and `/` in `text`.
pub fn percent_escape(text: &str) -> (r: String)
    ensures
        r@ == escaped(text@),
        field_safe(r@),
        percent_free(text@) ==> percent_marks_escape(r@) && unescaped(r@) == text@,
{
    let chars = chars_of(text);
    let mut out = String::new();
    let mut i: usize = 0;
    proof {
        assert(chars@.take(0) =~= Seq::<char>::empty());
    }
    while i < chars.len()
        invariant
            i <= chars@.len(),
            out@ == escaped(chars@.take(i as int)),
        decreases chars.len() - i,
    {
        let c = chars[i];
        proof {
            lemma_escaped_concat(chars@.take(i as int), seq![c]);
            assert(chars@.take(i + 1) =~= chars@.take(i as int) + seq![c]);
            assert(seq![c].drop_first() =~= Seq::<char>::empty());
            assert(escaped(Seq::<char>::empty()) =~= Seq::<char>::empty());
            assert(seq![c][0] == c);
            assert(escaped(seq![c]) =~= escape_of(c));
        }
        if c == '=' {
            out.push('%');
            out.push('3');
            out.push('D');
        } else if c == '+' {
            out.push('%');
            out.push('2');
            out.push('B');
        } else if c == '/' {
            out.push('%');
            out.push('2');
            out.push('F');
        } else {
            out.push(c);
        }
        proof {
            assert(out@ =~= escaped(chars@.take(i as int)) + escape_of(c));
        }
        i += 1;
    }
    proof {
        assert(chars@.take(i as int) =~= text@);
        lemma_escaped_field_safe(text@);
        if percent_free(text@) {
            lemma_escaped_marks(text@);
            lemma_percent_free_escape_free(text@);
            lemma_escape_round_trip(text@);
        }
    }
    out
}

/// Replaces the escapes `%3D`, `%2B` and `%2F` in `text` by `=`, `+` and `/`.
pub fn percent_unescape(text: &str) -> (r: String)
    ensures
        r@ == unescaped(text@),
{
    let chars = chars_of(text);
    let n = chars.len();
    let mut out = String::new();
    let mut i: usize = 0;
    proof {
        assert(chars@.skip(0) =~= chars@);
    }
    while i < n
        invariant
            i <= n,
            n == chars@.len(),
            out@ + unescaped(chars@.skip(i as int)) == unescaped(chars@),
        decreases n - i,
    {
        let ghost rest = chars@.skip(i as int);
        let c = chars[i];
        proof {
            assert(rest[0] == c);
            assert(rest.drop_first() =~= chars@.skip(i + 1));
            if i + 2 < n {
                assert(rest[1] == chars@[i + 1]);
                assert(rest[2] == chars@[i + 2]);
                assert(rest.skip(3) =~= chars@.skip(i + 3));
            }
        }
        if c == '%' && n - i >= 3 && chars[i + 1] == '3' && chars[i + 2] == 'D' {
            proof {
                assert(out@.push('=') + unescaped(rest.skip(3)) =~= out@ + unescaped(rest));
            }
            out.push('=');
            i += 3;
        } else if c == '%' && n - i >= 3 && chars[i + 1] == '2' && chars[i + 2] == 'B' {
            proof {
                assert(out@.push('+') + unescaped(rest.skip(3)) =~= out@ + unescaped(rest));
            }
            out.push('+');
            i += 3;
        } else if c == '%' && n - i >= 3 && chars[i + 1] == '2' && chars[i + 2] == 'F' {
            proof {
                assert(out@.push('/') + unescaped(rest.skip(3)) =~= out@ + unescaped(rest));
            }
            out.push('/');
            i += 3;
        } else {
            proof {
                assert(escape_at_start(rest) is None);
                assert(out@.push(c) + unescaped(rest.drop_first()) =~= out@ + unescaped(rest));
            }
            out.push(c);
            i += 1;
        }
    }
    proof {
        assert(out@ + unescaped(chars@.skip(i as int)) =~= out@);
    }
    out
}

} // verus!
