//! The canonical string of a parameter set and the signature over it.
use vstd::prelude::*;
use vstd::string::*;
use vstd::utf8::encode_utf8;
use crate::digest::{digest_hex, digest_text};
use crate::params::{Pair, ParameterSet, lemma_sorted_pairs_unique};

verus! {

/// The name under which the secret key enters the canonical string.
pub open spec fn key_name() -> Seq<char> {
    seq!['a', 'p', 'p', '_', 'k', 'e', 'y']
}

/// Each parameter as `name=value`, each followed by `&`, in the order of the
/// sequence.
pub open spec fn joined(s: Seq<Pair>) -> Seq<char>
    decreases s.len(),
{
    if s.len() == 0 {
        Seq::empty()
    } else {
        joined(s.drop_last()) + s.last().0 + seq!['='] + s.last().1 + seq!['&']
    }
}

/// The string that is signed: the parameters in the order of their names as
/// `name=value`, then `app_key=` with the secret key, all joined by `&`.
pub open spec fn canonical_text(s: Seq<Pair>, secret: Seq<char>) -> Seq<char> {
    joined(s) + key_name() + seq!['='] + secret
}

/// The signature: the upper-case hexadecimal MD5 digest of the canonical
/// string's UTF-8 bytes.
pub open spec fn signature_text(s: Seq<Pair>, secret: Seq<char>) -> Seq<char> {
    digest_text(encode_utf8(canonical_text(s, secret)))
}

/// Builds the canonical string of `params` under the key `secret`.
pub fn canonical_string(params: &ParameterSet, secret: &str) -> (r: String)
    ensures
        r@ == canonical_text(params@, secret@),
{
    let mut out = String::new();
    let n = params.len();
    let mut i: usize = 0;
    proof {
        reveal_strlit("=");
        reveal_strlit("&");
        assert(params@.take(0) =~= Seq::<Pair>::empty());
    }
    while i < n
        invariant
            i <= n,
            n == params@.len(),
            out@ == joined(params@.take(i as int)),
            "="@ == seq!['='],
            "&"@ == seq!['&'],
        decreases n - i,
    {
        proof {
            let next = params@.take(i + 1);
            assert(next.drop_last() =~= params@.take(i as int));
            assert(next.last() == params@[i as int]);
        }
        match params.entry_at(i) {
            Some((name, value)) => {
                out.append(name);
                out.append("=");
                out.append(value);
                out.append("&");
            },
            None => {},
        }
        i += 1;
    }
    proof {
        reveal_strlit("app_key=");
        assert(params@.take(n as int) =~= params@);
        assert("app_key="@ =~= key_name() + seq!['=']);
        assert(out@ + "app_key="@ + secret@ =~= canonical_text(params@, secret@));
    }
    out.append("app_key=");
    out.append(secret);
    out
}

/// The signature of `params` under the key `secret`.
pub fn sign(params: &ParameterSet, secret: &str) -> (r: String)
    ensures
        r@ == signature_text(params@, secret@),
        r@.len() == 32,
{
    let text = canonical_string(params, secret);
    digest_hex(text.as_str().as_bytes())
}

/// The signature is a function of the parameters and the key alone: calls on
/// the same parameters with the same key return the same text.
pub proof fn lemma_signature_deterministic(
    a: ParameterSet,
    b: ParameterSet,
    secret_a: Seq<char>,
    secret_b: Seq<char>,
)
    requires
        a@ == b@,
        secret_a == secret_b,
    ensures
        canonical_text(a@, secret_a) == canonical_text(b@, secret_b),
        signature_text(a@, secret_a) == signature_text(b@, secret_b),
{
}

/// The order in which parameters were inserted does not enter the signature:
/// two sets that hold the same values under the same names have the same
/// canonical string and the same signature.
pub proof fn lemma_signature_ignores_insertion_order(
    a: ParameterSet,
    b: ParameterSet,
    secret: Seq<char>,
)
    requires
        a.wf(),
        b.wf(),
        a.as_map() == b.as_map(),
    ensures
        canonical_text(a@, secret) == canonical_text(b@, secret),
        signature_text(a@, secret) == signature_text(b@, secret),
{
    lemma_sorted_pairs_unique(a@, b@);
}

} // verus!
