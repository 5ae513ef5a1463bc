//! The parameters of a request and the signed form that is submitted.
use vstd::prelude::*;
use vstd::string::*;
use vstd::utf8::{encode_utf8, is_ascii_chars, is_ascii_chars_encode_utf8};
use crate::escape::{percent_unescape, unescaped};
use crate::order::{lemma_name_transitive, name_lt};
use crate::params::{
    lemma_insert_at, lemma_sorted_pairs_unique, pairs_to_map, sorted_by_name, Pair, ParameterSet,
};
use crate::sign::{sign, signature_text};
use crate::text::{decimal, decimal_string, signed_decimal, signed_decimal_string};

verus! {

/// The name of the application identifier.
pub open spec fn name_app_id() -> Seq<char> {
    seq!['a', 'p', 'p', '_', 'i', 'd']
}

/// The name of the image payload.
pub open spec fn name_image() -> Seq<char> {
    seq!['i', 'm', 'a', 'g', 'e']
}

/// The name of the nonce.
pub open spec fn name_nonce_str() -> Seq<char> {
    seq!['n', 'o', 'n', 'c', 'e', '_', 's', 't', 'r']
}

/// The name of the time stamp.
pub open spec fn name_time_stamp() -> Seq<char> {
    seq!['t', 'i', 'm', 'e', '_', 's', 't', 'a', 'm', 'p']
}

/// The four parameters of a request, in the order of their names.
pub open spec fn request_pairs(
    app_id: Seq<char>,
    time_stamp: Seq<char>,
    nonce: Seq<char>,
    image: Seq<char>,
) -> Seq<Pair> {
    seq![
        (name_app_id(), app_id),
        (name_image(), image),
        (name_nonce_str(), nonce),
        (name_time_stamp(), time_stamp),
    ]
}

/// The mapping of the four parameters of a request.
pub open spec fn request_map(
    app_id: Seq<char>,
    time_stamp: Seq<char>,
    nonce: Seq<char>,
    image: Seq<char>,
) -> Map<Seq<char>, Seq<char>> {
    Map::<Seq<char>, Seq<char>>::empty().insert(name_app_id(), app_id).insert(
        name_time_stamp(),
        time_stamp,
    ).insert(name_nonce_str(), nonce).insert(name_image(), image)
}

proof fn lemma_first_byte_decides(a: Seq<char>, b: Seq<char>)
    requires
        is_ascii_chars(a),
        is_ascii_chars(b),
        a.len() > 0,
        b.len() > 0,
        (a[0] as u8) < (b[0] as u8),
    ensures
        name_lt(a, b),
{
    is_ascii_chars_encode_utf8(a);
    is_ascii_chars_encode_utf8(b);
    assert(encode_utf8(a)[0] == a[0] as u8);
    assert(encode_utf8(b)[0] == b[0] as u8);
}

/// The four names stand in this order: `app_id`, `image`, `nonce_str`,
/// `time_stamp`.
pub proof fn lemma_request_names_ordered()
    ensures
        name_lt(name_app_id(), name_image()),
        name_lt(name_image(), name_nonce_str()),
        name_lt(name_nonce_str(), name_time_stamp()),
        name_lt(name_app_id(), name_nonce_str()),
        name_lt(name_app_id(), name_time_stamp()),
        name_lt(name_image(), name_time_stamp()),
{
    lemma_first_byte_decides(name_app_id(), name_image());
    lemma_first_byte_decides(name_image(), name_nonce_str());
    lemma_first_byte_decides(name_nonce_str(), name_time_stamp());
    lemma_name_transitive(name_app_id(), name_image(), name_nonce_str());
    lemma_name_transitive(name_app_id(), name_nonce_str(), name_time_stamp());
    lemma_name_transitive(name_image(), name_nonce_str(), name_time_stamp());
}

/// The four parameters in the order of their names are sorted, and describe
/// the mapping of the four.
pub proof fn lemma_request_pairs(
    app_id: Seq<char>,
    time_stamp: Seq<char>,
    nonce: Seq<char>,
    image: Seq<char>,
)
    ensures
        sorted_by_name(request_pairs(app_id, time_stamp, nonce, image)),
        pairs_to_map(request_pairs(app_id, time_stamp, nonce, image)) == request_map(
            app_id,
            time_stamp,
            nonce,
            image,
        ),
{
    lemma_request_names_ordered();
    let s0 = Seq::<Pair>::empty();
    let s1 = s0.insert(0, (name_app_id(), app_id));
    let s2 = s1.insert(1, (name_time_stamp(), time_stamp));
    let s3 = s2.insert(1, (name_nonce_str(), nonce));
    let s4 = s3.insert(1, (name_image(), image));
    assert(pairs_to_map(s0) =~= Map::<Seq<char>, Seq<char>>::empty());
    lemma_insert_at(s0, 0, name_app_id(), app_id);
    assert(s1 =~= seq![(name_app_id(), app_id)]);
    lemma_insert_at(s1, 1, name_time_stamp(), time_stamp);
    assert(s2 =~= seq![(name_app_id(), app_id), (name_time_stamp(), time_stamp)]);
    lemma_insert_at(s2, 1, name_nonce_str(), nonce);
    assert(s3 =~= seq![
        (name_app_id(), app_id),
        (name_nonce_str(), nonce),
        (name_time_stamp(), time_stamp),
    ]);
    lemma_insert_at(s3, 1, name_image(), image);
    assert(s4 =~= request_pairs(app_id, time_stamp, nonce, image));
}

/// The form that is submitted to the service: the four parameters and the
/// signature over them. The image is carried as its payload text.
#[derive(Debug, PartialEq, Eq)]
pub struct SignedRequestForm {
    pub app_id: String,
    pub time_stamp: String,
    pub nonce_str: String,
    pub image: String,
    pub sign: String,
}

impl SignedRequestForm {
    /// The four parameters of the form, in the order of their names.
    pub open spec fn pairs(&self) -> Seq<Pair> {
        request_pairs(self.app_id@, self.time_stamp@, self.nonce_str@, self.image@)
    }

    /// The signature of the form is the signature of its four parameters
    /// under the key `secret`.
    pub open spec fn signed_with(&self, secret: Seq<char>) -> bool {
        self.sign@ == signature_text(self.pairs(), secret)
    }
}

/// The form as a transport takes it that escapes each field itself as it
/// writes the request: the image is carried as base64 text.
#[derive(Debug)]
pub struct WireForm {
    pub app_id: String,
    pub time_stamp: String,
    pub nonce_str: String,
    pub image: String,
    pub sign: String,
}

/// The form for a transport that escapes each field itself: the image's
/// payload text is unescaped, every other field is kept.
pub fn wire_form(form: SignedRequestForm) -> (r: WireForm)
    ensures
        r.app_id@ == form.app_id@,
        r.time_stamp@ == form.time_stamp@,
        r.nonce_str@ == form.nonce_str@,
        r.image@ == unescaped(form.image@),
        r.sign@ == form.sign@,
{
    let image = percent_unescape(form.image.as_str());
    WireForm {
        app_id: form.app_id,
        time_stamp: form.time_stamp,
        nonce_str: form.nonce_str,
        image,
        sign: form.sign,
    }
}

/// The four parameters of a request as a set.
pub fn request_parameters(app_id: u64, time_stamp: i64, nonce: &str, image: &str) -> (r:
    ParameterSet)
    ensures
        r.wf(),
        r@ == request_pairs(
            decimal(app_id as nat),
            signed_decimal(time_stamp as int),
            nonce@,
            image@,
        ),
        r.as_map() == request_map(
            decimal(app_id as nat),
            signed_decimal(time_stamp as int),
            nonce@,
            image@,
        ),
{
    let mut params = ParameterSet::new();
    proof {
        reveal_strlit("app_id");
        reveal_strlit("time_stamp");
        reveal_strlit("nonce_str");
        reveal_strlit("image");
        assert("app_id"@ =~= name_app_id());
        assert("time_stamp"@ =~= name_time_stamp());
        assert("nonce_str"@ =~= name_nonce_str());
        assert("image"@ =~= name_image());
    }
    params.insert("app_id".to_owned(), decimal_string(app_id));
    params.insert("time_stamp".to_owned(), signed_decimal_string(time_stamp));
    params.insert("nonce_str".to_owned(), nonce.to_owned());
    params.insert("image".to_owned(), image.to_owned());
    proof {
        let a = decimal(app_id as nat);
        let t = signed_decimal(time_stamp as int);
        lemma_request_pairs(a, t, nonce@, image@);
        lemma_sorted_pairs_unique(params@, request_pairs(a, t, nonce@, image@));
    }
    params
}

/// Signs the four parameters of a request with the key `secret`.
pub fn signed_form(app_id: u64, secret: &str, time_stamp: i64, nonce: &str, image: &str) -> (r:
    SignedRequestForm)
    ensures
        r.app_id@ == decimal(app_id as nat),
        r.time_stamp@ == signed_decimal(time_stamp as int),
        r.nonce_str@ == nonce@,
        r.image@ == image@,
        r.signed_with(secret@),
        r.sign@.len() == 32,
{
    let params = request_parameters(app_id, time_stamp, nonce, image);
    let signature = sign(&params, secret);
    SignedRequestForm {
        app_id: decimal_string(app_id),
        time_stamp: signed_decimal_string(time_stamp),
        nonce_str: nonce.to_owned(),
        image: image.to_owned(),
        sign: signature,
    }
}

} // verus!
