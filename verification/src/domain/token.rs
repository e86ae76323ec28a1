//! The bearer token and the request body handed to the token exchange.

use vstd::prelude::*;
use vstd::utf8::{decode_utf8, encode_utf8, encode_utf8_decode_utf8, encode_utf8_valid_utf8, valid_utf8};

use crate::domain::text::{
    all_white_space, has_prefix, is_trimmed, lemma_trim_ignores_surrounding_white_space,
    lemma_trim_is_trimmed, lemma_trim_of_trimmed, skip_chars, trim, trim_str,
};

verus! {

/// The scheme word that an authorization value may start with.
pub open spec fn bearer_prefix() -> Seq<char> {
    seq!['B', 'e', 'a', 'r', 'e', 'r', ' ']
}

/// What a raw token becomes: trimmed, then without a leading `Bearer `,
/// then trimmed again.
pub open spec fn clean_token(raw: Seq<char>) -> Seq<char> {
    let t = trim(raw);
    if bearer_prefix().is_prefix_of(t) {
        trim(t.skip(7))
    } else {
        t
    }
}

/// A bearer token, as pasted by the user, in its cleaned form.
#[derive(Clone, Debug)]
pub struct BearerToken(String);

impl View for BearerToken {
    type V = Seq<char>;

    closed spec fn view(&self) -> Seq<char> {
        self.0@
    }
}

impl BearerToken {
    /// Trims whitespace and removes an optional `Bearer ` prefix (and the
    /// whitespace after it).
    pub fn new(value: String) -> (res: Self)
        ensures
            res@ == clean_token(value@),
    {
        let trimmed = trim_str(value.as_str());
        let prefix = "Bearer ";
        proof {
            reveal_strlit("Bearer ");
            assert(prefix@ =~= bearer_prefix());
        }
        let cleaned = if has_prefix(trimmed, prefix) {
            trim_str(skip_chars(trimmed, 7))
        } else {
            trimmed
        };
        BearerToken(String::from_str(cleaned))
    }

    /// The cleaned token text.
    pub fn as_str(&self) -> (res: &str)
        ensures
            res@ == self@,
    {
        self.0.as_str()
    }
}

/// The request body, as the UTF-8 bytes of the text the user entered.
#[derive(Clone, Debug)]
pub struct RequestBody(Vec<u8>);

impl View for RequestBody {
    type V = Seq<u8>;

    closed spec fn view(&self) -> Seq<u8> {
        self.0@
    }
}

impl RequestBody {
    /// The body whose bytes are the UTF-8 encoding of `value`.
    pub fn from_string(value: String) -> (res: Self)
        ensures
            res@ == encode_utf8(value@),
    {
        RequestBody(value.as_str().as_bytes_vec())
    }

    /// The body's bytes.
    pub fn as_bytes(&self) -> (res: &[u8])
        ensures
            res@ == self@,
    {
        self.0.as_slice()
    }
}

/// A cleaned token has no leading or trailing whitespace.
pub proof fn lemma_clean_token_is_trimmed(raw: Seq<char>)
    ensures
        is_trimmed(clean_token(raw)),
{
    let t = trim(raw);
    lemma_trim_is_trimmed(raw);
    if bearer_prefix().is_prefix_of(t) {
        lemma_trim_is_trimmed(t.skip(7));
    }
}

/// The body's bytes are valid UTF-8 and decode to the text it was made from.
pub proof fn lemma_body_decodes_to_text(text: Seq<char>)
    ensures
        valid_utf8(encode_utf8(text)),
        decode_utf8(encode_utf8(text)) == text,
{
    encode_utf8_valid_utf8(text);
    encode_utf8_decode_utf8(text);
}

/// Whitespace around the pasted value does not change the token.
pub proof fn lemma_clean_token_ignores_surrounding_white_space(
    a: Seq<char>,
    raw: Seq<char>,
    b: Seq<char>,
)
    requires
        all_white_space(a),
        all_white_space(b),
    ensures
        clean_token(a + raw + b) == clean_token(raw),
{
    lemma_trim_ignores_surrounding_white_space(a, raw, b);
}

/// The `Bearer ` scheme is optional: a token pasted with it, with any
/// whitespace around and after the scheme, is the same token as the bare
/// one.  This holds of every bare token that is not empty and does not
/// itself begin with `Bearer `.
pub proof fn lemma_bearer_prefix_is_optional(
    a: Seq<char>,
    w: Seq<char>,
    t: Seq<char>,
    b: Seq<char>,
)
    requires
        all_white_space(a),
        all_white_space(w),
        all_white_space(b),
        t.len() > 0,
        is_trimmed(t),
        !bearer_prefix().is_prefix_of(t),
    ensures
        clean_token(a + bearer_prefix() + w + t + b) == t,
        clean_token(a + t + b) == t,
{
    let p = bearer_prefix();
    let x = p + w + t;
    assert(a + p + w + t + b =~= a + x + b);
    lemma_clean_token_ignores_surrounding_white_space(a, x, b);
    lemma_clean_token_ignores_surrounding_white_space(a, t, b);
    assert(x[0] == 'B');
    assert(x.last() == t.last());
    assert(trim(x) == x);
    assert(p =~= x.subrange(0, 7));
    assert(x.skip(7) =~= w + t);
    assert(w + t + Seq::<char>::empty() =~= w + t);
    lemma_trim_ignores_surrounding_white_space(w, t, Seq::<char>::empty());
    lemma_trim_of_trimmed(t);
}

/// Cleaning a cleaned token again gives the same token, unless the cleaned
/// token itself begins with `Bearer `.
pub proof fn lemma_clean_token_stable(raw: Seq<char>)
    requires
        !bearer_prefix().is_prefix_of(clean_token(raw)),
    ensures
        clean_token(clean_token(raw)) == clean_token(raw),
{
    lemma_clean_token_is_trimmed(raw);
    lemma_trim_of_trimmed(clean_token(raw));
}

} // verus!
