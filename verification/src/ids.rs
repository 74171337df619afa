//! Random identifiers and suffixes.

use vstd::prelude::*;
use rand::Rng;

verus! {

/// A fresh random (version 4) UUID, as its 128-bit value
/// (`uuid::Uuid::new_v4().as_u128()`). Nothing is promised of the value
/// beyond its type: it is drawn at random.
#[verifier::external_body]
pub(crate) fn new_uid() -> u128 {
    uuid::Uuid::new_v4().as_u128()
}

/// Whether `c` is a lowercase ASCII letter or an ASCII digit.
pub open spec fn is_lower_alnum(c: char) -> bool {
    ('a' <= c && c <= 'z') || ('0' <= c && c <= '9')
}

/// Whether `c` is an ASCII letter or an ASCII digit.
pub open spec fn is_alnum(c: char) -> bool {
    ('a' <= c && c <= 'z') || ('A' <= c && c <= 'Z') || ('0' <= c && c <= '9')
}

/// `len` random characters drawn from `rand::distributions::Alphanumeric`
/// (ASCII letters of either case and digits) with the thread-local
/// generator. The value is random; the contract states only its length and
/// alphabet, which hold of every outcome.
#[verifier::external_body]
fn random_alphanumeric(len: usize) -> (s: String)
    ensures
        s@.len() == len,
        forall|i: int| 0 <= i < len ==> is_alnum(#[trigger] s@[i]),
{
    rand::thread_rng().sample_iter(rand::distributions::Alphanumeric).take(len).map(char::from).collect::<String>()
}

/// Five random alphanumeric characters, lowercased.
pub(crate) fn random_suffix() -> (s: String)
    ensures
        s@.len() == 5,
        forall|i: int| 0 <= i < 5 ==> is_lower_alnum(#[trigger] s@[i]),
{
    let drawn = random_alphanumeric(5);
    let chars = crate::text::chars_of(drawn.as_str());
    let mut s = String::new();
    let mut i: usize = 0;
    while i < chars.len()
        invariant
            i <= chars@.len(),
            chars@ == drawn@,
            drawn@.len() == 5,
            forall|k: int| 0 <= k < 5 ==> is_alnum(#[trigger] drawn@[k]),
            s@.len() == i,
            forall|k: int| 0 <= k < i ==> is_lower_alnum(#[trigger] s@[k]),
        decreases chars.len() - i,
    {
        let c = crate::text::lower_char(chars[i]);
        assert(is_alnum(drawn@[i as int]));
        proof {
            let d = drawn@[i as int];
            if 'A' <= d && d <= 'Z' {
                assert(c == ((d as u32) + 32) as char);
                assert(0x61 <= (d as u32) + 32 <= 0x7a);
            }
        }
        crate::text::push_char(&mut s, c);
        i = i + 1;
    }
    s
}

/// A random octet (`rand::Rng::gen::<u8>` with the thread-local generator).
#[verifier::external_body]
pub(crate) fn random_u8() -> u8 {
    rand::thread_rng().gen::<u8>()
}

/// A random integer in `lo..hi` (`rand::Rng::gen_range` with the thread-local
/// generator), for `lo < hi`.
#[verifier::external_body]
pub(crate) fn random_in_range(lo: u8, hi: u8) -> (r: u8)
    requires
        lo < hi,
    ensures
        lo <= r < hi,
{
    rand::thread_rng().gen_range(lo..hi)
}

} // verus!
