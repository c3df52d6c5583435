//! Fresh identifiers: session ids from the xid generator and random
//! alphanumeric tokens.  The generator calls are trusted; everything built
//! on top of them is verified.

use rand::Rng;
use vstd::prelude::*;

verus! {

/// An ASCII letter or digit.
pub open spec fn is_alnum_char(c: char) -> bool {
    ('0' as int <= c as int && c as int <= '9' as int) || ('A' as int <= c as int && c as int
        <= 'Z' as int) || ('a' as int <= c as int && c as int <= 'z' as int)
}

/// A character of an xid string: base32hex, digits and `a` through `v`.
pub open spec fn is_xid_char(c: char) -> bool {
    ('0' as int <= c as int && c as int <= '9' as int) || ('a' as int <= c as int && c as int
        <= 'v' as int)
}

/// Relies on rand's `Alphanumeric` distribution: every sample is one byte
/// out of `0-9A-Za-z`.
#[verifier::external_body]
fn rand_alnum_byte() -> (r: u8)
    ensures
        is_alnum_char(r as char),
{
    rand::thread_rng().sample(rand::distributions::Alphanumeric)
}

/// Relies on `String::from_utf8`: ASCII bytes decode to the same characters,
/// one each.
#[verifier::external_body]
pub(crate) fn ascii_string(b: Vec<u8>) -> (r: String)
    requires
        forall|i: int| 0 <= i < b@.len() ==> b@[i] < 128,
    ensures
        r@ == b@.map_values(|x: u8| x as char),
{
    match String::from_utf8(b) {
        Ok(s) => s,
        Err(_) => String::new(),
    }
}

/// Relies on `xid::new` and the `Display` form of `xid::Id`: twenty
/// base32hex characters.
#[verifier::external_body]
pub fn fresh_xid() -> (r: String)
    ensures
        r@.len() == 20,
        forall|i: int| 0 <= i < r@.len() ==> is_xid_char(#[trigger] r@[i]),
{
    xid::new().to_string()
}

/// A fresh random token of `n` ASCII letters and digits.
pub fn random_token(n: usize) -> (r: String)
    ensures
        r@.len() == n,
        forall|i: int| 0 <= i < r@.len() ==> is_alnum_char(#[trigger] r@[i]),
{
    let mut b: Vec<u8> = Vec::new();
    let mut i: usize = 0;
    while i < n
        invariant
            0 <= i <= n,
            b@.len() == i,
            forall|k: int| 0 <= k < i ==> is_alnum_char(#[trigger] b@[k] as char) && b@[k] < 128,
        decreases n - i,
    {
        let x = rand_alnum_byte();
        proof {
            assert(x < 128);
        }
        b.push(x);
        i = i + 1;
    }
    let r = ascii_string(b);
    proof {
        assert(r@.len() == n);
    }
    r
}

} // verus!
