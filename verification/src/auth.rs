//! The shared-secret check on management calls.  A caller sends a
//! timestamp, a nonce of at least twenty characters, and
//! `sign = md5(command + timestamp + nonce + secret)` in hex; the server
//! recomputes the digest and compares, optionally also rejecting timestamps
//! far from its own clock.  Without a configured secret the check is off.

use vstd::prelude::*;

use vstd::string::StringSliceAdditionalSpecFns;
use vstd::utf8::encode_utf8;

use crate::entity::opt_str_view;

verus! {

// ---------------------------------------------------------------------------
// Digest and hex
// ---------------------------------------------------------------------------

/// The MD5 digest of a byte string.  What it is on given bytes is left
/// unstated; the trusted item below ties it to the real computation.
pub uninterp spec fn md5_of(data: Seq<u8>) -> Seq<u8>;

/// Relies on `md5::compute`: the digest depends on the bytes alone and is
/// sixteen bytes long.
#[verifier::external_body]
fn md5_digest(data: &Vec<u8>) -> (r: Vec<u8>)
    ensures
        r@ == md5_of(data@),
        r@.len() == 16,
{
    md5::compute(data.as_slice()).0.to_vec()
}

/// The lowercase hex character of one value below sixteen.
pub open spec fn hex_digit_char(d: u8) -> char {
    if d == 0 {
        '0'
    } else if d == 1 {
        '1'
    } else if d == 2 {
        '2'
    } else if d == 3 {
        '3'
    } else if d == 4 {
        '4'
    } else if d == 5 {
        '5'
    } else if d == 6 {
        '6'
    } else if d == 7 {
        '7'
    } else if d == 8 {
        '8'
    } else if d == 9 {
        '9'
    } else if d == 10 {
        'a'
    } else if d == 11 {
        'b'
    } else if d == 12 {
        'c'
    } else if d == 13 {
        'd'
    } else if d == 14 {
        'e'
    } else {
        'f'
    }
}

/// The lowercase hex text of a byte string, high nibble first.
pub open spec fn hex_seq(b: Seq<u8>) -> Seq<char> {
    Seq::new(
        b.len() * 2,
        |i: int|
            if i % 2 == 0 {
                hex_digit_char(b[i / 2] >> 4)
            } else {
                hex_digit_char(b[i / 2] & 0xf)
            },
    )
}

/// Relies on `hex::encode`: two lowercase hex digits per byte, high nibble
/// first.
#[verifier::external_body]
fn hex_of_bytes(b: &Vec<u8>) -> (r: String)
    ensures
        r@ == hex_seq(b@),
{
    hex::encode(b.as_slice())
}

// ---------------------------------------------------------------------------
// Timestamps
// ---------------------------------------------------------------------------

/// What an RFC 3339 timestamp reads as, in seconds since the epoch; `None`
/// where the text does not parse.  The parse depends on the text alone.
pub uninterp spec fn rfc3339_secs_of(s: Seq<char>) -> Option<i64>;

/// Relies on chrono's `DateTime::parse_from_rfc3339`, reduced to seconds
/// since the epoch.
#[verifier::external_body]
pub fn parse_rfc3339_secs(s: &str) -> (r: Option<i64>)
    ensures
        r == rfc3339_secs_of(s@),
{
    match chrono::DateTime::parse_from_rfc3339(s) {
        Ok(t) => Some(t.timestamp()),
        Err(_) => None,
    }
}

// ---------------------------------------------------------------------------
// The signature
// ---------------------------------------------------------------------------

/// The expected signature text: the hex of the digest of the four parts'
/// bytes, in order.
pub open spec fn sign_view(
    cmd: Seq<char>,
    times: Seq<char>,
    rands: Seq<char>,
    key: Seq<char>,
) -> Seq<char> {
    hex_seq(md5_of(encode_utf8(cmd) + encode_utf8(times) + encode_utf8(rands) + encode_utf8(key)))
}

/// Computes the signature of a command under a secret: the digest of
/// command, timestamp, nonce and secret concatenated.
pub fn sign_text(cmd: &str, times: &str, rands: &str, key: &str) -> (r: String)
    ensures
        r@ == sign_view(cmd@, times@, rands@, key@),
{
    let mut data = cmd.as_bytes_vec();
    let mut t = times.as_bytes_vec();
    let mut rd = rands.as_bytes_vec();
    let mut k = key.as_bytes_vec();
    data.append(&mut t);
    data.append(&mut rd);
    data.append(&mut k);
    let digest = md5_digest(&data);
    hex_of_bytes(&digest)
}

// ---------------------------------------------------------------------------
// The check
// ---------------------------------------------------------------------------

/// Why a management call was turned away.
#[derive(Clone, Copy, Debug, PartialEq, Eq, Structural)]
pub enum AuthError {
    /// No `times` argument.
    TimesMissing,
    /// No `random` argument.
    RandomMissing,
    /// No `sign` argument.
    SignMissing,
    /// An empty `times` or `sign`, or a `random` under twenty bytes.
    ParamsEmpty,
    /// `times` is not an RFC 3339 timestamp.
    TimesParse,
    /// `times` lies in the future (only with the clock check on).
    TimesFuture,
    /// `times` lies more than two minutes back (only with the clock check
    /// on).
    TimesOld,
    /// The recomputed signature differs.
    SignMismatch,
}

/// The outcome of the check: `None` passes the call.
pub open spec fn auth_view(
    key: Option<Seq<char>>,
    cmd: Seq<char>,
    times: Option<Seq<char>>,
    rands: Option<Seq<char>>,
    signs: Option<Seq<char>>,
    now_secs: int,
    time_check: bool,
) -> Option<AuthError> {
    match key {
        None => None,
        Some(k) => {
            if k.len() == 0 {
                None
            } else {
                match (times, rands, signs) {
                    (None, _, _) => Some(AuthError::TimesMissing),
                    (_, None, _) => Some(AuthError::RandomMissing),
                    (_, _, None) => Some(AuthError::SignMissing),
                    (Some(t), Some(rd), Some(sg)) => {
                        if t.len() == 0 || encode_utf8(rd).len() < 20 || sg.len() == 0 {
                            Some(AuthError::ParamsEmpty)
                        } else {
                            match rfc3339_secs_of(t) {
                                None => Some(AuthError::TimesParse),
                                Some(ts) => {
                                    if time_check && now_secs < ts {
                                        Some(AuthError::TimesFuture)
                                    } else if time_check && now_secs >= ts && now_secs - ts > 120 {
                                        Some(AuthError::TimesOld)
                                    } else if sign_view(cmd, t, rd, k) == sg {
                                        None
                                    } else {
                                        Some(AuthError::SignMismatch)
                                    }
                                },
                            }
                        }
                    },
                }
            }
        },
    }
}

/// Checks one management call against the configured secret.  With no
/// secret (or an empty one) every call passes.  Timestamp distance rejects
/// only when `time_check` is set; a timestamp that does not parse always
/// rejects.
pub fn authed(
    key: &Option<String>,
    cmd: &str,
    times: &Option<String>,
    rands: &Option<String>,
    signs: &Option<String>,
    now_secs: i64,
    time_check: bool,
) -> (r: Option<AuthError>)
    ensures
        r == auth_view(
            opt_str_view(*key),
            cmd@,
            opt_str_view(*times),
            opt_str_view(*rands),
            opt_str_view(*signs),
            now_secs as int,
            time_check,
        ),
{
    let k = match key {
        None => {
            return None;
        },
        Some(k) => k,
    };
    if k.as_str().is_empty() {
        return None;
    }
    let t = match times {
        None => {
            return Some(AuthError::TimesMissing);
        },
        Some(v) => v,
    };
    let rd = match rands {
        None => {
            return Some(AuthError::RandomMissing);
        },
        Some(v) => v,
    };
    let sg = match signs {
        None => {
            return Some(AuthError::SignMissing);
        },
        Some(v) => v,
    };
    let rd_str = rd.as_str();
    let rd_len = rd_str.as_bytes().len();
    proof {
        assert(rd_str.spec_bytes() == encode_utf8(rd@));
        assert(rd_len == encode_utf8(rd@).len());
    }
    if t.as_str().is_empty() || rd_len < 20 || sg.as_str().is_empty() {
        return Some(AuthError::ParamsEmpty);
    }
    let ts = match parse_rfc3339_secs(t.as_str()) {
        None => {
            return Some(AuthError::TimesParse);
        },
        Some(v) => v,
    };
    if time_check {
        if now_secs < ts {
            return Some(AuthError::TimesFuture);
        }
        if (now_secs as i128) - (ts as i128) > 120 {
            return Some(AuthError::TimesOld);
        }
    }
    let sign = sign_text(cmd, t.as_str(), rd.as_str(), k.as_str());
    if sign == *sg {
        None
    } else {
        Some(AuthError::SignMismatch)
    }
}

} // verus!
