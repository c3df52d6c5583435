//! Small text helpers shared by the engine: decimal formatting and parsing,
//! splitting on a separator character, duration formatting, and version
//! comparison.

use vstd::prelude::*;

verus! {

// ---------------------------------------------------------------------------
// Decimal digits
// ---------------------------------------------------------------------------

/// The character for one decimal digit.
pub open spec fn digit_char(d: int) -> char {
    if d == 0 {
        '0'
    } else if d == 1 {
        '1'
    } else if d == 2 {
        '2'
    } else if d == 3 {
        '3'
    } else if d == 4 {
        '4'
    } else if d == 5 {
        '5'
    } else if d == 6 {
        '6'
    } else if d == 7 {
        '7'
    } else if d == 8 {
        '8'
    } else {
        '9'
    }
}

/// The decimal notation of `n`, most significant digit first, no sign and no
/// leading zero (except for `n == 0` itself).
pub open spec fn dec_digits(n: nat) -> Seq<char>
    decreases n,
{
    if n < 10 {
        seq![digit_char(n as int)]
    } else {
        dec_digits(n / 10).push(digit_char((n % 10) as int))
    }
}

/// One decimal digit as a string slice.
fn digit_str(d: u64) -> (r: &'static str)
    requires
        d < 10,
    ensures
        r@ =~= seq![digit_char(d as int)],
{
    proof {
        reveal_strlit("0");
        reveal_strlit("1");
        reveal_strlit("2");
        reveal_strlit("3");
        reveal_strlit("4");
        reveal_strlit("5");
        reveal_strlit("6");
        reveal_strlit("7");
        reveal_strlit("8");
        reveal_strlit("9");
    }
    if d == 0 {
        "0"
    } else if d == 1 {
        "1"
    } else if d == 2 {
        "2"
    } else if d == 3 {
        "3"
    } else if d == 4 {
        "4"
    } else if d == 5 {
        "5"
    } else if d == 6 {
        "6"
    } else if d == 7 {
        "7"
    } else if d == 8 {
        "8"
    } else {
        "9"
    }
}

/// Formats `n` in decimal.
pub fn fmt_u64(n: u64) -> (r: String)
    ensures
        r@ == dec_digits(n as nat),
    decreases n,
{
    if n < 10 {
        digit_str(n).to_owned()
    } else {
        let mut s = fmt_u64(n / 10);
        s.append(digit_str(n % 10));
        s
    }
}

/// Ten to the `k`.
pub open spec fn pow10(k: nat) -> nat
    decreases k,
{
    if k == 0 {
        1
    } else {
        10 * pow10((k - 1) as nat)
    }
}

/// A value below ten to the `k` prints in at most `k` digits.
pub proof fn lemma_dec_digits_len(n: nat, k: nat)
    requires
        n < pow10(k),
        k >= 1,
    ensures
        dec_digits(n).len() <= k,
    decreases n,
{
    if n >= 10 {
        assert(pow10(k) == 10 * pow10((k - 1) as nat));
        assert(n / 10 < pow10((k - 1) as nat)) by (nonlinear_arith)
            requires
                n < 10 * pow10((k - 1) as nat),
                n >= 10,
        ;
        lemma_dec_digits_len(n / 10, (k - 1) as nat);
    }
}

/// A decimal rendering is never empty.
pub proof fn lemma_dec_digits_nonempty(n: nat)
    ensures
        dec_digits(n).len() >= 1,
{
}

/// Every character of a decimal rendering is a digit.
pub proof fn lemma_dec_digits_are_digits(n: nat)
    ensures
        forall|i: int| 0 <= i < dec_digits(n).len() ==> is_dec_digit(#[trigger] dec_digits(n)[i]),
    decreases n,
{
    if n < 10 {
    } else {
        lemma_dec_digits_are_digits(n / 10);
        assert(forall|i: int|
            0 <= i < dec_digits(n).len() - 1 ==> #[trigger] dec_digits(n)[i] == dec_digits(
                n / 10,
            )[i]);
    }
}

/// The decimal notation of a signed value.
pub open spec fn dec_digits_i32(n: int) -> Seq<char> {
    if n >= 0 {
        dec_digits(n as nat)
    } else {
        seq!['-'] + dec_digits((-n) as nat)
    }
}

/// Formats `n` in decimal, with a leading minus when negative.
pub fn fmt_i32(n: i32) -> (r: String)
    ensures
        r@ == dec_digits_i32(n as int),
{
    if n >= 0 {
        fmt_u64(n as u64)
    } else {
        proof {
            reveal_strlit("-");
            assert("-"@ =~= seq!['-']);
        }
        let mag = (-(n as i64)) as u64;
        let mut s = "-".to_owned();
        s.append(fmt_u64(mag).as_str());
        s
    }
}

// ---------------------------------------------------------------------------
// Decimal parsing
// ---------------------------------------------------------------------------

/// Whether `c` is a decimal digit.
pub open spec fn is_dec_digit(c: char) -> bool {
    '0' as int <= c as int && c as int <= '9' as int
}

/// The numeric value of a digit character.
pub open spec fn digit_val(c: char) -> int {
    c as int - '0' as int
}

/// Whether every character of `s` is a decimal digit.
pub open spec fn all_dec_digits(s: Seq<char>) -> bool {
    forall|i: int| 0 <= i < s.len() ==> is_dec_digit(#[trigger] s[i])
}

/// The numeric value of a digit string, most significant digit first.
pub open spec fn dec_val(s: Seq<char>) -> int
    decreases s.len(),
{
    if s.len() == 0 {
        0
    } else {
        dec_val(s.drop_last()) * 10 + digit_val(s.last())
    }
}

/// Whether a digit string parses as a non-negative `i32`.
pub open spec fn is_dec_i32(s: Seq<char>) -> bool {
    s.len() > 0 && all_dec_digits(s) && dec_val(s) <= i32::MAX
}

pub proof fn lemma_dec_val_nonneg(s: Seq<char>)
    requires
        all_dec_digits(s),
    ensures
        dec_val(s) >= 0,
    decreases s.len(),
{
    if s.len() > 0 {
        assert(all_dec_digits(s.drop_last()));
        lemma_dec_val_nonneg(s.drop_last());
    }
}

/// Growing a digit string never shrinks its value.
pub proof fn lemma_dec_val_take_le(s: Seq<char>, i: int, j: int)
    requires
        all_dec_digits(s),
        0 <= i <= j <= s.len(),
    ensures
        dec_val(s.take(i)) <= dec_val(s.take(j)),
    decreases j - i,
{
    if i < j {
        lemma_dec_val_take_le(s, i, j - 1);
        let p = s.take(j);
        assert(p.drop_last() =~= s.take(j - 1));
        assert(all_dec_digits(s.take(j - 1)));
        lemma_dec_val_nonneg(s.take(j - 1));
        assert(dec_val(s.take(j)) == dec_val(s.take(j - 1)) * 10 + digit_val(s[j - 1]));
    }
}

/// Parses a string of decimal digits as a non-negative `i32`.  Rejects the
/// empty string, any non-digit character (including a sign), and values
/// beyond `i32::MAX`.
pub fn parse_dec_i32(s: &str) -> (r: Option<i32>)
    ensures
        match r {
            Some(v) => is_dec_i32(s@) && v as int == dec_val(s@),
            None => !is_dec_i32(s@),
        },
{
    let len = s.unicode_len();
    if len == 0 {
        return None;
    }
    let mut i: usize = 0;
    let mut acc: u64 = 0;
    while i < len
        invariant
            0 < len == s@.len(),
            0 <= i <= len,
            all_dec_digits(s@.take(i as int)),
            acc == dec_val(s@.take(i as int)),
            acc <= i32::MAX,
        decreases len - i,
    {
        let c = s.get_char(i);
        let cv = c as u32;
        if cv < 48 || cv > 57 {
            proof {
                assert(!is_dec_digit(s@[i as int]));
            }
            return None;
        }
        let d: u64 = (cv - 48) as u64;
        let next: u64 = acc * 10 + d;
        proof {
            assert(s@.take(i + 1).drop_last() =~= s@.take(i as int));
            assert(s@.take(i + 1).last() == s@[i as int]);
            assert(dec_val(s@.take(i + 1)) == acc * 10 + d);
        }
        if next > 0x7fff_ffff {
            proof {
                if all_dec_digits(s@) {
                    lemma_dec_val_take_le(s@, i + 1, s@.len() as int);
                    assert(s@.take(s@.len() as int) =~= s@);
                }
            }
            return None;
        }
        acc = next;
        i = i + 1;
    }
    proof {
        assert(s@.take(len as int) =~= s@);
    }
    Some(acc as i32)
}

// ---------------------------------------------------------------------------
// Splitting on a separator character
// ---------------------------------------------------------------------------

/// The pieces of `s` between occurrences of `c`, in order.  Splitting never
/// yields an empty list: a string without `c` is one piece, and separators at
/// the ends or next to each other yield empty pieces, as `str::split` does.
pub open spec fn split_seq(s: Seq<char>, c: char) -> Seq<Seq<char>>
    decreases s.len(),
{
    if s.len() == 0 {
        seq![Seq::<char>::empty()]
    } else if s[0] == c {
        seq![Seq::<char>::empty()] + split_seq(s.drop_first(), c)
    } else {
        let r = split_seq(s.drop_first(), c);
        seq![seq![s[0]] + r[0]] + r.drop_first()
    }
}

pub proof fn lemma_split_seq_len(s: Seq<char>, c: char)
    ensures
        split_seq(s, c).len() >= 1,
    decreases s.len(),
{
    if s.len() > 0 {
        lemma_split_seq_len(s.drop_first(), c);
    }
}

/// Splitting a string whose head piece runs to index `i` (exclusive): all of
/// `s[0..i]` differs from `c`, and either `i` is the end or `s[i] == c`.
proof fn lemma_split_seq_head(s: Seq<char>, c: char, i: int)
    requires
        0 <= i <= s.len(),
        forall|k: int| 0 <= k < i ==> s[k] != c,
        i == s.len() || s[i] == c,
    ensures
        i == s.len() ==> split_seq(s, c) =~= seq![s],
        i < s.len() ==> split_seq(s, c) =~= seq![s.take(i)] + split_seq(s.skip(i + 1), c),
    decreases s.len(),
{
    lemma_split_seq_len(s, c);
    if s.len() == 0 {
        assert(s =~= Seq::<char>::empty());
        assert(split_seq(s, c) =~~= seq![s]);
    } else if i == 0 {
        assert(s[0] == c);
        assert(s.drop_first() =~= s.skip(1));
        assert(s.take(0) =~= Seq::<char>::empty());
        assert(split_seq(s, c) =~~= seq![s.take(0)] + split_seq(s.skip(1), c));
    } else {
        let t = s.drop_first();
        lemma_split_seq_head(t, c, i - 1);
        let r = split_seq(t, c);
        if i == s.len() {
            assert(r =~~= seq![t]);
            assert(seq![s[0]] + r[0] =~= s);
            assert(split_seq(s, c) =~~= seq![s]);
        } else {
            assert(r =~~= seq![t.take(i - 1)] + split_seq(t.skip(i), c));
            assert(seq![s[0]] + r[0] =~= s.take(i));
            assert(t.skip(i) =~= s.skip(i + 1));
            assert(split_seq(s, c) =~~= seq![s.take(i)] + split_seq(s.skip(i + 1), c));
        }
    }
}

/// Splits `s` at every occurrence of `c`.
pub fn split_char(s: &str, c: char) -> (parts: Vec<String>)
    ensures
        parts@.map_values(|p: String| p@) == split_seq(s@, c),
{
    let len = s.unicode_len();
    let mut parts: Vec<String> = Vec::new();
    let mut start: usize = 0;
    let mut i: usize = 0;
    proof {
        assert(s@.skip(0) =~= s@);
        assert(parts@.map_values(|p: String| p@) =~= Seq::<Seq<char>>::empty());
    }
    while i < len
        invariant
            len == s@.len(),
            0 <= start <= i <= len,
            forall|k: int| start <= k < i ==> s@[k] != c,
            split_seq(s@, c) =~= parts@.map_values(|p: String| p@) + split_seq(
                s@.skip(start as int),
                c,
            ),
        decreases len - i,
    {
        let ch = s.get_char(i);
        if ch == c {
            let piece = s.substring_char(start, i).to_owned();
            proof {
                let rest = s@.skip(start as int);
                lemma_split_seq_head(rest, c, i - start);
                assert(rest.take(i - start) =~= s@.subrange(start as int, i as int));
                assert(rest.skip(i - start + 1) =~= s@.skip(i + 1));
                assert(parts@.push(piece).map_values(|p: String| p@) =~= parts@.map_values(
                    |p: String| p@,
                ).push(piece@));
            }
            parts.push(piece);
            start = i + 1;
        }
        i = i + 1;
    }
    let piece = s.substring_char(start, len).to_owned();
    proof {
        let rest = s@.skip(start as int);
        lemma_split_seq_head(rest, c, len - start);
        assert(rest =~= s@.subrange(start as int, len as int));
        assert(parts@.push(piece).map_values(|p: String| p@) =~= parts@.map_values(
            |p: String| p@,
        ).push(piece@));
    }
    parts.push(piece);
    parts
}

// ---------------------------------------------------------------------------
// host:port pairs
// ---------------------------------------------------------------------------

/// Why a `host:port` pair was rejected.
#[derive(Clone, Copy, Debug, PartialEq, Eq, Structural)]
pub enum AddrError {
    /// Not exactly one `:` separator.
    Pieces,
    /// The port piece is not a plain decimal number in range.
    Port,
    /// The port parsed as zero.
    PortZero,
}

/// Splits `host:port`, keeping the host piece as written (possibly empty)
/// and requiring a positive decimal port.
pub fn parse_addr(s: &str) -> (r: Result<(String, i32), AddrError>)
    ensures
        ({
            let ps = split_seq(s@, ':');
            match r {
                Ok((h, p)) => ps.len() == 2 && is_dec_i32(ps[1]) && dec_val(ps[1]) > 0 && h@
                    == ps[0] && p as int == dec_val(ps[1]),
                Err(AddrError::Pieces) => ps.len() != 2,
                Err(AddrError::Port) => ps.len() == 2 && !is_dec_i32(ps[1]),
                Err(AddrError::PortZero) => ps.len() == 2 && is_dec_i32(ps[1]) && dec_val(ps[1])
                    == 0,
            }
        }),
{
    let mut parts = split_char(s, ':');
    if parts.len() != 2 {
        return Err(AddrError::Pieces);
    }
    proof {
        assert(parts@.map_values(|p: String| p@)[0] == parts@[0]@);
        assert(parts@.map_values(|p: String| p@)[1] == parts@[1]@);
    }
    let port = match parse_dec_i32(parts[1].as_str()) {
        None => {
            return Err(AddrError::Port);
        },
        Some(v) => v,
    };
    if port <= 0 {
        proof {
            lemma_dec_val_nonneg(split_seq(s@, ':')[1]);
        }
        return Err(AddrError::PortZero);
    }
    let host = parts.remove(0);
    Ok((host, port))
}

/// Appends a default port to a bare host; text that already carries a
/// colon passes through unchanged.
pub fn host_defport(s: String, def: u16) -> (r: String)
    ensures
        (exists|i: int| 0 <= i < s@.len() && s@[i] == ':') ==> r@ == s@,
        !(exists|i: int| 0 <= i < s@.len() && s@[i] == ':') ==> r@ == s@ + seq![':'] + dec_digits(
            def as nat,
        ),
{
    let len = s.as_str().unicode_len();
    let mut i: usize = 0;
    while i < len
        invariant
            len == s@.len(),
            0 <= i <= len,
            forall|k: int| 0 <= k < i ==> s@[k] != ':',
        decreases len - i,
    {
        if s.as_str().get_char(i) == ':' {
            proof {
                assert(s@[i as int] == ':');
            }
            return s;
        }
        i = i + 1;
    }
    proof {
        reveal_strlit(":");
        assert(":"@ =~= seq![':']);
    }
    let mut r = s;
    r.append(":");
    r.append(fmt_u64(def as u64).as_str());
    r
}

// ---------------------------------------------------------------------------
// Version comparison
// ---------------------------------------------------------------------------

/// How two dotted version strings compare.
#[derive(Clone, Copy, Debug, PartialEq, Eq, Structural)]
pub enum CompareVersion {
    Invalid,
    Equal,
    Less,
    Great,
}

/// Compares the numeric pieces of two versions from index `i` on.  A piece of
/// the first version that is missing from the second counts as zero; a piece
/// that does not parse makes the whole comparison an error.
pub open spec fn cmp_version_parts(p1: Seq<Seq<char>>, p2: Seq<Seq<char>>, i: int) -> CompareVersion
    decreases p1.len() - i,
{
    if i < 0 || i >= p1.len() {
        CompareVersion::Equal
    } else if !is_dec_i32(p1[i]) {
        CompareVersion::Invalid
    } else if i < p2.len() && !is_dec_i32(p2[i]) {
        CompareVersion::Invalid
    } else {
        let v1 = dec_val(p1[i]);
        let v2 = if i < p2.len() {
            dec_val(p2[i])
        } else {
            0
        };
        if v1 == v2 {
            cmp_version_parts(p1, p2, i + 1)
        } else if v1 < v2 {
            CompareVersion::Less
        } else {
            CompareVersion::Great
        }
    }
}

/// The comparison of two dotted version strings: an error unless both have at
/// least two dot-separated pieces, otherwise piece-by-piece numeric order.
pub open spec fn cmp_version(s1: Seq<char>, s2: Seq<char>) -> CompareVersion {
    let p1 = split_seq(s1, '.');
    let p2 = split_seq(s2, '.');
    if p1.len() <= 1 || p2.len() <= 1 {
        CompareVersion::Invalid
    } else {
        cmp_version_parts(p1, p2, 0)
    }
}

/// Compares two dotted version strings numerically, piece by piece.
pub fn compare_version(s1: &String, s2: String) -> (r: CompareVersion)
    ensures
        r == cmp_version(s1@, s2@),
{
    let p1 = split_char(s1.as_str(), '.');
    let p2 = split_char(s2.as_str(), '.');
    let ghost gp1 = split_seq(s1@, '.');
    let ghost gp2 = split_seq(s2@, '.');
    if p1.len() <= 1 || p2.len() <= 1 {
        return CompareVersion::Invalid;
    }
    let mut i: usize = 0;
    while i < p1.len()
        invariant
            gp1 == split_seq(s1@, '.'),
            gp2 == split_seq(s2@, '.'),
            p1@.map_values(|p: String| p@) == gp1,
            p2@.map_values(|p: String| p@) == gp2,
            gp1.len() == p1.len() > 1,
            gp2.len() == p2.len() > 1,
            0 <= i <= p1.len(),
            cmp_version_parts(gp1, gp2, 0) == cmp_version_parts(gp1, gp2, i as int),
        decreases p1.len() - i,
    {
        proof {
            assert(p1@.map_values(|p: String| p@)[i as int] == p1@[i as int]@);
            if (i as int) < gp2.len() {
                assert(p2@.map_values(|p: String| p@)[i as int] == p2@[i as int]@);
            }
        }
        let v1 = match parse_dec_i32(p1[i].as_str()) {
            None => {
                return CompareVersion::Invalid;
            },
            Some(v) => v,
        };
        let v2: i32 = if i < p2.len() {
            match parse_dec_i32(p2[i].as_str()) {
                None => {
                    return CompareVersion::Invalid;
                },
                Some(v) => v,
            }
        } else {
            0
        };
        if v1 < v2 {
            return CompareVersion::Less;
        }
        if v1 > v2 {
            return CompareVersion::Great;
        }
        i = i + 1;
    }
    CompareVersion::Equal
}

// ---------------------------------------------------------------------------
// Duration formatting
// ---------------------------------------------------------------------------

/// The text that `mytimes` produces for a duration of `sec` seconds.
pub open spec fn mytimes_view(sec: u64) -> Seq<char> {
    if sec >= 86400 {
        dec_digits((sec / 86400) as nat) + seq!['d'] + dec_digits(
            ((sec % 86400) / 3600) as nat,
        ) + seq!['h'] + dec_digits((((sec % 86400) % 3600) / 60) as nat) + seq!['m'] + dec_digits(
            (((sec % 86400) % 3600) % 60) as nat,
        ) + seq!['s']
    } else if sec >= 3600 {
        dec_digits((sec / 3600) as nat) + seq!['h'] + dec_digits(
            ((sec % 3600) / 60) as nat,
        ) + seq!['m'] + dec_digits(((sec % 3600) % 60) as nat) + seq!['s']
    } else if sec >= 60 {
        dec_digits((sec / 60) as nat) + seq!['m'] + dec_digits((sec % 60) as nat) + seq!['s']
    } else {
        dec_digits(sec as nat) + seq!['s']
    }
}

/// Renders a duration of `sec` seconds as days, hours, minutes and seconds,
/// dropping the units that do not apply.
pub fn mytimes(sec: u64) -> (r: String)
    ensures
        r@ == mytimes_view(sec),
{
    proof {
        reveal_strlit("d");
        reveal_strlit("h");
        reveal_strlit("m");
        reveal_strlit("s");
        assert("d"@ =~= seq!['d']);
        assert("h"@ =~= seq!['h']);
        assert("m"@ =~= seq!['m']);
        assert("s"@ =~= seq!['s']);
    }
    if sec >= 86400 {
        let mut s = fmt_u64(sec / 86400);
        s.append("d");
        s.append(fmt_u64((sec % 86400) / 3600).as_str());
        s.append("h");
        s.append(fmt_u64(((sec % 86400) % 3600) / 60).as_str());
        s.append("m");
        s.append(fmt_u64(((sec % 86400) % 3600) % 60).as_str());
        s.append("s");
        s
    } else if sec >= 3600 {
        let mut s = fmt_u64(sec / 3600);
        s.append("h");
        s.append(fmt_u64((sec % 3600) / 60).as_str());
        s.append("m");
        s.append(fmt_u64((sec % 3600) % 60).as_str());
        s.append("s");
        s
    } else if sec >= 60 {
        let mut s = fmt_u64(sec / 60);
        s.append("m");
        s.append(fmt_u64(sec % 60).as_str());
        s.append("s");
        s
    } else {
        let mut s = fmt_u64(sec);
        s.append("s");
        s
    }
}

} // verus!
