//! The capability probe's reading of a metadata response: the size of the
//! resource and whether it can be fetched by byte ranges.

use vstd::prelude::*;

verus! {

/// What a metadata request learned about a resource.
#[derive(Clone, Copy, Debug, PartialEq, Eq, Structural)]
pub struct Capability {
    /// Size in bytes; 0 when the server gave no usable length.
    pub total_size: u64,
    /// Whether the server gave a usable length (which may be 0).
    pub size_known: bool,
    /// Whether the server advertises byte-range support.
    pub supports_ranges: bool,
}

pub open spec fn is_digit(b: u8) -> bool {
    48 <= b <= 57
}

/// The number written by the decimal digits `s`.
pub open spec fn digits_value(s: Seq<u8>) -> nat
    decreases s.len(),
{
    if s.len() == 0 {
        0
    } else {
        digits_value(s.drop_last()) * 10 + (s.last() - 48) as nat
    }
}

/// `s` without one leading `+`.
pub open spec fn unsigned_part(s: Seq<u8>) -> Seq<u8> {
    if s.len() > 0 && s[0] == 43 { s.drop_first() } else { s }
}

pub open spec fn all_digits(d: Seq<u8>) -> bool {
    forall|i: int| 0 <= i < d.len() ==> is_digit(#[trigger] d[i])
}

/// What parsing `s` as an unsigned 64-bit decimal gives: an optional `+`,
/// then one or more digits whose value fits.
pub open spec fn parsed_u64(s: Seq<u8>) -> Option<u64> {
    let d = unsigned_part(s);
    if d.len() > 0 && all_digits(d) && digits_value(d) <= u64::MAX {
        Some(digits_value(d) as u64)
    } else {
        None
    }
}

proof fn lemma_digits_prefix_grows(d: Seq<u8>, i: int)
    requires
        0 <= i <= d.len(),
        all_digits(d),
    ensures
        digits_value(d.take(i)) <= digits_value(d),
    decreases d.len() - i,
{
    if i < d.len() {
        lemma_digits_prefix_grows(d, i + 1);
        assert(d.take(i + 1).drop_last() =~= d.take(i));
    } else {
        assert(d.take(i) =~= d);
    }
}

/// Parses an unsigned 64-bit decimal number from raw header bytes.
pub fn parse_u64(s: &[u8]) -> (r: Option<u64>)
    ensures
        r == parsed_u64(s@),
{
    let ghost d = unsigned_part(s@);
    let first: usize = if s.len() > 0 && s[0] == 43 { 1 } else { 0 };
    if first >= s.len() {
        return None;
    }
    let mut acc: u64 = 0;
    let mut i: usize = first;
    while i < s.len()
        invariant
            first <= i <= s@.len(),
            d == s@.subrange(first as int, s@.len() as int),
            d == unsigned_part(s@),
            d.len() > 0,
            acc == digits_value(d.take(i - first)),
            forall|j: int| 0 <= j < i - first ==> is_digit(#[trigger] d[j]),
        decreases s@.len() - i,
    {
        let b = s[i];
        assert(d[i - first] == b);
        if b < 48 || b > 57 {
            assert(!is_digit(d[i - first]));
            return None;
        }
        let digit: u64 = (b - 48) as u64;
        assert(d.take(i - first + 1).drop_last() =~= d.take(i - first));
        assert(d.take(i - first + 1).last() == b);
        assert(digits_value(d.take(i - first + 1)) == acc * 10 + digit);
        if acc > (u64::MAX - digit) / 10 {
            proof {
                assert(acc * 10 + digit > u64::MAX) by (nonlinear_arith)
                    requires acc > (u64::MAX - digit) / 10, digit <= 9;
                if all_digits(d) {
                    lemma_digits_prefix_grows(d, i - first + 1);
                }
            }
            return None;
        }
        acc = acc * 10 + digit;
        i = i + 1;
    }
    assert(d.take(d.len() as int) =~= d);
    Some(acc)
}

impl Capability {
    /// Reads the `Content-Length` and `Accept-Ranges` header values of a
    /// metadata response (`None` when absent). The size is 0 when the length
    /// is absent or not a number; ranges are supported when `Accept-Ranges`
    /// is exactly `bytes`. The size is known when the length is a number.
    pub fn from_headers(content_length: Option<&[u8]>, accept_ranges: Option<&[u8]>) -> (r: Capability)
        ensures
            r.size_known == (content_length is Some && parsed_u64(content_length->0@) is Some),
            r.total_size == match content_length {
                Some(v) => match parsed_u64(v@) {
                    Some(n) => n,
                    None => 0,
                },
                None => 0,
            },
            r.supports_ranges == (accept_ranges is Some && accept_ranges->0@ == seq![98u8, 121u8, 116u8, 101u8, 115u8]),
    {
        let (total_size, size_known) = match content_length {
            Some(v) => match parse_u64(v) {
                Some(n) => (n, true),
                None => (0, false),
            },
            None => (0, false),
        };
        let supports_ranges = match accept_ranges {
            Some(v) => {
                let yes = v.len() == 5 && v[0] == 98 && v[1] == 121 && v[2] == 116 && v[3] == 101 && v[4] == 115;
                assert(yes ==> v@ =~= seq![98u8, 121u8, 116u8, 101u8, 115u8]);
                yes
            },
            None => false,
        };
        Capability { total_size, size_known, supports_ranges }
    }
}

} // verus!
