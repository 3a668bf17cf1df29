//! Text kept in fixed-size byte buffers: writing a string into one, and
//! reading it back without the zero padding.

use vstd::prelude::*;
use vstd::string::{StrSliceExecFns, StringSliceAdditionalSpecFns};
use vstd::utf8::{decode_utf8, encode_utf8_decode_utf8, valid_utf8};
use vstd::view::View as _;

verus! {

/// Bytes that are not valid UTF-8.
#[derive(Debug, PartialEq, Eq, Structural)]
pub struct InvalidUtf8;

/// Relies on `std::str::from_utf8`: it accepts exactly the valid UTF-8 byte
/// sequences, and the text it returns has those bytes.
#[verifier::external_body]
fn utf8_str(bytes: &[u8]) -> (r: Option<&str>)
    ensures
        r is Some <==> valid_utf8(bytes@),
        r matches Some(s) ==> s.spec_bytes() == bytes@,
{
    std::str::from_utf8(bytes).ok()
}

/// `s` without the NUL characters at its start.
pub open spec fn trim_start_nul(s: Seq<char>) -> Seq<char>
    decreases s.len(),
{
    if s.len() > 0 && s[0] == '\0' {
        trim_start_nul(s.drop_first())
    } else {
        s
    }
}

/// `s` without the NUL characters at its end.
pub open spec fn trim_end_nul(s: Seq<char>) -> Seq<char>
    decreases s.len(),
{
    if s.len() > 0 && s.last() == '\0' {
        trim_end_nul(s.drop_last())
    } else {
        s
    }
}

/// `s` without the NUL characters at either end.
pub open spec fn trim_nul(s: Seq<char>) -> Seq<char> {
    trim_end_nul(trim_start_nul(s))
}

/// The UTF-8 bytes of `text` in a buffer of `N` bytes: cut after `N` bytes,
/// padded with zeros.
pub fn str_to_u8_array<const N: usize>(text: &str) -> (r: [u8; N])
    ensures
        forall|i: int|
            0 <= i < N ==> r@[i] == if i < text.spec_bytes().len() {
                text.spec_bytes()[i]
            } else {
                0u8
            },
{
    let bytes = text.as_bytes();
    let mut output: [u8; N] = [0u8; N];
    let mut i: usize = 0;
    while i < bytes.len() && i < N
        invariant
            bytes@ == text.spec_bytes(),
            i <= N,
            i <= bytes@.len(),
            output@.len() == N,
            forall|j: int| 0 <= j < i ==> output@[j] == bytes@[j],
            forall|j: int| i <= j < N ==> output@[j] == 0u8,
        decreases N - i,
    {
        output[i] = bytes[i];
        i = i + 1;
    }
    output
}

/// The text in a byte buffer, without the NUL padding at either end; an
/// error when the bytes are not valid UTF-8.
pub fn u8_array_to_str(u8_slice: &[u8]) -> (r: Result<&str, InvalidUtf8>)
    ensures
        r is Ok <==> valid_utf8(u8_slice@),
        r matches Ok(s) ==> s@ == trim_nul(decode_utf8(u8_slice@)),
{
    let text = match utf8_str(u8_slice) {
        Some(t) => t,
        None => {
            return Err(InvalidUtf8);
        },
    };
    proof {
        encode_utf8_decode_utf8(text@);
    }
    let ghost s = text@;
    let n = text.unicode_len();
    let mut start: usize = 0;
    assert(s.subrange(0, n as int) =~= s);
    while start < n && text.get_char(start) == '\0'
        invariant
            s == text@,
            n == s.len(),
            start <= n,
            trim_start_nul(s) == trim_start_nul(s.subrange(start as int, n as int)),
        decreases n - start,
    {
        assert(s.subrange(start + 1, n as int) =~= s.subrange(start as int, n as int).drop_first());
        start = start + 1;
    }
    assert(trim_start_nul(s) == s.subrange(start as int, n as int));
    let ghost t = s.subrange(start as int, n as int);
    let mut end: usize = n;
    while end > start && text.get_char(end - 1) == '\0'
        invariant
            s == text@,
            n == s.len(),
            start <= end <= n,
            t == s.subrange(start as int, n as int),
            trim_end_nul(t) == trim_end_nul(s.subrange(start as int, end as int)),
        decreases end - start,
    {
        assert(s.subrange(start as int, end - 1) =~= s.subrange(start as int, end as int).drop_last());
        end = end - 1;
    }
    assert(trim_end_nul(s.subrange(start as int, end as int)) == s.subrange(start as int, end as int));
    Ok(text.substring_char(start, end))
}

} // verus!
