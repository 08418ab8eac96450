//! Conversions between text and the byte strings the native layer speaks.

use vstd::prelude::*;
use vstd::string::StringExecFns;
use vstd::utf8::{decode_utf8, encode_utf8, valid_utf8};

verus! {

/// What `String::from_utf8_lossy` makes of `bytes`: the decoded text, with
/// each malformed sequence replaced by U+FFFD.
pub uninterp spec fn utf8_lossy(bytes: Seq<u8>) -> Seq<char>;

/// `n` is the length of the longest well-formed prefix of `bytes`.
pub open spec fn is_valid_up_to(bytes: Seq<u8>, n: int) -> bool {
    &&& 0 <= n <= bytes.len()
    &&& valid_utf8(bytes.take(n))
    &&& forall|m: int| n < m <= bytes.len() ==> !valid_utf8(#[trigger] bytes.take(m))
}

/// The length of the longest well-formed prefix of `bytes`.
pub open spec fn valid_up_to(bytes: Seq<u8>) -> nat {
    choose|n: nat| is_valid_up_to(bytes, n as int)
}

/// There is only one longest well-formed prefix.
pub proof fn lemma_valid_up_to(bytes: Seq<u8>, n: int)
    requires
        is_valid_up_to(bytes, n),
    ensures
        valid_up_to(bytes) == n,
{
    let k = valid_up_to(bytes);
    if k < n {
        assert(!valid_utf8(bytes.take(n)));
    } else if n < k {
        assert(!valid_utf8(bytes.take(k as int)));
    }
}

/// Strict decoding, by `core::str::from_utf8`.
///
/// Trusted: the call succeeds exactly on well-formed UTF-8 and then yields
/// the text those bytes encode; otherwise the error's `valid_up_to` is the
/// length of the longest well-formed prefix, which is shorter than `bytes`.
#[verifier::external_body]
pub(crate) fn utf8_text(bytes: &[u8]) -> (res: Result<&str, usize>)
    ensures
        res is Ok <==> valid_utf8(bytes@),
        res matches Ok(s) ==> s@ == decode_utf8(bytes@),
        res matches Err(n) ==> n < bytes@.len() && is_valid_up_to(bytes@, n as int),
{
    match core::str::from_utf8(bytes) {
        Ok(text) => Ok(text),
        Err(e) => Err(e.valid_up_to()),
    }
}

/// Lenient decoding, by `String::from_utf8_lossy`.
///
/// Trusted: the result is a function of the bytes alone, and on well-formed
/// UTF-8 it is the text those bytes encode.
#[verifier::external_body]
pub(crate) fn lossy_text(bytes: &[u8]) -> (res: String)
    ensures
        res@ == utf8_lossy(bytes@),
        valid_utf8(bytes@) ==> res@ == decode_utf8(bytes@),
{
    String::from_utf8_lossy(bytes).into_owned()
}

/// Bytes read leniently as text: well-formed UTF-8 is the text it encodes;
/// in anything else each malformed sequence is replaced, and nothing is
/// refused.
pub open spec fn lenient(bytes: Seq<u8>) -> Seq<char> {
    if valid_utf8(bytes) {
        decode_utf8(bytes)
    } else {
        utf8_lossy(bytes)
    }
}

/// Where the first zero byte of `bytes` at or after `from` lies; the length
/// of `bytes` if there is none.
pub open spec fn first_nul_from(bytes: Seq<u8>, from: int) -> int
    decreases bytes.len() - from,
{
    if from < 0 || from >= bytes.len() {
        bytes.len() as int
    } else if bytes[from] == 0 {
        from
    } else {
        first_nul_from(bytes, from + 1)
    }
}

/// Where the first zero byte of `bytes` lies; the length of `bytes` if
/// there is none.
pub open spec fn first_nul(bytes: Seq<u8>) -> int {
    first_nul_from(bytes, 0)
}

/// The terminated byte string that stands for `name` in a native call, or
/// the offset of the zero byte that makes `name` unrepresentable.
pub open spec fn encoded(name: Seq<char>) -> Result<Seq<u8>, nat> {
    let bytes = encode_utf8(name);
    if first_nul(bytes) == bytes.len() {
        Ok(bytes.push(0u8))
    } else {
        Err(first_nul(bytes) as nat)
    }
}

/// Encodes a pool, object, attribute or snapshot name for the native
/// layer: its UTF-8 bytes followed by the terminator. A name that holds a
/// zero byte cannot be passed on; the offset of its first zero byte is
/// returned instead.
pub fn encode_name(name: &str) -> (res: Result<Vec<u8>, usize>)
    ensures
        res matches Ok(bytes) ==> encoded(name@) == Ok::<Seq<u8>, nat>(bytes@),
        res matches Err(at) ==> encoded(name@) == Err::<Seq<u8>, nat>(at as nat),
        res is Ok <==> !encode_utf8(name@).contains(0u8),
        res matches Ok(bytes) ==> bytes@ == encode_utf8(name@).push(0u8),
        res matches Err(at) ==> at < encode_utf8(name@).len() && encode_utf8(name@)[at as int] == 0
            && !encode_utf8(name@).take(at as int).contains(0u8),
{
    let bytes = name.as_bytes();
    let mut out: Vec<u8> = Vec::new();
    let mut i: usize = 0;
    while i < bytes.len()
        invariant
            i <= bytes@.len(),
            bytes@ == encode_utf8(name@),
            out@ == bytes@.take(i as int),
            first_nul(bytes@) == first_nul_from(bytes@, i as int),
            forall|k: int| 0 <= k < i ==> bytes@[k] != 0,
        decreases bytes.len() - i,
    {
        if bytes[i] == 0 {
            assert forall|k: int| 0 <= k < i implies bytes@.take(i as int)[k] != 0 by {}
            return Err(i);
        }
        out.push(bytes[i]);
        i += 1;
    }
    assert(bytes@.take(i as int) == bytes@);
    out.push(0u8);
    Ok(out)
}

/// Reads a length-delimited native string leniently: what is not text in
/// it is replaced, not refused.
pub fn c_char_ptr_to_string(bytes: &[u8]) -> (res: String)
    ensures
        res@ == lenient(bytes@),
{
    lossy_text(bytes)
}

/// The character for a single decimal digit.
pub open spec fn digit(d: nat) -> char {
    if d == 0 {
        '0'
    } else if d == 1 {
        '1'
    } else if d == 2 {
        '2'
    } else if d == 3 {
        '3'
    } else if d == 4 {
        '4'
    } else if d == 5 {
        '5'
    } else if d == 6 {
        '6'
    } else if d == 7 {
        '7'
    } else if d == 8 {
        '8'
    } else {
        '9'
    }
}

/// A natural number in decimal, without leading zeros.
pub open spec fn decimal(n: nat) -> Seq<char>
    decreases n,
{
    if n < 10 {
        seq![digit(n)]
    } else {
        decimal(n / 10).push(digit(n % 10))
    }
}

/// An integer in decimal, with a minus sign where it is negative.
pub open spec fn signed_decimal(n: int) -> Seq<char> {
    if n < 0 {
        seq!['-'] + decimal((-n) as nat)
    } else {
        decimal(n as nat)
    }
}

fn digit_text(d: usize) -> (text: &'static str)
    requires
        d < 10,
    ensures
        text@ == seq![digit(d as nat)],
{
    proof {
        reveal_strlit("0");
        reveal_strlit("1");
        reveal_strlit("2");
        reveal_strlit("3");
        reveal_strlit("4");
        reveal_strlit("5");
        reveal_strlit("6");
        reveal_strlit("7");
        reveal_strlit("8");
        reveal_strlit("9");
    }
    if d == 0 {
        "0"
    } else if d == 1 {
        "1"
    } else if d == 2 {
        "2"
    } else if d == 3 {
        "3"
    } else if d == 4 {
        "4"
    } else if d == 5 {
        "5"
    } else if d == 6 {
        "6"
    } else if d == 7 {
        "7"
    } else if d == 8 {
        "8"
    } else {
        "9"
    }
}

/// Appends `n` in decimal to `text`.
pub fn push_decimal(text: &mut String, n: usize)
    ensures
        final(text)@ == old(text)@ + decimal(n as nat),
    decreases n,
{
    if n >= 10 {
        push_decimal(text, n / 10);
    }
    text.append(digit_text(n % 10));
}

/// Appends `n` in decimal to `text`, with a minus sign where it is
/// negative.
pub fn push_signed_decimal(text: &mut String, n: isize)
    ensures
        final(text)@ == old(text)@ + signed_decimal(n as int),
{
    if n < 0 {
        proof {
            reveal_strlit("-");
        }
        text.append("-");
        let magnitude: usize = ((-(n + 1)) as usize) + 1;
        push_decimal(text, magnitude);
    } else {
        push_decimal(text, n as usize);
    }
}

/// The first `len` items of `items`; all of them where there are fewer.
pub open spec fn truncated<T>(items: Seq<T>, len: int) -> Seq<T> {
    if 0 <= len < items.len() {
        items.take(len)
    } else {
        items
    }
}

/// Cuts a buffer down to the length the backend reported, so that nothing
/// beyond the logical result is handed on.
pub fn truncate_to<T: Copy>(items: &[T], len: usize) -> (out: Vec<T>)
    ensures
        out@ == truncated(items@, len as int),
{
    if len < items.len() {
        let out = vstd::slice::slice_to_vec(vstd::slice::slice_subrange(items, 0, len));
        out
    } else {
        vstd::slice::slice_to_vec(items)
    }
}

/// A buffer after the first `len` bytes of `data` have been written over
/// its start; where the buffer or `data` is shorter than `len`, as many as
/// both hold.
pub open spec fn overlaid(buffer: Seq<u8>, data: Seq<u8>, len: int) -> Seq<u8> {
    Seq::new(
        buffer.len(),
        |i: int|
            if i < len && i < data.len() {
                data[i]
            } else {
                buffer[i]
            },
    )
}

/// Writes the first `len` bytes of `data` over the start of `buffer`.
pub fn overlay(buffer: &mut [u8], data: &[u8], len: usize)
    ensures
        final(buffer)@ == overlaid(old(buffer)@, data@, len as int),
{
    let mut i: usize = 0;
    while i < len && i < data.len() && i < buffer.len()
        invariant
            buffer@.len() == old(buffer)@.len(),
            forall|k: int| 0 <= k < i ==> buffer@[k] == data@[k],
            forall|k: int| i <= k < buffer@.len() ==> buffer@[k] == old(buffer)@[k],
            i <= len,
            i <= data@.len(),
            i <= buffer@.len(),
        decreases buffer@.len() - i,
    {
        buffer[i] = data[i];
        i += 1;
    }
    assert(buffer@ =~= overlaid(old(buffer)@, data@, len as int));
}

} // verus!
