//! Integers and strings as they appear on the wire.
//!
//! Every multi-byte integer of the protocol is sent most significant byte
//! first; signed integers are sent in two's complement. A string is sent as
//! its UTF-8 bytes followed by one zero byte.

use crate::protocol::ProtocolError;
use vstd::prelude::*;
use vstd::slice::slice_subrange;
use vstd::utf8::*;

verus! {

/// The two's-complement reading of a 16-bit pattern.
pub open spec fn signed16(u: int) -> int {
    if u >= 0x8000 {
        u - 0x1_0000
    } else {
        u
    }
}

/// The two's-complement reading of a 32-bit pattern.
pub open spec fn signed32(u: int) -> int {
    if u >= 0x8000_0000 {
        u - 0x1_0000_0000
    } else {
        u
    }
}

/// The 16-bit pattern of a signed value.
pub open spec fn pattern16(v: int) -> int {
    if v < 0 {
        v + 0x1_0000
    } else {
        v
    }
}

/// The 32-bit pattern of a signed value.
pub open spec fn pattern32(v: int) -> int {
    if v < 0 {
        v + 0x1_0000_0000
    } else {
        v
    }
}

/// The 64-bit pattern of a signed value.
pub open spec fn pattern64(v: int) -> int {
    if v < 0 {
        v + 0x1_0000_0000_0000_0000
    } else {
        v
    }
}

/// The two bytes of `v`, most significant first.
#[verifier::opaque]
pub open spec fn u16_bytes(v: u16) -> Seq<u8> {
    seq![(v / 0x100) as u8, (v % 0x100) as u8]
}

/// The four bytes of `v`, most significant first.
#[verifier::opaque]
pub open spec fn u32_bytes(v: u32) -> Seq<u8> {
    seq![
        (v / 0x100_0000) as u8,
        (v / 0x1_0000 % 0x100) as u8,
        (v / 0x100 % 0x100) as u8,
        (v % 0x100) as u8,
    ]
}

/// The eight bytes of `v`, most significant first.
pub open spec fn u64_bytes(v: u64) -> Seq<u8> {
    u32_bytes((v / 0x1_0000_0000) as u32) + u32_bytes((v % 0x1_0000_0000) as u32)
}

/// The two bytes of `v` in two's complement, most significant first.
pub open spec fn i16_bytes(v: i16) -> Seq<u8> {
    u16_bytes(pattern16(v as int) as u16)
}

/// The four bytes of `v` in two's complement, most significant first.
pub open spec fn i32_bytes(v: i32) -> Seq<u8> {
    u32_bytes(pattern32(v as int) as u32)
}

/// The eight bytes of `v` in two's complement, most significant first.
pub open spec fn i64_bytes(v: i64) -> Seq<u8> {
    u64_bytes(pattern64(v as int) as u64)
}

/// The unsigned 16-bit value whose bytes start at `at`.
#[verifier::opaque]
pub open spec fn u16_at(s: Seq<u8>, at: int) -> u16 {
    (s[at] * 0x100 + s[at + 1]) as u16
}

/// The unsigned 32-bit value whose bytes start at `at`.
#[verifier::opaque]
pub open spec fn u32_at(s: Seq<u8>, at: int) -> u32 {
    (s[at] * 0x100_0000 + s[at + 1] * 0x1_0000 + s[at + 2] * 0x100 + s[at + 3]) as u32
}

/// The signed 16-bit value whose bytes start at `at`.
pub open spec fn i16_at(s: Seq<u8>, at: int) -> i16 {
    signed16(u16_at(s, at) as int) as i16
}

/// The signed 32-bit value whose bytes start at `at`.
pub open spec fn i32_at(s: Seq<u8>, at: int) -> i32 {
    signed32(u32_at(s, at) as int) as i32
}

/// Appends the two bytes of `v` to `out`.
pub fn push_u16(out: &mut Vec<u8>, v: u16)
    ensures
        final(out)@ == old(out)@ + u16_bytes(v),
{
    out.push((v / 0x100) as u8);
    out.push((v % 0x100) as u8);
    reveal(u16_bytes);
    assert(out@ =~= old(out)@ + u16_bytes(v));
}

/// Appends the four bytes of `v` to `out`.
pub fn push_u32(out: &mut Vec<u8>, v: u32)
    ensures
        final(out)@ == old(out)@ + u32_bytes(v),
{
    out.push((v / 0x100_0000) as u8);
    out.push((v / 0x1_0000 % 0x100) as u8);
    out.push((v / 0x100 % 0x100) as u8);
    out.push((v % 0x100) as u8);
    reveal(u32_bytes);
    assert(out@ =~= old(out)@ + u32_bytes(v));
}

/// Appends the eight bytes of `v` to `out`.
pub fn push_u64(out: &mut Vec<u8>, v: u64)
    ensures
        final(out)@ == old(out)@ + u64_bytes(v),
{
    push_u32(out, (v / 0x1_0000_0000) as u32);
    push_u32(out, (v % 0x1_0000_0000) as u32);
    assert(out@ =~= old(out)@ + u64_bytes(v));
}

/// Appends the two bytes of `v`, in two's complement, to `out`.
pub fn push_i16(out: &mut Vec<u8>, v: i16)
    ensures
        final(out)@ == old(out)@ + i16_bytes(v),
{
    let pattern: u16 = if v >= 0 {
        v as u16
    } else {
        ((v + i16::MAX + 1) as u16) + 0x8000
    };
    push_u16(out, pattern);
}

/// Appends the four bytes of `v`, in two's complement, to `out`.
pub fn push_i32(out: &mut Vec<u8>, v: i32)
    ensures
        final(out)@ == old(out)@ + i32_bytes(v),
{
    let pattern: u32 = if v >= 0 {
        v as u32
    } else {
        ((v + i32::MAX + 1) as u32) + 0x8000_0000
    };
    push_u32(out, pattern);
}

/// Appends the eight bytes of `v`, in two's complement, to `out`.
pub fn push_i64(out: &mut Vec<u8>, v: i64)
    ensures
        final(out)@ == old(out)@ + i64_bytes(v),
{
    let pattern: u64 = if v >= 0 {
        v as u64
    } else {
        ((v + i64::MAX + 1) as u64) + 0x8000_0000_0000_0000
    };
    push_u64(out, pattern);
}

/// Reads the unsigned 16-bit value at `at`.
pub fn read_u16(buf: &[u8], at: usize) -> (v: u16)
    requires
        at + 2 <= buf@.len(),
    ensures
        v == u16_at(buf@, at as int),
{
    let hi: u16 = buf[at] as u16;
    let lo: u16 = buf[at + 1] as u16;
    reveal(u16_at);
    hi * 0x100 + lo
}

/// Reads the unsigned 32-bit value at `at`.
pub fn read_u32(buf: &[u8], at: usize) -> (v: u32)
    requires
        at + 4 <= buf@.len(),
    ensures
        v == u32_at(buf@, at as int),
{
    let b0: u32 = buf[at] as u32;
    let b1: u32 = buf[at + 1] as u32;
    let b2: u32 = buf[at + 2] as u32;
    let b3: u32 = buf[at + 3] as u32;
    reveal(u32_at);
    b0 * 0x100_0000 + b1 * 0x1_0000 + b2 * 0x100 + b3
}

/// Reads the signed 16-bit value at `at`.
pub fn read_i16(buf: &[u8], at: usize) -> (v: i16)
    requires
        at + 2 <= buf@.len(),
    ensures
        v == i16_at(buf@, at as int),
{
    let u: u16 = read_u16(buf, at);
    if u >= 0x8000 {
        ((u - 0x8000) as i16) + i16::MIN
    } else {
        u as i16
    }
}

/// Reads the signed 32-bit value at `at`.
pub fn read_i32(buf: &[u8], at: usize) -> (v: i32)
    requires
        at + 4 <= buf@.len(),
    ensures
        v == i32_at(buf@, at as int),
{
    let u: u32 = read_u32(buf, at);
    if u >= 0x8000_0000 {
        ((u - 0x8000_0000) as i32) + i32::MIN
    } else {
        u as i32
    }
}

/// The position of the first zero byte at or after `from`, or the length of
/// `s` where there is none.
pub open spec fn first_nul(s: Seq<u8>, from: int) -> int
    decreases s.len() - from,
{
    if from < 0 || from >= s.len() {
        s.len() as int
    } else if s[from] == 0 {
        from
    } else {
        first_nul(s, from + 1)
    }
}

/// A string on the wire: its UTF-8 bytes, then a zero byte.
pub open spec fn cstr_bytes(s: Seq<char>) -> Seq<u8> {
    encode_utf8(s) + seq![0u8]
}

/// Whether a string can be sent: it holds no NUL character, which would end
/// it early.
pub open spec fn cstr_ok(s: Seq<char>) -> bool {
    forall|i: int| 0 <= i < s.len() ==> s[i] != '\0'
}

/// The string that starts at `at` and the position behind its terminator.
///
/// `ShortRead` where no zero byte follows, `BadUtf8` where the bytes before
/// it are not UTF-8.
pub open spec fn cstr_at(s: Seq<u8>, at: int) -> Result<(Seq<char>, int), ProtocolError> {
    let end = first_nul(s, at);
    if at < 0 || end >= s.len() {
        Err(ProtocolError::ShortRead)
    } else if !valid_utf8(s.subrange(at, end)) {
        Err(ProtocolError::BadUtf8)
    } else {
        Ok((decode_utf8(s.subrange(at, end)), end + 1))
    }
}

/// `first_nul` stays inside the sequence and points at a zero byte, with none
/// before it.
pub proof fn lemma_first_nul(s: Seq<u8>, from: int)
    requires
        0 <= from <= s.len(),
    ensures
        from <= first_nul(s, from) <= s.len(),
        first_nul(s, from) < s.len() ==> s[first_nul(s, from)] == 0,
        forall|i: int| from <= i < first_nul(s, from) ==> s[i] != 0,
    decreases s.len() - from,
{
    if from < s.len() && s[from] != 0 {
        lemma_first_nul(s, from + 1);
    }
}

/// The first zero byte at or after `from` is at `end` when a zero stands
/// there and none stands between.
pub proof fn lemma_first_nul_is(s: Seq<u8>, from: int, end: int)
    requires
        0 <= from <= end < s.len(),
        s[end] == 0,
        forall|i: int| from <= i < end ==> s[i] != 0,
    ensures
        first_nul(s, from) == end,
    decreases end - from,
{
    if from < end {
        lemma_first_nul_is(s, from + 1, end);
    }
}

proof fn lemma_width_1_nul(c: u32)
    by (bit_vector)
    requires
        c <= 0x7F,
    ensures
        ((c & 0x7F) as u8 == 0) <==> c == 0,
{
}

proof fn lemma_continuation_not_nul(c: u32)
    by (bit_vector)
    ensures
        0xC0u8 | ((c >> 6) & 0x1F) as u8 != 0,
        0xE0u8 | ((c >> 12) & 0x0F) as u8 != 0,
        0xF0u8 | ((c >> 18) & 0x7) as u8 != 0,
        0x80u8 | (c & 0x3F) as u8 != 0,
        0x80u8 | ((c >> 6) & 0x3F) as u8 != 0,
        0x80u8 | ((c >> 12) & 0x3F) as u8 != 0,
{
}

/// The UTF-8 bytes of a string hold a zero byte exactly when the string
/// holds a NUL character.
pub proof fn lemma_encode_utf8_nul(s: Seq<char>)
    ensures
        cstr_ok(s) <==> (forall|i: int| 0 <= i < encode_utf8(s).len() ==> encode_utf8(s)[i] != 0),
    decreases s.len(),
{
    if s.len() > 0 {
        let c = s[0] as u32;
        let head = encode_scalar(c);
        let rest = s.drop_first();
        let tail = encode_utf8(rest);
        lemma_encode_utf8_nul(rest);
        char_is_scalar(s[0]);
        lemma_continuation_not_nul(c);
        if has_width_1_encoding(c) {
            lemma_width_1_nul(c);
        }
        assert(head.len() >= 1);
        assert((forall|i: int| 0 <= i < head.len() ==> head[i] != 0) <==> s[0] != '\0') by {
            if s[0] == '\0' {
                assert(c == 0);
                assert(head[0] == 0);
            } else {
                char_u32_cast(s[0], c);
                char_u32_cast('\0', 0u32);
                assert(c != 0);
            }
        }
        let all = encode_utf8(s);
        assert(all =~= head + tail);
        if cstr_ok(s) {
            assert(s[0] != '\0');
            assert(cstr_ok(rest)) by {
                assert forall|i: int| 0 <= i < rest.len() implies rest[i] != '\0' by {
                    assert(rest[i] == s[i + 1]);
                }
            }
            assert forall|i: int| 0 <= i < all.len() implies all[i] != 0 by {
                if i < head.len() {
                    assert(all[i] == head[i]);
                } else {
                    assert(all[i] == tail[i - head.len()]);
                }
            }
        }
        if forall|i: int| 0 <= i < all.len() ==> all[i] != 0 {
            assert forall|i: int| 0 <= i < head.len() implies head[i] != 0 by {
                assert(all[i] == head[i]);
            }
            assert forall|i: int| 0 <= i < tail.len() implies tail[i] != 0 by {
                assert(all[i + head.len()] == tail[i]);
            }
            assert(cstr_ok(rest));
            assert forall|i: int| 0 <= i < s.len() implies s[i] != '\0' by {
                if i > 0 {
                    assert(rest[i - 1] == s[i]);
                }
            }
        }
    }
}

/// Reading back a sent string gives the string, wherever its bytes stand in
/// a longer sequence.
pub proof fn lemma_cstr_round_trip(pre: Seq<u8>, s: Seq<char>, post: Seq<u8>)
    requires
        cstr_ok(s),
    ensures
        cstr_at(pre + cstr_bytes(s) + post, pre.len() as int) == Ok::<
            (Seq<char>, int),
            ProtocolError,
        >((s, (pre.len() + cstr_bytes(s).len()) as int)),
{
    let all = pre + cstr_bytes(s) + post;
    let at = pre.len() as int;
    let body = encode_utf8(s);
    let end = at + body.len();
    lemma_encode_utf8_nul(s);
    assert(all[end] == 0);
    assert forall|i: int| at <= i < end implies all[i] != 0 by {
        assert(all[i] == body[i - at]);
    }
    lemma_first_nul_is(all, at, end);
    assert(all.subrange(at, end) =~= body);
    encode_utf8_valid_utf8(s);
    encode_utf8_decode_utf8(s);
}

/// The string held by UTF-8 bytes.
///
/// Rests on `core::str::from_utf8`, which accepts exactly the byte sequences
/// that are UTF-8 and returns them unchanged as a string slice.
#[verifier::external_body]
pub(crate) fn utf8_to_string(bytes: &[u8]) -> (r: Option<String>)
    ensures
        r is Some <==> valid_utf8(bytes@),
        r matches Some(s) ==> encode_utf8(s@) == bytes@,
{
    match core::str::from_utf8(bytes) {
        Ok(s) => Some(String::from(s)),
        Err(_) => None,
    }
}

/// Finds the first zero byte at or after `from`.
pub fn find_nul(buf: &[u8], from: usize) -> (end: usize)
    requires
        from <= buf@.len(),
    ensures
        end == first_nul(buf@, from as int),
        from <= end <= buf@.len(),
{
    let mut i: usize = from;
    while i < buf.len() && buf[i] != 0
        invariant
            from <= i <= buf@.len(),
            first_nul(buf@, from as int) == first_nul(buf@, i as int),
        decreases buf@.len() - i,
    {
        i += 1;
    }
    i
}

/// Reads the string that starts at `at`; the second component is the
/// position behind its terminator.
pub fn read_cstr(buf: &[u8], at: usize) -> (r: Result<(String, usize), ProtocolError>)
    requires
        at <= buf@.len(),
    ensures
        match cstr_at(buf@, at as int) {
            Ok((chars, next)) => r matches Ok((s, n)) && s@ == chars && n == next,
            Err(e) => r == Err::<(String, usize), ProtocolError>(e),
        },
{
    let end = find_nul(buf, at);
    if end >= buf.len() {
        return Err(ProtocolError::ShortRead);
    }
    let body = slice_subrange(buf, at, end);
    match utf8_to_string(body) {
        None => Err(ProtocolError::BadUtf8),
        Some(s) => {
            proof {
                encode_utf8_decode_utf8(s@);
            }
            Ok((s, end + 1))
        },
    }
}

/// Appends a string and its terminator to `out`.
pub fn push_cstr(out: &mut Vec<u8>, s: &str)
    ensures
        final(out)@ == old(out)@ + cstr_bytes(s@),
{
    out.extend_from_slice(s.as_bytes());
    out.push(0u8);
    assert(out@ =~= old(out)@ + cstr_bytes(s@));
}

/// Whether `s` holds no NUL character.
pub fn str_is_cstr_ok(s: &str) -> (r: bool)
    ensures
        r == cstr_ok(s@),
{
    let bytes = s.as_bytes();
    let end = find_nul(bytes, 0);
    proof {
        lemma_first_nul(bytes@, 0);
        lemma_encode_utf8_nul(s@);
    }
    end == bytes.len()
}

/// A string read at `at` ends behind `at` and inside the sequence.
pub proof fn lemma_cstr_at_advances(s: Seq<u8>, at: int)
    requires
        cstr_at(s, at) is Ok,
    ensures
        at < cstr_at(s, at)->Ok_0.1 <= s.len(),
{
    lemma_first_nul(s, at);
}

/// A value that was read, provided that the reading ended where the
/// message does; else `LengthMismatch`.
pub open spec fn at_end<T>(b: Seq<u8>, pos: int, value: T) -> Result<T, ProtocolError> {
    if pos == b.len() {
        Ok(value)
    } else {
        Err(ProtocolError::LengthMismatch)
    }
}

/// The signed 16-bit value at `at` and the position behind it;
/// `ShortRead` where fewer than two bytes are left.
pub open spec fn i16_item(s: Seq<u8>, at: int) -> Result<(i16, int), ProtocolError> {
    if at < 0 || at + 2 > s.len() {
        Err(ProtocolError::ShortRead)
    } else {
        Ok((i16_at(s, at), at + 2))
    }
}

/// The signed 32-bit value at `at` and the position behind it;
/// `ShortRead` where fewer than four bytes are left.
pub open spec fn i32_item(s: Seq<u8>, at: int) -> Result<(i32, int), ProtocolError> {
    if at < 0 || at + 4 > s.len() {
        Err(ProtocolError::ShortRead)
    } else {
        Ok((i32_at(s, at), at + 4))
    }
}

/// A count: a 16-bit value that is not negative, else `LengthMismatch`.
pub open spec fn count_item(s: Seq<u8>, at: int) -> Result<(nat, int), ProtocolError> {
    match i16_item(s, at) {
        Err(e) => Err(e),
        Ok((n, next)) => if n < 0 {
            Err(ProtocolError::LengthMismatch)
        } else {
            Ok((n as nat, next))
        },
    }
}

/// A value with its length in front: the length -1 and nothing for NULL;
/// another negative length is a `LengthMismatch`, and a length beyond the
/// end a `ShortRead`.
pub open spec fn value_item(s: Seq<u8>, at: int) -> Result<(Option<Seq<u8>>, int), ProtocolError> {
    match i32_item(s, at) {
        Err(e) => Err(e),
        Ok((len, next)) => if len == -1 {
            Ok((None, next))
        } else if len < 0 {
            Err(ProtocolError::LengthMismatch)
        } else if next + len > s.len() {
            Err(ProtocolError::ShortRead)
        } else {
            Ok((Some(s.subrange(next, next + len)), next + len))
        },
    }
}

/// `n` 32-bit values, one after the other from `at`.
pub open spec fn i32_list(s: Seq<u8>, at: int, n: nat) -> Result<(Seq<i32>, int), ProtocolError>
    decreases n,
{
    if n == 0 {
        Ok((Seq::empty(), at))
    } else {
        match i32_list(s, at, (n - 1) as nat) {
            Err(e) => Err(e),
            Ok((items, next)) => match i32_item(s, next) {
                Err(e) => Err(e),
                Ok((item, end)) => Ok((items.push(item), end)),
            },
        }
    }
}

/// `n` values with their lengths, one after the other from `at`.
pub open spec fn value_list(s: Seq<u8>, at: int, n: nat) -> Result<
    (Seq<Option<Seq<u8>>>, int),
    ProtocolError,
>
    decreases n,
{
    if n == 0 {
        Ok((Seq::empty(), at))
    } else {
        match value_list(s, at, (n - 1) as nat) {
            Err(e) => Err(e),
            Ok((items, next)) => match value_item(s, next) {
                Err(e) => Err(e),
                Ok((item, end)) => Ok((items.push(item), end)),
            },
        }
    }
}

/// A list that fails at some length fails the same way at every greater
/// length.
pub proof fn lemma_i32_list_fails(s: Seq<u8>, at: int, k: nat, n: nat)
    requires
        i32_list(s, at, k) is Err,
        k <= n,
    ensures
        i32_list(s, at, n) == i32_list(s, at, k),
    decreases n,
{
    if k < n {
        lemma_i32_list_fails(s, at, k, (n - 1) as nat);
    }
}

/// A list that fails at some length fails the same way at every greater
/// length.
pub proof fn lemma_value_list_fails(s: Seq<u8>, at: int, k: nat, n: nat)
    requires
        value_list(s, at, k) is Err,
        k <= n,
    ensures
        value_list(s, at, n) == value_list(s, at, k),
    decreases n,
{
    if k < n {
        lemma_value_list_fails(s, at, k, (n - 1) as nat);
    }
}

/// Reads the signed 16-bit value at `at`, where two bytes are left.
pub fn take_i16(buf: &[u8], at: usize) -> (r: Result<(i16, usize), ProtocolError>)
    requires
        at <= buf@.len(),
    ensures
        match i16_item(buf@, at as int) {
            Ok((v, next)) => r matches Ok((got, n)) && got == v && n == next && next <= buf@.len(),
            Err(e) => r == Err::<(i16, usize), ProtocolError>(e),
        },
{
    if buf.len() - at < 2 {
        Err(ProtocolError::ShortRead)
    } else {
        Ok((read_i16(buf, at), at + 2))
    }
}

/// Reads the signed 32-bit value at `at`, where four bytes are left.
pub fn take_i32(buf: &[u8], at: usize) -> (r: Result<(i32, usize), ProtocolError>)
    requires
        at <= buf@.len(),
    ensures
        match i32_item(buf@, at as int) {
            Ok((v, next)) => r matches Ok((got, n)) && got == v && n == next && next <= buf@.len(),
            Err(e) => r == Err::<(i32, usize), ProtocolError>(e),
        },
{
    if buf.len() - at < 4 {
        Err(ProtocolError::ShortRead)
    } else {
        Ok((read_i32(buf, at), at + 4))
    }
}

/// Reads a count at `at`.
pub fn take_count(buf: &[u8], at: usize) -> (r: Result<(usize, usize), ProtocolError>)
    requires
        at <= buf@.len(),
    ensures
        match count_item(buf@, at as int) {
            Ok((n, next)) => r matches Ok((got, m)) && got == n && m == next && next
                <= buf@.len() && n <= 0x7fff,
            Err(e) => r == Err::<(usize, usize), ProtocolError>(e),
        },
{
    match take_i16(buf, at) {
        Err(e) => Err(e),
        Ok((n, next)) => if n < 0 {
            Err(ProtocolError::LengthMismatch)
        } else {
            Ok((n as usize, next))
        },
    }
}

/// Reads a value with its length in front at `at`.
pub fn take_value(buf: &[u8], at: usize) -> (r: Result<(Option<Vec<u8>>, usize), ProtocolError>)
    requires
        at <= buf@.len(),
    ensures
        match value_item(buf@, at as int) {
            Ok((v, next)) => r matches Ok((got, n)) && n == next && next <= buf@.len() && (match (
                v,
                got,
            ) {
                (Some(bytes), Some(g)) => g@ == bytes,
                (None, None) => true,
                _ => false,
            }),
            Err(e) => r == Err::<(Option<Vec<u8>>, usize), ProtocolError>(e),
        },
{
    match take_i32(buf, at) {
        Err(e) => Err(e),
        Ok((len, next)) => if len == -1 {
            Ok((None, next))
        } else if len < 0 {
            Err(ProtocolError::LengthMismatch)
        } else if buf.len() - next < len as usize {
            Err(ProtocolError::ShortRead)
        } else {
            let end = next + len as usize;
            let bytes = vstd::slice::slice_to_vec(slice_subrange(buf, next, end));
            assert(value_item(buf@, at as int) == Ok::<(Option<Seq<u8>>, int), ProtocolError>(
                (Some(bytes@), end as int),
            ));
            Ok((Some(bytes), end))
        },
    }
}

/// Reads `n` 32-bit values from `at`.
pub fn take_i32_list(buf: &[u8], at: usize, n: usize) -> (r: Result<
    (Vec<i32>, usize),
    ProtocolError,
>)
    requires
        at <= buf@.len(),
    ensures
        match i32_list(buf@, at as int, n as nat) {
            Ok((items, next)) => r matches Ok((got, m)) && got@ == items && m == next && next
                <= buf@.len(),
            Err(e) => r == Err::<(Vec<i32>, usize), ProtocolError>(e),
        },
{
    let mut items: Vec<i32> = Vec::new();
    let mut pos: usize = at;
    let mut i: usize = 0;
    while i < n
        invariant
            i <= n,
            pos <= buf@.len(),
            i32_list(buf@, at as int, i as nat) == Ok::<(Seq<i32>, int), ProtocolError>(
                (items@, pos as int),
            ),
        decreases n - i,
    {
        match take_i32(buf, pos) {
            Err(e) => {
                proof {
                    assert(i32_list(buf@, at as int, (i + 1) as nat) is Err);
                    lemma_i32_list_fails(buf@, at as int, (i + 1) as nat, n as nat);
                }
                return Err(e);
            },
            Ok((item, next)) => {
                let ghost so_far = items@;
                items.push(item);
                assert(((i + 1) as nat - 1) as nat == i as nat);
                assert(i32_list(buf@, at as int, (i + 1) as nat) == Ok::<
                    (Seq<i32>, int),
                    ProtocolError,
                >((so_far.push(item), next as int)));
                pos = next;
            },
        }
        i += 1;
    }
    Ok((items, pos))
}

/// The bytes held by a sequence of values, one for one.
pub open spec fn values_view(values: Seq<Option<Vec<u8>>>) -> Seq<Option<Seq<u8>>> {
    Seq::new(
        values.len(),
        |i: int|
            match values[i] {
                Some(bytes) => Some(bytes@),
                None => None,
            },
    )
}

/// Reads `n` values with their lengths from `at`.
pub fn take_value_list(buf: &[u8], at: usize, n: usize) -> (r: Result<
    (Vec<Option<Vec<u8>>>, usize),
    ProtocolError,
>)
    requires
        at <= buf@.len(),
    ensures
        match value_list(buf@, at as int, n as nat) {
            Ok((items, next)) => r matches Ok((got, m)) && values_view(got@) == items && m == next
                && next <= buf@.len(),
            Err(e) => r == Err::<(Vec<Option<Vec<u8>>>, usize), ProtocolError>(e),
        },
{
    let mut items: Vec<Option<Vec<u8>>> = Vec::new();
    let mut pos: usize = at;
    let mut i: usize = 0;
    assert(values_view(items@) =~= Seq::empty());
    while i < n
        invariant
            i <= n,
            pos <= buf@.len(),
            value_list(buf@, at as int, i as nat) == Ok::<
                (Seq<Option<Seq<u8>>>, int),
                ProtocolError,
            >((values_view(items@), pos as int)),
        decreases n - i,
    {
        let ghost so_far = values_view(items@);
        match take_value(buf, pos) {
            Err(e) => {
                proof {
                    assert(value_list(buf@, at as int, (i + 1) as nat) is Err);
                    lemma_value_list_fails(buf@, at as int, (i + 1) as nat, n as nat);
                }
                return Err(e);
            },
            Ok((item, next)) => {
                items.push(item);
                let ghost read = value_item(buf@, pos as int)->Ok_0.0;
                assert(values_view(items@) =~= so_far.push(read));
                assert(((i + 1) as nat - 1) as nat == i as nat);
                assert(value_list(buf@, at as int, (i + 1) as nat) == Ok::<
                    (Seq<Option<Seq<u8>>>, int),
                    ProtocolError,
                >((so_far.push(read), next as int)));
                pos = next;
            },
        }
        i += 1;
    }
    Ok((items, pos))
}

/// Whether the bytes `x` stand in `s` from position `at` on.
pub open spec fn occurs(s: Seq<u8>, at: int, x: Seq<u8>) -> bool {
    &&& 0 <= at
    &&& at + x.len() <= s.len()
    &&& s.subrange(at, at + x.len()) == x
}

/// Where two runs of bytes stand one after the other, each of them stands
/// in its place.
pub proof fn lemma_occurs_split(s: Seq<u8>, at: int, a: Seq<u8>, b: Seq<u8>)
    requires
        occurs(s, at, a + b),
    ensures
        occurs(s, at, a),
        occurs(s, at + a.len(), b),
{
    let whole = s.subrange(at, at + (a + b).len());
    assert(s.subrange(at, at + a.len()) =~= whole.subrange(0, a.len() as int));
    assert((a + b).subrange(0, a.len() as int) =~= a);
    assert(s.subrange(at + a.len(), at + a.len() + b.len()) =~= whole.subrange(
        a.len() as int,
        (a + b).len() as int,
    ));
    assert((a + b).subrange(a.len() as int, (a + b).len() as int) =~= b);
}

/// Every byte of a run that stands in `s` is the byte of `s` in its place.
pub proof fn lemma_occurs_index(s: Seq<u8>, at: int, x: Seq<u8>, i: int)
    requires
        occurs(s, at, x),
        0 <= i < x.len(),
    ensures
        s[at + i] == x[i],
{
    assert(s.subrange(at, at + x.len())[i] == s[at + i]);
}

/// The two bytes of a value make up the value.
pub proof fn lemma_u16_bytes_value(u: u16)
    ensures
        u16_bytes(u).len() == 2,
        u16_at(u16_bytes(u), 0) == u,
{
    reveal(u16_bytes);
    reveal(u16_at);
    let hi = (u / 0x100) as int;
    let lo = (u % 0x100) as int;
    assert(u16_bytes(u)[0] == hi);
    assert(u16_bytes(u)[1] == lo);
    assert(hi * 0x100 + lo == u);
}

/// The four bytes of a value make up the value.
pub proof fn lemma_u32_bytes_value(u: u32)
    ensures
        u32_bytes(u).len() == 4,
        u32_at(u32_bytes(u), 0) == u,
{
    reveal(u32_bytes);
    reveal(u32_at);
    let b0 = (u / 0x100_0000) as int;
    let b1 = (u / 0x1_0000 % 0x100) as int;
    let b2 = (u / 0x100 % 0x100) as int;
    let b3 = (u % 0x100) as int;
    assert(u32_bytes(u)[0] == b0);
    assert(u32_bytes(u)[1] == b1);
    assert(u32_bytes(u)[2] == b2);
    assert(u32_bytes(u)[3] == b3);
    assert(b0 * 0x100_0000 + b1 * 0x1_0000 + b2 * 0x100 + b3 == u) by {
        let x = u as int;
        assert(x == (x / 0x100) * 0x100 + x % 0x100);
        assert(x / 0x100 == (x / 0x100 / 0x100) * 0x100 + x / 0x100 % 0x100);
        assert(x / 0x100 / 0x100 == (x / 0x100 / 0x100 / 0x100) * 0x100 + x / 0x100 / 0x100
            % 0x100);
        assert(x / 0x100 / 0x100 == x / 0x1_0000);
        assert(x / 0x100 / 0x100 / 0x100 == x / 0x100_0000);
    }
}

/// How many bytes an integer takes.
pub proof fn lemma_widths()
    ensures
        forall|v: u16| #[trigger] u16_bytes(v).len() == 2,
        forall|v: u32| #[trigger] u32_bytes(v).len() == 4,
        forall|v: u64| #[trigger] u64_bytes(v).len() == 8,
        forall|v: i16| #[trigger] i16_bytes(v).len() == 2,
        forall|v: i32| #[trigger] i32_bytes(v).len() == 4,
        forall|v: i64| #[trigger] i64_bytes(v).len() == 8,
{
    reveal(u16_bytes);
    reveal(u32_bytes);
}

/// The bytes of a 16-bit value are read back as the value.
pub proof fn lemma_i16_item(s: Seq<u8>, at: int, v: i16)
    requires
        occurs(s, at, i16_bytes(v)),
    ensures
        i16_bytes(v).len() == 2,
        i16_item(s, at) == Ok::<(i16, int), ProtocolError>((v, at + 2)),
{
    let u = pattern16(v as int) as u16;
    lemma_u16_bytes_value(u);
    lemma_occurs_index(s, at, i16_bytes(v), 0);
    lemma_occurs_index(s, at, i16_bytes(v), 1);
    assert(u16_at(s, at) == u16_at(u16_bytes(u), 0)) by {
        reveal(u16_at);
    }
}

/// The bytes of a 32-bit value are read back as the value.
pub proof fn lemma_i32_item(s: Seq<u8>, at: int, v: i32)
    requires
        occurs(s, at, i32_bytes(v)),
    ensures
        i32_bytes(v).len() == 4,
        i32_item(s, at) == Ok::<(i32, int), ProtocolError>((v, at + 4)),
{
    let u = pattern32(v as int) as u32;
    lemma_u32_bytes_value(u);
    lemma_occurs_index(s, at, i32_bytes(v), 0);
    lemma_occurs_index(s, at, i32_bytes(v), 1);
    lemma_occurs_index(s, at, i32_bytes(v), 2);
    lemma_occurs_index(s, at, i32_bytes(v), 3);
    assert(u32_at(s, at) == u32_at(u32_bytes(u), 0)) by {
        reveal(u32_at);
    }
}

/// The bytes of a string that can be sent are read back as the string.
pub proof fn lemma_cstr_item(s: Seq<u8>, at: int, x: Seq<char>)
    requires
        cstr_ok(x),
        occurs(s, at, cstr_bytes(x)),
    ensures
        cstr_at(s, at) == Ok::<(Seq<char>, int), ProtocolError>((x, at + cstr_bytes(x).len())),
{
    let pre = s.subrange(0, at);
    let post = s.subrange(at + cstr_bytes(x).len(), s.len() as int);
    assert(s =~= pre + cstr_bytes(x) + post);
    lemma_cstr_round_trip(pre, x, post);
}

} // verus!
