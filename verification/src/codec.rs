//! Reading and writing the primitive fields of a message: big-endian integers and strings that
//! end in a zero byte.
//!
//! Messages are written to and read from a [`BytesMut`]. Its contents are modelled as a sequence
//! of bytes: writing appends to the sequence, reading takes from its front.

pub mod layout;
pub mod roundtrip;

use bytes::{Buf, BufMut, BytesMut};
use vstd::prelude::*;
use vstd::utf8;

verus! {

/// `bytes::BytesMut`, of which nothing is known but what [`buffer_bytes`] names.
#[verifier::external_type_specification]
#[verifier::external_body]
pub struct ExBytesMut(BytesMut);

/// The bytes that `buf` holds and that have not been read yet.
pub uninterp spec fn buffer_bytes(buf: BytesMut) -> Seq<u8>;

/// What `String::from_utf8_lossy` makes of bytes that are not valid UTF-8.
pub uninterp spec fn utf8_replaced(bytes: Seq<u8>) -> Seq<char>;

/// The text that `bytes` stand for: their UTF-8 decoding, with replacement characters where they
/// are not valid UTF-8.
pub open spec fn lossy_text(bytes: Seq<u8>) -> Seq<char> {
    if utf8::valid_utf8(bytes) {
        utf8::decode_utf8(bytes)
    } else {
        utf8_replaced(bytes)
    }
}

/// The two bytes of `n`, the most significant first.
pub open spec fn i16_bytes(n: i16) -> Seq<u8> {
    let u: int = if n < 0 {
        n + 0x1_0000
    } else {
        n as int
    };
    seq![(u / 0x100) as u8, (u % 0x100) as u8]
}

/// The four bytes of `n`, the most significant first.
pub open spec fn i32_bytes(n: i32) -> Seq<u8> {
    let u: int = if n < 0 {
        n + 0x1_0000_0000
    } else {
        n as int
    };
    seq![
        (u / 0x100_0000) as u8,
        (u / 0x1_0000 % 0x100) as u8,
        (u / 0x100 % 0x100) as u8,
        (u % 0x100) as u8,
    ]
}

/// The number that the first two bytes of `s` stand for.
pub open spec fn i16_at_front(s: Seq<u8>) -> i16 {
    let u: int = s[0] * 0x100 + s[1];
    (if u >= 0x8000 {
        u - 0x1_0000
    } else {
        u
    }) as i16
}

/// The number that the first four bytes of `s` stand for.
pub open spec fn i32_at_front(s: Seq<u8>) -> i32 {
    let u: int = s[0] * 0x100_0000 + s[1] * 0x1_0000 + s[2] * 0x100 + s[3];
    (if u >= 0x8000_0000 {
        u - 0x1_0000_0000
    } else {
        u
    }) as i32
}

/// The position of the first zero byte in `s`, or the length of `s` where there is none.
pub open spec fn nul_at(s: Seq<u8>) -> int
    decreases s.len(),
{
    if s.len() == 0 || s[0] == 0 {
        0
    } else {
        1 + nul_at(s.drop_first())
    }
}

/// Whether a zero-terminated string can be read from the front of `s`.
pub open spec fn has_cstring(s: Seq<u8>) -> bool {
    nul_at(s) < s.len()
}

/// The string at the front of `s`, or `None` where it is empty.
pub open spec fn cstring_at_front(s: Seq<u8>) -> Option<Seq<char>> {
    if nul_at(s) == 0 {
        None
    } else {
        Some(lossy_text(s.take(nul_at(s))))
    }
}

/// What follows the string at the front of `s` and its terminator.
pub open spec fn after_cstring(s: Seq<u8>) -> Seq<u8> {
    s.skip(nul_at(s) + 1)
}

/// The bytes of `text` and the terminator.
pub open spec fn cstring_bytes(text: Seq<char>) -> Seq<u8> {
    utf8::encode_utf8(text).push(0u8)
}

/// The characters of an optional string.
pub open spec fn option_text(s: Option<String>) -> Option<Seq<char>> {
    match s {
        Some(t) => Some(t@),
        None => None,
    }
}

/// An optional string as it is written: the empty string stands for `None`.
pub open spec fn text_or_empty(s: Option<Seq<char>>) -> Seq<char> {
    match s {
        Some(t) => t,
        None => seq![],
    }
}

/// The bytes of the numbers in `s`, one after the other.
pub open spec fn i16s_bytes(s: Seq<i16>) -> Seq<u8>
    decreases s.len(),
{
    if s.len() == 0 {
        seq![]
    } else {
        i16_bytes(s[0]) + i16s_bytes(s.drop_first())
    }
}

/// The bytes of the numbers in `s`, one after the other.
pub open spec fn i32s_bytes(s: Seq<i32>) -> Seq<u8>
    decreases s.len(),
{
    if s.len() == 0 {
        seq![]
    } else {
        i32_bytes(s[0]) + i32s_bytes(s.drop_first())
    }
}

/// The bytes of a length-prefixed value: its length and its bytes, or a length of -1 where there
/// is none.
pub open spec fn field_bytes(field: Option<Seq<u8>>) -> Seq<u8> {
    match field {
        Some(data) => i32_bytes(data.len() as i32) + data,
        None => i32_bytes((-1) as i32),
    }
}

/// The bytes of the fields in `s`, one after the other.
pub open spec fn fields_bytes(s: Seq<Option<Seq<u8>>>) -> Seq<u8>
    decreases s.len(),
{
    if s.len() == 0 {
        seq![]
    } else {
        field_bytes(s[0]) + fields_bytes(s.drop_first())
    }
}

/// How many bytes the fields in `s` take up: four for the length of each, and their data.
pub open spec fn fields_len(s: Seq<Option<Seq<u8>>>) -> nat
    decreases s.len(),
{
    if s.len() == 0 {
        0
    } else {
        4 + (match s[0] {
            Some(data) => data.len(),
            None => 0,
        }) + fields_len(s.drop_first())
    }
}

/// The bytes of a list: the number of its items, which wraps where it does not fit, and the items.
pub open spec fn i16_list_bytes(s: Seq<i16>) -> Seq<u8> {
    i16_bytes(s.len() as i16) + i16s_bytes(s)
}

/// The bytes of a list: the number of its items, which wraps where it does not fit, and the items.
pub open spec fn i32_list_bytes(s: Seq<i32>) -> Seq<u8> {
    i16_bytes(s.len() as i16) + i32s_bytes(s)
}

/// The bytes of a list: the number of its items, which wraps where it does not fit, and the items.
pub open spec fn field_list_bytes(s: Seq<Option<Seq<u8>>>) -> Seq<u8> {
    i16_bytes(s.len() as i16) + fields_bytes(s)
}

/// Whether `s` begins with the number of items of a list.
pub open spec fn has_list_count(s: Seq<u8>) -> bool {
    s.len() >= 2 && i16_at_front(s) >= 0
}

/// Whether a list can be read from the front of `s`.
pub open spec fn has_i16_list(s: Seq<u8>) -> bool {
    has_list_count(s) && s.len() >= 2 + 2 * i16_at_front(s)
}

/// Whether a list can be read from the front of `s`.
pub open spec fn has_i32_list(s: Seq<u8>) -> bool {
    has_list_count(s) && s.len() >= 2 + 4 * i16_at_front(s)
}

/// The list at the front of `s`.
pub open spec fn i16_list_at_front(s: Seq<u8>) -> Seq<i16> {
    Seq::new(i16_at_front(s) as nat, |i: int| i16_at_front(s.skip(2 + 2 * i)))
}

/// The list at the front of `s`.
pub open spec fn i32_list_at_front(s: Seq<u8>) -> Seq<i32> {
    Seq::new(i16_at_front(s) as nat, |i: int| i32_at_front(s.skip(2 + 4 * i)))
}

/// What follows the list at the front of `s`.
pub open spec fn after_i16_list(s: Seq<u8>) -> Seq<u8> {
    s.skip(2 + 2 * i16_at_front(s))
}

/// What follows the list at the front of `s`.
pub open spec fn after_i32_list(s: Seq<u8>) -> Seq<u8> {
    s.skip(2 + 4 * i16_at_front(s))
}

/// Whether a length-prefixed value can be read from the front of `s`.
pub open spec fn has_field(s: Seq<u8>) -> bool {
    s.len() >= 4 && s.len() >= 4 + i32_at_front(s)
}

/// The length-prefixed value at the front of `s`. A negative length stands for `None`.
pub open spec fn field_at_front(s: Seq<u8>) -> Option<Seq<u8>> {
    if i32_at_front(s) >= 0 {
        Some(s.subrange(4, 4 + i32_at_front(s)))
    } else {
        None
    }
}

/// What follows the length-prefixed value at the front of `s`.
pub open spec fn after_field(s: Seq<u8>) -> Seq<u8> {
    if i32_at_front(s) >= 0 {
        s.skip(4 + i32_at_front(s))
    } else {
        s.skip(4)
    }
}

/// Whether `n` length-prefixed values can be read from the front of `s`.
pub open spec fn has_fields(s: Seq<u8>, n: nat) -> bool
    decreases n,
{
    n == 0 || (has_field(s) && has_fields(after_field(s), (n - 1) as nat))
}

/// The `n` length-prefixed values at the front of `s`.
pub open spec fn fields_at_front(s: Seq<u8>, n: nat) -> Seq<Option<Seq<u8>>>
    decreases n,
{
    if n == 0 {
        seq![]
    } else {
        seq![field_at_front(s)] + fields_at_front(after_field(s), (n - 1) as nat)
    }
}

/// What follows the `n` length-prefixed values at the front of `s`.
pub open spec fn after_fields(s: Seq<u8>, n: nat) -> Seq<u8>
    decreases n,
{
    if n == 0 {
        s
    } else {
        after_fields(after_field(s), (n - 1) as nat)
    }
}

/// Whether a list of length-prefixed values can be read from the front of `s`.
pub open spec fn has_field_list(s: Seq<u8>) -> bool {
    has_list_count(s) && has_fields(s.skip(2), i16_at_front(s) as nat)
}

/// The list of length-prefixed values at the front of `s`.
pub open spec fn field_list_at_front(s: Seq<u8>) -> Seq<Option<Seq<u8>>> {
    fields_at_front(s.skip(2), i16_at_front(s) as nat)
}

/// What follows the list of length-prefixed values at the front of `s`.
pub open spec fn after_field_list(s: Seq<u8>) -> Seq<u8> {
    after_fields(s.skip(2), i16_at_front(s) as nat)
}

/// The bytes of an optional value.
pub open spec fn option_bytes(data: Option<Vec<u8>>) -> Option<Seq<u8>> {
    match data {
        Some(d) => Some(d@),
        None => None,
    }
}

/// The bytes of optional values.
pub open spec fn options_bytes(s: Seq<Option<Vec<u8>>>) -> Seq<Option<Seq<u8>>> {
    s.map_values(|data: Option<Vec<u8>>| option_bytes(data))
}

/// Whether an optional string can be told from every other one once it is written: it is not the
/// empty string, which reads as `None`, and it holds no zero character, which would end it.
pub open spec fn faithful_name(s: Option<Seq<char>>) -> bool {
    s matches Some(t) ==> t.len() > 0 && !t.contains('\0')
}

/// Whether the length of an optional value fits its field.
pub open spec fn faithful_field(field: Option<Seq<u8>>) -> bool {
    field matches Some(data) ==> data.len() <= i32::MAX
}

/// Whether the string at the front of `s` is the UTF-8 form of some text.
pub open spec fn canonical_cstring(s: Seq<u8>) -> bool {
    utf8::valid_utf8(s.take(nul_at(s)))
}

/// Whether the `n` length-prefixed values at the front of `s` have lengths that are not below -1.
pub open spec fn canonical_fields(s: Seq<u8>, n: nat) -> bool
    decreases n,
{
    n == 0 || (i32_at_front(s) >= -1 && canonical_fields(after_field(s), (n - 1) as nat))
}

/// Whether the list at the front of `s` has value lengths that are not below -1.
pub open spec fn canonical_field_list(s: Seq<u8>) -> bool {
    canonical_fields(s.skip(2), i16_at_front(s) as nat)
}

// ---------------------------------------------------------------------------------------------
// Calls into `bytes` and `std`
// ---------------------------------------------------------------------------------------------

/// `BufMut::put_u8` on a `BytesMut` appends the byte. The contents of a `BytesMut` are limited to
/// `isize::MAX` bytes.
#[verifier::external_body]
pub(crate) fn put_u8(buf: &mut BytesMut, n: u8)
    requires
        buffer_bytes(*old(buf)).len() + 1 <= isize::MAX,
    ensures
        buffer_bytes(*final(buf)) == buffer_bytes(*old(buf)).push(n),
{
    buf.put_u8(n)
}

/// `BufMut::put_i16` on a `BytesMut` appends the two bytes of the number, big-endian.
#[verifier::external_body]
pub(crate) fn put_i16(buf: &mut BytesMut, n: i16)
    requires
        buffer_bytes(*old(buf)).len() + 2 <= isize::MAX,
    ensures
        buffer_bytes(*final(buf)) == buffer_bytes(*old(buf)) + i16_bytes(n),
{
    buf.put_i16(n)
}

/// `BufMut::put_i32` on a `BytesMut` appends the four bytes of the number, big-endian.
#[verifier::external_body]
pub(crate) fn put_i32(buf: &mut BytesMut, n: i32)
    requires
        buffer_bytes(*old(buf)).len() + 4 <= isize::MAX,
    ensures
        buffer_bytes(*final(buf)) == buffer_bytes(*old(buf)) + i32_bytes(n),
{
    buf.put_i32(n)
}

/// `BufMut::put_slice` on a `BytesMut` appends the bytes of the slice.
#[verifier::external_body]
pub(crate) fn put_slice(buf: &mut BytesMut, src: &[u8])
    requires
        buffer_bytes(*old(buf)).len() + src@.len() <= isize::MAX,
    ensures
        buffer_bytes(*final(buf)) == buffer_bytes(*old(buf)) + src@,
{
    buf.put_slice(src)
}

/// `Buf::get_u8` on a `BytesMut` takes the first byte off. It panics on an empty buffer.
#[verifier::external_body]
pub(crate) fn get_u8(buf: &mut BytesMut) -> (n: u8)
    requires
        buffer_bytes(*old(buf)).len() >= 1,
    ensures
        n == buffer_bytes(*old(buf))[0],
        buffer_bytes(*final(buf)) == buffer_bytes(*old(buf)).skip(1),
{
    buf.get_u8()
}

/// `Buf::get_i16` on a `BytesMut` takes the first two bytes off and reads them as a big-endian
/// number. It panics where there are fewer.
#[verifier::external_body]
pub(crate) fn get_i16(buf: &mut BytesMut) -> (n: i16)
    requires
        buffer_bytes(*old(buf)).len() >= 2,
    ensures
        n == i16_at_front(buffer_bytes(*old(buf))),
        buffer_bytes(*final(buf)) == buffer_bytes(*old(buf)).skip(2),
{
    buf.get_i16()
}

/// `Buf::get_i32` on a `BytesMut` takes the first four bytes off and reads them as a big-endian
/// number. It panics where there are fewer.
#[verifier::external_body]
pub(crate) fn get_i32(buf: &mut BytesMut) -> (n: i32)
    requires
        buffer_bytes(*old(buf)).len() >= 4,
    ensures
        n == i32_at_front(buffer_bytes(*old(buf))),
        buffer_bytes(*final(buf)) == buffer_bytes(*old(buf)).skip(4),
{
    buf.get_i32()
}

/// `BytesMut::split_to` takes the first `at` bytes off, which are returned. It panics where there
/// are fewer.
#[verifier::external_body]
pub(crate) fn split_to(buf: &mut BytesMut, at: usize) -> (head: Vec<u8>)
    requires
        at <= buffer_bytes(*old(buf)).len(),
    ensures
        head@ == buffer_bytes(*old(buf)).take(at as int),
        buffer_bytes(*final(buf)) == buffer_bytes(*old(buf)).skip(at as int),
{
    buf.split_to(at).to_vec()
}

/// `Buf::chunk` on a `BytesMut` lends out everything that it holds.
#[verifier::external_body]
pub(crate) fn chunk(buf: &BytesMut) -> (bytes: &[u8])
    ensures
        bytes@ == buffer_bytes(*buf),
{
    buf.chunk()
}

/// `String::from_utf8_lossy` decodes valid UTF-8. What it returns for other bytes, with U+FFFD in
/// place of invalid sequences, has a name only.
#[verifier::external_body]
pub(crate) fn from_utf8_lossy(bytes: &[u8]) -> (text: String)
    ensures
        text@ == (if utf8::valid_utf8(bytes@) {
            utf8::decode_utf8(bytes@)
        } else {
            utf8_replaced(bytes@)
        }),
{
    String::from_utf8_lossy(bytes).into_owned()
}

// ---------------------------------------------------------------------------------------------
// Strings
// ---------------------------------------------------------------------------------------------

/// `nul_at` is bounded, finds a zero byte, and finds nothing before its result.
pub proof fn lemma_nul_at(s: Seq<u8>)
    ensures
        0 <= nul_at(s) <= s.len(),
        nul_at(s) < s.len() ==> s[nul_at(s)] == 0,
        forall|i: int| 0 <= i < nul_at(s) ==> s[i] != 0,
    decreases s.len(),
{
    if s.len() > 0 && s[0] != 0 {
        let rest = s.drop_first();
        lemma_nul_at(rest);
        assert forall|i: int| 0 <= i < nul_at(s) implies s[i] != 0 by {
            if i > 0 {
                assert(s[i] == rest[i - 1]);
            }
        }
        if nul_at(s) < s.len() {
            assert(s[nul_at(s)] == rest[nul_at(rest)]);
        }
    }
}

/// A position that holds the first zero byte is `nul_at`.
pub proof fn lemma_nul_at_unique(s: Seq<u8>, i: int)
    requires
        0 <= i <= s.len(),
        i < s.len() ==> s[i] == 0,
        forall|j: int| 0 <= j < i ==> s[j] != 0,
    ensures
        nul_at(s) == i,
{
    lemma_nul_at(s);
    if nul_at(s) < i {
        assert(s[nul_at(s)] != 0);
    }
}

/// Takes a zero-terminated string off the front of `buf`. The empty string is read as `None`.
pub(crate) fn get_cstring(buf: &mut BytesMut) -> (r: Option<String>)
    requires
        has_cstring(buffer_bytes(*old(buf))),
    ensures
        option_text(r) == cstring_at_front(buffer_bytes(*old(buf))),
        buffer_bytes(*final(buf)) == after_cstring(buffer_bytes(*old(buf))),
{
    let ghost all = buffer_bytes(*buf);
    let mut i: usize = 0;
    proof {
        lemma_nul_at(all);
    }
    let n: usize = chunk(buf).len();
    while i < n && chunk(buf)[i] != 0
        invariant
            all == buffer_bytes(*buf),
            n == all.len(),
            i <= n,
            forall|j: int| 0 <= j < i ==> all[j] != 0,
        decreases n - i,
    {
        i += 1;
    }
    proof {
        lemma_nul_at_unique(all, i as int);
    }
    let head = split_to(buf, i + 1);
    if i == 0 {
        None
    } else {
        let bytes = vstd::slice::slice_subrange(head.as_slice(), 0, i);
        assert(bytes@ =~= all.take(i as int));
        Some(from_utf8_lossy(bytes))
    }
}

/// Appends `input` and a zero byte to `buf`.
pub(crate) fn put_cstring(buf: &mut BytesMut, input: &str)
    requires
        buffer_bytes(*old(buf)).len() + cstring_bytes(input@).len() <= isize::MAX,
    ensures
        buffer_bytes(*final(buf)) == buffer_bytes(*old(buf)) + cstring_bytes(input@),
{
    put_slice(buf, input.as_bytes());
    put_u8(buf, 0);
    assert(buffer_bytes(*buf) =~= buffer_bytes(*old(buf)) + cstring_bytes(input@));
}

/// Appends an optional string and a zero byte to `buf`; `None` is written as the empty string.
pub(crate) fn put_option_cstring(buf: &mut BytesMut, input: &Option<String>)
    requires
        buffer_bytes(*old(buf)).len() + cstring_bytes(text_or_empty(option_text(*input))).len()
            <= isize::MAX,
    ensures
        buffer_bytes(*final(buf)) == buffer_bytes(*old(buf)) + cstring_bytes(
            text_or_empty(option_text(*input)),
        ),
{
    match input {
        Some(text) => put_cstring(buf, text.as_str()),
        None => {
            proof {
                reveal_strlit("");
                assert(""@ =~= seq![]);
            }
            put_cstring(buf, "")
        },
    }
}

/// How many bytes an optional string takes up, its terminator counted.
pub(crate) fn option_string_len(s: &Option<String>) -> (n: usize)
    requires
        cstring_bytes(text_or_empty(option_text(*s))).len() <= usize::MAX,
    ensures
        n == cstring_bytes(text_or_empty(option_text(*s))).len(),
{
    match s {
        Some(text) => 1 + text.as_str().as_bytes().len(),
        None => 1,
    }
}

// ---------------------------------------------------------------------------------------------
// Lists
// ---------------------------------------------------------------------------------------------

/// Appends a list of numbers to `buf`.
pub(crate) fn put_i16_list(buf: &mut BytesMut, list: &Vec<i16>)
    requires
        buffer_bytes(*old(buf)).len() + i16_list_bytes(list@).len() <= isize::MAX,
    ensures
        buffer_bytes(*final(buf)) == buffer_bytes(*old(buf)) + i16_list_bytes(list@),
{
    let ghost target = buffer_bytes(*buf) + i16_list_bytes(list@);
    put_i16(buf, list.len() as i16);
    let mut i: usize = 0;
    assert(list@.skip(0) =~= list@);
    assert(target =~= buffer_bytes(*buf) + i16s_bytes(list@));
    while i < list.len()
        invariant
            i <= list@.len(),
            target.len() <= isize::MAX,
            target == buffer_bytes(*buf) + i16s_bytes(list@.skip(i as int)),
        decreases list@.len() - i,
    {
        assert(list@.skip(i as int).drop_first() =~= list@.skip(i + 1));
        put_i16(buf, list[i]);
        i += 1;
        assert(target =~= buffer_bytes(*buf) + i16s_bytes(list@.skip(i as int)));
    }
    assert(target =~= buffer_bytes(*buf));
}

/// Appends a list of numbers to `buf`.
pub(crate) fn put_i32_list(buf: &mut BytesMut, list: &Vec<i32>)
    requires
        buffer_bytes(*old(buf)).len() + i32_list_bytes(list@).len() <= isize::MAX,
    ensures
        buffer_bytes(*final(buf)) == buffer_bytes(*old(buf)) + i32_list_bytes(list@),
{
    let ghost target = buffer_bytes(*buf) + i32_list_bytes(list@);
    put_i16(buf, list.len() as i16);
    let mut i: usize = 0;
    assert(list@.skip(0) =~= list@);
    assert(target =~= buffer_bytes(*buf) + i32s_bytes(list@));
    while i < list.len()
        invariant
            i <= list@.len(),
            target.len() <= isize::MAX,
            target == buffer_bytes(*buf) + i32s_bytes(list@.skip(i as int)),
        decreases list@.len() - i,
    {
        assert(list@.skip(i as int).drop_first() =~= list@.skip(i + 1));
        put_i32(buf, list[i]);
        i += 1;
        assert(target =~= buffer_bytes(*buf) + i32s_bytes(list@.skip(i as int)));
    }
    assert(target =~= buffer_bytes(*buf));
}

/// Appends a list of length-prefixed values to `buf`.
pub(crate) fn put_field_list(buf: &mut BytesMut, list: &Vec<Option<Vec<u8>>>)
    requires
        buffer_bytes(*old(buf)).len() + field_list_bytes(options_bytes(list@)).len() <= isize::MAX,
    ensures
        buffer_bytes(*final(buf)) == buffer_bytes(*old(buf)) + field_list_bytes(
            options_bytes(list@),
        ),
{
    let ghost fields = options_bytes(list@);
    let ghost target = buffer_bytes(*buf) + field_list_bytes(fields);
    put_i16(buf, list.len() as i16);
    let mut i: usize = 0;
    assert(fields.skip(0) =~= fields);
    assert(target =~= buffer_bytes(*buf) + fields_bytes(fields));
    while i < list.len()
        invariant
            i <= list@.len(),
            fields == options_bytes(list@),
            target.len() <= isize::MAX,
            target == buffer_bytes(*buf) + fields_bytes(fields.skip(i as int)),
        decreases list@.len() - i,
    {
        let ghost before = buffer_bytes(*buf);
        assert(fields.skip(i as int).drop_first() =~= fields.skip(i + 1));
        assert(fields.skip(i as int)[0] == option_bytes(list@[i as int]));
        match &list[i] {
            Some(data) => {
                put_i32(buf, data.len() as i32);
                put_slice(buf, data.as_slice());
            },
            None => {
                put_i32(buf, -1);
            },
        }
        assert(buffer_bytes(*buf) =~= before + field_bytes(fields[i as int]));
        i += 1;
        assert(target =~= buffer_bytes(*buf) + fields_bytes(fields.skip(i as int)));
    }
    assert(target =~= buffer_bytes(*buf));
}

/// How many bytes a list of length-prefixed values takes up without its item count.
pub(crate) fn field_lengths(list: &Vec<Option<Vec<u8>>>) -> (n: usize)
    requires
        fields_len(options_bytes(list@)) <= usize::MAX,
    ensures
        n == fields_len(options_bytes(list@)),
{
    let ghost fields = options_bytes(list@);
    let mut n: usize = 0;
    let mut i: usize = 0;
    assert(fields.skip(0) =~= fields);
    while i < list.len()
        invariant
            i <= list@.len(),
            fields == options_bytes(list@),
            fields_len(fields) <= usize::MAX,
            fields_len(fields) == n + fields_len(fields.skip(i as int)),
        decreases list@.len() - i,
    {
        assert(fields.skip(i as int).drop_first() =~= fields.skip(i + 1));
        assert(fields.skip(i as int)[0] == option_bytes(list@[i as int]));
        n += 4;
        if let Some(data) = &list[i] {
            n += data.len();
        }
        i += 1;
    }
    n
}

/// A number of bytes with `n` more, or `None` where that does not fit.
pub open spec fn count_of(total: Option<usize>, n: nat) -> Option<usize> {
    match total {
        Some(k) => if k + n <= usize::MAX {
            Some((k + n) as usize)
        } else {
            None
        },
        None => None,
    }
}

/// Counts `n` bytes more.
pub(crate) fn count_bytes(total: Option<usize>, n: usize) -> (r: Option<usize>)
    ensures
        r == count_of(total, n as nat),
{
    match total {
        Some(k) => k.checked_add(n),
        None => None,
    }
}

/// Counts the bytes of a string and its terminator.
pub(crate) fn count_cstring(total: Option<usize>, s: &str) -> (r: Option<usize>)
    ensures
        r == count_of(total, cstring_bytes(s@).len()),
{
    count_bytes(count_bytes(total, s.as_bytes().len()), 1)
}

/// Counts the bytes of an optional string and its terminator.
pub(crate) fn count_option_cstring(total: Option<usize>, s: &Option<String>) -> (r: Option<usize>)
    ensures
        r == count_of(total, cstring_bytes(text_or_empty(option_text(*s))).len()),
{
    match s {
        Some(text) => count_cstring(total, text.as_str()),
        None => count_bytes(total, 1),
    }
}

/// Counts the bytes of a list of numbers.
pub(crate) fn count_i16_list(total: Option<usize>, list: &Vec<i16>) -> (r: Option<usize>)
    ensures
        r == count_of(total, i16_list_bytes(list@).len()),
{
    proof {
        roundtrip::lemma_i16s_bytes_len(list@);
    }
    count_bytes(count_bytes(count_bytes(total, 2), list.len()), list.len())
}

/// Counts the bytes of a list of numbers.
pub(crate) fn count_i32_list(total: Option<usize>, list: &Vec<i32>) -> (r: Option<usize>)
    ensures
        r == count_of(total, i32_list_bytes(list@).len()),
{
    proof {
        roundtrip::lemma_i32s_bytes_len(list@);
    }
    let half = count_bytes(count_bytes(count_bytes(total, 2), list.len()), list.len());
    count_bytes(count_bytes(half, list.len()), list.len())
}

/// Counts the bytes of a list of length-prefixed values.
pub(crate) fn count_field_list(
    total: Option<usize>,
    list: &Vec<Option<Vec<u8>>>,
) -> (r: Option<usize>)
    ensures
        r == count_of(total, field_list_bytes(options_bytes(list@)).len()),
{
    let ghost fields = options_bytes(list@);
    let mut r: Option<usize> = count_bytes(total, 2);
    let mut i: usize = 0;
    assert(fields.skip(0) =~= fields);
    proof {
        roundtrip::lemma_fields_bytes_len(fields);
    }
    while i < list.len()
        invariant
            i <= list@.len(),
            fields == options_bytes(list@),
            count_of(total, field_list_bytes(fields).len()) == count_of(
                r,
                fields_len(fields.skip(i as int)),
            ),
        decreases list@.len() - i,
    {
        assert(fields.skip(i as int).drop_first() =~= fields.skip(i + 1));
        assert(fields.skip(i as int)[0] == option_bytes(list@[i as int]));
        r = count_bytes(r, 4);
        if let Some(data) = &list[i] {
            r = count_bytes(r, data.len());
        }
        i += 1;
    }
    r
}

/// Takes a list of numbers off the front of `buf`.
pub(crate) fn get_i16_list(buf: &mut BytesMut) -> (list: Vec<i16>)
    requires
        has_i16_list(buffer_bytes(*old(buf))),
    ensures
        list@ == i16_list_at_front(buffer_bytes(*old(buf))),
        buffer_bytes(*final(buf)) == after_i16_list(buffer_bytes(*old(buf))),
{
    let ghost all = buffer_bytes(*buf);
    let count: i16 = get_i16(buf);
    let n: usize = count as usize;
    let mut list: Vec<i16> = Vec::with_capacity(n);
    let mut i: usize = 0;
    while i < n
        invariant
            i <= n,
            n == i16_at_front(all),
            has_i16_list(all),
            buffer_bytes(*buf) == all.skip(2 + 2 * i),
            list@.len() == i,
            forall|j: int| 0 <= j < i ==> list@[j] == i16_at_front(all.skip(2 + 2 * j)),
        decreases n - i,
    {
        list.push(get_i16(buf));
        assert(all.skip(2 + 2 * i).skip(2) =~= all.skip(2 + 2 * (i + 1)));
        i += 1;
    }
    assert(list@ =~= i16_list_at_front(all));
    list
}

/// Takes a list of numbers off the front of `buf`.
pub(crate) fn get_i32_list(buf: &mut BytesMut) -> (list: Vec<i32>)
    requires
        has_i32_list(buffer_bytes(*old(buf))),
    ensures
        list@ == i32_list_at_front(buffer_bytes(*old(buf))),
        buffer_bytes(*final(buf)) == after_i32_list(buffer_bytes(*old(buf))),
{
    let ghost all = buffer_bytes(*buf);
    let count: i16 = get_i16(buf);
    let n: usize = count as usize;
    let mut list: Vec<i32> = Vec::with_capacity(n);
    let mut i: usize = 0;
    while i < n
        invariant
            i <= n,
            n == i16_at_front(all),
            has_i32_list(all),
            buffer_bytes(*buf) == all.skip(2 + 4 * i),
            list@.len() == i,
            forall|j: int| 0 <= j < i ==> list@[j] == i32_at_front(all.skip(2 + 4 * j)),
        decreases n - i,
    {
        list.push(get_i32(buf));
        assert(all.skip(2 + 4 * i).skip(4) =~= all.skip(2 + 4 * (i + 1)));
        i += 1;
    }
    assert(list@ =~= i32_list_at_front(all));
    list
}

/// Takes a list of length-prefixed values off the front of `buf`.
pub(crate) fn get_field_list(buf: &mut BytesMut) -> (list: Vec<Option<Vec<u8>>>)
    requires
        has_field_list(buffer_bytes(*old(buf))),
    ensures
        options_bytes(list@) == field_list_at_front(buffer_bytes(*old(buf))),
        buffer_bytes(*final(buf)) == after_field_list(buffer_bytes(*old(buf))),
{
    let ghost all = buffer_bytes(*buf);
    let count: i16 = get_i16(buf);
    let n: usize = count as usize;
    let mut list: Vec<Option<Vec<u8>>> = Vec::with_capacity(n);
    let mut i: usize = 0;
    assert(options_bytes(list@) =~= seq![]);
    assert(field_list_at_front(all) =~= options_bytes(list@) + fields_at_front(
        all.skip(2),
        n as nat,
    ));
    while i < n
        invariant
            i <= n,
            has_fields(buffer_bytes(*buf), (n - i) as nat),
            field_list_at_front(all) == options_bytes(list@) + fields_at_front(
                buffer_bytes(*buf),
                (n - i) as nat,
            ),
            after_field_list(all) == after_fields(buffer_bytes(*buf), (n - i) as nat),
        decreases n - i,
    {
        let ghost before = buffer_bytes(*buf);
        let ghost done = options_bytes(list@);
        let len: i32 = get_i32(buf);
        if len >= 0 {
            let data = split_to(buf, len as usize);
            assert(data@ =~= before.subrange(4, 4 + len));
            assert(buffer_bytes(*buf) =~= before.skip(4 + len));
            list.push(Some(data));
        } else {
            list.push(None);
        }
        assert(options_bytes(list@) =~= done.push(field_at_front(before)));
        assert(buffer_bytes(*buf) == after_field(before));
        i += 1;
        assert(done + (seq![field_at_front(before)] + fields_at_front(
            after_field(before),
            (n - i) as nat,
        )) =~= options_bytes(list@) + fields_at_front(buffer_bytes(*buf), (n - i) as nat));
    }
    assert(field_list_at_front(all) =~= options_bytes(list@));
    list
}

// ---------------------------------------------------------------------------------------------
// Skipping over what could be read
// ---------------------------------------------------------------------------------------------

/// The number that the first two bytes of `bytes` stand for.
pub(crate) fn peek_i16(bytes: &[u8]) -> (n: i16)
    requires
        bytes@.len() >= 2,
    ensures
        n == i16_at_front(bytes@),
{
    let u: i32 = bytes[0] as i32 * 0x100 + bytes[1] as i32;
    if u >= 0x8000 {
        (u - 0x1_0000) as i16
    } else {
        u as i16
    }
}

/// The number that the first four bytes of `bytes` stand for.
pub(crate) fn peek_i32(bytes: &[u8]) -> (n: i32)
    requires
        bytes@.len() >= 4,
    ensures
        n == i32_at_front(bytes@),
{
    let u: i64 = bytes[0] as i64 * 0x100_0000 + bytes[1] as i64 * 0x1_0000 + bytes[2] as i64 * 0x100
        + bytes[3] as i64;
    if u >= 0x8000_0000 {
        (u - 0x1_0000_0000) as i32
    } else {
        u as i32
    }
}

/// What follows the first `n` bytes, where there are as many.
pub(crate) fn skip_bytes(bytes: &[u8], n: usize) -> (r: Option<&[u8]>)
    ensures
        r is Some <==> n <= bytes@.len(),
        r matches Some(rest) ==> rest@ == bytes@.skip(n as int),
{
    if n <= bytes.len() {
        Some(vstd::slice::slice_subrange(bytes, n, bytes.len()))
    } else {
        None
    }
}

/// What follows the string at the front of `bytes`, where there is one.
pub(crate) fn skip_cstring(bytes: &[u8]) -> (r: Option<&[u8]>)
    ensures
        r is Some <==> has_cstring(bytes@),
        r matches Some(rest) ==> rest@ == after_cstring(bytes@),
{
    let mut i: usize = 0;
    while i < bytes.len() && bytes[i] != 0
        invariant
            i <= bytes@.len(),
            forall|j: int| 0 <= j < i ==> bytes@[j] != 0,
        decreases bytes@.len() - i,
    {
        i += 1;
    }
    proof {
        lemma_nul_at_unique(bytes@, i as int);
    }
    if i < bytes.len() {
        skip_bytes(bytes, i + 1)
    } else {
        None
    }
}

/// What follows the list at the front of `bytes`, where there is one.
pub(crate) fn skip_i16_list(bytes: &[u8]) -> (r: Option<&[u8]>)
    ensures
        r is Some <==> has_i16_list(bytes@),
        r matches Some(rest) ==> rest@ == after_i16_list(bytes@),
{
    if bytes.len() < 2 {
        return None;
    }
    let count: i16 = peek_i16(bytes);
    if count < 0 {
        return None;
    }
    skip_bytes(bytes, 2 + 2 * count as usize)
}

/// What follows the list at the front of `bytes`, where there is one.
pub(crate) fn skip_i32_list(bytes: &[u8]) -> (r: Option<&[u8]>)
    ensures
        r is Some <==> has_i32_list(bytes@),
        r matches Some(rest) ==> rest@ == after_i32_list(bytes@),
{
    if bytes.len() < 2 {
        return None;
    }
    let count: i16 = peek_i16(bytes);
    if count < 0 {
        return None;
    }
    skip_bytes(bytes, 2 + 4 * count as usize)
}

/// What follows the length-prefixed value at the front of `bytes`, where there is one.
pub(crate) fn skip_field(bytes: &[u8]) -> (r: Option<&[u8]>)
    ensures
        r is Some <==> has_field(bytes@),
        r matches Some(rest) ==> rest@ == after_field(bytes@),
{
    if bytes.len() < 4 {
        return None;
    }
    let len: i32 = peek_i32(bytes);
    match skip_bytes(bytes, 4) {
        Some(rest) => {
            if len >= 0 {
                assert(len <= rest@.len() ==> rest@.skip(len as int) =~= bytes@.skip(4 + len));
                skip_bytes(rest, len as usize)
            } else {
                Some(rest)
            }
        },
        None => None,
    }
}

/// What follows the list of length-prefixed values at the front of `bytes`, where there is one.
pub(crate) fn skip_field_list(bytes: &[u8]) -> (r: Option<&[u8]>)
    ensures
        r is Some <==> has_field_list(bytes@),
        r matches Some(rest) ==> rest@ == after_field_list(bytes@),
{
    if bytes.len() < 2 {
        return None;
    }
    let count: i16 = peek_i16(bytes);
    if count < 0 {
        return None;
    }
    let mut left: i16 = count;
    let mut rest: &[u8] = match skip_bytes(bytes, 2) {
        Some(rest) => rest,
        None => {
            return None;
        },
    };
    while left > 0
        invariant
            0 <= left,
            has_list_count(bytes@),
            has_field_list(bytes@) == has_fields(rest@, left as nat),
            after_field_list(bytes@) == after_fields(rest@, left as nat),
        decreases left,
    {
        match skip_field(rest) {
            Some(next) => {
                rest = next;
            },
            None => {
                return None;
            },
        }
        left -= 1;
    }
    Some(rest)
}

} // verus!
