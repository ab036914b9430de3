//! Proofs that reading and writing undo each other.

use vstd::prelude::*;
use vstd::utf8;

use crate::codec;

verus! {

// ---------------------------------------------------------------------------------------------
// Reading gives back what was written
// ---------------------------------------------------------------------------------------------

/// A number that was written reads as itself, and exactly its two bytes are taken off.
pub proof fn lemma_i16_reads_back(n: i16, rest: Seq<u8>)
    ensures
        codec::i16_bytes(n).len() == 2,
        codec::i16_at_front(codec::i16_bytes(n) + rest) == n,
        (codec::i16_bytes(n) + rest).skip(2) == rest,
{
    assert((codec::i16_bytes(n) + rest).skip(2) =~= rest);
}

/// A number that was written reads as itself, and exactly its four bytes are taken off.
pub proof fn lemma_i32_reads_back(n: i32, rest: Seq<u8>)
    ensures
        codec::i32_bytes(n).len() == 4,
        codec::i32_at_front(codec::i32_bytes(n) + rest) == n,
        (codec::i32_bytes(n) + rest).skip(4) == rest,
{
    let u: int = if n < 0 {
        n + 0x1_0000_0000
    } else {
        n as int
    };
    assert(u == u / 0x100_0000 * 0x100_0000 + u / 0x1_0000 % 0x100 * 0x1_0000 + u / 0x100 % 0x100
        * 0x100 + u % 0x100);
    assert((codec::i32_bytes(n) + rest).skip(4) =~= rest);
}

proof fn lemma_scalar_bytes_not_zero(c: u32)
    by (bit_vector)
    requires
        c != 0,
    ensures
        c <= 0x7f ==> (c & 0x7f) as u8 != 0,
        0xC0u8 | ((c >> 6) & 0x1F) as u8 != 0,
        0xE0u8 | ((c >> 12) & 0x0F) as u8 != 0,
        0xF0u8 | ((c >> 18) & 0x7) as u8 != 0,
        0x80u8 | (c & 0x3F) as u8 != 0,
        0x80u8 | ((c >> 6) & 0x3F) as u8 != 0,
        0x80u8 | ((c >> 12) & 0x3F) as u8 != 0,
{
}

/// Text without a zero character has no zero byte in UTF-8.
pub proof fn lemma_utf8_without_nul(text: Seq<char>)
    requires
        !text.contains('\0'),
    ensures
        forall|i: int| 0 <= i < utf8::encode_utf8(text).len() ==> utf8::encode_utf8(text)[i] != 0,
        utf8::encode_utf8(text).len() >= text.len(),
    decreases text.len(),
{
    if text.len() > 0 {
        let c = text[0] as u32;
        assert(text[0] != '\0');
        utf8::char_is_scalar(text[0]);
        utf8::char_u32_cast(text[0], c);
        lemma_scalar_bytes_not_zero(c);
        let rest = text.drop_first();
        assert(!rest.contains('\0')) by {
            if rest.contains('\0') {
                let i = choose|i: int| 0 <= i < rest.len() && rest[i] == '\0';
                assert(text[i + 1] == '\0');
            }
        }
        lemma_utf8_without_nul(rest);
        let first = utf8::encode_scalar(c);
        assert(forall|i: int| 0 <= i < first.len() ==> first[i] != 0);
    }
}

/// Text without a zero character reads as itself, the empty text as `None`, and exactly its bytes
/// and the terminator are taken off.
pub proof fn lemma_cstring_reads_back(text: Seq<char>, rest: Seq<u8>)
    requires
        !text.contains('\0'),
    ensures
        codec::has_cstring(codec::cstring_bytes(text) + rest),
        codec::cstring_at_front(codec::cstring_bytes(text) + rest) == (if text.len() == 0 {
            None
        } else {
            Some(text)
        }),
        codec::after_cstring(codec::cstring_bytes(text) + rest) == rest,
{
    let bytes = utf8::encode_utf8(text);
    let all = codec::cstring_bytes(text) + rest;
    lemma_utf8_without_nul(text);
    codec::lemma_nul_at_unique(all, bytes.len() as int);
    assert(all.take(bytes.len() as int) =~= bytes);
    utf8::encode_utf8_valid_utf8(text);
    utf8::encode_utf8_decode_utf8(text);
    assert(all.skip(bytes.len() as int + 1) =~= rest);
}

/// An optional string that is not empty and holds no zero character reads as itself.
pub proof fn lemma_option_cstring_reads_back(text: Option<Seq<char>>, rest: Seq<u8>)
    requires
        codec::faithful_name(text),
    ensures
        codec::has_cstring(codec::cstring_bytes(codec::text_or_empty(text)) + rest),
        codec::cstring_at_front(codec::cstring_bytes(codec::text_or_empty(text)) + rest) == text,
        codec::after_cstring(codec::cstring_bytes(codec::text_or_empty(text)) + rest) == rest,
{
    lemma_cstring_reads_back(codec::text_or_empty(text), rest);
}

pub proof fn lemma_i16s_bytes_at(s: Seq<i16>, rest: Seq<u8>, i: int)
    requires
        0 <= i < s.len(),
    ensures
        codec::i16_at_front((codec::i16s_bytes(s) + rest).skip(2 * i)) == s[i],
    decreases s.len(),
{
    let all = codec::i16s_bytes(s) + rest;
    let tail = codec::i16s_bytes(s.drop_first()) + rest;
    assert(all =~= codec::i16_bytes(s[0]) + tail);
    if i == 0 {
        lemma_i16_reads_back(s[0], tail);
        assert(all.skip(0) =~= all);
    } else {
        lemma_i16s_bytes_len(s);
        lemma_i16s_bytes_at(s.drop_first(), rest, i - 1);
        assert(all.skip(2 * i) =~= tail.skip(2 * (i - 1)));
    }
}

pub proof fn lemma_i32s_bytes_at(s: Seq<i32>, rest: Seq<u8>, i: int)
    requires
        0 <= i < s.len(),
    ensures
        codec::i32_at_front((codec::i32s_bytes(s) + rest).skip(4 * i)) == s[i],
    decreases s.len(),
{
    let all = codec::i32s_bytes(s) + rest;
    let tail = codec::i32s_bytes(s.drop_first()) + rest;
    assert(all =~= codec::i32_bytes(s[0]) + tail);
    if i == 0 {
        lemma_i32_reads_back(s[0], tail);
        assert(all.skip(0) =~= all);
    } else {
        lemma_i32s_bytes_len(s);
        lemma_i32s_bytes_at(s.drop_first(), rest, i - 1);
        assert(all.skip(4 * i) =~= tail.skip(4 * (i - 1)));
    }
}

/// Each number takes two bytes.
pub proof fn lemma_i16s_bytes_len(s: Seq<i16>)
    ensures
        codec::i16s_bytes(s).len() == 2 * s.len(),
    decreases s.len(),
{
    if s.len() > 0 {
        lemma_i16s_bytes_len(s.drop_first());
    }
}

/// Each number takes four bytes.
pub proof fn lemma_i32s_bytes_len(s: Seq<i32>)
    ensures
        codec::i32s_bytes(s).len() == 4 * s.len(),
    decreases s.len(),
{
    if s.len() > 0 {
        lemma_i32s_bytes_len(s.drop_first());
    }
}

/// `fields_len` is the number of bytes that the fields take up.
pub proof fn lemma_fields_bytes_len(s: Seq<Option<Seq<u8>>>)
    ensures
        codec::fields_bytes(s).len() == codec::fields_len(s),
    decreases s.len(),
{
    if s.len() > 0 {
        lemma_fields_bytes_len(s.drop_first());
    }
}

/// A list whose item count fits its field reads as itself, and exactly its bytes are taken off.
pub proof fn lemma_i16_list_reads_back(s: Seq<i16>, rest: Seq<u8>)
    requires
        s.len() <= i16::MAX,
    ensures
        codec::has_i16_list(codec::i16_list_bytes(s) + rest),
        codec::i16_list_at_front(codec::i16_list_bytes(s) + rest) == s,
        codec::after_i16_list(codec::i16_list_bytes(s) + rest) == rest,
{
    let all = codec::i16_list_bytes(s) + rest;
    let items = codec::i16s_bytes(s) + rest;
    assert(all =~= codec::i16_bytes(s.len() as i16) + items);
    lemma_i16_reads_back(s.len() as i16, items);
    lemma_i16s_bytes_len(s);
    assert forall|i: int| 0 <= i < s.len() implies s[i] == codec::i16_at_front(
        all.skip(2 + 2 * i),
    ) by {
        lemma_i16s_bytes_at(s, rest, i);
        assert(all.skip(2 + 2 * i) =~= items.skip(2 * i));
    }
    assert(codec::i16_list_at_front(all) =~= s);
    assert(codec::after_i16_list(all) =~= rest);
}

/// A list whose item count fits its field reads as itself, and exactly its bytes are taken off.
pub proof fn lemma_i32_list_reads_back(s: Seq<i32>, rest: Seq<u8>)
    requires
        s.len() <= i16::MAX,
    ensures
        codec::has_i32_list(codec::i32_list_bytes(s) + rest),
        codec::i32_list_at_front(codec::i32_list_bytes(s) + rest) == s,
        codec::after_i32_list(codec::i32_list_bytes(s) + rest) == rest,
{
    let all = codec::i32_list_bytes(s) + rest;
    let items = codec::i32s_bytes(s) + rest;
    assert(all =~= codec::i16_bytes(s.len() as i16) + items);
    lemma_i16_reads_back(s.len() as i16, items);
    lemma_i32s_bytes_len(s);
    assert forall|i: int| 0 <= i < s.len() implies s[i] == codec::i32_at_front(
        all.skip(2 + 4 * i),
    ) by {
        lemma_i32s_bytes_at(s, rest, i);
        assert(all.skip(2 + 4 * i) =~= items.skip(4 * i));
    }
    assert(codec::i32_list_at_front(all) =~= s);
    assert(codec::after_i32_list(all) =~= rest);
}

/// A value whose length fits its field reads as itself, and exactly its bytes are taken off.
pub proof fn lemma_field_reads_back(field: Option<Seq<u8>>, rest: Seq<u8>)
    requires
        codec::faithful_field(field),
    ensures
        codec::has_field(codec::field_bytes(field) + rest),
        codec::field_at_front(codec::field_bytes(field) + rest) == field,
        codec::after_field(codec::field_bytes(field) + rest) == rest,
{
    let all = codec::field_bytes(field) + rest;
    match field {
        Some(data) => {
            let n = data.len() as i32;
            assert(all =~= codec::i32_bytes(n) + (data + rest));
            lemma_i32_reads_back(n, data + rest);
            assert(all.subrange(4, 4 + n) =~= data);
            assert(all.skip(4 + n) =~= rest);
        },
        None => {
            lemma_i32_reads_back((-1) as i32, rest);
        },
    }
}

/// Values whose lengths fit their fields read as themselves, and exactly their bytes are taken
/// off.
pub proof fn lemma_fields_read_back(s: Seq<Option<Seq<u8>>>, rest: Seq<u8>)
    requires
        forall|i: int| 0 <= i < s.len() ==> codec::faithful_field(#[trigger] s[i]),
    ensures
        codec::has_fields(codec::fields_bytes(s) + rest, s.len()),
        codec::fields_at_front(codec::fields_bytes(s) + rest, s.len()) == s,
        codec::after_fields(codec::fields_bytes(s) + rest, s.len()) == rest,
    decreases s.len(),
{
    let all = codec::fields_bytes(s) + rest;
    if s.len() == 0 {
        assert(all =~= rest);
    } else {
        let tail = codec::fields_bytes(s.drop_first()) + rest;
        assert(all =~= codec::field_bytes(s[0]) + tail);
        lemma_field_reads_back(s[0], tail);
        assert forall|i: int| 0 <= i < s.drop_first().len() implies codec::faithful_field(
            #[trigger] s.drop_first()[i],
        ) by {
            assert(s.drop_first()[i] == s[i + 1]);
        }
        lemma_fields_read_back(s.drop_first(), rest);
        assert(seq![s[0]] + s.drop_first() =~= s);
    }
}

/// A list whose item count and lengths fit their fields reads as itself, and exactly its bytes are
/// taken off.
pub proof fn lemma_field_list_reads_back(s: Seq<Option<Seq<u8>>>, rest: Seq<u8>)
    requires
        s.len() <= i16::MAX,
        forall|i: int| 0 <= i < s.len() ==> codec::faithful_field(#[trigger] s[i]),
    ensures
        codec::has_field_list(codec::field_list_bytes(s) + rest),
        codec::field_list_at_front(codec::field_list_bytes(s) + rest) == s,
        codec::after_field_list(codec::field_list_bytes(s) + rest) == rest,
{
    let all = codec::field_list_bytes(s) + rest;
    let items = codec::fields_bytes(s) + rest;
    assert(all =~= codec::i16_bytes(s.len() as i16) + items);
    lemma_i16_reads_back(s.len() as i16, items);
    lemma_fields_read_back(s, rest);
}

// ---------------------------------------------------------------------------------------------
// Writing gives back what was read
// ---------------------------------------------------------------------------------------------

/// A number that was read is written as the same two bytes.
pub proof fn lemma_i16_writes_back(s: Seq<u8>)
    requires
        s.len() >= 2,
    ensures
        codec::i16_bytes(codec::i16_at_front(s)) == s.take(2),
{
    assert(codec::i16_bytes(codec::i16_at_front(s)) =~= s.take(2));
}

/// The digits of a number to the base 256.
proof fn lemma_four_digits(a: int, b: int, c: int, d: int)
    requires
        0 <= a < 0x100,
        0 <= b < 0x100,
        0 <= c < 0x100,
        0 <= d < 0x100,
    ensures
        ({
            let u = a * 0x100_0000 + b * 0x1_0000 + c * 0x100 + d;
            &&& u / 0x100_0000 == a
            &&& u / 0x1_0000 % 0x100 == b
            &&& u / 0x100 % 0x100 == c
            &&& u % 0x100 == d
        }),
{
    let u = a * 0x100_0000 + b * 0x1_0000 + c * 0x100 + d;
    assert(u / 0x100 == a * 0x1_0000 + b * 0x100 + c);
    assert(u / 0x1_0000 == a * 0x100 + b);
}

/// A number that was read is written as the same four bytes.
pub proof fn lemma_i32_writes_back(s: Seq<u8>)
    requires
        s.len() >= 4,
    ensures
        codec::i32_bytes(codec::i32_at_front(s)) == s.take(4),
{
    let n = codec::i32_at_front(s);
    let u: int = s[0] * 0x100_0000 + s[1] * 0x1_0000 + s[2] * 0x100 + s[3];
    assert(u == if n < 0 {
        n + 0x1_0000_0000
    } else {
        n as int
    });
    lemma_four_digits(s[0] as int, s[1] as int, s[2] as int, s[3] as int);
    let bytes = codec::i32_bytes(n);
    assert(bytes[0] == s[0] && bytes[1] == s[1] && bytes[2] == s[2] && bytes[3] == s[3]);
    assert(bytes =~= s.take(4));
}

/// A string that was read from valid UTF-8 is written as the same bytes.
pub proof fn lemma_cstring_writes_back(s: Seq<u8>)
    requires
        codec::has_cstring(s),
        codec::canonical_cstring(s),
    ensures
        codec::cstring_bytes(codec::text_or_empty(codec::cstring_at_front(s)))
            + codec::after_cstring(s) == s,
{
    codec::lemma_nul_at(s);
    let bytes = s.take(codec::nul_at(s));
    utf8::decode_utf8_encode_utf8(bytes);
    assert(utf8::encode_utf8(codec::text_or_empty(codec::cstring_at_front(s))) =~= bytes);
    assert(bytes.push(0u8) + s.skip(codec::nul_at(s) + 1) =~= s);
}

proof fn lemma_i16s_write_back(s: Seq<u8>, n: nat)
    requires
        s.len() >= 2 * n,
    ensures
        codec::i16s_bytes(Seq::new(n, |i: int| codec::i16_at_front(s.skip(2 * i)))) == s.take(
            2 * n as int,
        ),
    decreases n,
{
    let items = Seq::new(n, |i: int| codec::i16_at_front(s.skip(2 * i)));
    if n == 0 {
        assert(codec::i16s_bytes(items) =~= s.take(0));
    } else {
        let tail = s.skip(2);
        let m = (n - 1) as nat;
        let rest = Seq::new(m, |i: int| codec::i16_at_front(tail.skip(2 * i)));
        lemma_i16s_write_back(tail, m);
        assert forall|i: int| 0 <= i < m implies items.drop_first()[i] == rest[i] by {
            assert(s.skip(2 * (i + 1)) =~= tail.skip(2 * i));
        }
        assert(items.drop_first() =~= rest);
        assert(s.skip(0) =~= s);
        lemma_i16_writes_back(s);
        assert(codec::i16s_bytes(items) =~= s.take(2) + tail.take(2 * m as int));
        assert(s.take(2) + tail.take(2 * m as int) =~= s.take(2 * n as int));
    }
}

proof fn lemma_i32s_write_back(s: Seq<u8>, n: nat)
    requires
        s.len() >= 4 * n,
    ensures
        codec::i32s_bytes(Seq::new(n, |i: int| codec::i32_at_front(s.skip(4 * i)))) == s.take(
            4 * n as int,
        ),
    decreases n,
{
    let items = Seq::new(n, |i: int| codec::i32_at_front(s.skip(4 * i)));
    if n == 0 {
        assert(codec::i32s_bytes(items) =~= s.take(0));
    } else {
        let tail = s.skip(4);
        let m = (n - 1) as nat;
        let rest = Seq::new(m, |i: int| codec::i32_at_front(tail.skip(4 * i)));
        lemma_i32s_write_back(tail, m);
        assert forall|i: int| 0 <= i < m implies items.drop_first()[i] == rest[i] by {
            assert(s.skip(4 * (i + 1)) =~= tail.skip(4 * i));
        }
        assert(items.drop_first() =~= rest);
        assert(s.skip(0) =~= s);
        lemma_i32_writes_back(s);
        assert(codec::i32s_bytes(items) =~= s.take(4) + tail.take(4 * m as int));
        assert(s.take(4) + tail.take(4 * m as int) =~= s.take(4 * n as int));
    }
}

/// A list that was read is written as the same bytes.
pub proof fn lemma_i16_list_writes_back(s: Seq<u8>)
    requires
        codec::has_i16_list(s),
    ensures
        codec::i16_list_bytes(codec::i16_list_at_front(s)) + codec::after_i16_list(s) == s,
{
    let n = codec::i16_at_front(s) as nat;
    let items = s.skip(2);
    lemma_i16_writes_back(s);
    lemma_i16s_write_back(items, n);
    let read = Seq::new(n, |i: int| codec::i16_at_front(items.skip(2 * i)));
    assert forall|i: int| 0 <= i < n implies codec::i16_list_at_front(s)[i] == read[i] by {
        assert(s.skip(2 + 2 * i) =~= items.skip(2 * i));
    }
    assert(codec::i16_list_at_front(s) =~= read);
    assert(s.take(2) + items.take(2 * n as int) + codec::after_i16_list(s) =~= s);
}

/// A list that was read is written as the same bytes.
pub proof fn lemma_i32_list_writes_back(s: Seq<u8>)
    requires
        codec::has_i32_list(s),
    ensures
        codec::i32_list_bytes(codec::i32_list_at_front(s)) + codec::after_i32_list(s) == s,
{
    let n = codec::i16_at_front(s) as nat;
    let items = s.skip(2);
    lemma_i16_writes_back(s);
    lemma_i32s_write_back(items, n);
    let read = Seq::new(n, |i: int| codec::i32_at_front(items.skip(4 * i)));
    assert forall|i: int| 0 <= i < n implies codec::i32_list_at_front(s)[i] == read[i] by {
        assert(s.skip(2 + 4 * i) =~= items.skip(4 * i));
    }
    assert(codec::i32_list_at_front(s) =~= read);
    assert(s.take(2) + items.take(4 * n as int) + codec::after_i32_list(s) =~= s);
}

proof fn lemma_field_writes_back(s: Seq<u8>)
    requires
        codec::has_field(s),
        codec::i32_at_front(s) >= -1,
    ensures
        codec::field_bytes(codec::field_at_front(s)) + codec::after_field(s) == s,
{
    lemma_i32_writes_back(s);
    let n = codec::i32_at_front(s);
    if n >= 0 {
        let data = s.subrange(4, 4 + n);
        assert(data.len() as i32 == n);
        assert(s.take(4) + data + s.skip(4 + n) =~= s);
    } else {
        assert(s.take(4) + s.skip(4) =~= s);
    }
}

proof fn lemma_fields_write_back(s: Seq<u8>, n: nat)
    requires
        codec::has_fields(s, n),
        codec::canonical_fields(s, n),
    ensures
        codec::fields_at_front(s, n).len() == n,
        codec::fields_bytes(codec::fields_at_front(s, n)) + codec::after_fields(s, n) == s,
    decreases n,
{
    let fields = codec::fields_at_front(s, n);
    if n == 0 {
        assert(codec::fields_bytes(fields) + s =~= s);
    } else {
        let tail = codec::after_field(s);
        let m = (n - 1) as nat;
        lemma_fields_write_back(tail, m);
        lemma_field_writes_back(s);
        assert(fields.drop_first() =~= codec::fields_at_front(tail, m));
        assert(codec::fields_bytes(fields) + codec::after_fields(s, n) =~= codec::field_bytes(
            fields[0],
        ) + (codec::fields_bytes(fields.drop_first()) + codec::after_fields(tail, m)));
    }
}

/// A list that was read from value lengths not below -1 is written as the same bytes.
pub proof fn lemma_field_list_writes_back(s: Seq<u8>)
    requires
        codec::has_field_list(s),
        codec::canonical_field_list(s),
    ensures
        codec::field_list_bytes(codec::field_list_at_front(s)) + codec::after_field_list(s) == s,
{
    let n = codec::i16_at_front(s) as nat;
    lemma_i16_writes_back(s);
    lemma_fields_write_back(s.skip(2), n);
    let fields = codec::field_list_at_front(s);
    assert(codec::field_list_bytes(fields) + codec::after_field_list(s) =~= s.take(2) + (
    codec::fields_bytes(fields) + codec::after_field_list(s)));
    assert(s.take(2) + s.skip(2) =~= s);
}

/// It does not matter in which order five parts and what follows them are joined.
pub proof fn lemma_five_parts(
    a: Seq<u8>,
    b: Seq<u8>,
    c: Seq<u8>,
    d: Seq<u8>,
    e: Seq<u8>,
    rest: Seq<u8>,
)
    ensures
        a + b + c + d + e + rest == a + (b + (c + (d + (e + rest)))),
{
    assert(a + b + c + d + e + rest =~= a + (b + (c + (d + (e + rest)))));
}

} // verus!
