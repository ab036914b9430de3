//! What the fields of a message look like in bytes, and what bytes are read as.

use vstd::prelude::*;
use vstd::utf8;

use crate::codec;
use crate::codec::roundtrip;

verus! {

// ---------------------------------------------------------------------------------------------
// Numbers
// ---------------------------------------------------------------------------------------------

/// A number is written in two bytes, the most significant first, negative numbers in two's
/// complement.
pub proof fn law_i16_in_bytes(n: i16)
    ensures
        codec::i16_bytes(n).len() == 2,
        n == 0x100 * codec::i16_bytes(n)[0] + codec::i16_bytes(n)[1] - (if codec::i16_bytes(n)[0]
            >= 0x80 {
            0x1_0000int
        } else {
            0int
        }),
{
}

/// Two bytes are read as a number in the same way.
pub proof fn law_i16_from_bytes(s: Seq<u8>)
    requires
        s.len() >= 2,
    ensures
        codec::i16_at_front(s) == 0x100 * s[0] + s[1] - (if s[0] >= 0x80 {
            0x1_0000int
        } else {
            0int
        }),
{
}

/// A number is written in four bytes, the most significant first, negative numbers in two's
/// complement.
pub proof fn law_i32_in_bytes(n: i32)
    ensures
        codec::i32_bytes(n).len() == 4,
        n == 0x100_0000 * codec::i32_bytes(n)[0] + 0x1_0000 * codec::i32_bytes(n)[1] + 0x100
            * codec::i32_bytes(n)[2] + codec::i32_bytes(n)[3] - (if codec::i32_bytes(n)[0]
            >= 0x80 {
            0x1_0000_0000int
        } else {
            0int
        }),
{
    let s = codec::i32_bytes(n);
    roundtrip::lemma_i32_reads_back(n, seq![]);
    assert(s + seq![] =~= s);
    law_i32_from_bytes(s);
}

/// Four bytes are read as a number in the same way.
pub proof fn law_i32_from_bytes(s: Seq<u8>)
    requires
        s.len() >= 4,
    ensures
        codec::i32_at_front(s) == 0x100_0000 * s[0] + 0x1_0000 * s[1] + 0x100 * s[2] + s[3] - (
        if s[0] >= 0x80 {
            0x1_0000_0000int
        } else {
            0int
        }),
{
}

/// Counting goes on until the number cannot be held any more.
pub proof fn law_counting(k: usize, n: nat)
    ensures
        k + n <= usize::MAX ==> codec::count_of(Some(k), n) is Some && codec::count_of(
            Some(k),
            n,
        )->0 == k + n,
        k + n > usize::MAX ==> codec::count_of(Some(k), n) is None,
        codec::count_of(None, n) is None,
{
}

// ---------------------------------------------------------------------------------------------
// Strings
// ---------------------------------------------------------------------------------------------

/// Valid UTF-8 is read as the text it stands for, and other bytes with replacement characters.
pub proof fn law_text_of_bytes(bytes: Seq<u8>, text: Seq<char>)
    ensures
        codec::lossy_text(utf8::encode_utf8(text)) == text,
        utf8::valid_utf8(bytes) ==> utf8::encode_utf8(codec::lossy_text(bytes)) == bytes,
        !utf8::valid_utf8(bytes) ==> codec::lossy_text(bytes) == codec::utf8_replaced(bytes),
{
    utf8::encode_utf8_valid_utf8(text);
    utf8::encode_utf8_decode_utf8(text);
    if utf8::valid_utf8(bytes) {
        utf8::decode_utf8_encode_utf8(bytes);
    }
}

/// A string is written as its UTF-8 bytes with a zero byte behind them.
pub proof fn law_cstring_in_bytes(text: Seq<char>)
    ensures
        codec::cstring_bytes(text) == utf8::encode_utf8(text) + seq![0u8],
{
    assert(codec::cstring_bytes(text) =~= utf8::encode_utf8(text) + seq![0u8]);
}

/// A missing string is written as the empty one.
pub proof fn law_missing_string_is_empty(text: Seq<char>, owned: String)
    ensures
        codec::text_or_empty(None).len() == 0,
        codec::text_or_empty(Some(text)) == text,
        codec::option_text(None) is None,
        codec::option_text(Some(owned)) == Some(owned@),
{
}

/// Optional bytes are the bytes, or nothing.
pub proof fn law_optional_bytes(data: Vec<u8>, list: Seq<Option<Vec<u8>>>)
    ensures
        codec::option_bytes(None) is None,
        codec::option_bytes(Some(data)) == Some(data@),
        codec::options_bytes(list).len() == list.len(),
        forall|i: int|
            0 <= i < list.len() ==> #[trigger] codec::options_bytes(list)[i] == (match list[i] {
                Some(d) => Some(d@),
                None => None,
            }),
{
}

/// Bytes up to the first zero byte are read as a string, no bytes as a missing one; what is behind
/// the zero byte is left.
pub proof fn law_cstring_from_bytes(head: Seq<u8>, rest: Seq<u8>)
    requires
        !head.contains(0u8),
    ensures
        codec::has_cstring(head + seq![0u8] + rest),
        codec::cstring_at_front(head + seq![0u8] + rest) == (if head.len() == 0 {
            None
        } else {
            Some(codec::lossy_text(head))
        }),
        codec::after_cstring(head + seq![0u8] + rest) == rest,
{
    let s = head + seq![0u8] + rest;
    assert forall|j: int| 0 <= j < head.len() implies s[j] != 0 by {
        assert(head.contains(head[j]));
    }
    codec::lemma_nul_at_unique(s, head.len() as int);
    assert(s.take(head.len() as int) =~= head);
    assert(s.skip(head.len() as int + 1) =~= rest);
}

/// Bytes without a zero byte are no string.
pub proof fn law_no_cstring_without_a_zero_byte(s: Seq<u8>)
    requires
        !s.contains(0u8),
    ensures
        !codec::has_cstring(s),
{
    codec::lemma_nul_at(s);
    if codec::nul_at(s) < s.len() {
        assert(s.contains(s[codec::nul_at(s)]));
    }
}

// ---------------------------------------------------------------------------------------------
// Lists
// ---------------------------------------------------------------------------------------------

/// A list is written as the number of its items in two bytes, and then each item in two bytes.
pub proof fn law_i16_list_in_bytes(s: Seq<i16>)
    ensures
        codec::i16_list_bytes(s).len() == 2 + 2 * s.len(),
        codec::i16_list_bytes(s).take(2) == codec::i16_bytes(s.len() as i16),
        forall|i: int|
            #![trigger s[i]]
            0 <= i < s.len() ==> codec::i16_at_front(codec::i16_list_bytes(s).skip(2 + 2 * i))
                == s[i],
{
    let all = codec::i16_list_bytes(s);
    roundtrip::lemma_i16s_bytes_len(s);
    assert(all.take(2) =~= codec::i16_bytes(s.len() as i16));
    assert forall|i: int| #![trigger s[i]] 0 <= i < s.len() implies codec::i16_at_front(
        all.skip(2 + 2 * i),
    ) == s[i] by {
        roundtrip::lemma_i16s_bytes_at(s, seq![], i);
        assert(codec::i16s_bytes(s) + seq![] =~= codec::i16s_bytes(s));
        assert(all.skip(2 + 2 * i) =~= codec::i16s_bytes(s).skip(2 * i));
    }
}

/// A list is written as the number of its items in two bytes, and then each item in four bytes.
pub proof fn law_i32_list_in_bytes(s: Seq<i32>)
    ensures
        codec::i32_list_bytes(s).len() == 2 + 4 * s.len(),
        codec::i32_list_bytes(s).take(2) == codec::i16_bytes(s.len() as i16),
        forall|i: int|
            #![trigger s[i]]
            0 <= i < s.len() ==> codec::i32_at_front(codec::i32_list_bytes(s).skip(2 + 4 * i))
                == s[i],
{
    let all = codec::i32_list_bytes(s);
    roundtrip::lemma_i32s_bytes_len(s);
    assert(all.take(2) =~= codec::i16_bytes(s.len() as i16));
    assert forall|i: int| #![trigger s[i]] 0 <= i < s.len() implies codec::i32_at_front(
        all.skip(2 + 4 * i),
    ) == s[i] by {
        roundtrip::lemma_i32s_bytes_at(s, seq![], i);
        assert(codec::i32s_bytes(s) + seq![] =~= codec::i32s_bytes(s));
        assert(all.skip(2 + 4 * i) =~= codec::i32s_bytes(s).skip(4 * i));
    }
}

/// A list is read where its count is not negative and all its items are there. Each item is read
/// from its place, and what is behind the last one is left.
pub proof fn law_i16_list_from_bytes(s: Seq<u8>)
    ensures
        codec::has_i16_list(s) <==> s.len() >= 2 && codec::i16_at_front(s) >= 0 && s.len() >= 2 + 2
            * codec::i16_at_front(s),
        codec::has_i16_list(s) ==> {
            let n = codec::i16_at_front(s);
            &&& codec::i16_list_at_front(s).len() == n
            &&& forall|i: int|
                0 <= i < n ==> #[trigger] codec::i16_list_at_front(s)[i] == codec::i16_at_front(
                    s.skip(2 + 2 * i),
                )
            &&& codec::after_i16_list(s) == s.skip(2 + 2 * n)
        },
{
}

/// A list is read where its count is not negative and all its items are there. Each item is read
/// from its place, and what is behind the last one is left.
pub proof fn law_i32_list_from_bytes(s: Seq<u8>)
    ensures
        codec::has_i32_list(s) <==> s.len() >= 2 && codec::i16_at_front(s) >= 0 && s.len() >= 2 + 4
            * codec::i16_at_front(s),
        codec::has_i32_list(s) ==> {
            let n = codec::i16_at_front(s);
            &&& codec::i32_list_at_front(s).len() == n
            &&& forall|i: int|
                0 <= i < n ==> #[trigger] codec::i32_list_at_front(s)[i] == codec::i32_at_front(
                    s.skip(2 + 4 * i),
                )
            &&& codec::after_i32_list(s) == s.skip(2 + 4 * n)
        },
{
}

/// A list of values is written as the number of its items in two bytes, and then one value behind
/// the other: its length in four bytes and its bytes, or a length of -1 where it is missing.
pub proof fn law_field_list_in_bytes(
    s: Seq<Option<Seq<u8>>>,
    t: Seq<Option<Seq<u8>>>,
    data: Seq<u8>,
)
    ensures
        codec::field_list_bytes(s) == codec::i16_bytes(s.len() as i16) + codec::fields_bytes(s),
        codec::fields_bytes(seq![]).len() == 0,
        codec::fields_bytes(seq![None]) == seq![0xffu8, 0xffu8, 0xffu8, 0xffu8],
        codec::fields_bytes(seq![Some(data)]) == codec::i32_bytes(data.len() as i32) + data,
        codec::fields_bytes(s + t) == codec::fields_bytes(s) + codec::fields_bytes(t),
    decreases s.len(),
{
    let none: Seq<Option<Seq<u8>>> = seq![None];
    let some: Seq<Option<Seq<u8>>> = seq![Some(data)];
    reveal_with_fuel(codec::fields_bytes, 2);
    assert(none.drop_first() =~= seq![]);
    assert(some.drop_first() =~= seq![]);
    assert(codec::fields_bytes(none) =~= codec::i32_bytes((-1) as i32));
    assert(codec::i32_bytes((-1) as i32) =~= seq![0xffu8, 0xffu8, 0xffu8, 0xffu8]);
    assert(codec::fields_bytes(some) =~= codec::i32_bytes(data.len() as i32) + data);
    if s.len() == 0 {
        assert(s + t =~= t);
        assert(codec::fields_bytes(s) + codec::fields_bytes(t) =~= codec::fields_bytes(t));
    } else {
        law_field_list_in_bytes(s.drop_first(), t, data);
        assert((s + t).drop_first() =~= s.drop_first() + t);
        assert(codec::fields_bytes(s + t) =~= codec::fields_bytes(s) + codec::fields_bytes(t));
    }
}

/// How much values take up is how many bytes they are written in.
pub proof fn law_fields_take_up_their_bytes(s: Seq<Option<Seq<u8>>>)
    ensures
        codec::fields_len(s) == codec::fields_bytes(s).len(),
{
    roundtrip::lemma_fields_bytes_len(s);
}

/// Values are read one behind the other. Each begins with its length in four bytes: a negative one
/// stands for a missing value, any other for so many bytes, which must be there.
pub proof fn law_fields_from_bytes(s: Seq<u8>, n: nat)
    ensures
        codec::has_fields(s, 0),
        codec::fields_at_front(s, 0).len() == 0,
        codec::after_fields(s, 0) == s,
        s.len() < 4 ==> !codec::has_fields(s, n + 1),
        s.len() >= 4 && codec::i32_at_front(s) < 0 ==> {
            let rest = s.skip(4);
            &&& codec::has_fields(s, n + 1) <==> codec::has_fields(rest, n)
            &&& codec::fields_at_front(s, n + 1) == seq![None::<Seq<u8>>]
                + codec::fields_at_front(rest, n)
            &&& codec::after_fields(s, n + 1) == codec::after_fields(rest, n)
        },
        s.len() >= 4 && codec::i32_at_front(s) >= 0 ==> {
            let k = codec::i32_at_front(s);
            let rest = s.skip(4 + k);
            &&& codec::has_fields(s, n + 1) <==> s.len() >= 4 + k && codec::has_fields(rest, n)
            &&& codec::fields_at_front(s, n + 1) == seq![Some(s.subrange(4, 4 + k))]
                + codec::fields_at_front(rest, n)
            &&& codec::after_fields(s, n + 1) == codec::after_fields(rest, n)
        },
{
}

/// A list of values is read where its count is not negative and all its values are there.
pub proof fn law_field_list_from_bytes(s: Seq<u8>)
    ensures
        codec::has_field_list(s) <==> s.len() >= 2 && codec::i16_at_front(s) >= 0
            && codec::has_fields(s.skip(2), codec::i16_at_front(s) as nat),
        codec::has_field_list(s) ==> codec::field_list_at_front(s) == codec::fields_at_front(
            s.skip(2),
            codec::i16_at_front(s) as nat,
        ),
        codec::has_field_list(s) ==> codec::after_field_list(s) == codec::after_fields(
            s.skip(2),
            codec::i16_at_front(s) as nat,
        ),
{
}

} // verus!
