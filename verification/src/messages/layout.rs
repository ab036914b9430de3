//! What the messages of the extended query protocol look like in bytes, and what bytes are read as.

use vstd::prelude::*;
use vstd::utf8;

use crate::codec;
use crate::codec::layout;
use crate::messages::extendedquery::{
    Bind, BindComplete, BindView, Close, CloseComplete, CloseView, Describe, DescribeView, Execute,
    ExecuteView, Parse, ParseComplete, ParseView,
};
use crate::messages::Message;

verus! {

/// The text of a name as it is written: a missing name is written as the empty one.
pub open spec fn written(name: Option<Seq<char>>) -> Seq<char> {
    match name {
        Some(text) => text,
        None => seq![],
    }
}

/// The name that bytes without a zero byte are read as: no bytes are no name.
pub open spec fn read_name(head: Seq<u8>) -> Option<Seq<char>> {
    if head.len() == 0 {
        None
    } else {
        Some(codec::lossy_text(head))
    }
}

// ---------------------------------------------------------------------------------------------
// Parse
// ---------------------------------------------------------------------------------------------

/// A `Parse` is written as its name and its query, each ended by a zero byte, and the list of its
/// types. Its announced length counts four bytes besides the two strings and four bytes for each
/// type.
pub proof fn law_parse_in_bytes(value: ParseView)
    ensures
        Parse::body(value) == utf8::encode_utf8(written(value.name)) + seq![0u8]
            + utf8::encode_utf8(value.query) + seq![0u8] + codec::i32_list_bytes(value.type_oids),
        Parse::length(value) == 4 + (utf8::encode_utf8(written(value.name)).len() + 1) + (
        utf8::encode_utf8(value.query).len() + 1) + 4 * value.type_oids.len(),
{
    assert(codec::text_or_empty(value.name) =~= written(value.name));
    assert(Parse::body(value) =~= utf8::encode_utf8(written(value.name)) + seq![0u8]
        + utf8::encode_utf8(value.query) + seq![0u8] + codec::i32_list_bytes(value.type_oids));
}

/// Two strings that end in a zero byte and a list of types are read as a `Parse`, and what follows
/// is left. Without the list they are not.
pub proof fn law_parse_from_bytes(name: Seq<u8>, query: Seq<u8>, tail: Seq<u8>)
    requires
        !name.contains(0u8),
        !query.contains(0u8),
    ensures
        ({
            let bytes = name + seq![0u8] + (query + seq![0u8] + tail);
            &&& Parse::readable(bytes) <==> codec::has_i32_list(tail)
            &&& Parse::value_of(bytes).name == read_name(name)
            &&& Parse::value_of(bytes).query == written(read_name(query))
            &&& Parse::value_of(bytes).type_oids == codec::i32_list_at_front(tail)
            &&& Parse::rest_of(bytes) == codec::after_i32_list(tail)
        }),
{
    layout::law_cstring_from_bytes(name, query + seq![0u8] + tail);
    layout::law_cstring_from_bytes(query, tail);
    assert(codec::text_or_empty(read_name(query)) =~= written(read_name(query)));
}

/// Nothing else is read as a `Parse`: the zero bytes must be there.
pub proof fn law_no_parse_without_zero_bytes(name: Seq<u8>, tail: Seq<u8>)
    requires
        !name.contains(0u8),
        !tail.contains(0u8),
    ensures
        !Parse::readable(name),
        !Parse::readable(name + seq![0u8] + tail),
{
    layout::law_no_cstring_without_a_zero_byte(name);
    layout::law_no_cstring_without_a_zero_byte(tail);
    layout::law_cstring_from_bytes(name, tail);
}

// ---------------------------------------------------------------------------------------------
// Close and Describe
// ---------------------------------------------------------------------------------------------

/// A `Close` is written as its target type and its name, ended by a zero byte.
pub proof fn law_close_in_bytes(value: CloseView)
    ensures
        Close::body(value) == seq![value.target_type] + utf8::encode_utf8(written(value.name))
            + seq![0u8],
        Close::length(value) == 4 + 1 + (utf8::encode_utf8(written(value.name)).len() + 1),
{
    assert(codec::text_or_empty(value.name) =~= written(value.name));
    assert(Close::body(value) =~= seq![value.target_type] + utf8::encode_utf8(written(value.name))
        + seq![0u8]);
}

/// A byte and a string that ends in a zero byte are read as a `Close`, and what follows is left.
pub proof fn law_close_from_bytes(target_type: u8, name: Seq<u8>, rest: Seq<u8>)
    requires
        !name.contains(0u8),
    ensures
        ({
            let bytes = seq![target_type] + (name + seq![0u8] + rest);
            &&& Close::readable(bytes)
            &&& Close::value_of(bytes).target_type == target_type
            &&& Close::value_of(bytes).name == read_name(name)
            &&& Close::rest_of(bytes) == rest
        }),
        !Close::readable(seq![]),
        !Close::readable(seq![target_type] + name),
{
    let bytes = seq![target_type] + (name + seq![0u8] + rest);
    assert(bytes.skip(1) =~= name + seq![0u8] + rest);
    assert((seq![target_type] + name).skip(1) =~= name);
    layout::law_cstring_from_bytes(name, rest);
    layout::law_no_cstring_without_a_zero_byte(name);
}

/// A `Describe` is written as its target type and its name, ended by a zero byte.
pub proof fn law_describe_in_bytes(value: DescribeView)
    ensures
        Describe::body(value) == seq![value.target_type] + utf8::encode_utf8(written(value.name))
            + seq![0u8],
        Describe::length(value) == 4 + 1 + (utf8::encode_utf8(written(value.name)).len() + 1),
{
    assert(codec::text_or_empty(value.name) =~= written(value.name));
    assert(Describe::body(value) =~= seq![value.target_type] + utf8::encode_utf8(
        written(value.name),
    ) + seq![0u8]);
}

/// A byte and a string that ends in a zero byte are read as a `Describe`, and what follows is left.
pub proof fn law_describe_from_bytes(target_type: u8, name: Seq<u8>, rest: Seq<u8>)
    requires
        !name.contains(0u8),
    ensures
        ({
            let bytes = seq![target_type] + (name + seq![0u8] + rest);
            &&& Describe::readable(bytes)
            &&& Describe::value_of(bytes).target_type == target_type
            &&& Describe::value_of(bytes).name == read_name(name)
            &&& Describe::rest_of(bytes) == rest
        }),
        !Describe::readable(seq![]),
        !Describe::readable(seq![target_type] + name),
{
    let bytes = seq![target_type] + (name + seq![0u8] + rest);
    assert(bytes.skip(1) =~= name + seq![0u8] + rest);
    assert((seq![target_type] + name).skip(1) =~= name);
    layout::law_cstring_from_bytes(name, rest);
    layout::law_no_cstring_without_a_zero_byte(name);
}

// ---------------------------------------------------------------------------------------------
// Execute
// ---------------------------------------------------------------------------------------------

/// An `Execute` is written as its name, ended by a zero byte, and the row limit in four bytes.
pub proof fn law_execute_in_bytes(value: ExecuteView)
    ensures
        Execute::body(value) == utf8::encode_utf8(written(value.name)) + seq![0u8]
            + codec::i32_bytes(value.max_rows),
        Execute::length(value) == 4 + (utf8::encode_utf8(written(value.name)).len() + 1) + 4,
{
    assert(codec::text_or_empty(value.name) =~= written(value.name));
    assert(Execute::body(value) =~= utf8::encode_utf8(written(value.name)) + seq![0u8]
        + codec::i32_bytes(value.max_rows));
}

/// A string that ends in a zero byte and four bytes are read as an `Execute`, and what follows is
/// left. With fewer than four bytes behind the string, or without a zero byte, nothing is read.
pub proof fn law_execute_from_bytes(name: Seq<u8>, tail: Seq<u8>)
    requires
        !name.contains(0u8),
    ensures
        ({
            let bytes = name + seq![0u8] + tail;
            &&& Execute::readable(bytes) <==> tail.len() >= 4
            &&& Execute::value_of(bytes).name == read_name(name)
            &&& Execute::value_of(bytes).max_rows == codec::i32_at_front(tail)
            &&& Execute::rest_of(bytes) == tail.skip(4)
        }),
        !Execute::readable(name),
{
    layout::law_cstring_from_bytes(name, tail);
    layout::law_no_cstring_without_a_zero_byte(name);
}

// ---------------------------------------------------------------------------------------------
// Bind
// ---------------------------------------------------------------------------------------------

/// A `Bind` is written as the names of the portal and of the statement, each ended by a zero byte,
/// the list of parameter formats, the list of parameters and the list of result formats. All of it
/// is announced.
pub proof fn law_bind_in_bytes(value: BindView)
    ensures
        Bind::body(value) == utf8::encode_utf8(written(value.portal_name)) + seq![0u8]
            + utf8::encode_utf8(written(value.statement_name)) + seq![0u8] + codec::i16_list_bytes(
            value.parameter_format_codes,
        ) + codec::field_list_bytes(value.parameters) + codec::i16_list_bytes(
            value.result_column_format_codes,
        ),
        Bind::length(value) == 4 + Bind::body(value).len(),
{
    assert(codec::text_or_empty(value.portal_name) =~= written(value.portal_name));
    assert(codec::text_or_empty(value.statement_name) =~= written(value.statement_name));
    let portal_name = utf8::encode_utf8(written(value.portal_name));
    let statement_name = utf8::encode_utf8(written(value.statement_name));
    layout::law_cstring_in_bytes(written(value.portal_name));
    layout::law_cstring_in_bytes(written(value.statement_name));
    assert((portal_name + seq![0u8]) + (statement_name + seq![0u8]) =~= portal_name + seq![0u8]
        + statement_name + seq![0u8]);
    Bind::law_length_counts_the_body(value);
}

/// Two strings that end in a zero byte, a list of numbers, a list of values and a list of numbers
/// are read as a `Bind`, and what follows is left. Without the lists they are not.
pub proof fn law_bind_from_bytes(portal_name: Seq<u8>, statement_name: Seq<u8>, tail: Seq<u8>)
    requires
        !portal_name.contains(0u8),
        !statement_name.contains(0u8),
    ensures
        ({
            let bytes = portal_name + seq![0u8] + (statement_name + seq![0u8] + tail);
            let parameters = codec::after_i16_list(tail);
            let results = codec::after_field_list(parameters);
            &&& Bind::readable(bytes) <==> codec::has_i16_list(tail) && codec::has_field_list(
                parameters,
            ) && codec::has_i16_list(results)
            &&& Bind::value_of(bytes).portal_name == read_name(portal_name)
            &&& Bind::value_of(bytes).statement_name == read_name(statement_name)
            &&& Bind::value_of(bytes).parameter_format_codes == codec::i16_list_at_front(tail)
            &&& Bind::value_of(bytes).parameters == codec::field_list_at_front(parameters)
            &&& Bind::value_of(bytes).result_column_format_codes == codec::i16_list_at_front(
                results,
            )
            &&& Bind::rest_of(bytes) == codec::after_i16_list(results)
        }),
{
    layout::law_cstring_from_bytes(portal_name, statement_name + seq![0u8] + tail);
    layout::law_cstring_from_bytes(statement_name, tail);
}

/// Nothing else is read as a `Bind`: the zero bytes must be there.
pub proof fn law_no_bind_without_zero_bytes(portal_name: Seq<u8>, tail: Seq<u8>)
    requires
        !portal_name.contains(0u8),
        !tail.contains(0u8),
    ensures
        !Bind::readable(portal_name),
        !Bind::readable(portal_name + seq![0u8] + tail),
{
    layout::law_no_cstring_without_a_zero_byte(portal_name);
    layout::law_no_cstring_without_a_zero_byte(tail);
    layout::law_cstring_from_bytes(portal_name, tail);
}

// ---------------------------------------------------------------------------------------------
// Messages without a body
// ---------------------------------------------------------------------------------------------

/// The confirmations have no body: nothing is written, only the length field is announced, and
/// nothing is taken off when they are read.
pub proof fn law_confirmations_are_empty(bytes: Seq<u8>)
    ensures
        ParseComplete::body(()).len() == 0,
        ParseComplete::length(()) == 4,
        ParseComplete::readable(bytes),
        ParseComplete::rest_of(bytes) == bytes,
        CloseComplete::body(()).len() == 0,
        CloseComplete::length(()) == 4,
        CloseComplete::readable(bytes),
        CloseComplete::rest_of(bytes) == bytes,
        BindComplete::body(()).len() == 0,
        BindComplete::length(()) == 4,
        BindComplete::readable(bytes),
        BindComplete::rest_of(bytes) == bytes,
{
}

/// The type bytes are the characters of the protocol.
pub proof fn law_type_bytes()
    ensures
        Parse::type_byte() == Some('P' as u8),
        ParseComplete::type_byte() == Some('1' as u8),
        Close::type_byte() == Some('C' as u8),
        CloseComplete::type_byte() == Some('3' as u8),
        Bind::type_byte() == Some('B' as u8),
        BindComplete::type_byte() == Some('2' as u8),
        Describe::type_byte() == Some('D' as u8),
        Execute::type_byte() == Some('E' as u8),
{
}

} // verus!
