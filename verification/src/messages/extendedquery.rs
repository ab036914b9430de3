//! The messages of the extended query protocol.

use bytes::BytesMut;
use vstd::prelude::*;

use super::Message;
use crate::codec;
use crate::codec::roundtrip;
use crate::error::PgWireResult;

verus! {

/// Announces [`Parse`]: the character `P`.
pub const MESSAGE_TYPE_BYTE_PARSE: u8 = 0x50;

/// Request from frontend to parse a prepared query string.
#[derive(Debug, PartialEq, Eq)]
pub struct Parse {
    name: Option<String>,
    query: String,
    type_oids: Vec<i32>,
}

/// The value of a [`Parse`].
#[verifier::ext_equal]
pub struct ParseView {
    /// The name of the prepared statement.
    pub name: Option<Seq<char>>,
    /// The query to prepare.
    pub query: Seq<char>,
    /// The types of the parameters.
    pub type_oids: Seq<i32>,
}

impl View for Parse {
    type V = ParseView;

    closed spec fn view(&self) -> ParseView {
        ParseView {
            name: codec::option_text(self.name),
            query: self.query@,
            type_oids: self.type_oids@,
        }
    }
}

impl Parse {
    /// A message with the given fields.
    pub fn new(name: Option<String>, query: String, type_oids: Vec<i32>) -> (r: Self)
        ensures
            r@.name == codec::option_text(name),
            r@.query == query@,
            r@.type_oids == type_oids@,
    {
        Parse { name, query, type_oids }
    }

    /// The name of the prepared statement.
    pub fn name(&self) -> (r: &Option<String>)
        ensures
            codec::option_text(*r) == self@.name,
    {
        &self.name
    }

    /// Replaces the field and gives the message back.
    pub fn set_name(&mut self, val: Option<String>) -> (r: &mut Self)
        ensures
            (*r)@ == (ParseView { name: codec::option_text(val), ..old(self)@ }),
            *final(self) == *final(r),
    {
        self.name = val;
        self
    }

    /// The name of the prepared statement.
    pub fn name_mut(&mut self) -> (r: &mut Option<String>)
        ensures
            codec::option_text(*r) == old(self)@.name,
            final(self)@ == (ParseView { name: codec::option_text(*final(r)), ..old(self)@ }),
    {
        &mut self.name
    }

    /// The query to prepare.
    pub fn query(&self) -> (r: &String)
        ensures
            r@ == self@.query,
    {
        &self.query
    }

    /// Replaces the field and gives the message back.
    pub fn set_query(&mut self, val: String) -> (r: &mut Self)
        ensures
            (*r)@ == (ParseView { query: val@, ..old(self)@ }),
            *final(self) == *final(r),
    {
        self.query = val;
        self
    }

    /// The query to prepare.
    pub fn query_mut(&mut self) -> (r: &mut String)
        ensures
            (*r)@ == old(self)@.query,
            final(self)@ == (ParseView { query: final(r)@, ..old(self)@ }),
    {
        &mut self.query
    }

    /// The types of the parameters.
    pub fn type_oids(&self) -> (r: &Vec<i32>)
        ensures
            r@ == self@.type_oids,
    {
        &self.type_oids
    }

    /// Replaces the field and gives the message back.
    pub fn set_type_oids(&mut self, val: Vec<i32>) -> (r: &mut Self)
        ensures
            (*r)@ == (ParseView { type_oids: val@, ..old(self)@ }),
            *final(self) == *final(r),
    {
        self.type_oids = val;
        self
    }

    /// The types of the parameters.
    pub fn type_oids_mut(&mut self) -> (r: &mut Vec<i32>)
        ensures
            (*r)@ == old(self)@.type_oids,
            final(self)@ == (ParseView { type_oids: final(r)@, ..old(self)@ }),
    {
        &mut self.type_oids
    }

    /// The announced length counts the length field, the two strings and the parameter types. The
    /// two bytes that count the parameter types are not announced.
    pub proof fn law_length_leaves_out_the_type_count(value: ParseView)
        ensures
            Parse::length(value) + 2 == 4 + Parse::body(value).len(),
    {
        roundtrip::lemma_i32s_bytes_len(value.type_oids);
    }
}

impl Message for Parse {
    open spec fn type_byte() -> Option<u8> {
        Some(MESSAGE_TYPE_BYTE_PARSE)
    }

    open spec fn length(value: ParseView) -> nat {
        4 + codec::cstring_bytes(codec::text_or_empty(value.name)).len() + codec::cstring_bytes(
            value.query,
        ).len() + 4 * value.type_oids.len()
    }

    open spec fn body(value: ParseView) -> Seq<u8> {
        codec::cstring_bytes(codec::text_or_empty(value.name)) + codec::cstring_bytes(value.query)
            + codec::i32_list_bytes(value.type_oids)
    }

    open spec fn readable(bytes: Seq<u8>) -> bool {
        &&& codec::has_cstring(bytes)
        &&& codec::has_cstring(codec::after_cstring(bytes))
        &&& codec::has_i32_list(codec::after_cstring(codec::after_cstring(bytes)))
    }

    open spec fn value_of(bytes: Seq<u8>) -> ParseView {
        let query = codec::after_cstring(bytes);
        let type_oids = codec::after_cstring(query);
        ParseView {
            name: codec::cstring_at_front(bytes),
            query: codec::text_or_empty(codec::cstring_at_front(query)),
            type_oids: codec::i32_list_at_front(type_oids),
        }
    }

    open spec fn rest_of(bytes: Seq<u8>) -> Seq<u8> {
        codec::after_i32_list(codec::after_cstring(codec::after_cstring(bytes)))
    }

    open spec fn canonical(bytes: Seq<u8>) -> bool {
        &&& codec::canonical_cstring(bytes)
        &&& codec::canonical_cstring(codec::after_cstring(bytes))
    }

    open spec fn faithful(value: ParseView) -> bool {
        &&& codec::faithful_name(value.name)
        &&& !value.query.contains('\0')
        &&& value.type_oids.len() <= i16::MAX
    }

    fn message_type() -> (r: Option<u8>) {
        Some(MESSAGE_TYPE_BYTE_PARSE)
    }

    fn message_length(&self) -> (n: usize) {
        4 + codec::option_string_len(&self.name) + (1 + self.query.as_str().as_bytes().len()) + (4
            * self.type_oids.len())
    }

    fn body_length(&self) -> (r: Option<usize>) {
        let n = codec::count_option_cstring(Some(0), &self.name);
        let n = codec::count_cstring(n, self.query.as_str());
        codec::count_i32_list(n, &self.type_oids)
    }

    fn encode_body(&self, buf: &mut BytesMut) -> (r: PgWireResult<()>) {
        codec::put_option_cstring(buf, &self.name);
        codec::put_cstring(buf, self.query.as_str());
        codec::put_i32_list(buf, &self.type_oids);
        assert(codec::buffer_bytes(*buf) =~= codec::buffer_bytes(*old(buf)) + Self::body(self@));
        Ok(())
    }

    fn is_readable(buf: &BytesMut) -> (r: bool) {
        match codec::skip_cstring(codec::chunk(buf)) {
            Some(query) => match codec::skip_cstring(query) {
                Some(type_oids) => codec::skip_i32_list(type_oids).is_some(),
                None => false,
            },
            None => false,
        }
    }

    fn decode_body(buf: &mut BytesMut) -> (r: PgWireResult<Self>) {
        let name = codec::get_cstring(buf);
        let query = match codec::get_cstring(buf) {
            Some(query) => query,
            None => String::new(),
        };
        let type_oids = codec::get_i32_list(buf);
        Ok(Parse { name, query, type_oids })
    }

    proof fn law_length_is_bounded(value: ParseView) {
        Self::law_length_leaves_out_the_type_count(value);
    }

    proof fn law_reads_back(value: ParseView, rest: Seq<u8>) {
        let type_oids = codec::i32_list_bytes(value.type_oids) + rest;
        let query = codec::cstring_bytes(value.query) + type_oids;
        assert(Self::body(value) + rest =~= codec::cstring_bytes(codec::text_or_empty(value.name))
            + query);
        roundtrip::lemma_option_cstring_reads_back(value.name, query);
        roundtrip::lemma_cstring_reads_back(value.query, type_oids);
        roundtrip::lemma_i32_list_reads_back(value.type_oids, rest);
        assert(value.query.len() == 0 ==> value.query =~= seq![]);
    }

    proof fn law_writes_back(bytes: Seq<u8>) {
        let query = codec::after_cstring(bytes);
        let type_oids = codec::after_cstring(query);
        roundtrip::lemma_cstring_writes_back(bytes);
        roundtrip::lemma_cstring_writes_back(query);
        roundtrip::lemma_i32_list_writes_back(type_oids);
        let value = Self::value_of(bytes);
        assert(Self::body(value) + Self::rest_of(bytes) =~= codec::cstring_bytes(
            codec::text_or_empty(value.name),
        ) + (codec::cstring_bytes(value.query) + (codec::i32_list_bytes(value.type_oids)
            + Self::rest_of(bytes))));
    }
}

/// Announces [`ParseComplete`]: the character `1`.
pub const MESSAGE_TYPE_BYTE_PARSE_COMPLETE: u8 = 0x31;

/// Response for Parse command, sent from backend to frontend.
#[derive(Debug, PartialEq, Eq)]
pub struct ParseComplete;

impl View for ParseComplete {
    type V = ();

    open spec fn view(&self) -> () {
        ()
    }
}

impl ParseComplete {
    /// The message, which carries nothing.
    pub fn new() -> (r: Self)
        ensures
            r@ == (),
    {
        ParseComplete
    }

    /// The announced length counts the length field and the body.
    pub proof fn law_length_counts_the_body()
        ensures
            ParseComplete::length(()) == 4 + ParseComplete::body(()).len(),
    {
    }
}

impl Message for ParseComplete {
    open spec fn type_byte() -> Option<u8> {
        Some(MESSAGE_TYPE_BYTE_PARSE_COMPLETE)
    }

    open spec fn length(value: ()) -> nat {
        4
    }

    open spec fn body(value: ()) -> Seq<u8> {
        seq![]
    }

    open spec fn readable(bytes: Seq<u8>) -> bool {
        true
    }

    open spec fn value_of(bytes: Seq<u8>) -> () {
        ()
    }

    open spec fn rest_of(bytes: Seq<u8>) -> Seq<u8> {
        bytes
    }

    open spec fn canonical(bytes: Seq<u8>) -> bool {
        true
    }

    open spec fn faithful(value: ()) -> bool {
        true
    }

    fn message_type() -> (r: Option<u8>) {
        Some(MESSAGE_TYPE_BYTE_PARSE_COMPLETE)
    }

    fn message_length(&self) -> (n: usize) {
        4
    }

    fn body_length(&self) -> (r: Option<usize>) {
        Some(0)
    }

    fn encode_body(&self, buf: &mut BytesMut) -> (r: PgWireResult<()>) {
        assert(codec::buffer_bytes(*buf) + Self::body(self@) =~= codec::buffer_bytes(*buf));
        Ok(())
    }

    fn is_readable(buf: &BytesMut) -> (r: bool) {
        true
    }

    fn decode_body(buf: &mut BytesMut) -> (r: PgWireResult<Self>) {
        Ok(ParseComplete)
    }

    proof fn law_length_is_bounded(value: ()) {
        Self::law_length_counts_the_body();
    }

    proof fn law_reads_back(value: (), rest: Seq<u8>) {
        assert(Self::body(value) + rest =~= rest);
    }

    proof fn law_writes_back(bytes: Seq<u8>) {
        assert(Self::body(()) + bytes =~= bytes);
    }
}

/// Announces [`Close`]: the character `C`.
pub const MESSAGE_TYPE_BYTE_CLOSE: u8 = 0x43;

/// A [`Close`] or a [`Describe`] is about a prepared statement: the character `S`.
pub const TARGET_TYPE_BYTE_STATEMENT: u8 = 0x53;

/// A [`Close`] or a [`Describe`] is about a portal: the character `P`.
pub const TARGET_TYPE_BYTE_PORTAL: u8 = 0x50;

/// Closing the prepared statement or portal.
#[derive(Debug, PartialEq, Eq)]
pub struct Close {
    target_type: u8,
    name: Option<String>,
}

/// The value of a [`Close`].
#[verifier::ext_equal]
pub struct CloseView {
    /// What is closed: a statement or a portal.
    pub target_type: u8,
    /// The name of what is closed.
    pub name: Option<Seq<char>>,
}

impl View for Close {
    type V = CloseView;

    closed spec fn view(&self) -> CloseView {
        CloseView {
            target_type: self.target_type,
            name: codec::option_text(self.name),
        }
    }
}

impl Close {
    /// A message with the given fields.
    pub fn new(target_type: u8, name: Option<String>) -> (r: Self)
        ensures
            r@.target_type == target_type,
            r@.name == codec::option_text(name),
    {
        Close { target_type, name }
    }

    /// What is closed: a statement or a portal.
    pub fn target_type(&self) -> (r: &u8)
        ensures
            *r == self@.target_type,
    {
        &self.target_type
    }

    /// Replaces the field and gives the message back.
    pub fn set_target_type(&mut self, val: u8) -> (r: &mut Self)
        ensures
            (*r)@ == (CloseView { target_type: val, ..old(self)@ }),
            *final(self) == *final(r),
    {
        self.target_type = val;
        self
    }

    /// What is closed: a statement or a portal.
    pub fn target_type_mut(&mut self) -> (r: &mut u8)
        ensures
            (*r) == old(self)@.target_type,
            final(self)@ == (CloseView { target_type: (*final(r)), ..old(self)@ }),
    {
        &mut self.target_type
    }

    /// The name of what is closed.
    pub fn name(&self) -> (r: &Option<String>)
        ensures
            codec::option_text(*r) == self@.name,
    {
        &self.name
    }

    /// Replaces the field and gives the message back.
    pub fn set_name(&mut self, val: Option<String>) -> (r: &mut Self)
        ensures
            (*r)@ == (CloseView { name: codec::option_text(val), ..old(self)@ }),
            *final(self) == *final(r),
    {
        self.name = val;
        self
    }

    /// The name of what is closed.
    pub fn name_mut(&mut self) -> (r: &mut Option<String>)
        ensures
            codec::option_text(*r) == old(self)@.name,
            final(self)@ == (CloseView { name: codec::option_text(*final(r)), ..old(self)@ }),
    {
        &mut self.name
    }

    /// The announced length counts the length field and the body.
    pub proof fn law_length_counts_the_body(value: CloseView)
        ensures
            Close::length(value) == 4 + Close::body(value).len(),
    {
    }
}

impl Message for Close {
    open spec fn type_byte() -> Option<u8> {
        Some(MESSAGE_TYPE_BYTE_CLOSE)
    }

    open spec fn length(value: CloseView) -> nat {
        4 + 1 + codec::cstring_bytes(codec::text_or_empty(value.name)).len()
    }

    open spec fn body(value: CloseView) -> Seq<u8> {
        seq![value.target_type] + codec::cstring_bytes(codec::text_or_empty(value.name))
    }

    open spec fn readable(bytes: Seq<u8>) -> bool {
        bytes.len() >= 1 && codec::has_cstring(bytes.skip(1))
    }

    open spec fn value_of(bytes: Seq<u8>) -> CloseView {
        CloseView { target_type: bytes[0], name: codec::cstring_at_front(bytes.skip(1)) }
    }

    open spec fn rest_of(bytes: Seq<u8>) -> Seq<u8> {
        codec::after_cstring(bytes.skip(1))
    }

    open spec fn canonical(bytes: Seq<u8>) -> bool {
        codec::canonical_cstring(bytes.skip(1))
    }

    open spec fn faithful(value: CloseView) -> bool {
        codec::faithful_name(value.name)
    }

    fn message_type() -> (r: Option<u8>) {
        Some(MESSAGE_TYPE_BYTE_CLOSE)
    }

    fn message_length(&self) -> (n: usize) {
        4 + 1 + codec::option_string_len(&self.name)
    }

    fn body_length(&self) -> (r: Option<usize>) {
        codec::count_option_cstring(Some(1), &self.name)
    }

    fn encode_body(&self, buf: &mut BytesMut) -> (r: PgWireResult<()>) {
        codec::put_u8(buf, self.target_type);
        codec::put_option_cstring(buf, &self.name);
        assert(codec::buffer_bytes(*buf) =~= codec::buffer_bytes(*old(buf)) + Self::body(self@));
        Ok(())
    }

    fn is_readable(buf: &BytesMut) -> (r: bool) {
        match codec::skip_bytes(codec::chunk(buf), 1) {
            Some(name) => codec::skip_cstring(name).is_some(),
            None => false,
        }
    }

    fn decode_body(buf: &mut BytesMut) -> (r: PgWireResult<Self>) {
        let target_type: u8 = codec::get_u8(buf);
        let name = codec::get_cstring(buf);
        Ok(Close { target_type, name })
    }

    proof fn law_length_is_bounded(value: CloseView) {
        Self::law_length_counts_the_body(value);
    }

    proof fn law_reads_back(value: CloseView, rest: Seq<u8>) {
        let name = codec::cstring_bytes(codec::text_or_empty(value.name)) + rest;
        assert((Self::body(value) + rest).skip(1) =~= name);
        roundtrip::lemma_option_cstring_reads_back(value.name, rest);
    }

    proof fn law_writes_back(bytes: Seq<u8>) {
        roundtrip::lemma_cstring_writes_back(bytes.skip(1));
        assert(Self::body(Self::value_of(bytes)) + Self::rest_of(bytes) =~= bytes.take(1)
            + bytes.skip(1));
        assert(bytes.take(1) + bytes.skip(1) =~= bytes);
    }
}

/// Announces [`CloseComplete`]: the character `3`.
pub const MESSAGE_TYPE_BYTE_CLOSE_COMPLETE: u8 = 0x33;

/// Response for Close command, sent from backend to frontend.
#[derive(Debug, PartialEq, Eq)]
pub struct CloseComplete;

impl View for CloseComplete {
    type V = ();

    open spec fn view(&self) -> () {
        ()
    }
}

impl CloseComplete {
    /// The message, which carries nothing.
    pub fn new() -> (r: Self)
        ensures
            r@ == (),
    {
        CloseComplete
    }

    /// The announced length counts the length field and the body.
    pub proof fn law_length_counts_the_body()
        ensures
            CloseComplete::length(()) == 4 + CloseComplete::body(()).len(),
    {
    }
}

impl Message for CloseComplete {
    open spec fn type_byte() -> Option<u8> {
        Some(MESSAGE_TYPE_BYTE_CLOSE_COMPLETE)
    }

    open spec fn length(value: ()) -> nat {
        4
    }

    open spec fn body(value: ()) -> Seq<u8> {
        seq![]
    }

    open spec fn readable(bytes: Seq<u8>) -> bool {
        true
    }

    open spec fn value_of(bytes: Seq<u8>) -> () {
        ()
    }

    open spec fn rest_of(bytes: Seq<u8>) -> Seq<u8> {
        bytes
    }

    open spec fn canonical(bytes: Seq<u8>) -> bool {
        true
    }

    open spec fn faithful(value: ()) -> bool {
        true
    }

    fn message_type() -> (r: Option<u8>) {
        Some(MESSAGE_TYPE_BYTE_CLOSE_COMPLETE)
    }

    fn message_length(&self) -> (n: usize) {
        4
    }

    fn body_length(&self) -> (r: Option<usize>) {
        Some(0)
    }

    fn encode_body(&self, buf: &mut BytesMut) -> (r: PgWireResult<()>) {
        assert(codec::buffer_bytes(*buf) + Self::body(self@) =~= codec::buffer_bytes(*buf));
        Ok(())
    }

    fn is_readable(buf: &BytesMut) -> (r: bool) {
        true
    }

    fn decode_body(buf: &mut BytesMut) -> (r: PgWireResult<Self>) {
        Ok(CloseComplete)
    }

    proof fn law_length_is_bounded(value: ()) {
        Self::law_length_counts_the_body();
    }

    proof fn law_reads_back(value: (), rest: Seq<u8>) {
        assert(Self::body(value) + rest =~= rest);
    }

    proof fn law_writes_back(bytes: Seq<u8>) {
        assert(Self::body(()) + bytes =~= bytes);
    }
}

/// Announces [`Bind`]: the character `B`.
pub const MESSAGE_TYPE_BYTE_BIND: u8 = 0x42;

/// Bind command, for executing prepared statement.
#[derive(Debug, PartialEq, Eq)]
pub struct Bind {
    portal_name: Option<String>,
    statement_name: Option<String>,
    parameter_format_codes: Vec<i16>,
    parameters: Vec<Option<Vec<u8>>>,
    result_column_format_codes: Vec<i16>,
}

/// The value of a [`Bind`].
#[verifier::ext_equal]
pub struct BindView {
    /// The name of the portal.
    pub portal_name: Option<Seq<char>>,
    /// The name of the prepared statement.
    pub statement_name: Option<Seq<char>>,
    /// The formats of the parameters.
    pub parameter_format_codes: Seq<i16>,
    /// The values of the parameters, `None` for null.
    pub parameters: Seq<Option<Seq<u8>>>,
    /// The formats of the result columns.
    pub result_column_format_codes: Seq<i16>,
}

impl View for Bind {
    type V = BindView;

    closed spec fn view(&self) -> BindView {
        BindView {
            portal_name: codec::option_text(self.portal_name),
            statement_name: codec::option_text(self.statement_name),
            parameter_format_codes: self.parameter_format_codes@,
            parameters: codec::options_bytes(self.parameters@),
            result_column_format_codes: self.result_column_format_codes@,
        }
    }
}

impl Bind {
    /// A message with the given fields.
    pub fn new(
        portal_name: Option<String>,
        statement_name: Option<String>,
        parameter_format_codes: Vec<i16>,
        parameters: Vec<Option<Vec<u8>>>,
        result_column_format_codes: Vec<i16>,
    ) -> (r: Self)
        ensures
            r@.portal_name == codec::option_text(portal_name),
            r@.statement_name == codec::option_text(statement_name),
            r@.parameter_format_codes == parameter_format_codes@,
            r@.parameters == codec::options_bytes(parameters@),
            r@.result_column_format_codes == result_column_format_codes@,
    {
        Bind {
            portal_name,
            statement_name,
            parameter_format_codes,
            parameters,
            result_column_format_codes,
        }
    }

    /// The name of the portal.
    pub fn portal_name(&self) -> (r: &Option<String>)
        ensures
            codec::option_text(*r) == self@.portal_name,
    {
        &self.portal_name
    }

    /// Replaces the field and gives the message back.
    pub fn set_portal_name(&mut self, val: Option<String>) -> (r: &mut Self)
        ensures
            (*r)@ == (BindView { portal_name: codec::option_text(val), ..old(self)@ }),
            *final(self) == *final(r),
    {
        self.portal_name = val;
        self
    }

    /// The name of the portal.
    pub fn portal_name_mut(&mut self) -> (r: &mut Option<String>)
        ensures
            codec::option_text(*r) == old(self)@.portal_name,
            final(self)@ == (BindView { portal_name: codec::option_text(*final(r)), ..old(self)@ }),
    {
        &mut self.portal_name
    }

    /// The name of the prepared statement.
    pub fn statement_name(&self) -> (r: &Option<String>)
        ensures
            codec::option_text(*r) == self@.statement_name,
    {
        &self.statement_name
    }

    /// Replaces the field and gives the message back.
    pub fn set_statement_name(&mut self, val: Option<String>) -> (r: &mut Self)
        ensures
            (*r)@ == (BindView { statement_name: codec::option_text(val), ..old(self)@ }),
            *final(self) == *final(r),
    {
        self.statement_name = val;
        self
    }

    /// The name of the prepared statement.
    pub fn statement_name_mut(&mut self) -> (r: &mut Option<String>)
        ensures
            codec::option_text(*r) == old(self)@.statement_name,
            final(self)@ == (BindView {
                statement_name: codec::option_text(*final(r)),
                ..old(self)@
            }),
    {
        &mut self.statement_name
    }

    /// The formats of the parameters.
    pub fn parameter_format_codes(&self) -> (r: &Vec<i16>)
        ensures
            r@ == self@.parameter_format_codes,
    {
        &self.parameter_format_codes
    }

    /// Replaces the field and gives the message back.
    pub fn set_parameter_format_codes(&mut self, val: Vec<i16>) -> (r: &mut Self)
        ensures
            (*r)@ == (BindView { parameter_format_codes: val@, ..old(self)@ }),
            *final(self) == *final(r),
    {
        self.parameter_format_codes = val;
        self
    }

    /// The formats of the parameters.
    pub fn parameter_format_codes_mut(&mut self) -> (r: &mut Vec<i16>)
        ensures
            (*r)@ == old(self)@.parameter_format_codes,
            final(self)@ == (BindView { parameter_format_codes: final(r)@, ..old(self)@ }),
    {
        &mut self.parameter_format_codes
    }

    /// The values of the parameters, `None` for null.
    pub fn parameters(&self) -> (r: &Vec<Option<Vec<u8>>>)
        ensures
            codec::options_bytes(r@) == self@.parameters,
    {
        &self.parameters
    }

    /// Replaces the field and gives the message back.
    pub fn set_parameters(&mut self, val: Vec<Option<Vec<u8>>>) -> (r: &mut Self)
        ensures
            (*r)@ == (BindView { parameters: codec::options_bytes(val@), ..old(self)@ }),
            *final(self) == *final(r),
    {
        self.parameters = val;
        self
    }

    /// The values of the parameters, `None` for null.
    pub fn parameters_mut(&mut self) -> (r: &mut Vec<Option<Vec<u8>>>)
        ensures
            codec::options_bytes((*r)@) == old(self)@.parameters,
            final(self)@ == (BindView {
                parameters: codec::options_bytes(final(r)@),
                ..old(self)@
            }),
    {
        &mut self.parameters
    }

    /// The formats of the result columns.
    pub fn result_column_format_codes(&self) -> (r: &Vec<i16>)
        ensures
            r@ == self@.result_column_format_codes,
    {
        &self.result_column_format_codes
    }

    /// Replaces the field and gives the message back.
    pub fn set_result_column_format_codes(&mut self, val: Vec<i16>) -> (r: &mut Self)
        ensures
            (*r)@ == (BindView { result_column_format_codes: val@, ..old(self)@ }),
            *final(self) == *final(r),
    {
        self.result_column_format_codes = val;
        self
    }

    /// The formats of the result columns.
    pub fn result_column_format_codes_mut(&mut self) -> (r: &mut Vec<i16>)
        ensures
            (*r)@ == old(self)@.result_column_format_codes,
            final(self)@ == (BindView { result_column_format_codes: final(r)@, ..old(self)@ }),
    {
        &mut self.result_column_format_codes
    }

    /// The announced length counts the length field and the body.
    pub proof fn law_length_counts_the_body(value: BindView)
        ensures
            Bind::length(value) == 4 + Bind::body(value).len(),
    {
        roundtrip::lemma_i16s_bytes_len(value.parameter_format_codes);
        roundtrip::lemma_fields_bytes_len(value.parameters);
        roundtrip::lemma_i16s_bytes_len(value.result_column_format_codes);
    }
}

impl Message for Bind {
    open spec fn type_byte() -> Option<u8> {
        Some(MESSAGE_TYPE_BYTE_BIND)
    }

    open spec fn length(value: BindView) -> nat {
        4 + codec::cstring_bytes(codec::text_or_empty(value.portal_name)).len()
            + codec::cstring_bytes(codec::text_or_empty(value.statement_name)).len() + 2 + 2
            * value.parameter_format_codes.len() + 2 + codec::fields_len(value.parameters) + 2 + 2
            * value.result_column_format_codes.len()
    }

    open spec fn body(value: BindView) -> Seq<u8> {
        codec::cstring_bytes(codec::text_or_empty(value.portal_name)) + codec::cstring_bytes(
            codec::text_or_empty(value.statement_name),
        ) + codec::i16_list_bytes(value.parameter_format_codes) + codec::field_list_bytes(
            value.parameters,
        ) + codec::i16_list_bytes(value.result_column_format_codes)
    }

    open spec fn readable(bytes: Seq<u8>) -> bool {
        let statement_name = codec::after_cstring(bytes);
        let parameter_format_codes = codec::after_cstring(statement_name);
        let parameters = codec::after_i16_list(parameter_format_codes);
        let result_column_format_codes = codec::after_field_list(parameters);
        &&& codec::has_cstring(bytes)
        &&& codec::has_cstring(statement_name)
        &&& codec::has_i16_list(parameter_format_codes)
        &&& codec::has_field_list(parameters)
        &&& codec::has_i16_list(result_column_format_codes)
    }

    open spec fn value_of(bytes: Seq<u8>) -> BindView {
        let statement_name = codec::after_cstring(bytes);
        let parameter_format_codes = codec::after_cstring(statement_name);
        let parameters = codec::after_i16_list(parameter_format_codes);
        let result_column_format_codes = codec::after_field_list(parameters);
        BindView {
            portal_name: codec::cstring_at_front(bytes),
            statement_name: codec::cstring_at_front(statement_name),
            parameter_format_codes: codec::i16_list_at_front(parameter_format_codes),
            parameters: codec::field_list_at_front(parameters),
            result_column_format_codes: codec::i16_list_at_front(result_column_format_codes),
        }
    }

    open spec fn rest_of(bytes: Seq<u8>) -> Seq<u8> {
        codec::after_i16_list(
            codec::after_field_list(
                codec::after_i16_list(codec::after_cstring(codec::after_cstring(bytes))),
            ),
        )
    }

    open spec fn canonical(bytes: Seq<u8>) -> bool {
        let parameters = codec::after_i16_list(codec::after_cstring(codec::after_cstring(bytes)));
        &&& codec::canonical_cstring(bytes)
        &&& codec::canonical_cstring(codec::after_cstring(bytes))
        &&& codec::canonical_field_list(parameters)
    }

    open spec fn faithful(value: BindView) -> bool {
        &&& codec::faithful_name(value.portal_name)
        &&& codec::faithful_name(value.statement_name)
        &&& value.parameter_format_codes.len() <= i16::MAX
        &&& value.parameters.len() <= i16::MAX
        &&& forall|i: int|
            0 <= i < value.parameters.len() ==> codec::faithful_field(
                #[trigger] value.parameters[i],
            )
        &&& value.result_column_format_codes.len() <= i16::MAX
    }

    fn message_type() -> (r: Option<u8>) {
        Some(MESSAGE_TYPE_BYTE_BIND)
    }

    fn message_length(&self) -> (n: usize) {
        4 + codec::option_string_len(&self.portal_name) + codec::option_string_len(
            &self.statement_name,
        ) + 2 + (2 * self.parameter_format_codes.len()) + 2 + codec::field_lengths(&self.parameters)
            + 2 + (2 * self.result_column_format_codes.len())
    }

    fn body_length(&self) -> (r: Option<usize>) {
        let n = codec::count_option_cstring(Some(0), &self.portal_name);
        let n = codec::count_option_cstring(n, &self.statement_name);
        let n = codec::count_i16_list(n, &self.parameter_format_codes);
        let n = codec::count_field_list(n, &self.parameters);
        codec::count_i16_list(n, &self.result_column_format_codes)
    }

    fn encode_body(&self, buf: &mut BytesMut) -> (r: PgWireResult<()>) {
        codec::put_option_cstring(buf, &self.portal_name);
        codec::put_option_cstring(buf, &self.statement_name);
        codec::put_i16_list(buf, &self.parameter_format_codes);
        codec::put_field_list(buf, &self.parameters);
        codec::put_i16_list(buf, &self.result_column_format_codes);
        assert(codec::buffer_bytes(*buf) =~= codec::buffer_bytes(*old(buf)) + Self::body(self@));
        Ok(())
    }

    fn is_readable(buf: &BytesMut) -> (r: bool) {
        let statement_name = match codec::skip_cstring(codec::chunk(buf)) {
            Some(rest) => rest,
            None => {
                return false;
            },
        };
        let parameter_format_codes = match codec::skip_cstring(statement_name) {
            Some(rest) => rest,
            None => {
                return false;
            },
        };
        let parameters = match codec::skip_i16_list(parameter_format_codes) {
            Some(rest) => rest,
            None => {
                return false;
            },
        };
        match codec::skip_field_list(parameters) {
            Some(rest) => codec::skip_i16_list(rest).is_some(),
            None => false,
        }
    }

    fn decode_body(buf: &mut BytesMut) -> (r: PgWireResult<Self>) {
        let portal_name = codec::get_cstring(buf);
        let statement_name = codec::get_cstring(buf);
        let parameter_format_codes = codec::get_i16_list(buf);
        let parameters = codec::get_field_list(buf);
        let result_column_format_codes = codec::get_i16_list(buf);
        Ok(
            Bind {
                portal_name,
                statement_name,
                parameter_format_codes,
                parameters,
                result_column_format_codes,
            },
        )
    }

    proof fn law_length_is_bounded(value: BindView) {
        Self::law_length_counts_the_body(value);
    }

    proof fn law_reads_back(value: BindView, rest: Seq<u8>) {
        let result_column_format_codes = codec::i16_list_bytes(value.result_column_format_codes)
            + rest;
        let parameters = codec::field_list_bytes(value.parameters) + result_column_format_codes;
        let parameter_format_codes = codec::i16_list_bytes(value.parameter_format_codes)
            + parameters;
        let statement_name = codec::cstring_bytes(codec::text_or_empty(value.statement_name))
            + parameter_format_codes;
        assert(Self::body(value) + rest =~= codec::cstring_bytes(
            codec::text_or_empty(value.portal_name),
        ) + statement_name);
        roundtrip::lemma_option_cstring_reads_back(value.portal_name, statement_name);
        roundtrip::lemma_option_cstring_reads_back(value.statement_name, parameter_format_codes);
        roundtrip::lemma_i16_list_reads_back(value.parameter_format_codes, parameters);
        roundtrip::lemma_field_list_reads_back(value.parameters, result_column_format_codes);
        roundtrip::lemma_i16_list_reads_back(value.result_column_format_codes, rest);
    }

    proof fn law_writes_back(bytes: Seq<u8>) {
        let statement_name = codec::after_cstring(bytes);
        let parameter_format_codes = codec::after_cstring(statement_name);
        let parameters = codec::after_i16_list(parameter_format_codes);
        let result_column_format_codes = codec::after_field_list(parameters);
        roundtrip::lemma_cstring_writes_back(bytes);
        roundtrip::lemma_cstring_writes_back(statement_name);
        roundtrip::lemma_i16_list_writes_back(parameter_format_codes);
        roundtrip::lemma_field_list_writes_back(parameters);
        roundtrip::lemma_i16_list_writes_back(result_column_format_codes);
        let value = Self::value_of(bytes);
        roundtrip::lemma_five_parts(
            codec::cstring_bytes(codec::text_or_empty(value.portal_name)),
            codec::cstring_bytes(codec::text_or_empty(value.statement_name)),
            codec::i16_list_bytes(value.parameter_format_codes),
            codec::field_list_bytes(value.parameters),
            codec::i16_list_bytes(value.result_column_format_codes),
            Self::rest_of(bytes),
        );
    }
}

/// Announces [`BindComplete`]: the character `2`.
pub const MESSAGE_TYPE_BYTE_BIND_COMPLETE: u8 = 0x32;

/// Success response for `Bind`.
#[derive(Debug, PartialEq, Eq)]
pub struct BindComplete;

impl View for BindComplete {
    type V = ();

    open spec fn view(&self) -> () {
        ()
    }
}

impl BindComplete {
    /// The message, which carries nothing.
    pub fn new() -> (r: Self)
        ensures
            r@ == (),
    {
        BindComplete
    }

    /// The announced length counts the length field and the body.
    pub proof fn law_length_counts_the_body()
        ensures
            BindComplete::length(()) == 4 + BindComplete::body(()).len(),
    {
    }
}

impl Message for BindComplete {
    open spec fn type_byte() -> Option<u8> {
        Some(MESSAGE_TYPE_BYTE_BIND_COMPLETE)
    }

    open spec fn length(value: ()) -> nat {
        4
    }

    open spec fn body(value: ()) -> Seq<u8> {
        seq![]
    }

    open spec fn readable(bytes: Seq<u8>) -> bool {
        true
    }

    open spec fn value_of(bytes: Seq<u8>) -> () {
        ()
    }

    open spec fn rest_of(bytes: Seq<u8>) -> Seq<u8> {
        bytes
    }

    open spec fn canonical(bytes: Seq<u8>) -> bool {
        true
    }

    open spec fn faithful(value: ()) -> bool {
        true
    }

    fn message_type() -> (r: Option<u8>) {
        Some(MESSAGE_TYPE_BYTE_BIND_COMPLETE)
    }

    fn message_length(&self) -> (n: usize) {
        4
    }

    fn body_length(&self) -> (r: Option<usize>) {
        Some(0)
    }

    fn encode_body(&self, buf: &mut BytesMut) -> (r: PgWireResult<()>) {
        assert(codec::buffer_bytes(*buf) + Self::body(self@) =~= codec::buffer_bytes(*buf));
        Ok(())
    }

    fn is_readable(buf: &BytesMut) -> (r: bool) {
        true
    }

    fn decode_body(buf: &mut BytesMut) -> (r: PgWireResult<Self>) {
        Ok(BindComplete)
    }

    proof fn law_length_is_bounded(value: ()) {
        Self::law_length_counts_the_body();
    }

    proof fn law_reads_back(value: (), rest: Seq<u8>) {
        assert(Self::body(value) + rest =~= rest);
    }

    proof fn law_writes_back(bytes: Seq<u8>) {
        assert(Self::body(()) + bytes =~= bytes);
    }
}

/// Announces [`Describe`]: the character `D`.
pub const MESSAGE_TYPE_BYTE_DESCRIBE: u8 = 0x44;

/// Describe command from frontend to backend. For getting information of
/// particular portal or statement.
#[derive(Debug, PartialEq, Eq)]
pub struct Describe {
    target_type: u8,
    name: Option<String>,
}

/// The value of a [`Describe`].
#[verifier::ext_equal]
pub struct DescribeView {
    /// What is described: a statement or a portal.
    pub target_type: u8,
    /// The name of what is described.
    pub name: Option<Seq<char>>,
}

impl View for Describe {
    type V = DescribeView;

    closed spec fn view(&self) -> DescribeView {
        DescribeView {
            target_type: self.target_type,
            name: codec::option_text(self.name),
        }
    }
}

impl Describe {
    /// A message with the given fields.
    pub fn new(target_type: u8, name: Option<String>) -> (r: Self)
        ensures
            r@.target_type == target_type,
            r@.name == codec::option_text(name),
    {
        Describe { target_type, name }
    }

    /// What is described: a statement or a portal.
    pub fn target_type(&self) -> (r: &u8)
        ensures
            *r == self@.target_type,
    {
        &self.target_type
    }

    /// Replaces the field and gives the message back.
    pub fn set_target_type(&mut self, val: u8) -> (r: &mut Self)
        ensures
            (*r)@ == (DescribeView { target_type: val, ..old(self)@ }),
            *final(self) == *final(r),
    {
        self.target_type = val;
        self
    }

    /// What is described: a statement or a portal.
    pub fn target_type_mut(&mut self) -> (r: &mut u8)
        ensures
            (*r) == old(self)@.target_type,
            final(self)@ == (DescribeView { target_type: (*final(r)), ..old(self)@ }),
    {
        &mut self.target_type
    }

    /// The name of what is described.
    pub fn name(&self) -> (r: &Option<String>)
        ensures
            codec::option_text(*r) == self@.name,
    {
        &self.name
    }

    /// Replaces the field and gives the message back.
    pub fn set_name(&mut self, val: Option<String>) -> (r: &mut Self)
        ensures
            (*r)@ == (DescribeView { name: codec::option_text(val), ..old(self)@ }),
            *final(self) == *final(r),
    {
        self.name = val;
        self
    }

    /// The name of what is described.
    pub fn name_mut(&mut self) -> (r: &mut Option<String>)
        ensures
            codec::option_text(*r) == old(self)@.name,
            final(self)@ == (DescribeView { name: codec::option_text(*final(r)), ..old(self)@ }),
    {
        &mut self.name
    }

    /// The announced length counts the length field and the body.
    pub proof fn law_length_counts_the_body(value: DescribeView)
        ensures
            Describe::length(value) == 4 + Describe::body(value).len(),
    {
    }
}

impl Message for Describe {
    open spec fn type_byte() -> Option<u8> {
        Some(MESSAGE_TYPE_BYTE_DESCRIBE)
    }

    open spec fn length(value: DescribeView) -> nat {
        4 + 1 + codec::cstring_bytes(codec::text_or_empty(value.name)).len()
    }

    open spec fn body(value: DescribeView) -> Seq<u8> {
        seq![value.target_type] + codec::cstring_bytes(codec::text_or_empty(value.name))
    }

    open spec fn readable(bytes: Seq<u8>) -> bool {
        bytes.len() >= 1 && codec::has_cstring(bytes.skip(1))
    }

    open spec fn value_of(bytes: Seq<u8>) -> DescribeView {
        DescribeView { target_type: bytes[0], name: codec::cstring_at_front(bytes.skip(1)) }
    }

    open spec fn rest_of(bytes: Seq<u8>) -> Seq<u8> {
        codec::after_cstring(bytes.skip(1))
    }

    open spec fn canonical(bytes: Seq<u8>) -> bool {
        codec::canonical_cstring(bytes.skip(1))
    }

    open spec fn faithful(value: DescribeView) -> bool {
        codec::faithful_name(value.name)
    }

    fn message_type() -> (r: Option<u8>) {
        Some(MESSAGE_TYPE_BYTE_DESCRIBE)
    }

    fn message_length(&self) -> (n: usize) {
        4 + 1 + codec::option_string_len(&self.name)
    }

    fn body_length(&self) -> (r: Option<usize>) {
        codec::count_option_cstring(Some(1), &self.name)
    }

    fn encode_body(&self, buf: &mut BytesMut) -> (r: PgWireResult<()>) {
        codec::put_u8(buf, self.target_type);
        codec::put_option_cstring(buf, &self.name);
        assert(codec::buffer_bytes(*buf) =~= codec::buffer_bytes(*old(buf)) + Self::body(self@));
        Ok(())
    }

    fn is_readable(buf: &BytesMut) -> (r: bool) {
        match codec::skip_bytes(codec::chunk(buf), 1) {
            Some(name) => codec::skip_cstring(name).is_some(),
            None => false,
        }
    }

    fn decode_body(buf: &mut BytesMut) -> (r: PgWireResult<Self>) {
        let target_type: u8 = codec::get_u8(buf);
        let name = codec::get_cstring(buf);
        Ok(Describe { target_type, name })
    }

    proof fn law_length_is_bounded(value: DescribeView) {
        Self::law_length_counts_the_body(value);
    }

    proof fn law_reads_back(value: DescribeView, rest: Seq<u8>) {
        let name = codec::cstring_bytes(codec::text_or_empty(value.name)) + rest;
        assert((Self::body(value) + rest).skip(1) =~= name);
        roundtrip::lemma_option_cstring_reads_back(value.name, rest);
    }

    proof fn law_writes_back(bytes: Seq<u8>) {
        roundtrip::lemma_cstring_writes_back(bytes.skip(1));
        assert(Self::body(Self::value_of(bytes)) + Self::rest_of(bytes) =~= bytes.take(1)
            + bytes.skip(1));
        assert(bytes.take(1) + bytes.skip(1) =~= bytes);
    }
}

/// Announces [`Execute`]: the character `E`.
pub const MESSAGE_TYPE_BYTE_EXECUTE: u8 = 0x45;

/// Execute portal by its name.
#[derive(Debug, PartialEq, Eq)]
pub struct Execute {
    name: Option<String>,
    max_rows: i32,
}

/// The value of a [`Execute`].
#[verifier::ext_equal]
pub struct ExecuteView {
    /// The name of the portal.
    pub name: Option<Seq<char>>,
    /// The number of rows to return at most.
    pub max_rows: i32,
}

impl View for Execute {
    type V = ExecuteView;

    closed spec fn view(&self) -> ExecuteView {
        ExecuteView {
            name: codec::option_text(self.name),
            max_rows: self.max_rows,
        }
    }
}

impl Execute {
    /// A message with the given fields.
    pub fn new(name: Option<String>, max_rows: i32) -> (r: Self)
        ensures
            r@.name == codec::option_text(name),
            r@.max_rows == max_rows,
    {
        Execute { name, max_rows }
    }

    /// The name of the portal.
    pub fn name(&self) -> (r: &Option<String>)
        ensures
            codec::option_text(*r) == self@.name,
    {
        &self.name
    }

    /// Replaces the field and gives the message back.
    pub fn set_name(&mut self, val: Option<String>) -> (r: &mut Self)
        ensures
            (*r)@ == (ExecuteView { name: codec::option_text(val), ..old(self)@ }),
            *final(self) == *final(r),
    {
        self.name = val;
        self
    }

    /// The name of the portal.
    pub fn name_mut(&mut self) -> (r: &mut Option<String>)
        ensures
            codec::option_text(*r) == old(self)@.name,
            final(self)@ == (ExecuteView { name: codec::option_text(*final(r)), ..old(self)@ }),
    {
        &mut self.name
    }

    /// The number of rows to return at most.
    pub fn max_rows(&self) -> (r: &i32)
        ensures
            *r == self@.max_rows,
    {
        &self.max_rows
    }

    /// Replaces the field and gives the message back.
    pub fn set_max_rows(&mut self, val: i32) -> (r: &mut Self)
        ensures
            (*r)@ == (ExecuteView { max_rows: val, ..old(self)@ }),
            *final(self) == *final(r),
    {
        self.max_rows = val;
        self
    }

    /// The number of rows to return at most.
    pub fn max_rows_mut(&mut self) -> (r: &mut i32)
        ensures
            (*r) == old(self)@.max_rows,
            final(self)@ == (ExecuteView { max_rows: (*final(r)), ..old(self)@ }),
    {
        &mut self.max_rows
    }

    /// The announced length counts the length field and the body.
    pub proof fn law_length_counts_the_body(value: ExecuteView)
        ensures
            Execute::length(value) == 4 + Execute::body(value).len(),
    {
    }
}

impl Message for Execute {
    open spec fn type_byte() -> Option<u8> {
        Some(MESSAGE_TYPE_BYTE_EXECUTE)
    }

    open spec fn length(value: ExecuteView) -> nat {
        4 + codec::cstring_bytes(codec::text_or_empty(value.name)).len() + 4
    }

    open spec fn body(value: ExecuteView) -> Seq<u8> {
        codec::cstring_bytes(codec::text_or_empty(value.name)) + codec::i32_bytes(value.max_rows)
    }

    open spec fn readable(bytes: Seq<u8>) -> bool {
        codec::has_cstring(bytes) && codec::after_cstring(bytes).len() >= 4
    }

    open spec fn value_of(bytes: Seq<u8>) -> ExecuteView {
        ExecuteView {
            name: codec::cstring_at_front(bytes),
            max_rows: codec::i32_at_front(codec::after_cstring(bytes)),
        }
    }

    open spec fn rest_of(bytes: Seq<u8>) -> Seq<u8> {
        codec::after_cstring(bytes).skip(4)
    }

    open spec fn canonical(bytes: Seq<u8>) -> bool {
        codec::canonical_cstring(bytes)
    }

    open spec fn faithful(value: ExecuteView) -> bool {
        codec::faithful_name(value.name)
    }

    fn message_type() -> (r: Option<u8>) {
        Some(MESSAGE_TYPE_BYTE_EXECUTE)
    }

    fn message_length(&self) -> (n: usize) {
        4 + codec::option_string_len(&self.name) + 4
    }

    fn body_length(&self) -> (r: Option<usize>) {
        let n = codec::count_option_cstring(Some(0), &self.name);
        codec::count_bytes(n, 4)
    }

    fn encode_body(&self, buf: &mut BytesMut) -> (r: PgWireResult<()>) {
        codec::put_option_cstring(buf, &self.name);
        codec::put_i32(buf, self.max_rows);
        assert(codec::buffer_bytes(*buf) =~= codec::buffer_bytes(*old(buf)) + Self::body(self@));
        Ok(())
    }

    fn is_readable(buf: &BytesMut) -> (r: bool) {
        match codec::skip_cstring(codec::chunk(buf)) {
            Some(max_rows) => max_rows.len() >= 4,
            None => false,
        }
    }

    fn decode_body(buf: &mut BytesMut) -> (r: PgWireResult<Self>) {
        let name = codec::get_cstring(buf);
        let max_rows: i32 = codec::get_i32(buf);
        Ok(Execute { name, max_rows })
    }

    proof fn law_length_is_bounded(value: ExecuteView) {
        Self::law_length_counts_the_body(value);
    }

    proof fn law_reads_back(value: ExecuteView, rest: Seq<u8>) {
        let max_rows = codec::i32_bytes(value.max_rows) + rest;
        assert(Self::body(value) + rest =~= codec::cstring_bytes(codec::text_or_empty(value.name))
            + max_rows);
        roundtrip::lemma_option_cstring_reads_back(value.name, max_rows);
        roundtrip::lemma_i32_reads_back(value.max_rows, rest);
    }

    proof fn law_writes_back(bytes: Seq<u8>) {
        let max_rows = codec::after_cstring(bytes);
        roundtrip::lemma_cstring_writes_back(bytes);
        roundtrip::lemma_i32_writes_back(max_rows);
        let value = Self::value_of(bytes);
        assert(Self::body(value) + Self::rest_of(bytes) =~= codec::cstring_bytes(
            codec::text_or_empty(value.name),
        ) + (codec::i32_bytes(value.max_rows) + Self::rest_of(bytes)));
        assert(max_rows.take(4) + max_rows.skip(4) =~= max_rows);
    }
}

} // verus!
