//! The messages that travel between a client and a server.

pub mod extendedquery;
pub mod layout;
pub mod response;
pub mod startup;

use bytes::BytesMut;
use vstd::prelude::*;

use crate::codec;
use crate::error::PgWireResult;
use crate::messages::response::ReadyForQuery;
use crate::messages::startup::{Authentication, BackendKeyData, ParameterStatus};

verus! {

/// A message with a type byte, a length and a body.
///
/// The view of a message is its value as plain sequences; the specification functions say how such
/// a value is laid out in bytes.
pub trait Message: View + Sized {
    /// The byte that announces a message of this type.
    spec fn type_byte() -> Option<u8>;

    /// The length that is announced for the message, the length field counted.
    spec fn length(value: Self::V) -> nat;

    /// The bytes of the message after its type and length.
    spec fn body(value: Self::V) -> Seq<u8>;

    /// Whether a body can be read from the front of `bytes`.
    spec fn readable(bytes: Seq<u8>) -> bool;

    /// The value of the body at the front of `bytes`.
    spec fn value_of(bytes: Seq<u8>) -> Self::V;

    /// What follows the body at the front of `bytes`.
    spec fn rest_of(bytes: Seq<u8>) -> Seq<u8>;

    /// Whether the body of `value` stands for `value` alone: no string of it holds a zero
    /// character, no optional string of it is empty, and every count and length of it fits the
    /// field that it is written to.
    spec fn faithful(value: Self::V) -> bool;

    /// Whether the body at the front of `bytes` is the one that is written for its value: its
    /// strings are valid UTF-8, and a value that is missing has a length of -1, no other negative
    /// one.
    spec fn canonical(bytes: Seq<u8>) -> bool;

    /// The byte that announces a message of this type.
    fn message_type() -> (r: Option<u8>)
        ensures
            r == Self::type_byte(),
    ;

    /// The length of the message that is announced to the receiver.
    fn message_length(&self) -> (n: usize)
        requires
            Self::length(self@) <= usize::MAX,
        ensures
            n == Self::length(self@),
    ;

    /// The length of the body, or `None` where it is not a number that can be held.
    fn body_length(&self) -> (r: Option<usize>)
        ensures
            r == codec::count_of(Some(0), Self::body(self@).len()),
    ;

    /// Whether [`Message::encode_body`] can append the body to `buf`.
    fn has_room(&self, buf: &BytesMut) -> (r: bool)
        ensures
            r == (codec::buffer_bytes(*buf).len() + Self::body(self@).len() <= isize::MAX),
    {
        match codec::count_bytes(self.body_length(), codec::chunk(buf).len()) {
            Some(n) => n <= isize::MAX as usize,
            None => false,
        }
    }

    /// Appends the body of the message to `buf`.
    fn encode_body(&self, buf: &mut BytesMut) -> (r: PgWireResult<()>)
        requires
            codec::buffer_bytes(*old(buf)).len() + Self::body(self@).len() <= isize::MAX,
        ensures
            r is Ok,
            codec::buffer_bytes(*final(buf)) == codec::buffer_bytes(*old(buf)) + Self::body(self@),
    ;

    /// Whether [`Message::decode_body`] can read a body from the front of `buf`.
    fn is_readable(buf: &BytesMut) -> (r: bool)
        ensures
            r == Self::readable(codec::buffer_bytes(*buf)),
    ;

    /// Takes the body of a message off the front of `buf`.
    fn decode_body(buf: &mut BytesMut) -> (r: PgWireResult<Self>)
        requires
            Self::readable(codec::buffer_bytes(*old(buf))),
        ensures
            r matches Ok(m) && m@ == Self::value_of(codec::buffer_bytes(*old(buf))),
            codec::buffer_bytes(*final(buf)) == Self::rest_of(codec::buffer_bytes(*old(buf))),
    ;

    /// No more is announced than the length field and the body.
    proof fn law_length_is_bounded(value: Self::V)
        ensures
            Self::length(value) <= 4 + Self::body(value).len(),
    ;

    /// Reading gives back what was written: where the body of a faithful value stands at the front
    /// of some bytes, it is readable, it reads as that value, and exactly the body is taken off.
    proof fn law_reads_back(value: Self::V, rest: Seq<u8>)
        requires
            Self::faithful(value),
        ensures
            Self::readable(Self::body(value) + rest),
            Self::value_of(Self::body(value) + rest) == value,
            Self::rest_of(Self::body(value) + rest) == rest,
    ;

    /// Writing gives back what was read: a canonical body is written for its value, byte by byte.
    proof fn law_writes_back(bytes: Seq<u8>)
        requires
            Self::readable(bytes),
            Self::canonical(bytes),
        ensures
            Self::body(Self::value_of(bytes)) + Self::rest_of(bytes) == bytes,
    ;
}

/// A message of the server that is sent while a client is authenticated.
#[derive(Debug, PartialEq, Eq)]
pub enum PgWireBackendMessage {
    Authentication(Authentication),
    ParameterStatus(ParameterStatus),
    BackendKeyData(BackendKeyData),
    ReadyForQuery(ReadyForQuery),
}

/// The value of a [`PgWireBackendMessage`].
pub enum PgWireBackendMessageView {
    Authentication(startup::AuthenticationView),
    ParameterStatus(Seq<char>, Seq<char>),
    BackendKeyData(BackendKeyData),
    ReadyForQuery(ReadyForQuery),
}

impl View for PgWireBackendMessage {
    type V = PgWireBackendMessageView;

    open spec fn view(&self) -> PgWireBackendMessageView {
        match *self {
            PgWireBackendMessage::Authentication(m) => PgWireBackendMessageView::Authentication(m@),
            PgWireBackendMessage::ParameterStatus(m) => PgWireBackendMessageView::ParameterStatus(
                m.name@,
                m.value@,
            ),
            PgWireBackendMessage::BackendKeyData(m) => PgWireBackendMessageView::BackendKeyData(m),
            PgWireBackendMessage::ReadyForQuery(m) => PgWireBackendMessageView::ReadyForQuery(m),
        }
    }
}

} // verus!
