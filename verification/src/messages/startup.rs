//! The messages of the startup phase.

use vstd::prelude::*;

verus! {

/// The first message of a client: the parameters of the session it asks for.
#[derive(Debug, PartialEq, Eq)]
pub struct Startup {
    /// Names and values.
    pub parameters: Vec<(String, String)>,
}

/// Names and values as text.
pub open spec fn parameters_text(s: Seq<(String, String)>) -> Seq<(Seq<char>, Seq<char>)> {
    s.map_values(|p: (String, String)| (p.0@, p.1@))
}

impl View for Startup {
    type V = Seq<(Seq<char>, Seq<char>)>;

    open spec fn view(&self) -> Seq<(Seq<char>, Seq<char>)> {
        parameters_text(self.parameters@)
    }
}

impl Startup {
    /// A startup message with the given parameters.
    pub fn new(parameters: Vec<(String, String)>) -> (r: Self)
        ensures
            r.parameters == parameters,
    {
        Startup { parameters }
    }
}

/// What the server says about the authentication of a client.
#[derive(Debug, PartialEq, Eq)]
pub enum Authentication {
    /// The client is authenticated.
    AuthenticationOk,
    /// The client is asked to authenticate by one of these mechanisms.
    SASL(Vec<String>),
    /// The exchange goes on with this data.
    SASLContinue(Vec<u8>),
    /// The exchange ends with this data.
    SASLFinal(Vec<u8>),
}

/// The value of an [`Authentication`].
#[verifier::ext_equal]
pub enum AuthenticationView {
    AuthenticationOk,
    SASL(Seq<Seq<char>>),
    SASLContinue(Seq<u8>),
    SASLFinal(Seq<u8>),
}

impl View for Authentication {
    type V = AuthenticationView;

    open spec fn view(&self) -> AuthenticationView {
        match *self {
            Authentication::AuthenticationOk => AuthenticationView::AuthenticationOk,
            Authentication::SASL(m) => AuthenticationView::SASL(m@.map_values(|s: String| s@)),
            Authentication::SASLContinue(data) => AuthenticationView::SASLContinue(data@),
            Authentication::SASLFinal(data) => AuthenticationView::SASLFinal(data@),
        }
    }
}

/// A parameter of the session and its value.
#[derive(Debug, PartialEq, Eq)]
pub struct ParameterStatus {
    pub name: String,
    pub value: String,
}

impl ParameterStatus {
    /// A message about the given parameter.
    pub fn new(name: String, value: String) -> (r: Self)
        ensures
            r.name == name,
            r.value == value,
    {
        ParameterStatus { name, value }
    }
}

/// What a client needs to know to cancel a query.
#[derive(Debug, PartialEq, Eq)]
pub struct BackendKeyData {
    pub pid: i32,
    pub secret_key: i32,
}

impl BackendKeyData {
    /// A message with the given process and key.
    pub fn new(pid: i32, secret_key: i32) -> (r: Self)
        ensures
            r.pid == pid,
            r.secret_key == secret_key,
    {
        BackendKeyData { pid, secret_key }
    }
}

} // verus!
