//! SCRAM-SHA-256 authentication, as a state machine.
//!
//! The server offers the mechanism, answers the first message of the client with a salt and a
//! nonce, and answers its final message with a signature or a refusal.
//! [`SASLScramAuthStartupHandler::on_startup`] makes one step: it is told what happened and says
//! what is to be done. Sending, receiving and looking up passwords is left to its caller.

pub mod laws;
pub mod message;

use std::sync::Arc;

use vstd::pervasive::unreached;
use vstd::prelude::*;
use vstd::slice::slice_to_vec;
use vstd::utf8;

use crate::api::auth::crypto;
use crate::api::auth::crypto::DIGEST_INPUT_LIMIT;
use crate::api::auth::scram::message::{
    ClientFinal, ClientFinalView, ClientFirst, ClientFirstView, ServerFinalError,
    ServerFinalSuccess, ServerFirst, ServerFirstView,
};
use crate::api::{auth, ClientInfo, ClientView, PgWireConnectionState, METADATA_USER};
use crate::codec;
use crate::error::{PgWireError, PgWireResult};
use crate::messages::startup::{Authentication, AuthenticationView, Startup};
use crate::text;

verus! {

/// The iteration count that clients are told to use.
pub const DEFAULT_ITERATIONS: usize = 4096;

// ---------------------------------------------------------------------------------------------
// Passwords, salts and nonces
// ---------------------------------------------------------------------------------------------

/// The prepared form of a password, or the password itself where it has none.
pub open spec fn prepared_or_raw(prepared: Option<Seq<char>>, password: Seq<char>) -> Seq<char> {
    match prepared {
        Some(text) => text,
        None => password,
    }
}

/// What a password is hashed as.
pub open spec fn normalized(password: Seq<char>) -> Seq<char> {
    prepared_or_raw(crypto::saslprepped(password), password)
}

/// Whether a salted password can be computed: the iteration count, modulo 2^32, is not zero, and
/// what is hashed is not too long.
pub open spec fn can_salt(password: Seq<char>, salt: Seq<u8>, iters: usize) -> bool {
    &&& iters as u32 != 0
    &&& salt.len() <= DIGEST_INPUT_LIMIT
    &&& utf8::encode_utf8(normalized(password)).len() <= DIGEST_INPUT_LIMIT
}

/// A password hashed with a salt, as a client does it too.
pub open spec fn salted_password(password: Seq<char>, salt: Seq<u8>, iters: usize) -> Seq<u8> {
    crypto::pbkdf2_hmac_sha256(
        utf8::encode_utf8(normalized(password)),
        salt,
        (iters as u32) as nat,
    )
}

/// Chooses what a password is hashed as, given its prepared form where it has one.
pub fn choose_password(prepared: Option<String>, password: &str) -> (r: String)
    ensures
        r@ == prepared_or_raw(codec::option_text(prepared), password@),
{
    match prepared {
        Some(text) => text,
        None => password.to_owned(),
    }
}

/// Prepares a password for hashing. One that cannot be prepared is used as it is.
pub fn normalize_password(password: &str) -> (r: String)
    ensures
        r@ == normalized(password@),
        crypto::is_printable_ascii(password@) ==> r@ == password@,
{
    let prepared = match crypto::saslprep(password) {
        Ok(text) => Some(text),
        Err(_) => None,
    };
    choose_password(prepared, password)
}

/// Computes the salted password from the raw password. One of printable ASCII is hashed as it is.
pub fn gen_salted_password(password: &str, salt: &[u8], iters: usize) -> (r: Vec<u8>)
    requires
        can_salt(password@, salt@, iters),
    ensures
        r@ == salted_password(password@, salt@, iters),
        r@.len() == 32,
        crypto::is_printable_ascii(password@) ==> r@ == crypto::pbkdf2_hmac_sha256(
            utf8::encode_utf8(password@),
            salt@,
            (iters as u32) as nat,
        ),
{
    let normalized_pass = normalize_password(password);
    crypto::hi(normalized_pass.as_str().as_bytes(), salt, iters)
}

/// Computes the salted password from the raw password, where that is possible.
pub fn try_gen_salted_password(password: &str, salt: &[u8], iters: usize) -> (r: Option<Vec<u8>>)
    ensures
        r is Some <==> can_salt(password@, salt@, iters),
        r matches Some(salted) ==> salted@ == salted_password(password@, salt@, iters),
{
    let normalized_pass = normalize_password(password);
    if iters as u32 != 0 && salt.len() as u64 <= DIGEST_INPUT_LIMIT
        && normalized_pass.as_str().as_bytes().len() as u64 <= DIGEST_INPUT_LIMIT {
        Some(gen_salted_password(password, salt, iters))
    } else {
        None
    }
}

/// Random bytes, one draw for each.
fn random_bytes(len: usize) -> (r: Vec<u8>)
    ensures
        r@.len() == len,
        crypto::is_drawn(r@),
{
    let mut buf: Vec<u8> = Vec::new();
    while buf.len() < len
        invariant
            buf@.len() <= len,
            crypto::is_drawn(buf@),
        decreases len - buf@.len(),
    {
        buf.push(crypto::random_byte());
    }
    buf
}

/// Whether `salt` is a salt of the server: ten bytes that were drawn.
pub open spec fn is_server_salt(salt: Seq<u8>) -> bool {
    salt.len() == 10 && crypto::is_drawn(salt)
}

/// A random salt.
pub fn random_salt() -> (r: Vec<u8>)
    ensures
        is_server_salt(r@),
{
    random_bytes(10)
}

/// Whether `nonce` is a nonce of the server: the base64 form of 18 bytes that were drawn. It has 24
/// characters, none of them a comma or padding, and decodes to those bytes.
pub open spec fn is_server_nonce(nonce: Seq<char>) -> bool {
    &&& nonce.len() == 24
    &&& forall|i: int| 0 <= i < nonce.len() ==> crypto::is_base64_char(#[trigger] nonce[i])
    &&& !nonce.contains('=')
    &&& !nonce.contains(',')
    &&& exists|buf: Seq<u8>|
        {
            &&& buf.len() == 18
            &&& crypto::is_drawn(buf)
            &&& nonce == #[trigger] crypto::base64_encoded(buf)
            &&& crypto::base64_decoded(nonce) == Ok::<Seq<u8>, Seq<char>>(buf)
        }
}

/// A random nonce.
pub fn random_nonce() -> (r: String)
    ensures
        is_server_nonce(r@),
{
    let buf = random_bytes(18);
    let r = crypto::base64_encode(buf.as_slice());
    assert(!r@.contains(',')) by {
        if r@.contains(',') {
            let i = choose|i: int| 0 <= i < r@.len() && r@[i] == ',';
            assert(crypto::is_base64_char(r@[i]));
        }
    }
    r
}

// ---------------------------------------------------------------------------------------------
// What the messages say
// ---------------------------------------------------------------------------------------------

/// How far an exchange has come.
#[derive(Debug)]
pub enum ScramState {
    /// Nothing was answered yet.
    Initial,
    /// The first message was answered: the salt, the channel binding header, and the part of the
    /// authentication message that is known so far.
    ServerFirstSent(Vec<u8>, String, String),
}

/// The value of a [`ScramState`].
#[verifier::ext_equal]
pub enum ScramStateView {
    Initial,
    ServerFirstSent(Seq<u8>, Seq<char>, Seq<char>),
}

impl View for ScramState {
    type V = ScramStateView;

    open spec fn view(&self) -> ScramStateView {
        match *self {
            ScramState::Initial => ScramStateView::Initial,
            ScramState::ServerFirstSent(salt, channel_binding, partial_auth_msg) =>
                ScramStateView::ServerFirstSent(salt@, channel_binding@, partial_auth_msg@),
        }
    }
}

/// The answer to a first message, given the nonce of the server and the salt.
pub open spec fn server_first(
    client_first: ClientFirstView,
    server_nonce: Seq<char>,
    salt: Seq<u8>,
) -> ServerFirstView {
    ServerFirstView {
        nonce: client_first.nonce + server_nonce,
        salt: crypto::base64_encoded(salt),
        iteration: DEFAULT_ITERATIONS as nat,
    }
}

/// What is kept of a first message once it is answered.
pub open spec fn state_after_client_first(
    client_first: ClientFirstView,
    server_nonce: Seq<char>,
    salt: Seq<u8>,
) -> ScramStateView {
    ScramStateView::ServerFirstSent(
        salt,
        client_first.channel_binding(),
        client_first.bare() + ","@ + server_first(client_first, server_nonce, salt).message(),
    )
}

/// What the client and the server sign: the messages of the exchange, up to the proof.
pub open spec fn auth_message(
    partial_auth_msg: Seq<char>,
    client_final: ClientFinalView,
) -> Seq<char> {
    partial_auth_msg + ","@ + client_final.without_proof()
}

/// The key of the client.
pub open spec fn client_key(salted_password: Seq<u8>) -> Seq<u8> {
    crypto::hmac_sha256(salted_password, utf8::encode_utf8("Client Key"@))
}

/// The signature of the client under an authentication message.
pub open spec fn client_signature(salted_password: Seq<u8>, auth_msg: Seq<char>) -> Seq<u8> {
    crypto::hmac_sha256(
        crypto::sha256(client_key(salted_password)),
        utf8::encode_utf8(auth_msg),
    )
}

/// The proof, in base64, that a client knows a password.
pub open spec fn client_proof(salted_password: Seq<u8>, auth_msg: Seq<char>) -> Seq<char> {
    crypto::base64_encoded(
        crypto::xor_bytes(
            client_key(salted_password),
            client_signature(salted_password, auth_msg),
        ),
    )
}

/// The signature, in base64, by which the server proves that it knows a password.
pub open spec fn server_signature(salted_password: Seq<u8>, auth_msg: Seq<char>) -> Seq<char> {
    crypto::base64_encoded(
        crypto::hmac_sha256(
            crypto::hmac_sha256(salted_password, utf8::encode_utf8("Server Key"@)),
            utf8::encode_utf8(auth_msg),
        ),
    )
}

/// The last message of the server: its signature where the client gave the right proof.
pub open spec fn server_final(authenticated: bool, signature: Seq<char>) -> AuthenticationView {
    AuthenticationView::SASLFinal(
        utf8::encode_utf8(
            if authenticated {
                "v="@ + signature
            } else {
                "e="@ + "invalid-proof"@
            },
        ),
    )
}

/// Answers a first message, given the nonce of the server and the salt. Gives what is to be kept,
/// and the answer.
pub fn answer_client_first(
    client_first: &ClientFirst,
    server_nonce: &str,
    salt: Vec<u8>,
) -> (r: (ScramState, Authentication))
    requires
        crypto::base64_len(salt@.len()) <= isize::MAX,
    ensures
        r.0@ == state_after_client_first(client_first@, server_nonce@, salt@),
        r.1@ == AuthenticationView::SASLContinue(
            utf8::encode_utf8(server_first(client_first@, server_nonce@, salt@).message()),
        ),
{
    let mut new_nonce = client_first.nonce().to_owned();
    new_nonce.append(server_nonce);
    let server_first = ServerFirst::new(
        new_nonce,
        crypto::base64_encode(salt.as_slice()),
        DEFAULT_ITERATIONS,
    );
    let server_first_message = server_first.message();
    let mut partial_auth_msg = client_first.bare();
    partial_auth_msg.append(",");
    partial_auth_msg.append(server_first_message.as_str());
    (
        ScramState::ServerFirstSent(salt, client_first.channel_binding(), partial_auth_msg),
        Authentication::SASLContinue(text::utf8_bytes(server_first_message.as_str())),
    )
}

/// Decides on a proof: the one that was given must be the one that was computed. Gives the answer,
/// and whether the client is authenticated.
pub fn answer_proof(
    computed_client_proof: &str,
    given_client_proof: &str,
    server_signature: String,
) -> (r: (Authentication, bool))
    ensures
        r.1 == (computed_client_proof@ == given_client_proof@),
        r.0@ == server_final(r.1, server_signature@),
{
    if text::equal(computed_client_proof, given_client_proof) {
        let server_final = ServerFinalSuccess::new(server_signature);
        let message = server_final.message();
        (Authentication::SASLFinal(text::utf8_bytes(message.as_str())), true)
    } else {
        let server_final = ServerFinalError::new("invalid-proof".to_owned());
        let message = server_final.message();
        (Authentication::SASLFinal(text::utf8_bytes(message.as_str())), false)
    }
}

/// The authentication message that ends with a given final message.
fn make_auth_message(partial_auth_msg: &str, client_final: &ClientFinal) -> (r: String)
    ensures
        r@ == auth_message(partial_auth_msg@, client_final@),
{
    let mut auth_msg = partial_auth_msg.to_owned();
    auth_msg.append(",");
    auth_msg.append(client_final.without_proof().as_str());
    auth_msg
}

/// Answers a final message whose channel binding is in order. Gives the answer, and whether the
/// client is authenticated.
pub fn answer_client_final(
    partial_auth_msg: &str,
    client_final: &ClientFinal,
    salted_password: &[u8],
) -> (r: (Authentication, bool))
    requires
        salted_password@.len() <= DIGEST_INPUT_LIMIT,
        utf8::encode_utf8(auth_message(partial_auth_msg@, client_final@)).len()
            <= DIGEST_INPUT_LIMIT,
    ensures
        r.1 == (client_proof(
            salted_password@,
            auth_message(partial_auth_msg@, client_final@),
        ) == client_final@.client_proof),
        r.0@ == server_final(
            r.1,
            server_signature(salted_password@, auth_message(partial_auth_msg@, client_final@)),
        ),
        client_proof(salted_password@, auth_message(partial_auth_msg@, client_final@)).len() == 44,
{
    proof {
        reveal_strlit("Client Key");
        reveal_strlit("Server Key");
        utf8::is_ascii_chars_encode_utf8("Client Key"@);
        utf8::is_ascii_chars_encode_utf8("Server Key"@);
    }
    let auth_msg = make_auth_message(partial_auth_msg, client_final);
    let client_key = crypto::hmac(salted_password, "Client Key".as_bytes());
    let stored_key = crypto::h(client_key.as_slice());
    let client_signature = crypto::hmac(stored_key.as_slice(), auth_msg.as_str().as_bytes());
    let combined = crypto::xor(client_key.as_slice(), client_signature.as_slice());
    let computed_client_proof = crypto::base64_encode(combined.as_slice());
    let server_key = crypto::hmac(salted_password, "Server Key".as_bytes());
    let server_signature = crypto::hmac(server_key.as_slice(), auth_msg.as_str().as_bytes());
    answer_proof(
        computed_client_proof.as_str(),
        client_final.client_proof(),
        crypto::base64_encode(server_signature.as_slice()),
    )
}

// ---------------------------------------------------------------------------------------------
// The handler
// ---------------------------------------------------------------------------------------------

/// What happened on a connection that is not authenticated yet.
#[derive(Debug, PartialEq, Eq)]
pub enum StartupEvent {
    /// The client asked for a session.
    Startup(Startup),
    /// The client sent a message of the password family, not read yet.
    PasswordMessage,
    /// That message was read as the first one of an exchange, which may carry data.
    InitialResponse(Option<Vec<u8>>),
    /// That message was read as a later one of an exchange, and the salted password is known.
    Response {
        /// The salted password of the user.
        salted_password: Vec<u8>,
        /// What the client sent.
        data: Vec<u8>,
    },
    /// The client sent something else.
    Other,
}

/// What is to be done next.
#[derive(Debug, PartialEq, Eq)]
pub enum StartupAction {
    /// Send a message, and end the authentication where the client proved itself.
    Reply {
        /// What to send.
        message: Authentication,
        /// Whether the client is authenticated.
        authenticated: bool,
    },
    /// Read the message as the first one of an exchange.
    ReadInitialResponse,
    /// Look up the salted password, then read the message as a later one of an exchange.
    FetchSaltedPassword {
        /// The name of the user.
        username: String,
        /// The salt of this exchange.
        salt: Vec<u8>,
        /// The iteration count.
        iterations: usize,
    },
    /// Nothing.
    Ignore,
}

/// What came of a step.
#[verifier::ext_equal]
pub enum Outcome {
    /// A message is to be sent.
    Reply {
        /// What to send.
        message: AuthenticationView,
        /// Whether the client is authenticated.
        authenticated: bool,
    },
    /// The message is to be read as the first one of an exchange.
    ReadInitialResponse,
    /// The salted password is to be looked up.
    FetchSaltedPassword {
        /// The name of the user.
        username: Seq<char>,
        /// The salt of this exchange.
        salt: Seq<u8>,
        /// The iteration count.
        iterations: nat,
    },
    /// Nothing is to be done.
    Ignore,
    /// The step failed for want of a user name.
    UserNameRequired,
    /// The step failed on a message, for the given reason.
    InvalidScramMessage(Seq<char>),
}

/// What a result says.
pub open spec fn outcome(r: PgWireResult<StartupAction>) -> Outcome {
    match r {
        Ok(StartupAction::Reply { message, authenticated }) => Outcome::Reply {
            message: message@,
            authenticated,
        },
        Ok(StartupAction::ReadInitialResponse) => Outcome::ReadInitialResponse,
        Ok(
            StartupAction::FetchSaltedPassword { username, salt, iterations },
        ) => Outcome::FetchSaltedPassword {
            username: username@,
            salt: salt@,
            iterations: iterations as nat,
        },
        Ok(StartupAction::Ignore) => Outcome::Ignore,
        Err(PgWireError::UserNameRequired) => Outcome::UserNameRequired,
        Err(PgWireError::InvalidScramMessage(reason)) => Outcome::InvalidScramMessage(reason@),
    }
}

/// The mechanisms that are offered.
pub open spec fn mechanisms() -> Seq<Seq<char>> {
    seq!["SCRAM-SHA-256"@, "SCRAM-SHA-256-PLUS"@]
}

/// What comes of a startup message: the mechanisms are offered.
pub open spec fn startup_outcome() -> Outcome {
    Outcome::Reply { message: AuthenticationView::SASL(mechanisms()), authenticated: false }
}

/// What is known of a client after its startup message.
pub open spec fn client_after_startup(client: ClientView, startup: Startup) -> ClientView {
    ClientView {
        metadata: auth::with_parameters(client.metadata, startup@),
        state: PgWireConnectionState::AuthenticationInProgress,
    }
}

/// What comes of a message of the password family: at first it is read at once, later on the
/// salted password of the user is needed.
pub open spec fn password_message_outcome(state: ScramStateView, client: ClientView) -> Outcome {
    match state {
        ScramStateView::Initial => Outcome::ReadInitialResponse,
        ScramStateView::ServerFirstSent(salt, _, _) => if client.metadata.contains_key(
            METADATA_USER@,
        ) {
            Outcome::FetchSaltedPassword {
                username: client.metadata[METADATA_USER@],
                salt,
                iterations: DEFAULT_ITERATIONS as nat,
            }
        } else {
            Outcome::UserNameRequired
        },
    }
}

/// Why the data of a first message is refused, if it is.
pub open spec fn client_first_fault(data: Option<Seq<u8>>) -> Option<Seq<char>> {
    match data {
        None => Some("Empty client-first"@),
        Some(bytes) => if message::is_client_first(codec::lossy_text(bytes)) {
            None
        } else {
            Some(codec::lossy_text(bytes))
        },
    }
}

/// The first message that data stands for.
pub open spec fn client_first_in(data: Option<Seq<u8>>) -> ClientFirstView {
    message::client_first_of(codec::lossy_text(data->0))
}

/// What comes of the data of a first message, given the nonce of the server and the salt.
pub open spec fn client_first_outcome(
    data: Option<Seq<u8>>,
    server_nonce: Seq<char>,
    salt: Seq<u8>,
) -> Outcome {
    match client_first_fault(data) {
        Some(reason) => Outcome::InvalidScramMessage(reason),
        None => Outcome::Reply {
            message: AuthenticationView::SASLContinue(
                utf8::encode_utf8(
                    server_first(client_first_in(data), server_nonce, salt).message(),
                ),
            ),
            authenticated: false,
        },
    }
}

/// How far the exchange has come after the data of a first message.
pub open spec fn state_after_client_first_data(
    data: Option<Seq<u8>>,
    server_nonce: Seq<char>,
    salt: Seq<u8>,
) -> ScramStateView {
    if client_first_fault(data) is Some {
        ScramStateView::Initial
    } else {
        state_after_client_first(client_first_in(data), server_nonce, salt)
    }
}

/// Why the text of a final message is refused, if it is.
pub open spec fn client_final_fault(
    channel_binding: Seq<char>,
    client_final: Seq<char>,
) -> Option<Seq<char>> {
    if !message::is_client_final(client_final) {
        Some(client_final)
    } else {
        message::client_final_of(client_final).binding_fault(utf8::encode_utf8(channel_binding))
    }
}

/// What comes of the text of a final message.
pub open spec fn client_final_outcome(
    channel_binding: Seq<char>,
    partial_auth_msg: Seq<char>,
    salted_password: Seq<u8>,
    client_final: Seq<char>,
) -> Outcome {
    match client_final_fault(channel_binding, client_final) {
        Some(reason) => Outcome::InvalidScramMessage(reason),
        None => {
            let value = message::client_final_of(client_final);
            let auth_msg = auth_message(partial_auth_msg, value);
            let authenticated = client_proof(salted_password, auth_msg) == value.client_proof;
            Outcome::Reply {
                message: server_final(authenticated, server_signature(salted_password, auth_msg)),
                authenticated,
            }
        },
    }
}

/// Whether what is hashed for a final message is not too long.
pub open spec fn client_final_fits(
    channel_binding: Seq<char>,
    partial_auth_msg: Seq<char>,
    salted_password: Seq<u8>,
    client_final: Seq<char>,
) -> bool {
    client_final_fault(channel_binding, client_final) is None ==> {
        &&& salted_password.len() <= DIGEST_INPUT_LIMIT
        &&& utf8::encode_utf8(
            auth_message(partial_auth_msg, message::client_final_of(client_final)),
        ).len() <= DIGEST_INPUT_LIMIT
    }
}

/// Takes the text of a final message, given the salted password.
pub fn conclude_exchange(
    channel_binding: &str,
    partial_auth_msg: &str,
    salted_password: &[u8],
    client_final: &str,
) -> (r: PgWireResult<StartupAction>)
    requires
        client_final_fits(
            channel_binding@,
            partial_auth_msg@,
            salted_password@,
            client_final@,
        ),
    ensures
        outcome(r) == client_final_outcome(
            channel_binding@,
            partial_auth_msg@,
            salted_password@,
            client_final@,
        ),
{
    let client_final = match ClientFinal::try_new(client_final) {
        Ok(client_final) => client_final,
        Err(e) => {
            return Err(e);
        },
    };
    if let Err(e) = client_final.validate_channel_binding(channel_binding.as_bytes()) {
        return Err(e);
    }
    let (message, authenticated) = answer_client_final(
        partial_auth_msg,
        &client_final,
        salted_password,
    );
    Ok(StartupAction::Reply { message, authenticated })
}

/// Whether an event may occur in a state: a message is read as the state says, and what is hashed
/// is not too long.
pub open spec fn may_occur(event: StartupEvent, state: ScramStateView) -> bool {
    match event {
        StartupEvent::InitialResponse(_) => state is Initial,
        StartupEvent::Response { salted_password, data } => match state {
            ScramStateView::Initial => false,
            ScramStateView::ServerFirstSent(_, channel_binding, partial_auth_msg) =>
                client_final_fits(
                channel_binding,
                partial_auth_msg,
                salted_password@,
                codec::lossy_text(data@),
            ),
        },
        _ => true,
    }
}

/// What a step does, from the state and the client before it to those after it.
///
/// - A startup message is remembered, and the mechanisms are offered.
/// - A message of the password family is read in the way that the state asks for.
/// - A first message moves the exchange on, unless it is refused. The nonce of the server and the
///   salt are random.
/// - A final message is answered. The state stays, so that a client may try again.
/// - Nothing comes of anything else.
pub open spec fn step_taken(
    event: StartupEvent,
    before: (ScramStateView, ClientView),
    r: PgWireResult<StartupAction>,
    after: (ScramStateView, ClientView),
) -> bool {
    match event {
        StartupEvent::Startup(startup) => {
            &&& outcome(r) == startup_outcome()
            &&& after == (before.0, client_after_startup(before.1, startup))
        },
        StartupEvent::PasswordMessage => {
            &&& outcome(r) == password_message_outcome(before.0, before.1)
            &&& after == before
        },
        StartupEvent::InitialResponse(data) => exists|server_nonce: Seq<char>, salt: Seq<u8>|
            {
                &&& is_server_nonce(server_nonce)
                &&& is_server_salt(salt)
                &&& outcome(r) == #[trigger] client_first_outcome(
                    codec::option_bytes(data),
                    server_nonce,
                    salt,
                )
                &&& after == (
                    state_after_client_first_data(codec::option_bytes(data), server_nonce, salt),
                    before.1,
                )
            },
        StartupEvent::Response { salted_password, data } => {
            &&& outcome(r) == client_final_outcome(
                before.0->ServerFirstSent_1,
                before.0->ServerFirstSent_2,
                salted_password@,
                codec::lossy_text(data@),
            )
            &&& after == before
        },
        StartupEvent::Other => {
            &&& outcome(r) == Outcome::Ignore
            &&& after == before
        },
    }
}

/// A server side of SCRAM exchanges with one client.
#[derive(Debug)]
pub struct SASLScramAuthStartupHandler<A, P> {
    auth_db: Arc<A>,
    parameter_provider: Arc<P>,
    /// state of the client-server communication
    state: ScramState,
}

impl<A, P> View for SASLScramAuthStartupHandler<A, P> {
    type V = ScramStateView;

    closed spec fn view(&self) -> ScramStateView {
        self.state@
    }
}

impl<A, P> SASLScramAuthStartupHandler<A, P> {
    /// Where salted passwords are looked up.
    pub closed spec fn database(&self) -> Arc<A> {
        self.auth_db
    }

    /// What tells which parameters are reported.
    pub closed spec fn provider(&self) -> Arc<P> {
        self.parameter_provider
    }

    /// A handler at the start of an exchange.
    pub fn new(auth_db: Arc<A>, parameter_provider: Arc<P>) -> (r: SASLScramAuthStartupHandler<
        A,
        P,
    >)
        ensures
            r@ == ScramStateView::Initial,
            r.database() == auth_db,
            r.provider() == parameter_provider,
    {
        SASLScramAuthStartupHandler { auth_db, parameter_provider, state: ScramState::Initial }
    }

    /// Where salted passwords are looked up.
    pub fn auth_db(&self) -> (r: &Arc<A>)
        ensures
            *r == self.database(),
    {
        &self.auth_db
    }

    /// What tells which parameters are reported.
    pub fn parameter_provider(&self) -> (r: &Arc<P>)
        ensures
            *r == self.provider(),
    {
        &self.parameter_provider
    }

    /// How far the exchange has come.
    pub fn state(&self) -> (r: &ScramState)
        ensures
            r@ == self@,
    {
        &self.state
    }

    /// Takes the data of a first message, given the nonce of the server and the salt.
    pub fn on_client_first(
        &mut self,
        data: Option<Vec<u8>>,
        server_nonce: &str,
        salt: Vec<u8>,
    ) -> (r: PgWireResult<StartupAction>)
        requires
            old(self)@ is Initial,
            crypto::base64_len(salt@.len()) <= isize::MAX,
        ensures
            outcome(r) == client_first_outcome(
                codec::option_bytes(data),
                server_nonce@,
                salt@,
            ),
            final(self)@ == state_after_client_first_data(
                codec::option_bytes(data),
                server_nonce@,
                salt@,
            ),
            final(self).database() == old(self).database(),
            final(self).provider() == old(self).provider(),
    {
        let bytes = match data {
            Some(bytes) => bytes,
            None => {
                return Err(PgWireError::InvalidScramMessage("Empty client-first".to_owned()));
            },
        };
        let client_first = match ClientFirst::try_new(
            codec::from_utf8_lossy(bytes.as_slice()).as_str(),
        ) {
            Ok(client_first) => client_first,
            Err(e) => {
                return Err(e);
            },
        };
        let (state, message) = answer_client_first(&client_first, server_nonce, salt);
        self.state = state;
        Ok(StartupAction::Reply { message, authenticated: false })
    }

    /// Makes one step.
    pub fn on_startup(&mut self, client: &mut ClientInfo, event: StartupEvent) -> (r: PgWireResult<
        StartupAction,
    >)
        requires
            may_occur(event, old(self)@),
        ensures
            step_taken(
                event,
                (old(self)@, old(client)@),
                r,
                (final(self)@, final(client)@),
            ),
            final(self).database() == old(self).database(),
            final(self).provider() == old(self).provider(),
    {
        match event {
            StartupEvent::Startup(startup) => {
                auth::save_startup_parameters_to_metadata(client, &startup);
                client.set_state(PgWireConnectionState::AuthenticationInProgress);
                let mut offered: Vec<String> = Vec::new();
                offered.push("SCRAM-SHA-256".to_owned());
                offered.push("SCRAM-SHA-256-PLUS".to_owned());
                assert(offered@.map_values(|s: String| s@) =~= mechanisms());
                Ok(
                    StartupAction::Reply {
                        message: Authentication::SASL(offered),
                        authenticated: false,
                    },
                )
            },
            StartupEvent::PasswordMessage => match &self.state {
                ScramState::Initial => Ok(StartupAction::ReadInitialResponse),
                ScramState::ServerFirstSent(salt, _, _) => match client.metadata(METADATA_USER) {
                    Some(username) => Ok(
                        StartupAction::FetchSaltedPassword {
                            username: username.clone(),
                            salt: slice_to_vec(salt.as_slice()),
                            iterations: DEFAULT_ITERATIONS,
                        },
                    ),
                    None => Err(PgWireError::UserNameRequired),
                },
            },
            StartupEvent::InitialResponse(data) => {
                let server_nonce = random_nonce();
                let salt = random_salt();
                self.on_client_first(data, server_nonce.as_str(), salt)
            },
            StartupEvent::Response { salted_password, data } => match &self.state {
                ScramState::Initial => unreached(),
                ScramState::ServerFirstSent(_, channel_binding, partial_auth_msg) =>
                    conclude_exchange(
                    channel_binding.as_str(),
                    partial_auth_msg.as_str(),
                    salted_password.as_slice(),
                    codec::from_utf8_lossy(data.as_slice()).as_str(),
                ),
            },
            StartupEvent::Other => Ok(StartupAction::Ignore),
        }
    }

    /// Whether `event` may occur now.
    pub fn accepts(&self, event: &StartupEvent) -> (r: bool)
        ensures
            r == may_occur(*event, self@),
    {
        match event {
            StartupEvent::InitialResponse(_) => matches!(&self.state, ScramState::Initial),
            StartupEvent::Response { salted_password, data } => match &self.state {
                ScramState::Initial => false,
                ScramState::ServerFirstSent(_, channel_binding, partial_auth_msg) => {
                    let client_final = match ClientFinal::try_new(
                        codec::from_utf8_lossy(data.as_slice()).as_str(),
                    ) {
                        Ok(client_final) => client_final,
                        Err(_) => {
                            return true;
                        },
                    };
                    let expected = channel_binding.as_str().as_bytes();
                    if client_final.validate_channel_binding(expected).is_err() {
                        return true;
                    }
                    let auth_msg = make_auth_message(partial_auth_msg.as_str(), &client_final);
                    salted_password.len() as u64 <= DIGEST_INPUT_LIMIT
                        && auth_msg.as_str().as_bytes().len() as u64 <= DIGEST_INPUT_LIMIT
                },
            },
            _ => true,
        }
    }

    /// Makes one step where the event may occur, and nothing otherwise.
    pub fn try_on_startup(&mut self, client: &mut ClientInfo, event: StartupEvent) -> (r: Option<
        PgWireResult<StartupAction>,
    >)
        ensures
            r is Some <==> may_occur(event, old(self)@),
            r matches Some(result) ==> step_taken(
                event,
                (old(self)@, old(client)@),
                result,
                (final(self)@, final(client)@),
            ),
            r is None ==> final(self)@ == old(self)@ && final(client)@ == old(client)@,
            final(self).database() == old(self).database(),
            final(self).provider() == old(self).provider(),
    {
        if self.accepts(&event) {
            Some(self.on_startup(client, event))
        } else {
            None
        }
    }
}

/// `Arc::clone` gives another pointer to the same value.
#[verifier::external_body]
fn share<T>(pointer: &Arc<T>) -> (r: Arc<T>)
    ensures
        r == *pointer,
{
    Arc::clone(pointer)
}

/// Makes a handler for each client.
#[derive(Debug)]
pub struct MakeSASLScramAuthStartupHandler<A, P> {
    auth_db: Arc<A>,
    parameter_provider: Arc<P>,
}

impl<A, P> MakeSASLScramAuthStartupHandler<A, P> {
    /// Where the handlers look up salted passwords.
    pub closed spec fn database(&self) -> Arc<A> {
        self.auth_db
    }

    /// What tells the handlers which parameters are reported.
    pub closed spec fn provider(&self) -> Arc<P> {
        self.parameter_provider
    }

    /// A maker of handlers that share the given values.
    pub fn new(auth_db: Arc<A>, parameter_provider: Arc<P>) -> (r: Self)
        ensures
            r.database() == auth_db,
            r.provider() == parameter_provider,
    {
        MakeSASLScramAuthStartupHandler { auth_db, parameter_provider }
    }

    /// A handler at the start of an exchange.
    pub fn make(&self) -> (r: SASLScramAuthStartupHandler<A, P>)
        ensures
            r@ == ScramStateView::Initial,
            r.database() == self.database(),
            r.provider() == self.provider(),
    {
        SASLScramAuthStartupHandler::new(share(&self.auth_db), share(&self.parameter_provider))
    }
}

// ---------------------------------------------------------------------------------------------
// Laws
// ---------------------------------------------------------------------------------------------

/// A password that cannot be prepared is hashed as it is.
pub proof fn law_unprepared_password_is_hashed_as_it_is(
    password: Seq<char>,
    salt: Seq<u8>,
    iters: usize,
)
    requires
        crypto::saslprepped(password) is None,
    ensures
        salted_password(password, salt, iters) == crypto::pbkdf2_hmac_sha256(
            utf8::encode_utf8(password),
            salt,
            (iters as u32) as nat,
        ),
{
}

/// Passwords that are prepared alike have the same salted password.
pub proof fn law_passwords_prepared_alike_are_one(
    password: Seq<char>,
    other: Seq<char>,
    salt: Seq<u8>,
    iters: usize,
)
    requires
        normalized(password) == normalized(other),
    ensures
        salted_password(password, salt, iters) == salted_password(other, salt, iters),
{
}

/// The nonce that the server answers with is that of the client, followed by its own.
pub proof fn law_server_nonce_extends_client_nonce(
    client_first: ClientFirstView,
    server_nonce: Seq<char>,
    salt: Seq<u8>,
)
    ensures
        server_first(client_first, server_nonce, salt).nonce == client_first.nonce + server_nonce,
        text::has_prefix(
            server_first(client_first, server_nonce, salt).message(),
            "r="@ + client_first.nonce + server_nonce + ",s="@,
        ),
{
    let answer = server_first(client_first, server_nonce, salt);
    let front = "r="@ + client_first.nonce + server_nonce + ",s="@;
    assert(answer.message().take(front.len() as int) =~= front);
}

/// Both sides sign the whole exchange: the first message without its channel binding header, the
/// answer to it, and the final message without its proof.
pub proof fn law_the_whole_exchange_is_signed(
    client_first: Seq<char>,
    server_nonce: Seq<char>,
    salt: Seq<u8>,
    client_final: Seq<char>,
)
    requires
        message::is_client_first(client_first),
        message::is_client_final(client_final),
    ensures
        ({
            let first = message::client_first_of(client_first);
            let last = message::client_final_of(client_final);
            let state = state_after_client_first(first, server_nonce, salt);
            &&& client_first == state->ServerFirstSent_1 + first.bare()
            &&& client_final == last.without_proof() + ",p="@ + last.client_proof
            &&& auth_message(state->ServerFirstSent_2, last) == first.bare() + ","@ + server_first(
                first,
                server_nonce,
                salt,
            ).message() + ","@ + last.without_proof()
        }),
{
    message::law_client_first_is_header_and_bare(client_first);
    message::law_client_final_is_its_message(client_final);
}

/// A client is authenticated by a final message if and only if that message is well formed, its
/// channel binding stands for the header of the first message, and its proof is the one that
/// follows from the salted password and the exchange.
pub proof fn law_authenticated_iff_right_proof(
    channel_binding: Seq<char>,
    partial_auth_msg: Seq<char>,
    salted_password: Seq<u8>,
    client_final: Seq<char>,
)
    ensures
        (client_final_outcome(
            channel_binding,
            partial_auth_msg,
            salted_password,
            client_final,
        ) matches Outcome::Reply { authenticated, .. } && authenticated) <==> {
            let value = message::client_final_of(client_final);
            &&& message::is_client_final(client_final)
            &&& crypto::base64_decoded(value.channel_binding) is Ok
            &&& crypto::base64_decoded(value.channel_binding)->Ok_0 == utf8::encode_utf8(
                channel_binding,
            )
            &&& value.client_proof == client_proof(
                salted_password,
                auth_message(partial_auth_msg, value),
            )
        },
{
}

/// A client that knows the password is accepted: where it sends back the channel binding header in
/// base64 and the right proof, the server answers with its own signature.
pub proof fn law_right_proof_is_accepted(
    channel_binding: Seq<char>,
    partial_auth_msg: Seq<char>,
    salted_password: Seq<u8>,
    client_final: ClientFinalView,
)
    requires
        !client_final.channel_binding.contains(','),
        !client_final.nonce.contains(','),
        crypto::base64_decoded(client_final.channel_binding) is Ok,
        crypto::base64_decoded(client_final.channel_binding)->Ok_0 == utf8::encode_utf8(
            channel_binding,
        ),
        client_final.client_proof == client_proof(
            salted_password,
            auth_message(partial_auth_msg, client_final),
        ),
    ensures
        client_final_outcome(
            channel_binding,
            partial_auth_msg,
            salted_password,
            client_final.message(),
        ) == (Outcome::Reply {
            message: AuthenticationView::SASLFinal(
                utf8::encode_utf8(
                    "v="@ + server_signature(
                        salted_password,
                        auth_message(partial_auth_msg, client_final),
                    ),
                ),
            ),
            authenticated: true,
        }),
{
    message::law_client_final_reads_back(client_final);
}

/// A client with a wrong proof is told so, and is not authenticated.
pub proof fn law_wrong_proof_is_refused(
    channel_binding: Seq<char>,
    partial_auth_msg: Seq<char>,
    salted_password: Seq<u8>,
    client_final: Seq<char>,
)
    requires
        client_final_fault(channel_binding, client_final) is None,
        message::client_final_of(client_final).client_proof != client_proof(
            salted_password,
            auth_message(partial_auth_msg, message::client_final_of(client_final)),
        ),
    ensures
        client_final_outcome(
            channel_binding,
            partial_auth_msg,
            salted_password,
            client_final,
        ) == (Outcome::Reply {
            message: AuthenticationView::SASLFinal(utf8::encode_utf8("e=invalid-proof"@)),
            authenticated: false,
        }),
{
    reveal_strlit("e=");
    reveal_strlit("invalid-proof");
    reveal_strlit("e=invalid-proof");
    assert("e="@ + "invalid-proof"@ =~= "e=invalid-proof"@);
}

/// A whole exchange with a client that knows the password succeeds: after its first message was
/// accepted, its final message, with the header of the first one in base64 and the right proof,
/// authenticates it.
pub proof fn law_honest_exchange_succeeds(
    data: Option<Seq<u8>>,
    server_nonce: Seq<char>,
    salt: Seq<u8>,
    salted_password: Seq<u8>,
    client_final: ClientFinalView,
)
    requires
        client_first_fault(data) is None,
        !client_final.channel_binding.contains(','),
        !client_final.nonce.contains(','),
        crypto::base64_decoded(client_final.channel_binding) is Ok,
        crypto::base64_decoded(client_final.channel_binding)->Ok_0 == utf8::encode_utf8(
            client_first_in(data).channel_binding(),
        ),
        client_final.client_proof == client_proof(
            salted_password,
            client_first_in(data).bare() + ","@ + server_first(
                client_first_in(data),
                server_nonce,
                salt,
            ).message() + ","@ + client_final.without_proof(),
        ),
    ensures
        client_first_outcome(data, server_nonce, salt) matches Outcome::Reply {
            message: AuthenticationView::SASLContinue(_),
            authenticated: false,
        },
        ({
            let state = state_after_client_first_data(data, server_nonce, salt);
            client_final_outcome(
                state->ServerFirstSent_1,
                state->ServerFirstSent_2,
                salted_password,
                client_final.message(),
            ) matches Outcome::Reply { authenticated, .. } && authenticated
        }),
{
    let state = state_after_client_first_data(data, server_nonce, salt);
    law_right_proof_is_accepted(
        state->ServerFirstSent_1,
        state->ServerFirstSent_2,
        salted_password,
        client_final,
    );
}

/// A step that fails changes nothing.
pub proof fn law_failure_changes_nothing(
    event: StartupEvent,
    before: (ScramStateView, ClientView),
    r: PgWireResult<StartupAction>,
    after: (ScramStateView, ClientView),
)
    requires
        may_occur(event, before.0),
        step_taken(event, before, r, after),
        r is Err,
    ensures
        after == before,
{
}

/// An exchange never goes back: once the first message was answered, the state stays as it is.
pub proof fn law_answered_exchange_stays(
    event: StartupEvent,
    before: (ScramStateView, ClientView),
    r: PgWireResult<StartupAction>,
    after: (ScramStateView, ClientView),
)
    requires
        may_occur(event, before.0),
        step_taken(event, before, r, after),
        before.0 is ServerFirstSent,
    ensures
        after.0 == before.0,
{
}

/// An exchange only goes on by a first message that is accepted.
pub proof fn law_exchange_goes_on_by_a_first_message(
    event: StartupEvent,
    before: (ScramStateView, ClientView),
    r: PgWireResult<StartupAction>,
    after: (ScramStateView, ClientView),
)
    requires
        may_occur(event, before.0),
        step_taken(event, before, r, after),
        after.0 != before.0,
    ensures
        before.0 is Initial,
        event matches StartupEvent::InitialResponse(data) && client_first_fault(
            codec::option_bytes(data),
        ) is None,
        r matches Ok(StartupAction::Reply { authenticated: false, .. }),
{
}

/// No event but a final message authenticates a client, and only after its first message was
/// answered.
pub proof fn law_only_a_final_message_authenticates(
    event: StartupEvent,
    before: (ScramStateView, ClientView),
    r: PgWireResult<StartupAction>,
    after: (ScramStateView, ClientView),
)
    requires
        may_occur(event, before.0),
        step_taken(event, before, r, after),
        r matches Ok(StartupAction::Reply { authenticated: true, .. }),
    ensures
        before.0 is ServerFirstSent,
        event is Response,
{
}

/// Nothing but a startup message changes what is known of a client.
pub proof fn law_only_a_startup_message_changes_the_client(
    event: StartupEvent,
    before: (ScramStateView, ClientView),
    r: PgWireResult<StartupAction>,
    after: (ScramStateView, ClientView),
)
    requires
        step_taken(event, before, r, after),
        after.1 != before.1,
    ensures
        event is Startup,
{
}

} // verus!
