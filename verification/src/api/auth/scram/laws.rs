//! What a SCRAM exchange promises, in terms of what goes in and what comes out: bytes, texts, the
//! hash functions and base64.

use vstd::prelude::*;
use vstd::utf8;

use crate::api::auth::crypto;
use crate::api::auth::scram;
use crate::api::auth::scram::message;
use crate::api::auth::scram::message::{ClientFinalView, ClientFirstView};
use crate::api::auth::scram::{ScramState, ScramStateView, StartupAction, StartupEvent};
use crate::api::{auth, ClientView, PgWireConnectionState};
use crate::codec;
use crate::error::{PgWireError, PgWireResult};
use crate::messages::startup::{Authentication, AuthenticationView, Startup};
use crate::text;

verus! {

// ---------------------------------------------------------------------------------------------
// Passwords, salts and nonces
// ---------------------------------------------------------------------------------------------

/// A password that can be prepared is hashed in its prepared form, whatever characters that has.
pub proof fn law_prepared_password_is_hashed(
    password: Seq<char>,
    prepared: Seq<char>,
    salt: Seq<u8>,
    iters: usize,
)
    requires
        crypto::saslprepped(password) == Some(prepared),
    ensures
        scram::normalized(password) == prepared,
        scram::salted_password(password, salt, iters) == crypto::pbkdf2_hmac_sha256(
            utf8::encode_utf8(prepared),
            salt,
            (iters as u32) as nat,
        ),
{
}

/// A password that cannot be prepared is taken as it is, whatever characters it has.
pub proof fn law_unprepared_password_is_taken(password: Seq<char>)
    requires
        crypto::saslprepped(password) is None,
    ensures
        scram::normalized(password) == password,
{
}

/// The prepared form is chosen wherever there is one.
pub proof fn law_prepared_form_is_chosen(prepared: String, password: Seq<char>)
    ensures
        scram::prepared_or_raw(codec::option_text(Some(prepared)), password) == prepared@,
        scram::prepared_or_raw(codec::option_text(None), password) == password,
{
}

/// A salted password is refused only for an iteration count of zero, or where a digest cannot take
/// the salt or the password.
pub proof fn law_when_a_password_can_be_salted(password: Seq<char>, salt: Seq<u8>, iters: usize)
    ensures
        scram::can_salt(password, salt, iters) <==> {
            &&& iters as u32 != 0
            &&& salt.len() <= 0x1fff_ffff_ffff_ff00
            &&& match crypto::saslprepped(password) {
                Some(prepared) => utf8::encode_utf8(prepared).len() <= 0x1fff_ffff_ffff_ff00,
                None => utf8::encode_utf8(password).len() <= 0x1fff_ffff_ffff_ff00,
            }
        },
{
}

/// A salt has ten bytes, each of which the random source gave.
pub proof fn law_salt_is_drawn(salt: Seq<u8>)
    requires
        scram::is_server_salt(salt),
    ensures
        salt.len() == 10,
        forall|i: int|
            0 <= i < 10 ==> call_ensures(crypto::random_byte, (), #[trigger] salt[i]),
{
}

/// A nonce of the server is 24 letters, digits, `+` or `/`, and stands for 18 bytes, each of which
/// the random source gave.
pub proof fn law_nonce_is_drawn(nonce: Seq<char>)
    requires
        scram::is_server_nonce(nonce),
    ensures
        nonce.len() == 24,
        forall|i: int|
            0 <= i < 24 ==> {
                let c = #[trigger] nonce[i];
                'A' <= c <= 'Z' || 'a' <= c <= 'z' || '0' <= c <= '9' || c == '+' || c == '/'
            },
        crypto::base64_decoded(nonce) is Ok,
        crypto::base64_decoded(nonce)->Ok_0.len() == 18,
        crypto::base64_encoded(crypto::base64_decoded(nonce)->Ok_0) == nonce,
        forall|i: int|
            0 <= i < 18 ==> call_ensures(
                crypto::random_byte,
                (),
                #[trigger] crypto::base64_decoded(nonce)->Ok_0[i],
            ),
{
    assert forall|i: int| 0 <= i < 24 implies {
        let c = #[trigger] nonce[i];
        'A' <= c <= 'Z' || 'a' <= c <= 'z' || '0' <= c <= '9' || c == '+' || c == '/'
    } by {
        assert(crypto::is_base64_char(nonce[i]));
        assert(nonce.contains(nonce[i]));
    }
}

// ---------------------------------------------------------------------------------------------
// Answers
// ---------------------------------------------------------------------------------------------

/// What a state holds is what its value says.
pub proof fn law_state_and_its_value(salt: Vec<u8>, channel_binding: String, partial: String)
    ensures
        (ScramState::Initial)@ == ScramStateView::Initial,
        (ScramState::ServerFirstSent(salt, channel_binding, partial))@
            == ScramStateView::ServerFirstSent(salt@, channel_binding@, partial@),
{
}

/// The text of the answer to a first message: the nonce of the client with that of the server
/// behind it, the salt in base64, and 4096 iterations.
pub proof fn law_server_first_text(
    client_first: ClientFirstView,
    server_nonce: Seq<char>,
    salt: Seq<u8>,
)
    ensures
        scram::server_first(client_first, server_nonce, salt).message() == "r="@
            + client_first.nonce + server_nonce + ",s="@ + crypto::base64_encoded(salt)
            + ",i=4096"@,
{
    reveal_strlit(",i=");
    reveal_strlit(",i=4096");
    reveal_strlit("0123456789");
    reveal_with_fuel(text::decimal, 5);
    assert(text::decimal(4096) =~= seq!['4', '0', '9', '6']);
    let answer = scram::server_first(client_first, server_nonce, salt).message();
    assert(answer =~= "r="@ + client_first.nonce + server_nonce + ",s="@ + crypto::base64_encoded(
        salt,
    ) + ",i=4096"@);
}

/// What is kept of a first message: the salt, the flag and the identity with a comma behind each,
/// and the name and nonce of the client with the answer behind them.
pub proof fn law_what_is_kept_of_a_first_message(
    client_first: ClientFirstView,
    server_nonce: Seq<char>,
    salt: Seq<u8>,
)
    ensures
        scram::state_after_client_first(client_first, server_nonce, salt)
            == ScramStateView::ServerFirstSent(
            salt,
            client_first.cbind_flag + ","@ + client_first.auth_zid + ","@,
            "n="@ + client_first.username + ",r="@ + client_first.nonce + ",r="@
                + client_first.nonce + server_nonce + ",s="@ + crypto::base64_encoded(salt)
                + ",i=4096"@,
        ),
{
    reveal_strlit(",");
    reveal_strlit("r=");
    reveal_strlit(",r=");
    law_server_first_text(client_first, server_nonce, salt);
    let state = scram::state_after_client_first(client_first, server_nonce, salt);
    assert(state->ServerFirstSent_2 =~= "n="@ + client_first.username + ",r="@
        + client_first.nonce + ",r="@ + client_first.nonce + server_nonce + ",s="@
        + crypto::base64_encoded(salt) + ",i=4096"@);
}

/// The answer to a first message carries the text of that answer, and the state keeps what is
/// needed of the message.
pub proof fn law_answer_to_a_first_message(
    client_first: ClientFirstView,
    server_nonce: Seq<char>,
    salt: Seq<u8>,
    r: (ScramState, Authentication),
)
    requires
        r.0@ == scram::state_after_client_first(client_first, server_nonce, salt),
        r.1@ == AuthenticationView::SASLContinue(
            utf8::encode_utf8(
                scram::server_first(client_first, server_nonce, salt).message(),
            ),
        ),
    ensures
        r.0 is ServerFirstSent,
        r.0->ServerFirstSent_0@ == salt,
        r.0->ServerFirstSent_1@ == client_first.cbind_flag + ","@ + client_first.auth_zid + ","@,
        r.0->ServerFirstSent_2@ == "n="@ + client_first.username + ",r="@ + client_first.nonce
            + ",r="@ + client_first.nonce + server_nonce + ",s="@ + crypto::base64_encoded(salt)
            + ",i=4096"@,
        r.1 is SASLContinue,
        r.1->SASLContinue_0@ == utf8::encode_utf8(
            "r="@ + client_first.nonce + server_nonce + ",s="@ + crypto::base64_encoded(salt)
                + ",i=4096"@,
        ),
{
    law_server_first_text(client_first, server_nonce, salt);
    law_what_is_kept_of_a_first_message(client_first, server_nonce, salt);
}

/// What is signed is all that is known before the final message, and all of that message but its
/// proof.
pub proof fn law_what_is_signed(partial_auth_msg: Seq<char>, client_final: ClientFinalView)
    ensures
        scram::auth_message(partial_auth_msg, client_final) == partial_auth_msg + ",c="@
            + client_final.channel_binding + ",r="@ + client_final.nonce,
{
    reveal_strlit(",");
    reveal_strlit("c=");
    reveal_strlit(",c=");
    assert(scram::auth_message(partial_auth_msg, client_final) =~= partial_auth_msg + ",c="@
        + client_final.channel_binding + ",r="@ + client_final.nonce);
}

/// The right proof is the base64 form of the client key, combined with the HMAC of the whole
/// authentication message under the digest of that key. The client key is the HMAC of `Client Key`
/// under the salted password.
pub proof fn law_right_proof(salted_password: Seq<u8>, auth_msg: Seq<char>)
    ensures
        ({
            let key = crypto::hmac_sha256(salted_password, utf8::encode_utf8("Client Key"@));
            scram::client_proof(salted_password, auth_msg) == crypto::base64_encoded(
                crypto::xor_bytes(
                    key,
                    crypto::hmac_sha256(crypto::sha256(key), utf8::encode_utf8(auth_msg)),
                ),
            )
        }),
{
}

/// The signature of the server is the base64 form of the HMAC of the whole authentication message
/// under the server key, which is the HMAC of `Server Key` under the salted password.
pub proof fn law_server_signature(salted_password: Seq<u8>, auth_msg: Seq<char>)
    ensures
        scram::server_signature(salted_password, auth_msg) == crypto::base64_encoded(
            crypto::hmac_sha256(
                crypto::hmac_sha256(salted_password, utf8::encode_utf8("Server Key"@)),
                utf8::encode_utf8(auth_msg),
            ),
        ),
{
}

/// An authenticated client is sent the signature of the server, any other one an error.
pub proof fn law_answer_to_a_proof(
    answer: Authentication,
    authenticated: bool,
    signature: Seq<char>,
)
    requires
        answer@ == scram::server_final(authenticated, signature),
    ensures
        answer is SASLFinal,
        authenticated ==> answer->SASLFinal_0@ == utf8::encode_utf8("v="@ + signature),
        !authenticated ==> answer->SASLFinal_0@ == utf8::encode_utf8("e=invalid-proof"@),
{
    reveal_strlit("e=");
    reveal_strlit("invalid-proof");
    reveal_strlit("e=invalid-proof");
    assert("e="@ + "invalid-proof"@ =~= "e=invalid-proof"@);
}

/// A final message whose channel binding is in order is answered by its proof alone: the signature
/// of the server for the right one, an error for any other.
pub proof fn law_answer_to_a_final_message(
    partial_auth_msg: Seq<char>,
    client_final: ClientFinalView,
    salted_password: Seq<u8>,
    r: (Authentication, bool),
)
    requires
        r.1 == (scram::client_proof(
            salted_password,
            scram::auth_message(partial_auth_msg, client_final),
        ) == client_final.client_proof),
        r.0@ == scram::server_final(
            r.1,
            scram::server_signature(
                salted_password,
                scram::auth_message(partial_auth_msg, client_final),
            ),
        ),
    ensures
        ({
            let key = crypto::hmac_sha256(salted_password, utf8::encode_utf8("Client Key"@));
            let server_key = crypto::hmac_sha256(
                salted_password,
                utf8::encode_utf8("Server Key"@),
            );
            let signed = utf8::encode_utf8(
                partial_auth_msg + ",c="@ + client_final.channel_binding + ",r="@
                    + client_final.nonce,
            );
            &&& r.1 <==> client_final.client_proof == crypto::base64_encoded(
                crypto::xor_bytes(key, crypto::hmac_sha256(crypto::sha256(key), signed)),
            )
            &&& r.0 is SASLFinal
            &&& r.1 ==> r.0->SASLFinal_0@ == utf8::encode_utf8(
                "v="@ + crypto::base64_encoded(crypto::hmac_sha256(server_key, signed)),
            )
            &&& !r.1 ==> r.0->SASLFinal_0@ == utf8::encode_utf8("e=invalid-proof"@)
        }),
{
    let auth_msg = scram::auth_message(partial_auth_msg, client_final);
    law_what_is_signed(partial_auth_msg, client_final);
    law_right_proof(salted_password, auth_msg);
    law_server_signature(salted_password, auth_msg);
    law_answer_to_a_proof(r.0, r.1, scram::server_signature(salted_password, auth_msg));
}

// ---------------------------------------------------------------------------------------------
// First messages
// ---------------------------------------------------------------------------------------------

/// A first message without data is refused, and nothing is kept of it.
pub proof fn law_first_message_without_data(
    server_nonce: Seq<char>,
    salt: Seq<u8>,
    r: PgWireResult<StartupAction>,
    after: ScramStateView,
)
    requires
        scram::outcome(r) == scram::client_first_outcome(
            codec::option_bytes(None),
            server_nonce,
            salt,
        ),
        after == scram::state_after_client_first_data(
            codec::option_bytes(None),
            server_nonce,
            salt,
        ),
    ensures
        r matches Err(PgWireError::InvalidScramMessage(reason)) && reason@
            == "Empty client-first"@,
        after == ScramStateView::Initial,
{
}

/// A first message that is not well formed is refused with its own text, and nothing is kept of it.
pub proof fn law_malformed_first_message(
    data: Vec<u8>,
    server_nonce: Seq<char>,
    salt: Seq<u8>,
    r: PgWireResult<StartupAction>,
    after: ScramStateView,
)
    requires
        !message::is_client_first(codec::lossy_text(data@)),
        scram::outcome(r) == scram::client_first_outcome(
            codec::option_bytes(Some(data)),
            server_nonce,
            salt,
        ),
        after == scram::state_after_client_first_data(
            codec::option_bytes(Some(data)),
            server_nonce,
            salt,
        ),
    ensures
        r matches Err(PgWireError::InvalidScramMessage(reason)) && reason@ == codec::lossy_text(
            data@,
        ),
        after == ScramStateView::Initial,
{
}

/// A well-formed first message is answered with the nonce of the client and that of the server, the
/// salt and 4096 iterations. The salt, the header of the message, and the rest of the message with
/// the answer are kept.
pub proof fn law_well_formed_first_message(
    data: Vec<u8>,
    flag: Seq<char>,
    auth_zid: Seq<char>,
    username: Seq<char>,
    nonce: Seq<char>,
    server_nonce: Seq<char>,
    salt: Seq<u8>,
    r: PgWireResult<StartupAction>,
    after: ScramStateView,
)
    requires
        flag == "n"@ || flag == "y"@ || (flag.len() >= 2 && flag[0] == 'p' && flag[1] == '='),
        !flag.contains(','),
        !auth_zid.contains(','),
        !username.contains(','),
        codec::lossy_text(data@) == flag + ","@ + auth_zid + ",n="@ + username + ",r="@ + nonce,
        scram::outcome(r) == scram::client_first_outcome(
            codec::option_bytes(Some(data)),
            server_nonce,
            salt,
        ),
        after == scram::state_after_client_first_data(
            codec::option_bytes(Some(data)),
            server_nonce,
            salt,
        ),
    ensures
        ({
            let answer = "r="@ + nonce + server_nonce + ",s="@ + crypto::base64_encoded(salt)
                + ",i=4096"@;
            &&& r is Ok
            &&& r->Ok_0 is Reply
            &&& !r->Ok_0->authenticated
            &&& r->Ok_0->message is SASLContinue
            &&& r->Ok_0->message->SASLContinue_0@ == utf8::encode_utf8(answer)
            &&& after == ScramStateView::ServerFirstSent(
                salt,
                flag + ","@ + auth_zid + ","@,
                "n="@ + username + ",r="@ + nonce + ","@ + answer,
            )
        }),
{
    reveal_strlit("n");
    reveal_strlit("y");
    reveal_strlit(",");
    reveal_strlit("r=");
    reveal_strlit(",r=");
    assert("n"@ =~= seq!['n']);
    assert("y"@ =~= seq!['y']);
    message::law_client_first_text(flag, auth_zid, username, nonce);
    let value = message::client_first_of(codec::lossy_text(data@));
    law_server_first_text(value, server_nonce, salt);
    law_what_is_kept_of_a_first_message(value, server_nonce, salt);
    let answer = "r="@ + nonce + server_nonce + ",s="@ + crypto::base64_encoded(salt)
        + ",i=4096"@;
    assert(after->ServerFirstSent_2 =~= "n="@ + username + ",r="@ + nonce + ","@ + answer);
}

// ---------------------------------------------------------------------------------------------
// Final messages
// ---------------------------------------------------------------------------------------------

/// A final message that is not well formed is refused with its own text.
pub proof fn law_malformed_final_message(
    channel_binding: Seq<char>,
    partial_auth_msg: Seq<char>,
    salted_password: Seq<u8>,
    client_final: Seq<char>,
    r: PgWireResult<StartupAction>,
)
    requires
        !message::is_client_final(client_final),
        scram::outcome(r) == scram::client_final_outcome(
            channel_binding,
            partial_auth_msg,
            salted_password,
            client_final,
        ),
    ensures
        r matches Err(PgWireError::InvalidScramMessage(reason)) && reason@ == client_final,
{
}

/// A well-formed final message is refused where its channel binding does not decode to the header
/// of the first message, with a reason that says so.
pub proof fn law_unbound_final_message(
    header: Seq<char>,
    partial_auth_msg: Seq<char>,
    salted_password: Seq<u8>,
    channel_binding: Seq<char>,
    nonce: Seq<char>,
    client_proof: Seq<char>,
    r: PgWireResult<StartupAction>,
)
    requires
        !channel_binding.contains(','),
        !nonce.contains(','),
        crypto::base64_decoded(channel_binding) != Ok::<Seq<u8>, Seq<char>>(
            utf8::encode_utf8(header),
        ),
        scram::outcome(r) == scram::client_final_outcome(
            header,
            partial_auth_msg,
            salted_password,
            "c="@ + channel_binding + ",r="@ + nonce + ",p="@ + client_proof,
        ),
    ensures
        r is Err,
        r->Err_0 is InvalidScramMessage,
        crypto::base64_decoded(channel_binding) matches Ok(bytes)
            ==> r->Err_0->InvalidScramMessage_0@ == "Channel binding mismatch, expect: "@
            + text::byte_list(utf8::encode_utf8(header)) + ", decoded: "@ + text::byte_list(bytes),
        crypto::base64_decoded(channel_binding) matches Err(reason)
            ==> r->Err_0->InvalidScramMessage_0@ == "Failed to decode channel binding: "@
            + channel_binding + ", "@ + reason,
{
    message::law_client_final_text(channel_binding, nonce, client_proof);
    let value = message::client_final_of(
        "c="@ + channel_binding + ",r="@ + nonce + ",p="@ + client_proof,
    );
    message::law_binding_is_judged_by_its_decoding(value, utf8::encode_utf8(header));
}

/// A well-formed final message whose channel binding decodes to the header of the first message is
/// answered by its proof: with the signature of the server where it is the base64 form of the
/// client key combined with the signature of the client, and with an error otherwise. Both
/// signatures are over the whole exchange.
pub proof fn law_bound_final_message(
    header: Seq<char>,
    partial_auth_msg: Seq<char>,
    salted_password: Seq<u8>,
    channel_binding: Seq<char>,
    nonce: Seq<char>,
    client_proof: Seq<char>,
    r: PgWireResult<StartupAction>,
)
    requires
        !channel_binding.contains(','),
        !nonce.contains(','),
        crypto::base64_decoded(channel_binding) == Ok::<Seq<u8>, Seq<char>>(
            utf8::encode_utf8(header),
        ),
        scram::outcome(r) == scram::client_final_outcome(
            header,
            partial_auth_msg,
            salted_password,
            "c="@ + channel_binding + ",r="@ + nonce + ",p="@ + client_proof,
        ),
    ensures
        ({
            let key = crypto::hmac_sha256(salted_password, utf8::encode_utf8("Client Key"@));
            let server_key = crypto::hmac_sha256(
                salted_password,
                utf8::encode_utf8("Server Key"@),
            );
            let signed = utf8::encode_utf8(
                partial_auth_msg + ",c="@ + channel_binding + ",r="@ + nonce,
            );
            &&& r is Ok
            &&& r->Ok_0 is Reply
            &&& r->Ok_0->message is SASLFinal
            &&& r->Ok_0->authenticated <==> client_proof == crypto::base64_encoded(
                crypto::xor_bytes(key, crypto::hmac_sha256(crypto::sha256(key), signed)),
            )
            &&& r->Ok_0->authenticated ==> r->Ok_0->message->SASLFinal_0@ == utf8::encode_utf8(
                "v="@ + crypto::base64_encoded(crypto::hmac_sha256(server_key, signed)),
            )
            &&& !r->Ok_0->authenticated ==> r->Ok_0->message->SASLFinal_0@ == utf8::encode_utf8(
                "e=invalid-proof"@,
            )
        }),
{
    let s = "c="@ + channel_binding + ",r="@ + nonce + ",p="@ + client_proof;
    message::law_client_final_text(channel_binding, nonce, client_proof);
    let value = message::client_final_of(s);
    message::law_binding_is_judged_by_its_decoding(value, utf8::encode_utf8(header));
    law_answer_to_a_final_message(
        partial_auth_msg,
        value,
        salted_password,
        (r->Ok_0->message, r->Ok_0->authenticated),
    );
}

/// What is hashed for a final message is limited only where the message is well formed and bound.
pub proof fn law_when_a_final_message_fits(
    header: Seq<char>,
    partial_auth_msg: Seq<char>,
    salted_password: Seq<u8>,
    client_final: Seq<char>,
)
    ensures
        ({
            let value = message::client_final_of(client_final);
            scram::client_final_fits(header, partial_auth_msg, salted_password, client_final) <==> (
            message::is_client_final(client_final) && crypto::base64_decoded(
                value.channel_binding,
            ) == Ok::<Seq<u8>, Seq<char>>(utf8::encode_utf8(header)) ==> salted_password.len()
                <= 0x1fff_ffff_ffff_ff00 && utf8::encode_utf8(
                partial_auth_msg + ",c="@ + value.channel_binding + ",r="@ + value.nonce,
            ).len() <= 0x1fff_ffff_ffff_ff00)
        }),
{
    let value = message::client_final_of(client_final);
    message::law_binding_is_judged_by_its_decoding(value, utf8::encode_utf8(header));
    law_what_is_signed(partial_auth_msg, value);
}

// ---------------------------------------------------------------------------------------------
// Steps
// ---------------------------------------------------------------------------------------------

/// Most events may occur at any time. A first message comes before anything was answered, and a
/// final message after that, unless it is too long to be hashed.
pub proof fn law_when_an_event_may_occur(
    startup: Startup,
    data: Option<Vec<u8>>,
    salted_password: Vec<u8>,
    response: Vec<u8>,
    state: ScramStateView,
)
    ensures
        scram::may_occur(StartupEvent::Startup(startup), state),
        scram::may_occur(StartupEvent::PasswordMessage, state),
        scram::may_occur(StartupEvent::Other, state),
        scram::may_occur(StartupEvent::InitialResponse(data), state) <==> state
            == ScramStateView::Initial,
        scram::may_occur(
            (StartupEvent::Response { salted_password, data: response }),
            state,
        ) <==> (state matches ScramStateView::ServerFirstSent(_, header, partial_auth_msg)
            && scram::client_final_fits(
            header,
            partial_auth_msg,
            salted_password@,
            codec::lossy_text(response@),
        )),
{
}

/// A startup message is answered with the two mechanisms and moves the connection into the
/// authentication. Each name in it is remembered with its last value, and all other names are left
/// alone.
pub proof fn law_startup_step(
    startup: Startup,
    before: (ScramStateView, ClientView),
    r: PgWireResult<StartupAction>,
    after: (ScramStateView, ClientView),
    i: int,
    name: Seq<char>,
)
    requires
        scram::step_taken(StartupEvent::Startup(startup), before, r, after),
    ensures
        r is Ok,
        r->Ok_0 is Reply,
        !r->Ok_0->authenticated,
        r->Ok_0->message is SASL,
        r->Ok_0->message->SASL_0@.len() == 2,
        r->Ok_0->message->SASL_0@[0]@ == "SCRAM-SHA-256"@,
        r->Ok_0->message->SASL_0@[1]@ == "SCRAM-SHA-256-PLUS"@,
        after.0 == before.0,
        after.1.state == PgWireConnectionState::AuthenticationInProgress,
        0 <= i < startup.parameters@.len() && (forall|j: int|
            i < j < startup.parameters@.len() ==> (#[trigger] startup.parameters@[j]).0@
                != startup.parameters@[i].0@) ==> after.1.metadata.contains_key(
            startup.parameters@[i].0@,
        ) && after.1.metadata[startup.parameters@[i].0@] == startup.parameters@[i].1@,
        (forall|j: int|
            0 <= j < startup.parameters@.len() ==> (#[trigger] startup.parameters@[j]).0@ != name)
            ==> (after.1.metadata.contains_key(name) <==> before.1.metadata.contains_key(name)) && (
        before.1.metadata.contains_key(name) ==> after.1.metadata[name]
            == before.1.metadata[name]),
{
    let offered = r->Ok_0->message->SASL_0@;
    let seen = offered.map_values(|s: String| s@);
    assert(seen.len() == offered.len());
    assert(seen == scram::mechanisms());
    assert(seen[0] == offered[0]@);
    assert(seen[1] == offered[1]@);
    let metadata = before.1.metadata;
    if 0 <= i < startup.parameters@.len() && (forall|j: int|
        i < j < startup.parameters@.len() ==> (#[trigger] startup.parameters@[j]).0@
            != startup.parameters@[i].0@) {
        auth::law_startup_message_is_remembered(metadata, startup, i);
    }
    if forall|j: int|
        0 <= j < startup.parameters@.len() ==> (#[trigger] startup.parameters@[j]).0@ != name {
        auth::law_startup_message_leaves_the_rest(metadata, startup, name);
    }
}

/// Once the first message was answered, the salted password that is looked up is that of the user:
/// the value under `user`, whatever else is known of the client, with the salt of the exchange and
/// 4096 iterations. Without such a value the step fails.
pub proof fn law_password_of_the_user_is_looked_up(
    salt: Seq<u8>,
    header: Seq<char>,
    partial_auth_msg: Seq<char>,
    client: ClientView,
    r: PgWireResult<StartupAction>,
    after: (ScramStateView, ClientView),
)
    requires
        scram::step_taken(
            StartupEvent::PasswordMessage,
            (ScramStateView::ServerFirstSent(salt, header, partial_auth_msg), client),
            r,
            after,
        ),
    ensures
        after == (ScramStateView::ServerFirstSent(salt, header, partial_auth_msg), client),
        client.metadata.contains_key("user"@) ==> {
            &&& r is Ok
            &&& r->Ok_0 is FetchSaltedPassword
            &&& r->Ok_0->username@ == client.metadata["user"@]
            &&& r->Ok_0->salt@ == salt
            &&& r->Ok_0->iterations == 4096
        },
        !client.metadata.contains_key("user"@) ==> r == Err::<StartupAction, PgWireError>(
            PgWireError::UserNameRequired,
        ),
{
}

/// Before anything was answered, a message of the password family is read as a first message.
pub proof fn law_first_password_message_is_read(
    client: ClientView,
    r: PgWireResult<StartupAction>,
    after: (ScramStateView, ClientView),
)
    requires
        scram::step_taken(
            StartupEvent::PasswordMessage,
            (ScramStateView::Initial, client),
            r,
            after,
        ),
    ensures
        r == Ok::<StartupAction, PgWireError>(StartupAction::ReadInitialResponse),
        after == (ScramStateView::Initial, client),
{
}

/// A first message without data fails.
pub proof fn law_first_step_without_data(
    client: ClientView,
    r: PgWireResult<StartupAction>,
    after: (ScramStateView, ClientView),
)
    requires
        scram::step_taken(
            StartupEvent::InitialResponse(None),
            (ScramStateView::Initial, client),
            r,
            after,
        ),
    ensures
        r matches Err(PgWireError::InvalidScramMessage(reason)) && reason@
            == "Empty client-first"@,
        after == (ScramStateView::Initial, client),
{
}

/// A first message that is not well formed fails with its own text.
pub proof fn law_malformed_first_step(
    data: Vec<u8>,
    client: ClientView,
    r: PgWireResult<StartupAction>,
    after: (ScramStateView, ClientView),
)
    requires
        !message::is_client_first(codec::lossy_text(data@)),
        scram::step_taken(
            StartupEvent::InitialResponse(Some(data)),
            (ScramStateView::Initial, client),
            r,
            after,
        ),
    ensures
        r matches Err(PgWireError::InvalidScramMessage(reason)) && reason@ == codec::lossy_text(
            data@,
        ),
        after == (ScramStateView::Initial, client),
{
}

/// A well-formed first message is answered with a drawn nonce and a drawn salt, which are kept.
pub proof fn law_well_formed_first_step(
    data: Vec<u8>,
    flag: Seq<char>,
    auth_zid: Seq<char>,
    username: Seq<char>,
    nonce: Seq<char>,
    client: ClientView,
    r: PgWireResult<StartupAction>,
    after: (ScramStateView, ClientView),
)
    requires
        flag == "n"@ || flag == "y"@ || (flag.len() >= 2 && flag[0] == 'p' && flag[1] == '='),
        !flag.contains(','),
        !auth_zid.contains(','),
        !username.contains(','),
        codec::lossy_text(data@) == flag + ","@ + auth_zid + ",n="@ + username + ",r="@ + nonce,
        scram::step_taken(
            StartupEvent::InitialResponse(Some(data)),
            (ScramStateView::Initial, client),
            r,
            after,
        ),
    ensures
        exists|server_nonce: Seq<char>, salt: Seq<u8>|
            {
                let answer = "r="@ + nonce + server_nonce + ",s="@ + crypto::base64_encoded(salt)
                    + ",i=4096"@;
                &&& #[trigger] scram::is_server_nonce(server_nonce)
                &&& #[trigger] scram::is_server_salt(salt)
                &&& r is Ok
                &&& r->Ok_0 is Reply
                &&& !r->Ok_0->authenticated
                &&& r->Ok_0->message is SASLContinue
                &&& r->Ok_0->message->SASLContinue_0@ == utf8::encode_utf8(answer)
                &&& after.0 == ScramStateView::ServerFirstSent(
                    salt,
                    flag + ","@ + auth_zid + ","@,
                    "n="@ + username + ",r="@ + nonce + ","@ + answer,
                )
            },
        after.1 == client,
{
    let bytes = codec::option_bytes(Some(data));
    let (server_nonce, salt) = choose|server_nonce: Seq<char>, salt: Seq<u8>|
        {
            &&& scram::is_server_nonce(server_nonce)
            &&& scram::is_server_salt(salt)
            &&& scram::outcome(r) == #[trigger] scram::client_first_outcome(
                bytes,
                server_nonce,
                salt,
            )
            &&& after == (
                scram::state_after_client_first_data(bytes, server_nonce, salt),
                client,
            )
        };
    law_well_formed_first_message(
        data,
        flag,
        auth_zid,
        username,
        nonce,
        server_nonce,
        salt,
        r,
        after.0,
    );
    assert(scram::is_server_nonce(server_nonce) && scram::is_server_salt(salt));
}

/// A final message is judged against what was kept of the first one, and changes nothing.
pub proof fn law_final_step(
    salt: Seq<u8>,
    header: Seq<char>,
    partial_auth_msg: Seq<char>,
    client: ClientView,
    salted_password: Vec<u8>,
    data: Vec<u8>,
    r: PgWireResult<StartupAction>,
    after: (ScramStateView, ClientView),
)
    requires
        scram::step_taken(
            (StartupEvent::Response { salted_password, data }),
            (ScramStateView::ServerFirstSent(salt, header, partial_auth_msg), client),
            r,
            after,
        ),
    ensures
        scram::outcome(r) == scram::client_final_outcome(
            header,
            partial_auth_msg,
            salted_password@,
            codec::lossy_text(data@),
        ),
        after == (ScramStateView::ServerFirstSent(salt, header, partial_auth_msg), client),
{
}

/// Both steps of an exchange fit together: a client that signs what it sent and what it was
/// answered is authenticated, and one with any other proof is not.
pub proof fn law_client_signs_what_it_was_answered(
    data: Vec<u8>,
    flag: Seq<char>,
    auth_zid: Seq<char>,
    username: Seq<char>,
    nonce: Seq<char>,
    client: ClientView,
    first: PgWireResult<StartupAction>,
    between: (ScramStateView, ClientView),
    answer: Seq<char>,
    salted_password: Vec<u8>,
    response: Vec<u8>,
    channel_binding: Seq<char>,
    final_nonce: Seq<char>,
    client_proof: Seq<char>,
    second: PgWireResult<StartupAction>,
    after: (ScramStateView, ClientView),
)
    requires
        flag == "n"@ || flag == "y"@ || (flag.len() >= 2 && flag[0] == 'p' && flag[1] == '='),
        !flag.contains(','),
        !auth_zid.contains(','),
        !username.contains(','),
        codec::lossy_text(data@) == flag + ","@ + auth_zid + ",n="@ + username + ",r="@ + nonce,
        scram::step_taken(
            StartupEvent::InitialResponse(Some(data)),
            (ScramStateView::Initial, client),
            first,
            between,
        ),
        utf8::encode_utf8(answer) == first->Ok_0->message->SASLContinue_0@,
        !channel_binding.contains(','),
        !final_nonce.contains(','),
        crypto::base64_decoded(channel_binding) == Ok::<Seq<u8>, Seq<char>>(
            utf8::encode_utf8(flag + ","@ + auth_zid + ","@),
        ),
        codec::lossy_text(response@) == "c="@ + channel_binding + ",r="@ + final_nonce + ",p="@
            + client_proof,
        scram::step_taken(
            (StartupEvent::Response { salted_password, data: response }),
            between,
            second,
            after,
        ),
    ensures
        ({
            let key = crypto::hmac_sha256(salted_password@, utf8::encode_utf8("Client Key"@));
            let signed = utf8::encode_utf8(
                "n="@ + username + ",r="@ + nonce + ","@ + answer + ",c="@ + channel_binding
                    + ",r="@ + final_nonce,
            );
            &&& second is Ok
            &&& second->Ok_0 is Reply
            &&& second->Ok_0->authenticated <==> client_proof == crypto::base64_encoded(
                crypto::xor_bytes(key, crypto::hmac_sha256(crypto::sha256(key), signed)),
            )
            &&& after == between
        }),
{
    law_well_formed_first_step(
        data,
        flag,
        auth_zid,
        username,
        nonce,
        client,
        first,
        between,
    );
    let (server_nonce, salt) = choose|server_nonce: Seq<char>, salt: Seq<u8>|
        {
            let sent = "r="@ + nonce + server_nonce + ",s="@ + crypto::base64_encoded(salt)
                + ",i=4096"@;
            &&& #[trigger] scram::is_server_nonce(server_nonce)
            &&& #[trigger] scram::is_server_salt(salt)
            &&& first->Ok_0->message->SASLContinue_0@ == utf8::encode_utf8(sent)
            &&& between.0 == ScramStateView::ServerFirstSent(
                salt,
                flag + ","@ + auth_zid + ","@,
                "n="@ + username + ",r="@ + nonce + ","@ + sent,
            )
        };
    let sent = "r="@ + nonce + server_nonce + ",s="@ + crypto::base64_encoded(salt) + ",i=4096"@;
    utf8::encode_utf8_decode_utf8(sent);
    utf8::encode_utf8_decode_utf8(answer);
    assert(sent == answer);
    law_bound_final_message(
        flag + ","@ + auth_zid + ","@,
        "n="@ + username + ",r="@ + nonce + ","@ + answer,
        salted_password@,
        channel_binding,
        final_nonce,
        client_proof,
        second,
    );
}

/// Nothing comes of any other message.
pub proof fn law_other_step(
    before: (ScramStateView, ClientView),
    r: PgWireResult<StartupAction>,
    after: (ScramStateView, ClientView),
)
    requires
        scram::step_taken(StartupEvent::Other, before, r, after),
    ensures
        r == Ok::<StartupAction, PgWireError>(StartupAction::Ignore),
        after == before,
{
}

} // verus!
