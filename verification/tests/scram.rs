use std::sync::Arc;

use base64::engine::general_purpose::STANDARD;
use base64::Engine;
use pgwire::api::auth::crypto;
use pgwire::api::auth::scram::message::{ClientFinal, ClientFirst};
use pgwire::api::auth::scram::{
    answer_client_final, answer_client_first, answer_proof, choose_password, gen_salted_password,
    normalize_password, random_nonce, random_salt, try_gen_salted_password,
    MakeSASLScramAuthStartupHandler, SASLScramAuthStartupHandler, ScramState, StartupAction,
    StartupEvent, DEFAULT_ITERATIONS,
};
use pgwire::api::auth::NoopServerParameterProvider;
use pgwire::api::{ClientInfo, PgWireConnectionState};
use pgwire::error::{PgWireError, PgWireResult};
use pgwire::messages::startup::{Authentication, Startup};

type Handler = SASLScramAuthStartupHandler<u8, NoopServerParameterProvider>;

// An example exchange, with the password "pencil".
const CLIENT_FIRST: &str = "n,,n=user,r=rOprNGfwEbeRWgbNEkqO";
const SERVER_NONCE: &str = "%hvYDpWUa2RaTCAfuxFIlj)hNlF$k0";
const SALT: [u8; 16] = [
    91, 109, 153, 104, 157, 18, 53, 142, 236, 160, 75, 20, 18, 54, 250, 129,
];
const SERVER_FIRST: &str =
    "r=rOprNGfwEbeRWgbNEkqO%hvYDpWUa2RaTCAfuxFIlj)hNlF$k0,s=W22ZaJ0SNY7soEsUEjb6gQ==,i=4096";
const CLIENT_FINAL: &str = "c=biws,r=rOprNGfwEbeRWgbNEkqO%hvYDpWUa2RaTCAfuxFIlj)hNlF$k0,\
     p=dHzbZapWIk4jUhN+Ute9ytag9zjfMHgsqmmiz7AndVQ=";
const SERVER_FINAL: &str = "v=6rriTRBi23WpRR/wtup+mMhUZUn/dB5nLTJRsjl95G4=";

fn handler() -> Handler {
    Handler::new(Arc::new(7), Arc::new(NoopServerParameterProvider))
}

fn client() -> ClientInfo {
    let mut client = ClientInfo::new();
    client.insert_metadata("user".to_owned(), "ann".to_owned());
    client
}

fn reply(message: Authentication, authenticated: bool) -> PgWireResult<StartupAction> {
    Ok(StartupAction::Reply { message, authenticated })
}

fn invalid(text: &str) -> PgWireResult<StartupAction> {
    Err(PgWireError::InvalidScramMessage(text.to_owned()))
}

fn sign(key: &[u8], message: &[u8]) -> Vec<u8> {
    let key = ring::hmac::Key::new(ring::hmac::HMAC_SHA256, key);
    ring::hmac::sign(&key, message).as_ref().to_vec()
}

fn hex(bytes: &[u8]) -> String {
    bytes.iter().map(|b| format!("{:02x}", b)).collect()
}

/// A handler that answered the first message of the example.
fn answered() -> Handler {
    let mut handler = handler();
    let r = handler.on_client_first(
        Some(CLIENT_FIRST.as_bytes().to_vec()),
        SERVER_NONCE,
        SALT.to_vec(),
    );
    assert_eq!(
        r,
        reply(Authentication::SASLContinue(SERVER_FIRST.as_bytes().to_vec()), false)
    );
    handler
}

fn response(password: &str, client_final: &str) -> StartupEvent {
    StartupEvent::Response {
        salted_password: gen_salted_password(password, &SALT, DEFAULT_ITERATIONS),
        data: client_final.as_bytes().to_vec(),
    }
}

fn assert_state_is_that_of_the_example(handler: &Handler) {
    match handler.state() {
        ScramState::ServerFirstSent(salt, channel_binding, partial_auth_msg) => {
            assert_eq!(salt, &SALT.to_vec());
            assert_eq!(channel_binding, "n,,");
            assert_eq!(
                partial_auth_msg,
                &format!("n=user,r=rOprNGfwEbeRWgbNEkqO,{}", SERVER_FIRST)
            );
        }
        ScramState::Initial => panic!("the first message was not answered"),
    }
}

#[test]
fn salted_passwords() {
    assert_eq!(
        hex(&gen_salted_password("pencil", &SALT, 4096)),
        "c4a49510323ab4f952cac1fa99441939e78ea74d6be81ddf7096e87513dc615d"
    );
    assert_eq!(
        hex(&gen_salted_password("password", b"salt", 1)),
        "120fb6cffcf8b32c43e7225256c4f837a86548c92ccc35480805987cb70be17b"
    );
}

#[test]
fn passwords_are_prepared() {
    assert_eq!(normalize_password("I\u{ad}X"), "IX");
    assert_eq!(normalize_password("\u{2168}"), "IX");
    let salted = "928e3b5efce52b31908a271cc2213d106fc8aaf1ea157c96f7aefab32f28a0a6";
    assert_eq!(hex(&gen_salted_password("IX", b"NaCl", 1)), salted);
    assert_eq!(hex(&gen_salted_password("I\u{ad}X", b"NaCl", 1)), salted);
}

#[test]
fn password_that_cannot_be_prepared_is_hashed_as_it_is() {
    assert_eq!(normalize_password("a\u{7}"), "a\u{7}");
    assert_eq!(
        hex(&gen_salted_password("a\u{7}", b"NaCl", 2)),
        "08b23a5f098c33bb176f68af92a74ce19403aba8a0b9baefaa2e9e55bfc7e47f"
    );
}

#[test]
fn prepared_form_is_chosen() {
    assert_eq!(choose_password(Some("prepared".to_owned()), "raw"), "prepared");
    assert_eq!(choose_password(None, "raw"), "raw");
}

#[test]
fn iteration_count_must_not_be_zero() {
    assert_eq!(try_gen_salted_password("p", b"s", 0), None);
    assert_eq!(
        try_gen_salted_password("pencil", &SALT, 4096),
        Some(gen_salted_password("pencil", &SALT, 4096))
    );
}

#[test]
fn derived_key_of_given_bytes() {
    assert_eq!(
        hex(&crypto::hi(b"password", b"salt", 1)),
        "120fb6cffcf8b32c43e7225256c4f837a86548c92ccc35480805987cb70be17b"
    );
}

#[test]
fn derived_key_is_made_of_iterated_hmacs() {
    let first = sign(b"password", b"salt\0\0\0\x01");
    let second = sign(b"password", &first);
    let third = sign(b"password", &second);
    assert_eq!(crypto::hi(b"password", b"salt", 1), first);
    let two = crypto::xor(&first, &second);
    assert_eq!(crypto::hi(b"password", b"salt", 2), two);
    assert_eq!(crypto::hi(b"password", b"salt", 3), crypto::xor(&two, &third));
}

#[test]
fn draws_differ() {
    let draws: Vec<Vec<u8>> = (0..8).map(|_| random_salt()).collect();
    assert!(draws.iter().any(|salt| salt != &draws[0]));
}

#[test]
fn exclusive_or() {
    assert_eq!(crypto::xor(&[0b1100, 0xff, 1], &[0b1010, 0xff]), vec![0b0110, 0]);
    let (a, b) = (vec![1u8, 2, 3], vec![250u8, 251, 252]);
    assert_eq!(crypto::xor(&crypto::xor(&a, &b), &b), a);
    assert_eq!(crypto::xor(&a, &b), crypto::xor(&b, &a));
    assert!(crypto::xor(&a, &[]).is_empty());
}

#[test]
fn salts_and_nonces() {
    assert_eq!(random_salt().len(), 10);
    let nonce = random_nonce();
    assert_eq!(nonce.len(), 24);
    assert_eq!(STANDARD.decode(&nonce).unwrap().len(), 18);
    assert!(nonce.chars().all(|c| c.is_ascii_alphanumeric() || c == '+' || c == '/'));
}

#[test]
fn example_exchange_succeeds() {
    let mut handler = answered();
    assert_state_is_that_of_the_example(&handler);
    let mut client = client();
    assert_eq!(
        handler.on_startup(&mut client, response("pencil", CLIENT_FINAL)),
        reply(Authentication::SASLFinal(SERVER_FINAL.as_bytes().to_vec()), true)
    );
    assert_state_is_that_of_the_example(&handler);
}

#[test]
fn steps_of_the_example() {
    let first = ClientFirst::try_new(CLIENT_FIRST).unwrap();
    let (state, message) = answer_client_first(&first, SERVER_NONCE, SALT.to_vec());
    assert_eq!(message, Authentication::SASLContinue(SERVER_FIRST.as_bytes().to_vec()));
    let partial = match state {
        ScramState::ServerFirstSent(_, _, partial) => partial,
        ScramState::Initial => panic!("nothing was answered"),
    };
    let last = ClientFinal::try_new(CLIENT_FINAL).unwrap();
    let salted = gen_salted_password("pencil", &SALT, 4096);
    assert_eq!(
        answer_client_final(&partial, &last, &salted),
        (Authentication::SASLFinal(SERVER_FINAL.as_bytes().to_vec()), true)
    );
}

#[test]
fn proofs_are_compared() {
    assert_eq!(
        answer_proof("a", "a", "sig".to_owned()),
        (Authentication::SASLFinal(b"v=sig".to_vec()), true)
    );
    assert_eq!(
        answer_proof("a", "b", "sig".to_owned()),
        (Authentication::SASLFinal(b"e=invalid-proof".to_vec()), false)
    );
}

#[test]
fn wrong_password_is_refused() {
    let mut handler = answered();
    let mut client = client();
    assert_eq!(
        handler.on_startup(&mut client, response("pencils", CLIENT_FINAL)),
        reply(Authentication::SASLFinal(b"e=invalid-proof".to_vec()), false)
    );
    assert_state_is_that_of_the_example(&handler);
    // A later attempt may still succeed.
    assert_eq!(
        handler.on_startup(&mut client, response("pencil", CLIENT_FINAL)),
        reply(Authentication::SASLFinal(SERVER_FINAL.as_bytes().to_vec()), true)
    );
}

#[test]
fn changed_nonce_is_refused() {
    let mut handler = answered();
    let changed = CLIENT_FINAL.replace("k0,", "k1,");
    assert_eq!(
        handler.on_startup(&mut client(), response("pencil", &changed)),
        reply(Authentication::SASLFinal(b"e=invalid-proof".to_vec()), false)
    );
}

#[test]
fn faulty_final_messages() {
    let mut handler = answered();
    let mut client = client();
    assert_eq!(
        handler.on_startup(&mut client, response("pencil", "c=biws,r=x")),
        invalid("c=biws,r=x")
    );
    let unbound = CLIENT_FINAL.replace("c=biws", "c=eSws");
    assert_eq!(
        handler.on_startup(&mut client, response("pencil", &unbound)),
        invalid("Channel binding mismatch, expect: [110, 44, 44], decoded: [121, 44, 44]")
    );
    let not_base64 = CLIENT_FINAL.replace("c=biws", "c=b!ws");
    assert_eq!(
        handler.on_startup(&mut client, response("pencil", &not_base64)),
        invalid("Failed to decode channel binding: b!ws, Invalid byte 33, offset 1.")
    );
    assert_state_is_that_of_the_example(&handler);
}

#[test]
fn faulty_first_messages() {
    let mut handler = handler();
    let mut client = client();
    assert_eq!(
        handler.on_startup(&mut client, StartupEvent::InitialResponse(None)),
        invalid("Empty client-first")
    );
    assert_eq!(
        handler.on_startup(&mut client, StartupEvent::InitialResponse(Some(b"n,,x".to_vec()))),
        invalid("n,,x")
    );
    assert_eq!(
        handler.on_startup(&mut client, StartupEvent::InitialResponse(Some(b"n,\xff".to_vec()))),
        invalid("n,\u{fffd}")
    );
    assert!(matches!(handler.state(), ScramState::Initial));
}

#[test]
fn first_message_is_answered_with_a_random_nonce() {
    let mut handler = handler();
    let event = StartupEvent::InitialResponse(Some(CLIENT_FIRST.as_bytes().to_vec()));
    let data = match handler.on_startup(&mut client(), event) {
        Ok(StartupAction::Reply { message: Authentication::SASLContinue(data), authenticated }) => {
            assert!(!authenticated);
            String::from_utf8(data).unwrap()
        }
        other => panic!("unexpected: {:?}", other),
    };
    let parts: Vec<&str> = data.split(',').collect();
    assert_eq!(parts.len(), 3);
    let nonce = parts[0].strip_prefix("r=rOprNGfwEbeRWgbNEkqO").unwrap();
    assert_eq!(STANDARD.decode(nonce).unwrap().len(), 18);
    let salt = STANDARD.decode(parts[1].strip_prefix("s=").unwrap()).unwrap();
    assert_eq!(salt.len(), 10);
    assert_eq!(parts[2], "i=4096");
    match handler.state() {
        ScramState::ServerFirstSent(kept, channel_binding, partial_auth_msg) => {
            assert_eq!(kept, &salt);
            assert_eq!(channel_binding, "n,,");
            assert_eq!(
                partial_auth_msg,
                &format!("n=user,r=rOprNGfwEbeRWgbNEkqO,{}", data)
            );
        }
        ScramState::Initial => panic!("the first message was not answered"),
    }
}

#[test]
fn client_that_knows_the_password_is_accepted() {
    let mut handler = handler();
    let mut client = client();
    let event = StartupEvent::InitialResponse(Some(b"y,,n=,r=abc".to_vec()));
    let server_first = match handler.on_startup(&mut client, event) {
        Ok(StartupAction::Reply { message: Authentication::SASLContinue(data), .. }) => {
            String::from_utf8(data).unwrap()
        }
        other => panic!("unexpected: {:?}", other),
    };
    let (salt, iterations) = match handler.on_startup(&mut client, StartupEvent::PasswordMessage) {
        Ok(StartupAction::FetchSaltedPassword { username, salt, iterations }) => {
            assert_eq!(username, "ann");
            (salt, iterations)
        }
        other => panic!("unexpected: {:?}", other),
    };
    let salted = gen_salted_password("secret", &salt, iterations);
    let nonce = server_first.split(',').next().unwrap();
    let without_proof = format!("c={},{}", STANDARD.encode("y,,"), nonce);
    let signed = format!("n=,r=abc,{},{}", server_first, without_proof);
    let key = sign(&salted, b"Client Key");
    let stored = ring::digest::digest(&ring::digest::SHA256, &key);
    let signature = sign(stored.as_ref(), signed.as_bytes());
    let client_proof = STANDARD.encode(crypto::xor(&key, &signature));
    let data = format!("{},p={}", without_proof, client_proof).into_bytes();
    let expected = STANDARD.encode(sign(&sign(&salted, b"Server Key"), signed.as_bytes()));
    assert_eq!(
        handler.on_startup(&mut client, StartupEvent::Response { salted_password: salted, data }),
        reply(Authentication::SASLFinal(format!("v={}", expected).into_bytes()), true)
    );
}

#[test]
fn startup_offers_the_mechanisms() {
    let mut handler = handler();
    let mut client = ClientInfo::new();
    let startup = Startup::new(vec![
        ("user".to_owned(), "ann".to_owned()),
        ("database".to_owned(), "db".to_owned()),
    ]);
    assert_eq!(
        handler.on_startup(&mut client, StartupEvent::Startup(startup)),
        reply(
            Authentication::SASL(vec!["SCRAM-SHA-256".to_owned(), "SCRAM-SHA-256-PLUS".to_owned()]),
            false
        )
    );
    assert_eq!(client.state(), PgWireConnectionState::AuthenticationInProgress);
    assert_eq!(client.metadata("user"), Some(&"ann".to_owned()));
    assert_eq!(client.metadata("database"), Some(&"db".to_owned()));
    assert!(matches!(handler.state(), ScramState::Initial));
}

#[test]
fn password_message_asks_for_what_is_needed() {
    let mut handler = answered();
    assert_eq!(
        handler.on_startup(&mut client(), StartupEvent::PasswordMessage),
        Ok(StartupAction::FetchSaltedPassword {
            username: "ann".to_owned(),
            salt: SALT.to_vec(),
            iterations: 4096,
        })
    );
    assert_eq!(
        handler.on_startup(&mut ClientInfo::new(), StartupEvent::PasswordMessage),
        Err(PgWireError::UserNameRequired)
    );
    assert_state_is_that_of_the_example(&handler);
    let mut fresh = self::handler();
    assert_eq!(
        fresh.on_startup(&mut ClientInfo::new(), StartupEvent::PasswordMessage),
        Ok(StartupAction::ReadInitialResponse)
    );
}

#[test]
fn other_messages_are_ignored() {
    let mut handler = answered();
    let mut client = client();
    assert_eq!(
        handler.on_startup(&mut client, StartupEvent::Other),
        Ok(StartupAction::Ignore)
    );
    assert_state_is_that_of_the_example(&handler);
    assert_eq!(client.state(), PgWireConnectionState::AwaitingStartup);
    assert_eq!(client.metadata("user"), Some(&"ann".to_owned()));
}

#[test]
fn events_out_of_turn_do_not_occur() {
    let mut client = client();
    let mut fresh = handler();
    let early = response("pencil", CLIENT_FINAL);
    assert!(!fresh.accepts(&early));
    assert_eq!(fresh.try_on_startup(&mut client, early), None);
    assert!(matches!(fresh.state(), ScramState::Initial));

    let mut handler = answered();
    let late = StartupEvent::InitialResponse(Some(CLIENT_FIRST.as_bytes().to_vec()));
    assert!(!handler.accepts(&late));
    assert_eq!(handler.try_on_startup(&mut client, late), None);
    assert_state_is_that_of_the_example(&handler);
    assert!(handler.accepts(&response("pencil", "nonsense")));
    assert_eq!(
        handler.try_on_startup(&mut client, response("pencil", CLIENT_FINAL)),
        Some(reply(Authentication::SASLFinal(SERVER_FINAL.as_bytes().to_vec()), true))
    );
}

#[test]
fn made_handlers_share_what_they_are_given() {
    let auth_db = Arc::new(7u8);
    let provider = Arc::new(NoopServerParameterProvider);
    let make = MakeSASLScramAuthStartupHandler::new(auth_db.clone(), provider.clone());
    let (one, other) = (make.make(), make.make());
    assert!(Arc::ptr_eq(one.auth_db(), &auth_db));
    assert!(Arc::ptr_eq(other.auth_db(), &auth_db));
    assert!(Arc::ptr_eq(one.parameter_provider(), &provider));
    assert!(matches!(one.state(), ScramState::Initial));
}
