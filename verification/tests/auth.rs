use pgwire::api::auth::{
    authentication_messages, authentication_sent, finish_authentication,
    save_startup_parameters_to_metadata, NoopServerParameterProvider, ServerParameterProvider,
};
use pgwire::api::{ClientInfo, PgWireConnectionState, METADATA_USER};
use pgwire::messages::response::{ReadyForQuery, READY_STATUS_IDLE};
use pgwire::messages::startup::{Authentication, BackendKeyData, ParameterStatus, Startup};
use pgwire::messages::PgWireBackendMessage;

struct Greeter;

impl ServerParameterProvider for Greeter {
    fn server_parameters(&self, client: &ClientInfo) -> Option<Vec<(String, String)>> {
        let user = client.metadata(METADATA_USER)?;
        Some(vec![
            ("server_version".to_owned(), "16".to_owned()),
            ("greeting".to_owned(), format!("hello {}", user)),
        ])
    }
}

fn pair(name: &str, value: &str) -> (String, String) {
    (name.to_owned(), value.to_owned())
}

fn status(name: &str, value: &str) -> PgWireBackendMessage {
    PgWireBackendMessage::ParameterStatus(ParameterStatus::new(name.to_owned(), value.to_owned()))
}

fn confirmed() -> PgWireBackendMessage {
    PgWireBackendMessage::Authentication(Authentication::AuthenticationOk)
}

fn idle() -> PgWireBackendMessage {
    PgWireBackendMessage::ReadyForQuery(ReadyForQuery::new(READY_STATUS_IDLE))
}

#[test]
fn startup_parameters_are_remembered() {
    let mut client = ClientInfo::new();
    client.insert_metadata("kept".to_owned(), "1".to_owned());
    client.insert_metadata("user".to_owned(), "old".to_owned());
    let startup = Startup::new(vec![pair("user", "ann"), pair("a", "1"), pair("a", "2")]);
    save_startup_parameters_to_metadata(&mut client, &startup);
    assert_eq!(client.metadata("user"), Some(&"ann".to_owned()));
    assert_eq!(client.metadata("a"), Some(&"2".to_owned()));
    assert_eq!(client.metadata("kept"), Some(&"1".to_owned()));
    assert_eq!(client.metadata("b"), None);
    assert_eq!(client.state(), PgWireConnectionState::AwaitingStartup);
}

#[test]
fn no_startup_parameters() {
    let mut client = ClientInfo::new();
    save_startup_parameters_to_metadata(&mut client, &Startup::new(vec![]));
    assert_eq!(client.metadata("user"), None);
}

#[test]
fn messages_that_end_an_authentication() {
    assert_eq!(
        authentication_messages(Some(vec![pair("a", "1"), pair("b", "2")]), 5, -7),
        vec![
            confirmed(),
            status("a", "1"),
            status("b", "2"),
            PgWireBackendMessage::BackendKeyData(BackendKeyData::new(5, -7)),
            idle(),
        ]
    );
    assert_eq!(
        authentication_messages(None, u32::MAX, 0),
        vec![
            confirmed(),
            PgWireBackendMessage::BackendKeyData(BackendKeyData::new(-1, 0)),
            idle(),
        ]
    );
    assert_eq!(READY_STATUS_IDLE, b'I');
}

#[test]
fn authentication_is_finished() {
    let mut client = ClientInfo::new();
    client.insert_metadata("user".to_owned(), "ann".to_owned());
    client.set_state(PgWireConnectionState::AuthenticationInProgress);
    let messages = finish_authentication(&client, &Greeter, 11);
    assert_eq!(client.metadata("user"), Some(&"ann".to_owned()));
    assert_eq!(messages.len(), 5);
    assert_eq!(messages[0], confirmed());
    assert_eq!(messages[1], status("server_version", "16"));
    assert_eq!(messages[2], status("greeting", "hello ann"));
    assert!(matches!(
        &messages[3],
        PgWireBackendMessage::BackendKeyData(BackendKeyData { pid: 11, .. })
    ));
    assert_eq!(messages[4], idle());
}

#[test]
fn client_is_ready_once_the_messages_were_sent() {
    let mut client = ClientInfo::new();
    client.insert_metadata("user".to_owned(), "ann".to_owned());
    client.set_state(PgWireConnectionState::AuthenticationInProgress);
    finish_authentication(&client, &Greeter, 11);
    assert_eq!(client.state(), PgWireConnectionState::AuthenticationInProgress);
    assert_eq!(authentication_sent(&mut client, Err("broken pipe")), Err("broken pipe"));
    assert_eq!(client.state(), PgWireConnectionState::AuthenticationInProgress);
    assert_eq!(authentication_sent(&mut client, Ok::<(), &str>(())), Ok(()));
    assert_eq!(client.state(), PgWireConnectionState::ReadyForQuery);
    assert_eq!(client.metadata("user"), Some(&"ann".to_owned()));
}

#[test]
fn nothing_is_reported_without_parameters() {
    let client = ClientInfo::new();
    assert!(NoopServerParameterProvider.server_parameters(&client).is_none());
    let messages = finish_authentication(&client, &NoopServerParameterProvider, 1);
    assert_eq!(messages.len(), 3);
    assert_eq!(messages[0], confirmed());
    assert_eq!(messages[2], idle());
}
