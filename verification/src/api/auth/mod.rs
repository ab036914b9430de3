//! Authentication of a client.

pub mod crypto;
pub mod scram;

use vstd::prelude::*;

use crate::api::{ClientInfo, ClientView, PgWireConnectionState};
use crate::messages::response::{ReadyForQuery, READY_STATUS_IDLE};
use crate::messages::startup::{
    Authentication, AuthenticationView, BackendKeyData, ParameterStatus, Startup,
};
use crate::messages::{startup, PgWireBackendMessage, PgWireBackendMessageView};

verus! {

/// Tells which parameters of the server a client learns about.
pub trait ServerParameterProvider: Send + Sync {
    /// The names and values that are reported to `client`, or `None` where there are none to
    /// report. No name occurs twice.
    fn server_parameters(&self, client: &ClientInfo) -> (r: Option<Vec<(String, String)>>)
        ensures
            distinct_names(reported_parameters(r)),
    ;
}

/// A [`ServerParameterProvider`] with nothing to report.
pub struct NoopServerParameterProvider;

impl ServerParameterProvider for NoopServerParameterProvider {
    fn server_parameters(&self, client: &ClientInfo) -> (r: Option<Vec<(String, String)>>)
        ensures
            r is None,
    {
        None
    }
}

/// What is remembered once `parameters` have been added, the later ones over the earlier ones.
pub open spec fn with_parameters(
    metadata: Map<Seq<char>, Seq<char>>,
    parameters: Seq<(Seq<char>, Seq<char>)>,
) -> Map<Seq<char>, Seq<char>>
    decreases parameters.len(),
{
    if parameters.len() == 0 {
        metadata
    } else {
        with_parameters(metadata, parameters.drop_last()).insert(
            parameters.last().0,
            parameters.last().1,
        )
    }
}

/// Remembers the parameters that the client sent at startup.
pub fn save_startup_parameters_to_metadata(client: &mut ClientInfo, startup_message: &Startup)
    ensures
        final(client)@ == (ClientView {
            metadata: with_parameters(old(client)@.metadata, startup_message@),
            ..old(client)@
        }),
{
    let mut i: usize = 0;
    assert(startup_message@.take(0) =~= seq![]);
    while i < startup_message.parameters.len()
        invariant
            i <= startup_message.parameters@.len(),
            client@ == (ClientView {
                metadata: with_parameters(
                    old(client)@.metadata,
                    startup_message@.take(i as int),
                ),
                ..old(client)@
            }),
        decreases startup_message.parameters@.len() - i,
    {
        proof {
            let done = startup_message@.take(i + 1);
            assert(done.drop_last() =~= startup_message@.take(i as int));
            assert(done.last() == startup_message@[i as int]);
        }
        let name = startup_message.parameters[i].0.clone();
        let value = startup_message.parameters[i].1.clone();
        client.insert_metadata(name, value);
        i += 1;
    }
    assert(startup_message@.take(i as int) =~= startup_message@);
}

/// The message that confirms an authentication.
pub open spec fn confirmation() -> Seq<PgWireBackendMessageView> {
    seq![PgWireBackendMessageView::Authentication(AuthenticationView::AuthenticationOk)]
}

/// One message for each parameter.
pub open spec fn statuses(
    parameters: Seq<(Seq<char>, Seq<char>)>,
) -> Seq<PgWireBackendMessageView> {
    parameters.map_values(
        |p: (Seq<char>, Seq<char>)| PgWireBackendMessageView::ParameterStatus(p.0, p.1),
    )
}

/// The messages that tell a client that it is authenticated: the confirmation, the parameters, the
/// key data, and that queries are welcome.
pub open spec fn authenticated_messages(
    parameters: Seq<(Seq<char>, Seq<char>)>,
    key_data: BackendKeyData,
) -> Seq<PgWireBackendMessageView> {
    confirmation() + statuses(parameters) + seq![
        PgWireBackendMessageView::BackendKeyData(key_data),
        PgWireBackendMessageView::ReadyForQuery(ReadyForQuery { status: READY_STATUS_IDLE }),
    ]
}

/// The values of messages.
pub open spec fn messages_view(s: Seq<PgWireBackendMessage>) -> Seq<PgWireBackendMessageView> {
    s.map_values(|m: PgWireBackendMessage| m@)
}

/// The parameters that a provider reports; none where it reports nothing.
pub open spec fn reported_parameters(
    parameters: Option<Vec<(String, String)>>,
) -> Seq<(Seq<char>, Seq<char>)> {
    match parameters {
        Some(p) => startup::parameters_text(p@),
        None => seq![],
    }
}

/// Whether no name occurs twice.
pub open spec fn distinct_names(parameters: Seq<(Seq<char>, Seq<char>)>) -> bool {
    forall|i: int, j: int|
        0 <= i < j < parameters.len() ==> (#[trigger] parameters[i]).0 != (
        #[trigger] parameters[j]).0
}

/// The messages that end an authentication, given what the provider reports, the process that
/// serves the client, whose number is taken modulo 2^32 as a signed number, and a secret key.
pub fn authentication_messages(
    parameters: Option<Vec<(String, String)>>,
    pid: u32,
    secret_key: i32,
) -> (r: Vec<PgWireBackendMessage>)
    ensures
        messages_view(r@) == authenticated_messages(
            reported_parameters(parameters),
            (BackendKeyData { pid: pid as i32, secret_key }),
        ),
{
    let ghost old_parameters = parameters;
    let parameters = match parameters {
        Some(parameters) => parameters,
        None => Vec::new(),
    };
    let ghost reported = startup::parameters_text(parameters@);
    assert(reported_parameters(old_parameters) =~= reported);
    let mut messages: Vec<PgWireBackendMessage> = Vec::new();
    messages.push(PgWireBackendMessage::Authentication(Authentication::AuthenticationOk));
    let mut i: usize = 0;
    assert(messages_view(messages@) =~= confirmation() + statuses(reported.take(0)));
    while i < parameters.len()
        invariant
            i <= parameters@.len(),
            reported == startup::parameters_text(parameters@),
            messages_view(messages@) == confirmation() + statuses(reported.take(i as int)),
        decreases parameters@.len() - i,
    {
        let ghost before = messages@;
        let name = parameters[i].0.clone();
        let value = parameters[i].1.clone();
        messages.push(PgWireBackendMessage::ParameterStatus(ParameterStatus::new(name, value)));
        assert(messages_view(messages@) =~= messages_view(before).push(messages@.last()@));
        assert(statuses(reported.take(i + 1)) =~= statuses(reported.take(i as int)).push(
            messages@.last()@,
        ));
        assert(messages_view(messages@) =~= confirmation() + statuses(reported.take(i + 1)));
        i += 1;
    }
    assert(reported.take(i as int) =~= reported);
    let ghost before = messages@;
    let key_data = BackendKeyData::new(pid as i32, secret_key);
    messages.push(PgWireBackendMessage::BackendKeyData(key_data));
    messages.push(PgWireBackendMessage::ReadyForQuery(ReadyForQuery::new(READY_STATUS_IDLE)));
    assert(messages_view(messages@) =~= messages_view(before).push(
        PgWireBackendMessageView::BackendKeyData(key_data),
    ).push(
        PgWireBackendMessageView::ReadyForQuery(ReadyForQuery { status: READY_STATUS_IDLE }),
    ));
    assert(messages_view(messages@) =~= authenticated_messages(reported, key_data));
    messages
}

/// The messages that tell `client` that it is authenticated; the secret key in them is random. The
/// client may send queries once they have been sent: see [`authentication_sent`].
pub fn finish_authentication<P: ServerParameterProvider>(
    client: &ClientInfo,
    server_parameter_provider: &P,
    pid: u32,
) -> (r: Vec<PgWireBackendMessage>)
    ensures
        exists|parameters: Option<Vec<(String, String)>>, secret_key: i32|
            {
                &&& call_ensures(
                    P::server_parameters,
                    (server_parameter_provider, client),
                    parameters,
                )
                &&& distinct_names(reported_parameters(parameters))
                &&& call_ensures(crypto::random_number, (), secret_key)
                &&& messages_view(r@) == #[trigger] authenticated_messages(
                    reported_parameters(parameters),
                    (BackendKeyData { pid: pid as i32, secret_key }),
                )
            },
{
    let parameters = server_parameter_provider.server_parameters(client);
    let secret_key: i32 = crypto::random_number();
    authentication_messages(parameters, pid, secret_key)
}

/// Notes how sending the messages that end the authentication of `client` went, and hands that on.
/// The client may send queries from now on where all of them were sent. Otherwise nothing changes.
pub fn authentication_sent<E>(client: &mut ClientInfo, sent: Result<(), E>) -> (r: Result<(), E>)
    ensures
        r == sent,
        sent is Ok ==> final(client)@ == (ClientView {
            state: PgWireConnectionState::ReadyForQuery,
            ..old(client)@
        }),
        sent is Err ==> final(client)@ == old(client)@,
{
    if sent.is_ok() {
        client.set_state(PgWireConnectionState::ReadyForQuery);
    }
    sent
}

/// Every parameter is reported, right after the confirmation and in order, and no name is reported
/// twice.
pub proof fn law_parameters_are_reported_once(
    parameters: Seq<(Seq<char>, Seq<char>)>,
    key_data: BackendKeyData,
)
    requires
        distinct_names(parameters),
    ensures
        forall|i: int|
            #![trigger parameters[i]]
            0 <= i < parameters.len() ==> authenticated_messages(parameters, key_data)[i + 1]
                == PgWireBackendMessageView::ParameterStatus(parameters[i].0, parameters[i].1),
        forall|i: int, j: int|
            0 <= i < j < authenticated_messages(parameters, key_data).len() ==> (
            #[trigger] authenticated_messages(parameters, key_data)[i] matches
                PgWireBackendMessageView::ParameterStatus(name, _) ==> (
            #[trigger] authenticated_messages(parameters, key_data)[j] matches
                PgWireBackendMessageView::ParameterStatus(other, _) ==> name != other)),
{
    let messages = authenticated_messages(parameters, key_data);
    assert forall|i: int, j: int|
        0 <= i < j < messages.len() && (#[trigger] messages[i]) is ParameterStatus && (
        #[trigger] messages[j]) is ParameterStatus implies messages[i]->ParameterStatus_0
        != messages[j]->ParameterStatus_0 by {
        assert(messages[i] == statuses(parameters)[i - 1]);
        assert(messages[j] == statuses(parameters)[j - 1]);
        assert(parameters[i - 1].0 != parameters[j - 1].0);
    }
}

/// A parameter that was sent at startup is remembered with its last value.
pub proof fn law_startup_parameters_are_remembered(
    metadata: Map<Seq<char>, Seq<char>>,
    parameters: Seq<(Seq<char>, Seq<char>)>,
    i: int,
)
    requires
        0 <= i < parameters.len(),
        forall|j: int| i < j < parameters.len() ==> parameters[j].0 != parameters[i].0,
    ensures
        with_parameters(metadata, parameters).contains_key(parameters[i].0),
        with_parameters(metadata, parameters)[parameters[i].0] == parameters[i].1,
    decreases parameters.len(),
{
    if i < parameters.len() - 1 {
        law_startup_parameters_are_remembered(metadata, parameters.drop_last(), i);
    }
}

/// What was remembered under a name that was not sent at startup stays.
pub proof fn law_other_metadata_stays(
    metadata: Map<Seq<char>, Seq<char>>,
    parameters: Seq<(Seq<char>, Seq<char>)>,
    name: Seq<char>,
)
    requires
        forall|j: int| 0 <= j < parameters.len() ==> (#[trigger] parameters[j]).0 != name,
    ensures
        with_parameters(metadata, parameters).contains_key(name) == metadata.contains_key(name),
        metadata.contains_key(name) ==> with_parameters(metadata, parameters)[name]
            == metadata[name],
    decreases parameters.len(),
{
    if parameters.len() > 0 {
        assert(parameters.last() == parameters[parameters.len() - 1]);
        law_other_metadata_stays(metadata, parameters.drop_last(), name);
    }
}

/// The messages that end an authentication are the confirmation, one for each reported parameter,
/// the key data, and that the server is idle.
pub proof fn law_messages_that_end_an_authentication(
    messages: Seq<PgWireBackendMessage>,
    parameters: Option<Vec<(String, String)>>,
    key_data: BackendKeyData,
)
    requires
        messages_view(messages) == authenticated_messages(
            reported_parameters(parameters),
            key_data,
        ),
    ensures
        ({
            let n: nat = match parameters {
                Some(p) => p@.len(),
                None => 0,
            };
            &&& messages.len() == n + 3
            &&& messages[0] == PgWireBackendMessage::Authentication(
                Authentication::AuthenticationOk,
            )
            &&& messages[n as int + 1] == PgWireBackendMessage::BackendKeyData(key_data)
            &&& messages[n as int + 2] == PgWireBackendMessage::ReadyForQuery(
                ReadyForQuery { status: 0x49 },
            )
        }),
{
    let said = authenticated_messages(reported_parameters(parameters), key_data);
    let n: nat = match parameters {
        Some(p) => p@.len(),
        None => 0,
    };
    let seen = messages_view(messages);
    assert(seen.len() == messages.len());
    assert(reported_parameters(parameters).len() == n);
    assert(statuses(reported_parameters(parameters)).len() == n);
    assert(said.len() == n + 3);
    assert(seen[0] == messages[0]@);
    assert(seen[n as int + 1] == messages[n as int + 1]@);
    assert(seen[n as int + 2] == messages[n as int + 2]@);
}

/// Among them, each reported parameter has a message of its own with its name and its value.
pub proof fn law_message_about_a_parameter(
    messages: Seq<PgWireBackendMessage>,
    parameters: Vec<(String, String)>,
    key_data: BackendKeyData,
    i: int,
)
    requires
        messages_view(messages) == authenticated_messages(
            reported_parameters(Some(parameters)),
            key_data,
        ),
        0 <= i < parameters@.len(),
    ensures
        messages[i + 1] is ParameterStatus,
        messages[i + 1]->ParameterStatus_0.name@ == parameters@[i].0@,
        messages[i + 1]->ParameterStatus_0.value@ == parameters@[i].1@,
{
    let reported = reported_parameters(Some(parameters));
    let said = authenticated_messages(reported, key_data);
    let seen = messages_view(messages);
    assert(seen.len() == messages.len());
    assert(statuses(reported).len() == parameters@.len());
    assert(seen[i + 1] == messages[i + 1]@);
    assert(said[i + 1] == statuses(reported)[i]);
}

/// Where a provider reports no name twice, the names are all different.
pub proof fn law_reported_names_differ(parameters: Vec<(String, String)>, i: int, j: int)
    requires
        distinct_names(reported_parameters(Some(parameters))),
        0 <= i < j < parameters@.len(),
    ensures
        parameters@[i].0@ != parameters@[j].0@,
{
    let reported = reported_parameters(Some(parameters));
    assert(reported[i].0 != reported[j].0);
}

/// The last value that a startup message gives to a name is remembered under that name.
pub proof fn law_startup_message_is_remembered(
    metadata: Map<Seq<char>, Seq<char>>,
    startup: Startup,
    i: int,
)
    requires
        0 <= i < startup.parameters@.len(),
        forall|j: int|
            i < j < startup.parameters@.len() ==> (#[trigger] startup.parameters@[j]).0@
                != startup.parameters@[i].0@,
    ensures
        with_parameters(metadata, startup@).contains_key(startup.parameters@[i].0@),
        with_parameters(metadata, startup@)[startup.parameters@[i].0@]
            == startup.parameters@[i].1@,
{
    let sent = startup@;
    assert forall|j: int| i < j < sent.len() implies sent[j].0 != sent[i].0 by {
        assert(startup.parameters@[j].0@ != startup.parameters@[i].0@);
    }
    law_startup_parameters_are_remembered(metadata, sent, i);
}

/// A name that a startup message does not hold keeps the value it had, or has none as before.
pub proof fn law_startup_message_leaves_the_rest(
    metadata: Map<Seq<char>, Seq<char>>,
    startup: Startup,
    name: Seq<char>,
)
    requires
        forall|j: int|
            0 <= j < startup.parameters@.len() ==> (#[trigger] startup.parameters@[j]).0@ != name,
    ensures
        with_parameters(metadata, startup@).contains_key(name) <==> metadata.contains_key(name),
        metadata.contains_key(name) ==> with_parameters(metadata, startup@)[name]
            == metadata[name],
{
    let sent = startup@;
    assert forall|j: int| 0 <= j < sent.len() implies (#[trigger] sent[j]).0 != name by {
        assert(startup.parameters@[j].0@ != name);
    }
    law_other_metadata_stays(metadata, sent, name);
}

} // verus!
