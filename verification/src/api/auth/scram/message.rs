//! The messages of a SCRAM exchange.
//!
//! A message is a text of attributes, separated by commas.

use vstd::prelude::*;

use crate::api::auth::crypto;
use crate::error::{PgWireError, PgWireResult};
use crate::text;

verus! {

// ---------------------------------------------------------------------------------------------
// The first message of the client
// ---------------------------------------------------------------------------------------------

/// The first message of the client.
#[derive(Debug)]
pub struct ClientFirst {
    cbind_flag: String,
    auth_zid: String,
    username: String,
    nonce: String,
}

/// The value of a [`ClientFirst`].
#[verifier::ext_equal]
pub struct ClientFirstView {
    /// Whether and how the exchange is bound to the channel.
    pub cbind_flag: Seq<char>,
    /// The authorization identity.
    pub auth_zid: Seq<char>,
    /// The name of the user.
    pub username: Seq<char>,
    /// The nonce of the client, and any extension after it.
    pub nonce: Seq<char>,
}

impl View for ClientFirst {
    type V = ClientFirstView;

    closed spec fn view(&self) -> ClientFirstView {
        ClientFirstView {
            cbind_flag: self.cbind_flag@,
            auth_zid: self.auth_zid@,
            username: self.username@,
            nonce: self.nonce@,
        }
    }
}

/// Whether `flag` says how the exchange is bound to the channel: not, though the client could, or
/// by the type that follows `p=`.
pub open spec fn valid_cbind_flag(flag: Seq<char>) -> bool {
    flag == "n"@ || flag == "y"@ || text::has_prefix(flag, "p="@)
}

/// Whether `s` is a first message of a client: a channel binding flag, an authorization identity,
/// `n=` and a user name, and `r=` and a nonce, separated by commas.
pub open spec fn is_client_first(s: Seq<char>) -> bool {
    let parts = text::split_n(s, 4, ',');
    &&& parts.len() == 4
    &&& valid_cbind_flag(parts[0])
    &&& text::has_prefix(parts[2], "n="@)
    &&& text::has_prefix(parts[3], "r="@)
}

/// The value of a first message of a client.
pub open spec fn client_first_of(s: Seq<char>) -> ClientFirstView {
    let parts = text::split_n(s, 4, ',');
    ClientFirstView {
        cbind_flag: parts[0],
        auth_zid: parts[1],
        username: parts[2].skip(2),
        nonce: parts[3].skip(2),
    }
}

impl ClientFirstView {
    /// The message without its channel binding header.
    pub open spec fn bare(self) -> Seq<char> {
        "n="@ + self.username + ",r="@ + self.nonce
    }

    /// The channel binding header.
    pub open spec fn channel_binding(self) -> Seq<char> {
        self.cbind_flag + ","@ + self.auth_zid + ","@
    }
}

impl ClientFirst {
    /// Reads a first message of a client.
    pub fn try_new(s: &str) -> (r: PgWireResult<ClientFirst>)
        ensures
            r is Ok <==> is_client_first(s@),
            r matches Ok(m) ==> m@ == client_first_of(s@),
            r matches Err(e) ==> e.is_invalid_scram_message(s@),
    {
        let parts = text::splitn(s, 4, ',');
        proof {
            reveal_strlit("n=");
            reveal_strlit("r=");
        }
        if parts.len() != 4 || !Self::validate_cbind_flag(parts[0]) {
            return Err(PgWireError::InvalidScramMessage(s.to_owned()));
        }
        match (text::strip_prefix(parts[2], "n="), text::strip_prefix(parts[3], "r=")) {
            (Some(username), Some(nonce)) => Ok(
                ClientFirst {
                    cbind_flag: parts[0].to_owned(),
                    auth_zid: parts[1].to_owned(),
                    username: username.to_owned(),
                    nonce: nonce.to_owned(),
                },
            ),
            _ => Err(PgWireError::InvalidScramMessage(s.to_owned())),
        }
    }

    /// Whether `flag` is a channel binding flag.
    pub fn validate_cbind_flag(flag: &str) -> (r: bool)
        ensures
            r == valid_cbind_flag(flag@),
    {
        text::equal(flag, "n") || text::equal(flag, "y") || text::starts_with(flag, "p=")
    }

    /// The nonce of the client.
    pub fn nonce(&self) -> (r: &str)
        ensures
            r@ == self@.nonce,
    {
        self.nonce.as_str()
    }

    /// The message without its channel binding header.
    pub fn bare(&self) -> (r: String)
        ensures
            r@ == self@.bare(),
    {
        let mut r = "n=".to_owned();
        r.append(self.username.as_str());
        r.append(",r=");
        r.append(self.nonce.as_str());
        r
    }

    /// The channel binding header.
    pub fn channel_binding(&self) -> (r: String)
        ensures
            r@ == self@.channel_binding(),
    {
        let mut r = self.cbind_flag.clone();
        r.append(",");
        r.append(self.auth_zid.as_str());
        r.append(",");
        r
    }

    /// The type of the channel binding that the client asks for.
    ///
    /// - `tls-unique`
    /// - `tls-server-end-point`
    pub fn channel_binding_type(&self) -> (r: Option<&str>)
        ensures
            r is Some <==> text::has_prefix(self@.cbind_flag, "p="@),
            r matches Some(t) ==> t@ == self@.cbind_flag.skip(2),
    {
        proof {
            reveal_strlit("p=");
        }
        text::strip_prefix(self.cbind_flag.as_str(), "p=")
    }
}

// ---------------------------------------------------------------------------------------------
// The answer to it
// ---------------------------------------------------------------------------------------------

/// The first message of the server.
#[derive(Debug)]
pub struct ServerFirst {
    nonce: String,
    salt: String,
    iteration: usize,
}

/// The value of a [`ServerFirst`].
#[verifier::ext_equal]
pub struct ServerFirstView {
    /// The nonce of the client and that of the server.
    pub nonce: Seq<char>,
    /// The salt, in base64.
    pub salt: Seq<char>,
    /// The iteration count.
    pub iteration: nat,
}

impl View for ServerFirst {
    type V = ServerFirstView;

    closed spec fn view(&self) -> ServerFirstView {
        ServerFirstView {
            nonce: self.nonce@,
            salt: self.salt@,
            iteration: self.iteration as nat,
        }
    }
}

impl ServerFirstView {
    /// The text of the message.
    pub open spec fn message(self) -> Seq<char> {
        "r="@ + self.nonce + ",s="@ + self.salt + ",i="@ + text::decimal(self.iteration)
    }
}

impl ServerFirst {
    /// A message with the given nonce, salt in base64 and iteration count.
    pub fn new(nonce: String, salt: String, iteration: usize) -> (r: ServerFirst)
        ensures
            r@ == (ServerFirstView { nonce: nonce@, salt: salt@, iteration: iteration as nat }),
    {
        ServerFirst { nonce, salt, iteration }
    }

    /// The text of the message.
    pub fn message(&self) -> (r: String)
        ensures
            r@ == self@.message(),
    {
        let mut r = "r=".to_owned();
        r.append(self.nonce.as_str());
        r.append(",s=");
        r.append(self.salt.as_str());
        r.append(",i=");
        r.append(text::format_decimal(self.iteration).as_str());
        r
    }
}

// ---------------------------------------------------------------------------------------------
// The final message of the client
// ---------------------------------------------------------------------------------------------

/// The final message of the client.
#[derive(Debug)]
pub struct ClientFinal {
    channel_binding: String,
    nonce: String,
    proof: String,
}

/// The value of a [`ClientFinal`].
#[verifier::ext_equal]
pub struct ClientFinalView {
    /// The channel binding header and data, in base64.
    pub channel_binding: Seq<char>,
    /// The nonce.
    pub nonce: Seq<char>,
    /// The proof that the client knows the password, in base64.
    pub client_proof: Seq<char>,
}

impl View for ClientFinal {
    type V = ClientFinalView;

    closed spec fn view(&self) -> ClientFinalView {
        ClientFinalView {
            channel_binding: self.channel_binding@,
            nonce: self.nonce@,
            client_proof: self.proof@,
        }
    }
}

/// Whether `s` is a final message of a client: `c=` and the channel binding, `r=` and a nonce, and
/// `p=` and a proof, separated by commas.
pub open spec fn is_client_final(s: Seq<char>) -> bool {
    let parts = text::split_n(s, 3, ',');
    &&& parts.len() == 3
    &&& text::has_prefix(parts[0], "c="@)
    &&& text::has_prefix(parts[1], "r="@)
    &&& text::has_prefix(parts[2], "p="@)
}

/// The value of a final message of a client.
pub open spec fn client_final_of(s: Seq<char>) -> ClientFinalView {
    let parts = text::split_n(s, 3, ',');
    ClientFinalView {
        channel_binding: parts[0].skip(2),
        nonce: parts[1].skip(2),
        client_proof: parts[2].skip(2),
    }
}

/// Why a channel binding that decodes as given is refused, if it is: `encoded` is its base64 text
/// and `expected` what it must stand for.
pub open spec fn channel_binding_fault(
    encoded: Seq<char>,
    decoded: Result<Seq<u8>, Seq<char>>,
    expected: Seq<u8>,
) -> Option<Seq<char>> {
    match decoded {
        Ok(bytes) => if bytes == expected {
            None
        } else {
            Some(
                "Channel binding mismatch, expect: "@ + text::byte_list(expected) + ", decoded: "@
                    + text::byte_list(bytes),
            )
        },
        Err(reason) => Some("Failed to decode channel binding: "@ + encoded + ", "@ + reason),
    }
}

/// The value of a decoded text.
pub open spec fn decoded_view(r: Result<Vec<u8>, String>) -> Result<Seq<u8>, Seq<char>> {
    match r {
        Ok(bytes) => Ok(bytes@),
        Err(reason) => Err(reason@),
    }
}

impl ClientFinalView {
    /// The message without its proof.
    pub open spec fn without_proof(self) -> Seq<char> {
        "c="@ + self.channel_binding + ",r="@ + self.nonce
    }

    /// The text of the message.
    pub open spec fn message(self) -> Seq<char> {
        self.without_proof() + ",p="@ + self.client_proof
    }

    /// Why the channel binding of the message is refused, if it is.
    pub open spec fn binding_fault(self, expected: Seq<u8>) -> Option<Seq<char>> {
        channel_binding_fault(
            self.channel_binding,
            crypto::base64_decoded(self.channel_binding),
            expected,
        )
    }
}

impl ClientFinal {
    /// Reads a final message of a client.
    pub fn try_new(s: &str) -> (r: PgWireResult<ClientFinal>)
        ensures
            r is Ok <==> is_client_final(s@),
            r matches Ok(m) ==> m@ == client_final_of(s@),
            r matches Err(e) ==> e.is_invalid_scram_message(s@),
    {
        let parts = text::splitn(s, 3, ',');
        proof {
            reveal_strlit("c=");
            reveal_strlit("r=");
            reveal_strlit("p=");
        }
        if parts.len() != 3 {
            return Err(PgWireError::InvalidScramMessage(s.to_owned()));
        }
        match (
            text::strip_prefix(parts[0], "c="),
            text::strip_prefix(parts[1], "r="),
            text::strip_prefix(parts[2], "p="),
        ) {
            (Some(channel_binding), Some(nonce), Some(client_proof)) => Ok(
                ClientFinal {
                    channel_binding: channel_binding.to_owned(),
                    nonce: nonce.to_owned(),
                    proof: client_proof.to_owned(),
                },
            ),
            _ => Err(PgWireError::InvalidScramMessage(s.to_owned())),
        }
    }

    /// Accepts the channel binding of the message where it stands for the expected bytes.
    pub fn validate_channel_binding(&self, channel_binding: &[u8]) -> (r: PgWireResult<()>)
        ensures
            r is Ok <==> self@.binding_fault(channel_binding@) is None,
            r matches Err(e) ==> e.is_invalid_scram_message(
                self@.binding_fault(channel_binding@)->0,
            ),
    {
        let decoded = crypto::base64_decode(self.channel_binding.as_str());
        assert(decoded_view(decoded) == crypto::base64_decoded(self.channel_binding@));
        self.check_channel_binding(decoded, channel_binding)
    }

    /// Accepts the channel binding of the message where it was decoded to the expected bytes.
    pub fn check_channel_binding(
        &self,
        decoded: Result<Vec<u8>, String>,
        channel_binding: &[u8],
    ) -> (r: PgWireResult<()>)
        ensures
            r is Ok <==> channel_binding_fault(
                self@.channel_binding,
                decoded_view(decoded),
                channel_binding@,
            ) is None,
            r matches Err(e) ==> e.is_invalid_scram_message(
                channel_binding_fault(
                    self@.channel_binding,
                    decoded_view(decoded),
                    channel_binding@,
                )->0,
            ),
    {
        match decoded {
            Ok(bytes) => {
                if text::equal_bytes(bytes.as_slice(), channel_binding) {
                    Ok(())
                } else {
                    let mut reason = "Channel binding mismatch, expect: ".to_owned();
                    reason.append(text::format_byte_list(channel_binding).as_str());
                    reason.append(", decoded: ");
                    reason.append(text::format_byte_list(bytes.as_slice()).as_str());
                    Err(PgWireError::InvalidScramMessage(reason))
                }
            },
            Err(e) => {
                let mut reason = "Failed to decode channel binding: ".to_owned();
                reason.append(self.channel_binding.as_str());
                reason.append(", ");
                reason.append(e.as_str());
                Err(PgWireError::InvalidScramMessage(reason))
            },
        }
    }

    /// The proof, in base64.
    pub fn client_proof(&self) -> (r: &str)
        ensures
            r@ == self@.client_proof,
    {
        self.proof.as_str()
    }

    /// The message without its proof.
    pub fn without_proof(&self) -> (r: String)
        ensures
            r@ == self@.without_proof(),
    {
        let mut r = "c=".to_owned();
        r.append(self.channel_binding.as_str());
        r.append(",r=");
        r.append(self.nonce.as_str());
        r
    }
}

// ---------------------------------------------------------------------------------------------
// The answers to it
// ---------------------------------------------------------------------------------------------

/// The final message of the server to a client that proved itself.
#[derive(Debug)]
pub struct ServerFinalSuccess {
    verifier: String,
}

impl View for ServerFinalSuccess {
    type V = Seq<char>;

    /// The signature of the server, in base64.
    closed spec fn view(&self) -> Seq<char> {
        self.verifier@
    }
}

impl ServerFinalSuccess {
    /// A message with the given signature in base64.
    pub fn new(verifier: String) -> (r: ServerFinalSuccess)
        ensures
            r@ == verifier@,
    {
        ServerFinalSuccess { verifier }
    }

    /// The text of the message.
    pub fn message(&self) -> (r: String)
        ensures
            r@ == "v="@ + self@,
    {
        let mut r = "v=".to_owned();
        r.append(self.verifier.as_str());
        r
    }
}

/// The final message of the server to a client that did not.
#[derive(Debug)]
pub struct ServerFinalError {
    error: String,
}

impl View for ServerFinalError {
    type V = Seq<char>;

    /// What went wrong.
    closed spec fn view(&self) -> Seq<char> {
        self.error@
    }
}

impl ServerFinalError {
    /// A message about the given error.
    pub fn new(error: String) -> (r: ServerFinalError)
        ensures
            r@ == error@,
    {
        ServerFinalError { error }
    }

    /// The text of the message.
    pub fn message(&self) -> (r: String)
        ensures
            r@ == "e="@ + self@,
    {
        let mut r = "e=".to_owned();
        r.append(self.error.as_str());
        r
    }
}

// ---------------------------------------------------------------------------------------------
// Laws
// ---------------------------------------------------------------------------------------------

/// An accepted first message is its channel binding header, followed by its bare form.
pub proof fn law_client_first_is_header_and_bare(s: Seq<char>)
    requires
        is_client_first(s),
    ensures
        s == client_first_of(s).channel_binding() + client_first_of(s).bare(),
{
    reveal_strlit("n=");
    reveal_strlit("r=");
    reveal_strlit(",r=");
    reveal_strlit(",");
    let parts = text::split_n(s, 4, ',');
    let rest1 = s.skip(text::index_of(s, ',') + 1);
    let rest2 = rest1.skip(text::index_of(rest1, ',') + 1);
    let rest3 = rest2.skip(text::index_of(rest2, ',') + 1);
    text::lemma_split_n_joins(s, 4, ',');
    text::lemma_split_n_joins(rest1, 3, ',');
    text::lemma_split_n_joins(rest2, 2, ',');
    assert(text::split_n(rest3, 1, ',') =~= seq![rest3]);
    assert(parts[1] == parts.drop_first()[0]);
    assert(parts[2] == parts.drop_first().drop_first()[0]);
    assert(parts[3] == parts.drop_first().drop_first().drop_first()[0]);
    assert(parts[2] =~= "n="@ + parts[2].skip(2)) by {
        assert(parts[2] =~= parts[2].take(2) + parts[2].skip(2));
    }
    assert(parts[3] =~= "r="@ + parts[3].skip(2)) by {
        assert(parts[3] =~= parts[3].take(2) + parts[3].skip(2));
    }
    assert(s =~= client_first_of(s).channel_binding() + client_first_of(s).bare());
}

/// A first message that is written with a valid flag and without stray commas reads as what was
/// written.
pub proof fn law_client_first_reads_back(value: ClientFirstView)
    requires
        valid_cbind_flag(value.cbind_flag),
        !value.cbind_flag.contains(','),
        !value.auth_zid.contains(','),
        !value.username.contains(','),
    ensures
        is_client_first(value.channel_binding() + value.bare()),
        client_first_of(value.channel_binding() + value.bare()) == value,
{
    reveal_strlit("n=");
    reveal_strlit("r=");
    reveal_strlit(",r=");
    reveal_strlit(",");
    let s = value.channel_binding() + value.bare();
    let named = "n="@ + value.username;
    let rest3 = "r="@ + value.nonce;
    let rest2 = named.push(',') + rest3;
    let rest1 = value.auth_zid.push(',') + rest2;
    assert(s =~= value.cbind_flag.push(',') + rest1);
    assert(!named.contains(',')) by {
        if named.contains(',') {
            let i = choose|i: int| 0 <= i < named.len() && named[i] == ',';
            assert(i >= 2);
            assert(value.username[i - 2] == ',');
        }
    }
    text::lemma_split_n_step(value.cbind_flag, ',', rest1, 4);
    text::lemma_split_n_step(value.auth_zid, ',', rest2, 3);
    text::lemma_split_n_step(named, ',', rest3, 2);
    assert(text::split_n(rest3, 1, ',') =~= seq![rest3]);
    let parts = text::split_n(s, 4, ',');
    assert(parts =~= seq![value.cbind_flag, value.auth_zid, named, rest3]);
    assert(named.take(2) =~= "n="@);
    assert(rest3.take(2) =~= "r="@);
    assert(named.skip(2) =~= value.username);
    assert(rest3.skip(2) =~= value.nonce);
}

/// An accepted final message is made up of what was read from it.
pub proof fn law_client_final_is_its_message(s: Seq<char>)
    requires
        is_client_final(s),
    ensures
        s == client_final_of(s).message(),
{
    reveal_strlit("c=");
    reveal_strlit("r=");
    reveal_strlit("p=");
    reveal_strlit(",r=");
    reveal_strlit(",p=");
    let parts = text::split_n(s, 3, ',');
    let rest1 = s.skip(text::index_of(s, ',') + 1);
    let rest2 = rest1.skip(text::index_of(rest1, ',') + 1);
    text::lemma_split_n_joins(s, 3, ',');
    text::lemma_split_n_joins(rest1, 2, ',');
    assert(text::split_n(rest2, 1, ',') =~= seq![rest2]);
    assert(parts[1] == parts.drop_first()[0]);
    assert(parts[2] == parts.drop_first().drop_first()[0]);
    assert(parts[0] =~= "c="@ + parts[0].skip(2)) by {
        assert(parts[0] =~= parts[0].take(2) + parts[0].skip(2));
    }
    assert(parts[1] =~= "r="@ + parts[1].skip(2)) by {
        assert(parts[1] =~= parts[1].take(2) + parts[1].skip(2));
    }
    assert(parts[2] =~= "p="@ + parts[2].skip(2)) by {
        assert(parts[2] =~= parts[2].take(2) + parts[2].skip(2));
    }
    assert(s =~= client_final_of(s).message());
}

/// A final message that is written without stray commas reads as what was written.
pub proof fn law_client_final_reads_back(value: ClientFinalView)
    requires
        !value.channel_binding.contains(','),
        !value.nonce.contains(','),
    ensures
        is_client_final(value.message()),
        client_final_of(value.message()) == value,
{
    reveal_strlit("c=");
    reveal_strlit("r=");
    reveal_strlit("p=");
    reveal_strlit(",r=");
    reveal_strlit(",p=");
    let s = value.message();
    let bound = "c="@ + value.channel_binding;
    let named = "r="@ + value.nonce;
    let rest2 = "p="@ + value.client_proof;
    let rest1 = named.push(',') + rest2;
    assert(s =~= bound.push(',') + rest1);
    assert(!bound.contains(',')) by {
        if bound.contains(',') {
            let i = choose|i: int| 0 <= i < bound.len() && bound[i] == ',';
            assert(i >= 2);
            assert(value.channel_binding[i - 2] == ',');
        }
    }
    assert(!named.contains(',')) by {
        if named.contains(',') {
            let i = choose|i: int| 0 <= i < named.len() && named[i] == ',';
            assert(i >= 2);
            assert(value.nonce[i - 2] == ',');
        }
    }
    text::lemma_split_n_step(bound, ',', rest1, 3);
    text::lemma_split_n_step(named, ',', rest2, 2);
    assert(text::split_n(rest2, 1, ',') =~= seq![rest2]);
    let parts = text::split_n(s, 3, ',');
    assert(parts =~= seq![bound, named, rest2]);
    assert(bound.take(2) =~= "c="@);
    assert(named.take(2) =~= "r="@);
    assert(rest2.take(2) =~= "p="@);
    assert(bound.skip(2) =~= value.channel_binding);
    assert(named.skip(2) =~= value.nonce);
    assert(rest2.skip(2) =~= value.client_proof);
}

/// The front of a text with a part without commas, and what follows the comma behind it.
proof fn lemma_comma_step(head: Seq<char>, rest: Seq<char>, n: nat)
    requires
        n >= 2,
        !head.contains(','),
    ensures
        text::split_n(head + ","@ + rest, n, ',') == seq![head] + text::split_n(
            rest,
            (n - 1) as nat,
            ',',
        ),
{
    reveal_strlit(",");
    text::lemma_split_n_step(head, ',', rest, n);
    assert(head + ","@ + rest =~= head.push(',') + rest);
}

/// A text behind a two-character label holds no comma where the text holds none.
proof fn lemma_labelled_without_comma(label: Seq<char>, body: Seq<char>)
    requires
        label.len() == 2,
        !label.contains(','),
        !body.contains(','),
    ensures
        !(label + body).contains(','),
        (label + body).take(2) == label,
        (label + body).skip(2) == body,
{
    let s = label + body;
    assert(s.take(2) =~= label);
    assert(s.skip(2) =~= body);
    if s.contains(',') {
        let i = choose|i: int| 0 <= i < s.len() && s[i] == ',';
        if i < 2 {
            assert(label[i] == ',');
        } else {
            assert(body[i - 2] == ',');
        }
    }
}

/// A first message is a flag, an identity, a name and a nonce, set apart by commas and by the
/// labels `n=` and `r=`. It is accepted where the flag is `n`, `y` or begins with `p=`, and each
/// of the four is read as it stands.
pub proof fn law_client_first_text(
    flag: Seq<char>,
    auth_zid: Seq<char>,
    username: Seq<char>,
    nonce: Seq<char>,
)
    requires
        !flag.contains(','),
        !auth_zid.contains(','),
        !username.contains(','),
    ensures
        ({
            let s = flag + ","@ + auth_zid + ",n="@ + username + ",r="@ + nonce;
            &&& is_client_first(s) <==> flag == seq!['n'] || flag == seq!['y'] || (flag.len() >= 2
                && flag[0] == 'p' && flag[1] == '=')
            &&& client_first_of(s).cbind_flag == flag
            &&& client_first_of(s).auth_zid == auth_zid
            &&& client_first_of(s).username == username
            &&& client_first_of(s).nonce == nonce
        }),
{
    reveal_strlit(",");
    reveal_strlit("n");
    reveal_strlit("y");
    reveal_strlit("n=");
    reveal_strlit("r=");
    reveal_strlit("p=");
    reveal_strlit(",n=");
    reveal_strlit(",r=");
    let s = flag + ","@ + auth_zid + ",n="@ + username + ",r="@ + nonce;
    let named = "n="@ + username;
    let last = "r="@ + nonce;
    let rest2 = named + ","@ + last;
    let rest1 = auth_zid + ","@ + rest2;
    lemma_labelled_without_comma("n="@, username);
    assert(s =~= flag + ","@ + rest1);
    lemma_comma_step(flag, rest1, 4);
    lemma_comma_step(auth_zid, rest2, 3);
    lemma_comma_step(named, last, 2);
    assert(text::split_n(last, 1, ',') =~= seq![last]);
    assert(text::split_n(s, 4, ',') =~= seq![flag, auth_zid, named, last]);
    assert(last.take(2) =~= "r="@);
    assert(last.skip(2) =~= nonce);
    assert("n"@ =~= seq!['n']);
    assert("y"@ =~= seq!['y']);
    if flag.len() >= 2 && flag[0] == 'p' && flag[1] == '=' {
        assert(flag.take(2) =~= "p="@);
    }
    if text::has_prefix(flag, "p="@) {
        assert(flag.take(2)[0] == 'p' && flag.take(2)[1] == '=');
    }
}

/// Only such a text is accepted as a first message, and what was read from it makes up the text.
pub proof fn law_accepted_client_first_has_that_form(s: Seq<char>)
    requires
        is_client_first(s),
    ensures
        ({
            let value = client_first_of(s);
            &&& s == value.cbind_flag + ","@ + value.auth_zid + ",n="@ + value.username + ",r="@
                + value.nonce
            &&& !value.cbind_flag.contains(',')
            &&& !value.auth_zid.contains(',')
            &&& !value.username.contains(',')
        }),
{
    reveal_strlit(",");
    reveal_strlit("n=");
    reveal_strlit("r=");
    reveal_strlit(",n=");
    reveal_strlit(",r=");
    law_client_first_is_header_and_bare(s);
    let value = client_first_of(s);
    assert(s =~= value.cbind_flag + ","@ + value.auth_zid + ",n="@ + value.username + ",r="@
        + value.nonce);
    text::law_split_n_joins_to_the_text(s, 4, ',');
    let parts = text::split_n(s, 4, ',');
    assert(!parts[0].contains(',') && !parts[1].contains(',') && !parts[2].contains(','));
    if value.username.contains(',') {
        let i = choose|i: int| 0 <= i < value.username.len() && value.username[i] == ',';
        assert(parts[2][i + 2] == ',');
    }
}

/// The header of a first message is its flag and its identity, each with a comma behind it; what is
/// left is the name and the nonce with their labels.
pub proof fn law_header_and_bare_form(value: ClientFirstView)
    ensures
        value.channel_binding() == value.cbind_flag.push(',') + value.auth_zid.push(','),
        value.bare() == seq!['n', '='] + value.username + seq![',', 'r', '='] + value.nonce,
{
    reveal_strlit(",");
    reveal_strlit("n=");
    reveal_strlit(",r=");
    assert(value.channel_binding() =~= value.cbind_flag.push(',') + value.auth_zid.push(','));
    assert(value.bare() =~= seq!['n', '='] + value.username + seq![',', 'r', '='] + value.nonce);
}

/// An answer to a first message is the nonce, the salt and the iteration count, with their labels.
/// The iteration count is written in decimal.
pub proof fn law_server_first_form(value: ServerFirstView)
    ensures
        exists|digits: Seq<char>|
            {
                &&& value.message() == seq!['r', '='] + value.nonce + seq![',', 's', '=']
                    + value.salt + seq![',', 'i', '='] + digits
                &&& #[trigger] text::digits_value(digits) == value.iteration
                &&& digits.len() >= 1
                &&& forall|i: int| 0 <= i < digits.len() ==> '0' <= #[trigger] digits[i] <= '9'
                &&& value.iteration > 0 ==> digits[0] != '0'
                &&& value.iteration == 0 ==> digits.len() == 1
            },
{
    reveal_strlit("r=");
    reveal_strlit(",s=");
    reveal_strlit(",i=");
    let digits = text::decimal(value.iteration);
    text::law_decimal_stands_for_the_number(value.iteration);
    assert(value.message() =~= seq!['r', '='] + value.nonce + seq![',', 's', '='] + value.salt
        + seq![',', 'i', '='] + digits);
    assert(text::digits_value(digits) == value.iteration);
}

/// A final message is a channel binding, a nonce and a proof, set apart by commas and by the labels
/// `c=`, `r=` and `p=`. It is accepted, and each of the three is read as it stands.
pub proof fn law_client_final_text(
    channel_binding: Seq<char>,
    nonce: Seq<char>,
    client_proof: Seq<char>,
)
    requires
        !channel_binding.contains(','),
        !nonce.contains(','),
    ensures
        ({
            let s = "c="@ + channel_binding + ",r="@ + nonce + ",p="@ + client_proof;
            &&& is_client_final(s)
            &&& client_final_of(s).channel_binding == channel_binding
            &&& client_final_of(s).nonce == nonce
            &&& client_final_of(s).client_proof == client_proof
        }),
{
    reveal_strlit(",");
    reveal_strlit("c=");
    reveal_strlit("r=");
    reveal_strlit("p=");
    reveal_strlit(",r=");
    reveal_strlit(",p=");
    let s = "c="@ + channel_binding + ",r="@ + nonce + ",p="@ + client_proof;
    let bound = "c="@ + channel_binding;
    let named = "r="@ + nonce;
    let last = "p="@ + client_proof;
    let rest1 = named + ","@ + last;
    lemma_labelled_without_comma("c="@, channel_binding);
    lemma_labelled_without_comma("r="@, nonce);
    assert(s =~= bound + ","@ + rest1);
    lemma_comma_step(bound, rest1, 3);
    lemma_comma_step(named, last, 2);
    assert(text::split_n(last, 1, ',') =~= seq![last]);
    assert(text::split_n(s, 3, ',') =~= seq![bound, named, last]);
    assert(last.take(2) =~= "p="@);
    assert(last.skip(2) =~= client_proof);
}

/// Only such a text is accepted as a final message, and what was read from it makes up the text.
pub proof fn law_accepted_client_final_has_that_form(s: Seq<char>)
    requires
        is_client_final(s),
    ensures
        ({
            let value = client_final_of(s);
            &&& s == "c="@ + value.channel_binding + ",r="@ + value.nonce + ",p="@
                + value.client_proof
            &&& !value.channel_binding.contains(',')
            &&& !value.nonce.contains(',')
        }),
{
    reveal_strlit("c=");
    reveal_strlit("r=");
    law_client_final_is_its_message(s);
    text::law_split_n_joins_to_the_text(s, 3, ',');
    let value = client_final_of(s);
    let parts = text::split_n(s, 3, ',');
    assert(!parts[0].contains(',') && !parts[1].contains(','));
    if value.channel_binding.contains(',') {
        let i = choose|i: int|
            0 <= i < value.channel_binding.len() && value.channel_binding[i] == ',';
        assert(parts[0][i + 2] == ',');
    }
    if value.nonce.contains(',') {
        let i = choose|i: int| 0 <= i < value.nonce.len() && value.nonce[i] == ',';
        assert(parts[1][i + 2] == ',');
    }
}

/// A final message without its proof is its channel binding and its nonce with their labels, and
/// the whole message has the proof behind them.
pub proof fn law_client_final_form(value: ClientFinalView)
    ensures
        value.without_proof() == seq!['c', '='] + value.channel_binding + seq![',', 'r', '=']
            + value.nonce,
        value.message() == seq!['c', '='] + value.channel_binding + seq![',', 'r', '=']
            + value.nonce + seq![',', 'p', '='] + value.client_proof,
{
    reveal_strlit("c=");
    reveal_strlit(",r=");
    reveal_strlit(",p=");
    assert(value.without_proof() =~= seq!['c', '='] + value.channel_binding + seq![',', 'r', '=']
        + value.nonce);
    assert(value.message() =~= seq!['c', '='] + value.channel_binding + seq![',', 'r', '=']
        + value.nonce + seq![',', 'p', '='] + value.client_proof);
}

/// A channel binding is in order exactly where it was decoded to the expected bytes. Otherwise the
/// reason names both byte sequences, or the text and why it could not be decoded.
pub proof fn law_channel_binding_must_be_the_expected_one(
    encoded: Seq<char>,
    decoded: Result<Vec<u8>, String>,
    expected: Seq<u8>,
)
    ensures
        channel_binding_fault(encoded, decoded_view(decoded), expected) is None <==> (
        decoded matches Ok(bytes) && bytes@ == expected),
        decoded matches Ok(bytes) ==> bytes@ != expected ==> channel_binding_fault(
            encoded,
            decoded_view(decoded),
            expected,
        ) == Some(
            "Channel binding mismatch, expect: "@ + text::byte_list(expected) + ", decoded: "@
                + text::byte_list(bytes@),
        ),
        decoded matches Err(reason) ==> channel_binding_fault(
            encoded,
            decoded_view(decoded),
            expected,
        ) == Some("Failed to decode channel binding: "@ + encoded + ", "@ + reason@),
{
}

/// The channel binding of a final message is judged by what its base64 text decodes to.
pub proof fn law_binding_is_judged_by_its_decoding(value: ClientFinalView, expected: Seq<u8>)
    ensures
        value.binding_fault(expected) is None <==> crypto::base64_decoded(value.channel_binding)
            == Ok::<Seq<u8>, Seq<char>>(expected),
        crypto::base64_decoded(value.channel_binding) matches Ok(bytes) ==> bytes != expected
            ==> value.binding_fault(expected) == Some(
            "Channel binding mismatch, expect: "@ + text::byte_list(expected) + ", decoded: "@
                + text::byte_list(bytes),
        ),
        crypto::base64_decoded(value.channel_binding) matches Err(reason)
            ==> value.binding_fault(expected) == Some(
            "Failed to decode channel binding: "@ + value.channel_binding + ", "@ + reason,
        ),
{
}

/// A flag says that there is no channel binding, that there could be one, or which one there is.
pub proof fn law_flags_that_are_valid(flag: Seq<char>)
    ensures
        valid_cbind_flag(flag) <==> flag == seq!['n'] || flag == seq!['y'] || (flag.len() >= 2
            && flag[0] == 'p' && flag[1] == '='),
{
    reveal_strlit("n");
    reveal_strlit("y");
    reveal_strlit("p=");
    assert("n"@ =~= seq!['n']);
    assert("y"@ =~= seq!['y']);
    if flag.len() >= 2 && flag[0] == 'p' && flag[1] == '=' {
        assert(flag.take(2) =~= "p="@);
    }
    if text::has_prefix(flag, "p="@) {
        assert(flag.take(2)[0] == 'p' && flag.take(2)[1] == '=');
    }
}

} // verus!
