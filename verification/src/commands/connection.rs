//! Connection profiles and sessions: what the commands on them decide.

use vstd::prelude::*;
use vstd::string::StringExecFns;
use crate::database::queries::create_connection_configuration;
use crate::database::queries::delete_connection_configuration;
use crate::database::queries::get_all_connection_configurations;
use crate::database::queries::has_name;
use crate::database::queries::names_unique;
use crate::database::queries::place_of;
use crate::database::queries::registry_error_text;
use crate::database::queries::update_connection_configuration;
use crate::database::queries::ConnectionRegistry;
use crate::database::queries::RegistryError;
use crate::database::queries::RegistryErrorView;
use crate::models::connection_config::ConnectionConfig;
use crate::models::connection_config::Profile;
use crate::session::valid;
use crate::session::AppState;
use crate::session::SessionError;
use crate::session::SessionErrorView;
use crate::session::Sessions;
use crate::text::decimal;
use crate::text::decimal_text;

verus! {

/// The seconds within which a session has to be established.
pub const CONNECT_TIMEOUT_SECS: u64 = 120;

/// The seconds within which a trial connection has to be established.
pub const TEST_TIMEOUT_SECS: u64 = 1;

/// The address of a profile's store: user and password, host and port, and
/// the database 0.
pub open spec fn url_of(profile: Profile) -> Seq<char> {
    "redis://"@ + profile.username + ":"@ + profile.password + "@"@ + profile.host + ":"@
        + decimal(profile.port as nat) + "/0"@
}

/// The address of a profile's store.
pub fn connection_url(config: &ConnectionConfig) -> (url: String)
    ensures
        url@ == url_of(config@),
{
    let mut url = String::from_str("redis://");
    url.append(config.username.as_str());
    url.append(":");
    url.append(config.password.as_str());
    url.append("@");
    url.append(config.host.as_str());
    url.append(":");
    let port = decimal_text(config.port as u64);
    url.append(port.as_str());
    url.append("/0");
    url
}

/// The mathematical form of a connection to open.
pub struct ConnectPlanView {
    pub name: Seq<char>,
    pub url: Seq<char>,
    pub timeout_secs: u64,
}

/// A connection to open: the profile's name, the address, and the seconds
/// within which it has to be established.
#[derive(Debug, Clone, PartialEq, Eq)]
pub struct ConnectPlan {
    pub name: String,
    pub url: String,
    pub timeout_secs: u64,
}

impl DeepView for ConnectPlan {
    type V = ConnectPlanView;

    open spec fn deep_view(&self) -> ConnectPlanView {
        ConnectPlanView { name: self.name@, url: self.url@, timeout_secs: self.timeout_secs }
    }
}

impl View for ConnectPlan {
    type V = ConnectPlanView;

    open spec fn view(&self) -> ConnectPlanView {
        self.deep_view()
    }
}

/// Why the transport could not open a connection.
#[derive(Debug, Clone, PartialEq, Eq)]
pub enum ConnectFailure {
    /// It was not established in time.
    Timeout,
    /// The store refused the credentials.
    Auth(String),
    /// Anything else.
    Network(String),
}

/// The words in which the transport refuses an address, `None` where it
/// takes the address: what `redis::Client::open` makes of it. It reads the
/// address and nothing else.
pub uninterp spec fn address_refusal(url: Seq<char>) -> Option<Seq<char>>;

/// Whether the transport takes an address.
pub open spec fn address_accepted(url: Seq<char>) -> bool {
    address_refusal(url) is None
}

/// Asks the transport whether it takes the address, by `redis::Client::open`,
/// which parses the address and opens no connection. Trusted: the transport
/// decides on the address alone, the same way each time, and words a refusal
/// from the address alone; the refusal is handed back as its `Display` gives
/// it.
#[verifier::external_body]
fn check_address(url: &str) -> (r: Result<(), String>)
    ensures
        r is Ok ==> address_refusal(url@) is None,
        r is Err ==> address_refusal(url@) == Some(r->Err_0@),
{
    match redis::Client::open(url) {
        Ok(_) => Ok(()),
        Err(error) => Err(error.to_string()),
    }
}

/// The connection to open for a profile, once the transport has said whether
/// it takes the profile's address: the plan if it does, else its refusal in
/// its own words.
pub fn connection_plan(config: &ConnectionConfig, timeout_secs: u64, checked: Result<(), String>)
    -> (r: Result<ConnectPlan, SessionError>)
    ensures
        checked is Ok ==> r is Ok && r->Ok_0@ == (ConnectPlanView {
            name: config@.name,
            url: url_of(config@),
            timeout_secs,
        }),
        checked is Err ==> r is Err && r->Err_0@ == SessionErrorView::NetworkError(
            checked->Err_0@,
        ),
{
    match checked {
        Ok(_) => Ok(
            ConnectPlan { name: config.name.clone(), url: connection_url(config), timeout_secs },
        ),
        Err(text) => Err(SessionError::NetworkError(text)),
    }
}

/// The trial connection for a profile, if the transport takes the profile's
/// address; else the transport's refusal in its own words. The connection is
/// closed once it is established and enters no table.
pub fn test_connection(config: &ConnectionConfig) -> (r: Result<ConnectPlan, SessionError>)
    ensures
        address_accepted(url_of(config@)) ==> r is Ok && r->Ok_0@ == (ConnectPlanView {
            name: config@.name,
            url: url_of(config@),
            timeout_secs: TEST_TIMEOUT_SECS,
        }),
        !address_accepted(url_of(config@)) ==> r is Err && r->Err_0@
            == SessionErrorView::NetworkError(address_refusal(url_of(config@))->0),
{
    let url = connection_url(config);
    connection_plan(config, TEST_TIMEOUT_SECS, check_address(url.as_str()))
}

/// The connection to open for a profile, unless a session of its name is
/// open already or the transport does not take its address; it then refuses
/// in its own words.
pub fn connect_to_redis(state: &AppState, config: &ConnectionConfig) -> (r: Result<
    ConnectPlan,
    SessionError,
>)
    ensures
        state@.open.contains(config@.name) ==> r is Err && r->Err_0@
            == SessionErrorView::AlreadyConnected(config@.name),
        !state@.open.contains(config@.name) && address_accepted(url_of(config@)) ==> r is Ok
            && r->Ok_0@ == (ConnectPlanView {
            name: config@.name,
            url: url_of(config@),
            timeout_secs: CONNECT_TIMEOUT_SECS,
        }),
        !state@.open.contains(config@.name) && !address_accepted(url_of(config@)) ==> r is Err
            && r->Err_0@ == SessionErrorView::NetworkError(address_refusal(url_of(config@))->0),
{
    if state.is_connected(config.name.as_str()) {
        return Err(SessionError::AlreadyConnected(config.name.clone()));
    }
    let url = connection_url(config);
    connection_plan(config, CONNECT_TIMEOUT_SECS, check_address(url.as_str()))
}

/// The transport's error type, carried as it is.
#[verifier::external_type_specification]
#[verifier::external_body]
pub struct ExRedisError(redis::RedisError);

/// Whether an error of the transport says that time ran out: what
/// `redis::RedisError::is_timeout` answers. It looks at the error and nothing
/// else.
pub uninterp spec fn error_timed_out(error: redis::RedisError) -> bool;

/// Whether an error of the transport says that the store refused the
/// credentials: whether `redis::RedisError::kind` is `AuthenticationFailed`.
/// It looks at the error and nothing else.
pub uninterp spec fn error_refuses_credentials(error: redis::RedisError) -> bool;

/// `redis::RedisError::is_timeout`: whether the error says that time ran out.
/// Trusted: the answer rests on the error alone, so it has a name.
#[verifier::external_body]
fn timed_out(error: &redis::RedisError) -> (r: bool)
    ensures
        r == error_timed_out(*error),
{
    error.is_timeout()
}

/// `redis::RedisError::kind`: whether the error is of the kind
/// `AuthenticationFailed`. Trusted: the answer rests on the error alone, so
/// it has a name.
#[verifier::external_body]
fn credentials_refused(error: &redis::RedisError) -> (r: bool)
    ensures
        r == error_refuses_credentials(*error),
{
    matches!(error.kind(), redis::ErrorKind::AuthenticationFailed)
}

/// The error in the transport's own words, as its `Display` gives them.
/// Trusted; nothing is claimed of the words.
#[verifier::external_body]
fn words_of(error: &redis::RedisError) -> String {
    error.to_string()
}

/// The kind of a failure to connect: time that ran out comes first, then
/// refused credentials; anything else is a failure of the network.
pub open spec fn failure_of(timed_out: bool, credentials_refused: bool, text: Seq<char>)
    -> SessionErrorView {
    if timed_out {
        SessionErrorView::ConnectTimeout
    } else if credentials_refused {
        SessionErrorView::AuthError(text)
    } else {
        SessionErrorView::NetworkError(text)
    }
}

/// The kind of a failure to connect, from what the transport's error says.
pub fn failure_kind(timed_out: bool, credentials_refused: bool, text: String) -> (r:
    ConnectFailure)
    ensures
        refusal(r) == failure_of(timed_out, credentials_refused, text@),
{
    if timed_out {
        ConnectFailure::Timeout
    } else if credentials_refused {
        ConnectFailure::Auth(text)
    } else {
        ConnectFailure::Network(text)
    }
}

/// The kind of a failure to connect that the transport reported: time that
/// ran out, else refused credentials, else a failure of the network. The
/// last two come with the transport's own words, of which nothing is stated.
pub fn connect_failure(error: &redis::RedisError) -> (r: ConnectFailure)
    ensures
        error_timed_out(*error) ==> r is Timeout,
        !error_timed_out(*error) && error_refuses_credentials(*error) ==> r is Auth,
        !error_timed_out(*error) && !error_refuses_credentials(*error) ==> r is Network,
{
    failure_kind(timed_out(error), credentials_refused(error), words_of(error))
}

/// The failure of the session table for a failure of the transport.
pub open spec fn refusal(failure: ConnectFailure) -> SessionErrorView {
    match failure {
        ConnectFailure::Timeout => SessionErrorView::ConnectTimeout,
        ConnectFailure::Auth(text) => SessionErrorView::AuthError(text@),
        ConnectFailure::Network(text) => SessionErrorView::NetworkError(text@),
    }
}

/// The failure of the session table for a failure of the transport.
pub fn refuse(failure: ConnectFailure) -> (r: SessionError)
    ensures
        r@ == refusal(failure),
{
    match failure {
        ConnectFailure::Timeout => SessionError::ConnectTimeout,
        ConnectFailure::Auth(text) => SessionError::AuthError(text),
        ConnectFailure::Network(text) => SessionError::NetworkError(text),
    }
}

/// Takes what became of opening the connection for `name`. An established
/// connection enters the table and is selected; a failure of the transport is
/// handed on and changes nothing.
pub fn connection_opened(state: &mut AppState, name: String, outcome: Result<(), ConnectFailure>)
    -> (r: Result<String, SessionError>)
    ensures
        valid(final(state)@),
        outcome is Err ==> final(state)@ == old(state)@ && r is Err && r->Err_0@ == refusal(
            outcome->Err_0,
        ),
        outcome is Ok && old(state)@.open.contains(name@) ==> final(state)@ == old(state)@ && r is Err
            && r->Err_0@ == SessionErrorView::AlreadyConnected(name@),
        outcome is Ok && !old(state)@.open.contains(name@) ==> final(state)@ == (Sessions {
            open: old(state)@.open.push(name@),
            selected: Some(name@),
        }) && r is Ok && r->Ok_0@ == name@,
{
    match outcome {
        Ok(_) => state.connect(name),
        Err(failure) => {
            proof {
                use_type_invariant(&*state);
            }
            Err(refuse(failure))
        },
    }
}

/// The registered profiles.
pub fn load_connection_config(registry: &ConnectionRegistry) -> (r: Vec<ConnectionConfig>)
    ensures
        r.deep_view() == registry@,
        names_unique(registry@),
{
    get_all_connection_configurations(registry)
}

/// The list that saving `config` leads to: a new profile is added at the end
/// and must not be registered yet, an old one replaces the profile of its
/// name and must be registered.
pub fn save_connection_config(registry: &ConnectionRegistry, config: ConnectionConfig, is_new: bool)
    -> (r: Result<Vec<ConnectionConfig>, RegistryError>)
    ensures
        is_new && has_name(registry@, config@.name) ==> r is Err && r->Err_0@
            == RegistryErrorView::DuplicateName(config@.name),
        is_new && !has_name(registry@, config@.name) ==> r is Ok && r->Ok_0.deep_view()
            == registry@.push(config@),
        !is_new && has_name(registry@, config@.name) ==> r is Ok && r->Ok_0.deep_view()
            == registry@.update(place_of(registry@, config@.name), config@),
        !is_new && !has_name(registry@, config@.name) ==> r is Err && r->Err_0@
            == RegistryErrorView::NotFound(config@.name),
        r is Ok ==> names_unique(r->Ok_0.deep_view()),
{
    if is_new {
        create_connection_configuration(registry, config)
    } else {
        update_connection_configuration(registry, config)
    }
}

/// The mathematical form of a refused deletion.
pub enum DeleteErrorView {
    /// A session of the profile is open.
    InUse(Seq<char>),
    /// The registry refused.
    Registry(RegistryErrorView),
}

/// Why a profile was not deleted.
#[derive(Debug, Clone, PartialEq, Eq)]
pub enum DeleteError {
    /// A session of the profile is open; it has to be closed first.
    InUse(String),
    /// The registry refused.
    Registry(RegistryError),
}

impl DeepView for DeleteError {
    type V = DeleteErrorView;

    open spec fn deep_view(&self) -> DeleteErrorView {
        match *self {
            DeleteError::InUse(name) => DeleteErrorView::InUse(name@),
            DeleteError::Registry(error) => DeleteErrorView::Registry(error@),
        }
    }
}

impl View for DeleteError {
    type V = DeleteErrorView;

    open spec fn view(&self) -> DeleteErrorView {
        self.deep_view()
    }
}

/// The text shown for a refused deletion.
pub open spec fn delete_error_text(error: DeleteErrorView) -> Seq<char> {
    match error {
        DeleteErrorView::InUse(name) => "Connection '"@ + name + "' is connected."@,
        DeleteErrorView::Registry(inner) => registry_error_text(inner),
    }
}

impl DeleteError {
    /// The text shown for the refusal.
    pub fn message(&self) -> (r: String)
        ensures
            r@ == delete_error_text(self@),
    {
        match self {
            DeleteError::InUse(name) => {
                let mut r = String::from_str("Connection '");
                r.append(name.as_str());
                r.append("' is connected.");
                r
            },
            DeleteError::Registry(inner) => inner.message(),
        }
    }
}

/// The list that deleting the profile of this name leads to. A profile with
/// an open session is not deleted, nor one that is not registered.
pub fn delete_connection_config(
    registry: &ConnectionRegistry,
    state: &AppState,
    connection_name: &str,
) -> (r: Result<Vec<ConnectionConfig>, DeleteError>)
    ensures
        state@.open.contains(connection_name@) ==> r is Err && r->Err_0@ == DeleteErrorView::InUse(
            connection_name@,
        ),
        !state@.open.contains(connection_name@) && !has_name(registry@, connection_name@) ==> r is Err
            && r->Err_0@ == DeleteErrorView::Registry(
            RegistryErrorView::NotFound(connection_name@),
        ),
        !state@.open.contains(connection_name@) && has_name(registry@, connection_name@) ==> r is Ok
            && r->Ok_0.deep_view() == registry@.remove(place_of(registry@, connection_name@))
            && names_unique(r->Ok_0.deep_view()),
{
    if state.is_connected(connection_name) {
        return Err(DeleteError::InUse(String::from_str(connection_name)));
    }
    match delete_connection_configuration(registry, connection_name) {
        Ok(next) => Ok(next),
        Err(error) => Err(DeleteError::Registry(error)),
    }
}

} // verus!
