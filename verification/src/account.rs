//! The cloud account: signing in and out, renewing a refused token, and the
//! rhythm in which the account is polled.

use vstd::prelude::*;

use crate::keiki::chat_of;
use crate::keiki::map_snapshot;
use crate::keiki::space_of;
use crate::keiki::with_agent;
use crate::keiki::AgentSummary;
use crate::keiki::ConversationSummary;
use crate::keiki::SessionStatus;
use crate::keiki::Timestamp;
use crate::rows::Chat;
use crate::rows::Space;
use crate::text::concat;

verus! {

/// Seconds between two polls of a healthy account.
pub const POLL_SECONDS: u64 = 15;

/// Seconds before a failed poll is tried again.
pub const POLL_RETRY_SECONDS: u64 = 10;

/// Why a request to the service failed.
#[derive(Debug)]
pub enum Failure {
    /// The service answered with an error.
    Api {
        status: u16,
        message: String,
        text: String,
        authentication: bool,
        invalid_refresh_token: bool,
    },
    /// The request did not get an answer that could be used.
    Other { text: String, authentication: bool, invalid_refresh_token: bool },
    /// The task that carried the request ended early.
    TaskFailed { operation: &'static str, error: String },
    /// Something on this machine went wrong.
    Local { message: String },
}

impl Failure {
    /// Whether the service refused the access token.
    pub open spec fn refused(self) -> bool {
        match self {
            Failure::Api { authentication, .. } => authentication,
            Failure::Other { authentication, .. } => authentication,
            _ => false,
        }
    }

    /// Whether the service no longer knows the refresh token.
    pub open spec fn forgotten(self) -> bool {
        match self {
            Failure::Api { invalid_refresh_token, .. } => invalid_refresh_token,
            Failure::Other { invalid_refresh_token, .. } => invalid_refresh_token,
            _ => false,
        }
    }

    /// The failure in words.
    pub open spec fn words(self) -> Seq<char> {
        match self {
            Failure::Api { text, .. } => text@,
            Failure::Other { text, .. } => text@,
            Failure::TaskFailed { operation, error } => operation@ + ": "@ + error@,
            Failure::Local { message } => message@,
        }
    }

    /// Whether the service refused the access token.
    pub fn is_authentication_failure(&self) -> (refused: bool)
        ensures
            refused == self.refused(),
    {
        match self {
            Failure::Api { authentication, .. } => *authentication,
            Failure::Other { authentication, .. } => *authentication,
            _ => false,
        }
    }

    /// Whether the service no longer knows the refresh token.
    pub fn is_invalid_refresh_token(&self) -> (forgotten: bool)
        ensures
            forgotten == self.forgotten(),
    {
        match self {
            Failure::Api { invalid_refresh_token, .. } => *invalid_refresh_token,
            Failure::Other { invalid_refresh_token, .. } => *invalid_refresh_token,
            _ => false,
        }
    }

    /// The failure in words.
    pub fn text(&self) -> (text: String)
        ensures
            text@ == self.words(),
    {
        match self {
            Failure::Api { text, .. } => text.clone(),
            Failure::Other { text, .. } => text.clone(),
            Failure::TaskFailed { operation, error } => {
                let head = concat(*operation, ": ");
                concat(head.as_str(), error.as_str())
            },
            Failure::Local { message } => message.clone(),
        }
    }
}

/// What a request is signed with.
#[derive(Debug)]
pub struct Token {
    pub access_token: String,
}

/// What a new token is asked for with.
#[derive(Debug)]
pub struct Credentials {
    pub client_id: String,
    pub refresh_token: String,
}

/// How the task that carried a request ended.
#[derive(Debug)]
pub enum Outcome<T> {
    Answered(T),
    Refused(Failure),
    TaskFailed(String),
}

/// Where a signed request stands.
#[derive(Debug)]
pub enum Authorized {
    /// The request is out with the token at hand.
    Requesting,
    /// The token was refused and a new one is asked for.
    Refreshing,
    /// The new token is being saved.
    Persisting { token: Token, credentials: Credentials },
    /// The new token is being handed to the account.
    Storing { access_token: String },
    /// The request is out again with the new token.
    Retrying,
    /// The answer, or why there is none, is known.
    Done,
}

/// What a signed request waits for.
#[derive(Debug)]
pub enum AuthorizedEvent<T> {
    Requested(Outcome<T>),
    Refreshed(Outcome<(Token, Credentials)>),
    Persisted(Result<(), String>),
    Stored(Result<(), String>),
}

/// What a signed request asks for next.
#[derive(Debug)]
pub enum AuthorizedAction<T> {
    /// Ask the service for a new token.
    Refresh,
    /// Save the credentials of this token.
    Persist,
    /// Make this the account's token and these its credentials.
    Store { token: Token, credentials: Credentials },
    /// Send the request again, signed with this token.
    Retry { access_token: String },
    /// Sign the account out with this message, then give up.
    ExpireAndFail { message: &'static str, failure: Failure },
    /// Hand the answer back.
    Finish(T),
    /// Hand the failure back.
    Fail(Failure),
    /// The event was not waited for.
    Ignore,
}

/// What an account is told when its token can no longer be renewed.
pub const SESSION_EXPIRED: &'static str = "Keiki session expired";

/// Where `state` goes on `event`, and what it asks for, in a request called
/// `operation`.
pub open spec fn authorized_next<T>(
    operation: &'static str,
    state: Authorized,
    event: AuthorizedEvent<T>,
) -> (Authorized, AuthorizedAction<T>) {
    match (state, event) {
        (Authorized::Requesting, AuthorizedEvent::Requested(outcome)) => match outcome {
            Outcome::Answered(answer) => (Authorized::Done, AuthorizedAction::Finish(answer)),
            Outcome::Refused(failure) => if failure.refused() {
                (Authorized::Refreshing, AuthorizedAction::Refresh)
            } else {
                (Authorized::Done, AuthorizedAction::Fail(failure))
            },
            Outcome::TaskFailed(error) => (
                Authorized::Done,
                AuthorizedAction::Fail(Failure::TaskFailed { operation, error }),
            ),
        },
        (Authorized::Refreshing, AuthorizedEvent::Refreshed(outcome)) => match outcome {
            Outcome::Answered((token, credentials)) => (
                Authorized::Persisting { token, credentials },
                AuthorizedAction::Persist,
            ),
            Outcome::Refused(failure) => (
                Authorized::Done,
                AuthorizedAction::ExpireAndFail { message: SESSION_EXPIRED, failure },
            ),
            Outcome::TaskFailed(error) => (
                Authorized::Done,
                AuthorizedAction::ExpireAndFail {
                    message: SESSION_EXPIRED,
                    failure: Failure::TaskFailed { operation: "Keiki token refresh", error },
                },
            ),
        },
        (Authorized::Persisting { token, credentials }, AuthorizedEvent::Persisted(saved)) => {
            match saved {
                Ok(()) => (
                    Authorized::Storing { access_token: token.access_token },
                    AuthorizedAction::Store { token, credentials },
                ),
                Err(message) => (
                    Authorized::Done,
                    AuthorizedAction::Fail(Failure::Local { message }),
                ),
            }
        },
        (Authorized::Storing { access_token }, AuthorizedEvent::Stored(stored)) => match stored {
            Ok(()) => (Authorized::Retrying, AuthorizedAction::Retry { access_token }),
            Err(error) => (
                Authorized::Done,
                AuthorizedAction::Fail(
                    Failure::TaskFailed { operation: "Keiki token state update", error },
                ),
            ),
        },
        (Authorized::Retrying, AuthorizedEvent::Requested(outcome)) => match outcome {
            Outcome::Answered(answer) => (Authorized::Done, AuthorizedAction::Finish(answer)),
            Outcome::Refused(failure) => (Authorized::Done, AuthorizedAction::Fail(failure)),
            Outcome::TaskFailed(error) => (
                Authorized::Done,
                AuthorizedAction::Fail(Failure::TaskFailed { operation, error }),
            ),
        },
        (state, _) => (state, AuthorizedAction::Ignore),
    }
}

/// Takes a signed request on by one event: a refused token is renewed, saved
/// and handed to the account, and the request is sent once more.
pub fn authorized<T>(operation: &'static str, state: Authorized, event: AuthorizedEvent<T>) -> (next:
    (Authorized, AuthorizedAction<T>))
    ensures
        next == authorized_next(operation, state, event),
{
    match (state, event) {
        (Authorized::Requesting, AuthorizedEvent::Requested(outcome)) => match outcome {
            Outcome::Answered(answer) => (Authorized::Done, AuthorizedAction::Finish(answer)),
            Outcome::Refused(failure) => {
                if failure.is_authentication_failure() {
                    (Authorized::Refreshing, AuthorizedAction::Refresh)
                } else {
                    (Authorized::Done, AuthorizedAction::Fail(failure))
                }
            },
            Outcome::TaskFailed(error) => (
                Authorized::Done,
                AuthorizedAction::Fail(Failure::TaskFailed { operation, error }),
            ),
        },
        (Authorized::Refreshing, AuthorizedEvent::Refreshed(outcome)) => match outcome {
            Outcome::Answered((token, credentials)) => (
                Authorized::Persisting { token, credentials },
                AuthorizedAction::Persist,
            ),
            Outcome::Refused(failure) => (
                Authorized::Done,
                AuthorizedAction::ExpireAndFail { message: SESSION_EXPIRED, failure },
            ),
            Outcome::TaskFailed(error) => (
                Authorized::Done,
                AuthorizedAction::ExpireAndFail {
                    message: SESSION_EXPIRED,
                    failure: Failure::TaskFailed { operation: "Keiki token refresh", error },
                },
            ),
        },
        (Authorized::Persisting { token, credentials }, AuthorizedEvent::Persisted(saved)) => {
            match saved {
                Ok(()) => {
                    let access_token = token.access_token.clone();
                    (
                        Authorized::Storing { access_token },
                        AuthorizedAction::Store { token, credentials },
                    )
                },
                Err(message) => (
                    Authorized::Done,
                    AuthorizedAction::Fail(Failure::Local { message }),
                ),
            }
        },
        (Authorized::Storing { access_token }, AuthorizedEvent::Stored(stored)) => match stored {
            Ok(()) => (Authorized::Retrying, AuthorizedAction::Retry { access_token }),
            Err(error) => (
                Authorized::Done,
                AuthorizedAction::Fail(
                    Failure::TaskFailed { operation: "Keiki token state update", error },
                ),
            ),
        },
        (Authorized::Retrying, AuthorizedEvent::Requested(outcome)) => match outcome {
            Outcome::Answered(answer) => (Authorized::Done, AuthorizedAction::Finish(answer)),
            Outcome::Refused(failure) => (Authorized::Done, AuthorizedAction::Fail(failure)),
            Outcome::TaskFailed(error) => (
                Authorized::Done,
                AuthorizedAction::Fail(Failure::TaskFailed { operation, error }),
            ),
        },
        (state, _) => (state, AuthorizedAction::Ignore),
    }
}

/// How far a signed request has come.
pub open spec fn progress(state: Authorized) -> nat {
    match state {
        Authorized::Requesting => 0,
        Authorized::Refreshing => 1,
        Authorized::Persisting { .. } => 2,
        Authorized::Storing { .. } => 3,
        Authorized::Retrying => 4,
        Authorized::Done => 5,
    }
}

/// A signed request only moves forward: every event that it waits for brings
/// it closer to its end, so it ends after at most five of them; only the first
/// request may ask for a new token, so the token is renewed at most once.
pub proof fn law_authorized_ends<T>(
    operation: &'static str,
    state: Authorized,
    event: AuthorizedEvent<T>,
)
    ensures
        ({
            let (next, action) = authorized_next(operation, state, event);
            &&& action is Ignore ==> next == state
            &&& action !is Ignore ==> progress(next) > progress(state)
            &&& action is Refresh ==> state is Requesting
            &&& (next is Done) == (state is Done || action is Finish || action is Fail
                || action is ExpireAndFail)
        }),
{
}

/// A request that is sent again is signed with the token that the account was
/// given, and that token was saved before.
pub proof fn law_retry_uses_the_new_token<T>(
    operation: &'static str,
    token: Token,
    credentials: Credentials,
    saved: AuthorizedEvent<T>,
    stored: AuthorizedEvent<T>,
)
    requires
        saved matches AuthorizedEvent::Persisted(Ok(())),
        stored matches AuthorizedEvent::Stored(Ok(())),
    ensures
        ({
            let (storing, handed) = authorized_next(
                operation,
                Authorized::Persisting { token, credentials },
                saved,
            );
            let (retrying, sent) = authorized_next(operation, storing, stored);
            &&& handed == (AuthorizedAction::<T>::Store { token, credentials })
            &&& sent == (AuthorizedAction::<T>::Retry { access_token: token.access_token })
            &&& retrying is Retrying
        }),
{
}

/// An answer is handed back as it came, to the first request and to the one
/// that is sent again.
pub proof fn law_an_answer_is_handed_back<T>(operation: &'static str, state: Authorized, answer: T)
    requires
        state is Requesting || state is Retrying,
    ensures
        authorized_next(operation, state, AuthorizedEvent::Requested(Outcome::Answered(answer))) == (
            Authorized::Done,
            AuthorizedAction::Finish(answer),
        ),
{
}

/// A new token is asked for just where the service refused the one at hand and
/// none has been asked for yet; every other failure is handed back as it came.
pub proof fn law_only_a_refused_token_is_renewed<T>(
    operation: &'static str,
    state: Authorized,
    failure: Failure,
)
    requires
        state is Requesting || state is Retrying,
    ensures
        ({
            let next = authorized_next::<T>(
                operation,
                state,
                AuthorizedEvent::Requested(Outcome::Refused(failure)),
            );
            if state is Requesting && failure.refused() {
                next.0 is Refreshing && next.1 is Refresh
            } else {
                next.0 is Done && next.1 == AuthorizedAction::<T>::Fail(failure)
            }
        }),
{
}

/// A new token is kept while its credentials are saved; one that cannot be had
/// signs the account out, and hands back why.
pub proof fn law_a_renewal_is_saved_or_expires<T>(
    operation: &'static str,
    token: Token,
    credentials: Credentials,
    failure: Failure,
    error: String,
)
    ensures
        authorized_next::<T>(
            operation,
            Authorized::Refreshing,
            AuthorizedEvent::Refreshed(Outcome::Answered((token, credentials))),
        ) == (Authorized::Persisting { token, credentials }, AuthorizedAction::<T>::Persist),
        ({
            let next = authorized_next::<T>(
                operation,
                Authorized::Refreshing,
                AuthorizedEvent::Refreshed(Outcome::Refused(failure)),
            );
            &&& next.0 is Done
            &&& next.1 is ExpireAndFail
            &&& next.1->ExpireAndFail_failure == failure
            &&& next.1->ExpireAndFail_message@ == "Keiki session expired"@
        }),
        ({
            let next = authorized_next::<T>(
                operation,
                Authorized::Persisting { token, credentials },
                AuthorizedEvent::Persisted(Err(error)),
            );
            &&& next.0 is Done
            &&& next.1 is Fail
            &&& next.1->Fail_0.words() == error@
        }),
        ({
            let next = authorized_next::<T>(
                operation,
                Authorized::Requesting,
                AuthorizedEvent::Requested(Outcome::TaskFailed(error)),
            );
            &&& next.0 is Done
            &&& next.1 is Fail
            &&& next.1->Fail_0.words() == operation@ + ": "@ + error@
        }),
{
}

/// A failure of the service says itself whether it refused the token or has
/// forgotten the account, and says it in its own words; a failure on the way
/// or on this machine says neither.
pub proof fn law_only_the_service_refuses(failure: Failure)
    ensures
        failure is TaskFailed || failure is Local ==> !failure.refused() && !failure.forgotten(),
        failure is Api ==> failure.refused() == failure->Api_authentication && failure.forgotten()
            == failure->Api_invalid_refresh_token && failure.words() == failure->Api_text@,
        failure is Other ==> failure.refused() == failure->Other_authentication
            && failure.forgotten() == failure->Other_invalid_refresh_token && failure.words()
            == failure->Other_text@,
        failure is Local ==> failure.words() == failure->Local_message@,
{
}

/// The account as the shell holds it. `flow` is the handle of the sign-in that
/// waits for its callback.
#[derive(Debug)]
pub struct Account {
    pub has_client: bool,
    pub token: Option<Token>,
    pub credentials: Option<Credentials>,
    pub status: SessionStatus,
    pub error: Option<String>,
    pub flow: Option<u64>,
}

/// What restoring an account asks for next.
#[derive(Debug)]
pub enum RestoreStep {
    /// Nothing more is to be done.
    Stop,
    /// Ask the service for a new token with these credentials.
    Refresh(Credentials),
    /// Sign the account out without a message.
    Expire,
    /// Start polling.
    Poll,
}

impl Account {
    /// An account that nothing is known of.
    pub fn new() -> (account: Self)
        ensures
            account == (Account {
                has_client: false,
                token: None,
                credentials: None,
                status: SessionStatus::SignedOut,
                error: None,
                flow: None,
            }),
    {
        Account {
            has_client: false,
            token: None,
            credentials: None,
            status: SessionStatus::SignedOut,
            error: None,
            flow: None,
        }
    }

    /// Whether requests can be signed and sent.
    pub open spec fn ready(self) -> bool {
        self.has_client && self.token is Some && self.credentials is Some
    }

    /// Whether requests can be signed and sent.
    pub fn is_ready(&self) -> (ready: bool)
        ensures
            ready == self.ready(),
    {
        self.has_client && self.token.is_some() && self.credentials.is_some()
    }

    /// Connects the account to the service while its credentials are read.
    pub fn start(&mut self)
        ensures
            *final(self) == (Account {
                has_client: true,
                status: SessionStatus::Loading,
                ..*old(self)
            }),
    {
        self.has_client = true;
        self.status = SessionStatus::Loading;
    }

    /// Goes on with the credentials that were stored, if any: without them
    /// the account is signed out.
    pub fn credentials_read(&mut self, stored: Option<Credentials>) -> (step: RestoreStep)
        ensures
            stored is None ==> *final(self) == (Account {
                status: SessionStatus::SignedOut,
                error: None,
                ..*old(self)
            }),
            stored is Some ==> *final(self) == *old(self),
            step == match stored {
                Some(credentials) => if old(self).has_client {
                    RestoreStep::Refresh(credentials)
                } else {
                    RestoreStep::Stop
                },
                None => RestoreStep::Stop,
            },
    {
        match stored {
            Some(credentials) => {
                if self.has_client {
                    RestoreStep::Refresh(credentials)
                } else {
                    RestoreStep::Stop
                }
            },
            None => {
                self.status = SessionStatus::SignedOut;
                self.error = None;
                RestoreStep::Stop
            },
        }
    }

    /// Takes over the token that the stored credentials were traded for, or
    /// records why there is none. Credentials that the service has forgotten
    /// sign the account out.
    pub fn restore_finished(&mut self, credentials: Credentials, outcome: Outcome<Token>) -> (step:
        RestoreStep)
        ensures
            match outcome {
                Outcome::Answered(token) => *final(self) == (Account {
                    credentials: Some(credentials),
                    token: Some(token),
                    status: SessionStatus::SignedIn,
                    error: None,
                    ..*old(self)
                }) && step is Poll,
                Outcome::Refused(failure) => if failure.forgotten() {
                    *final(self) == *old(self) && step is Expire
                } else {
                    final(self).failed_with(*old(self), failure.words()) && step is Stop
                },
                Outcome::TaskFailed(error) => final(self).failed_with(*old(self), error@)
                    && step is Stop,
            },
    {
        match outcome {
            Outcome::Answered(token) => {
                self.credentials = Some(credentials);
                self.token = Some(token);
                self.status = SessionStatus::SignedIn;
                self.error = None;
                RestoreStep::Poll
            },
            Outcome::Refused(failure) => {
                if failure.is_invalid_refresh_token() {
                    RestoreStep::Expire
                } else {
                    self.fail(failure.text());
                    RestoreStep::Stop
                }
            },
            Outcome::TaskFailed(error) => {
                self.fail(error);
                RestoreStep::Stop
            },
        }
    }

    /// Whether this account is `before` with a failure of `words` recorded.
    pub open spec fn failed_with(self, before: Account, words: Seq<char>) -> bool {
        &&& self.status is Error
        &&& self.error is Some
        &&& self.error->0@ == words
        &&& self == (Account { status: self.status, error: self.error, ..before })
    }

    /// Records a failure.
    pub fn fail(&mut self, words: String)
        ensures
            final(self).failed_with(*old(self), words@),
    {
        self.status = SessionStatus::Error;
        self.error = Some(words);
    }

    /// Begins a new sign-in and forgets the one that was under way.
    pub fn begin_sign_in(&mut self)
        ensures
            *final(self) == (Account {
                status: SessionStatus::Loading,
                error: None,
                flow: None,
                ..*old(self)
            }),
    {
        self.status = SessionStatus::Loading;
        self.error = None;
        self.flow = None;
    }

    /// Notes the flow whose address is opened in the browser.
    pub fn sign_in_opened(&mut self, flow: u64)
        ensures
            *final(self) == (Account { flow: Some(flow), ..*old(self) }),
    {
        self.flow = Some(flow);
    }

    /// Records why a sign-in could not be opened, and gives the notice for the
    /// sidebar.
    pub fn sign_in_failed(&mut self, failure: &Failure) -> (notice: String)
        ensures
            final(self).failed_with(*old(self), failure.words()),
            notice@ == "Keiki sign in failed: "@ + failure.words(),
    {
        let words = failure.text();
        let notice = concat("Keiki sign in failed: ", words.as_str());
        self.fail(words);
        notice
    }

    /// Takes the flow that a callback belongs to. The flow is used up even
    /// where there is no client to complete it.
    pub fn handle_callback(&mut self) -> (flow: Option<u64>)
        ensures
            *final(self) == (Account { flow: None, ..*old(self) }),
            flow == if old(self).has_client {
                old(self).flow
            } else {
                None
            },
    {
        let flow = self.flow;
        self.flow = None;
        if self.has_client {
            flow
        } else {
            None
        }
    }

    /// Takes over what the callback's code was traded for, or records why it
    /// could not be. Says whether polling may start.
    pub fn complete_callback(&mut self, traded: Result<(Token, Credentials), Failure>) -> (success: bool)
        ensures
            success == (traded is Ok),
            match traded {
                Ok((token, credentials)) => *final(self) == (Account {
                    token: Some(token),
                    credentials: Some(credentials),
                    status: SessionStatus::SignedIn,
                    error: None,
                    ..*old(self)
                }),
                Err(failure) => final(self).failed_with(*old(self), failure.words()),
            },
    {
        match traded {
            Ok((token, credentials)) => {
                self.token = Some(token);
                self.credentials = Some(credentials);
                self.status = SessionStatus::SignedIn;
                self.error = None;
                true
            },
            Err(failure) => {
                self.fail(failure.text());
                false
            },
        }
    }

    /// Takes over a renewed token.
    pub fn renew(&mut self, token: Token, credentials: Credentials)
        ensures
            *final(self) == (Account {
                token: Some(token),
                credentials: Some(credentials),
                ..*old(self)
            }),
    {
        self.token = Some(token);
        self.credentials = Some(credentials);
    }

    /// The access token that signing out revokes, when there is a client to
    /// revoke it with.
    pub fn revocable_token(&self) -> (access_token: Option<&str>)
        ensures
            match self.token {
                Some(token) => if self.has_client {
                    access_token is Some && access_token->0@ == token.access_token@
                } else {
                    access_token is None
                },
                None => access_token is None,
            },
    {
        match &self.token {
            Some(token) => {
                if self.has_client {
                    Some(token.access_token.as_str())
                } else {
                    None
                }
            },
            None => None,
        }
    }
}

/// What the poll loop hears. `signed_in` is absent when the account is gone.
#[derive(Debug, Clone, Copy, PartialEq, Eq, Structural)]
pub enum PollEvent {
    /// The wait is over.
    Woke { signed_in: Option<bool> },
    /// The rows were fetched and applied.
    Refreshed,
    /// The rows could not be fetched.
    RefreshFailed { signed_in: Option<bool> },
}

/// What the poll loop does next.
#[derive(Debug, Clone, Copy, PartialEq, Eq, Structural)]
pub enum PollAction {
    Stop,
    Refresh,
    Wait { seconds: u64 },
}

/// The rhythm of polling: as long as the account is signed in the rows are
/// fetched, then again after a pause that is shorter after a failure.
pub fn poll(event: PollEvent) -> (action: PollAction)
    ensures
        action == match event {
            PollEvent::Woke { signed_in } => if signed_in == Some(true) {
                PollAction::Refresh
            } else {
                PollAction::Stop
            },
            PollEvent::Refreshed => PollAction::Wait { seconds: POLL_SECONDS },
            PollEvent::RefreshFailed { signed_in } => if signed_in == Some(true) {
                PollAction::Wait { seconds: POLL_RETRY_SECONDS }
            } else {
                PollAction::Stop
            },
        },
{
    match event {
        PollEvent::Woke { signed_in } => match signed_in {
            Some(true) => PollAction::Refresh,
            _ => PollAction::Stop,
        },
        PollEvent::Refreshed => PollAction::Wait { seconds: POLL_SECONDS },
        PollEvent::RefreshFailed { signed_in } => match signed_in {
            Some(true) => PollAction::Wait { seconds: POLL_RETRY_SECONDS },
            _ => PollAction::Stop,
        },
    }
}

/// What fetching the rows asks for next.
#[derive(Debug)]
pub enum RefreshStep {
    /// List the agents, as the operation that is named.
    ListAgents { operation: &'static str },
    /// List the conversations, as the operation that is named.
    ListConversations { operation: &'static str, agents: Vec<AgentSummary> },
    /// Show these rows.
    Apply { spaces: Vec<Space>, chats: Vec<Chat> },
    /// Show no other rows.
    Fail(Failure),
}

/// Whether a step fails because there is nothing to sign a request with.
pub open spec fn lacks_credentials(step: RefreshStep) -> bool {
    step is Fail && step->Fail_0 is Local && step->Fail_0.words()
        == "Keiki credentials are unavailable"@
}

fn unavailable() -> (step: RefreshStep)
    ensures
        lacks_credentials(step),
{
    RefreshStep::Fail(Failure::Local { message: "Keiki credentials are unavailable".to_owned() })
}

/// Starts to fetch the rows: the agents come first.
pub fn begin_refresh(account: &Account) -> (step: RefreshStep)
    ensures
        if account.ready() {
            step is ListAgents && step->ListAgents_operation@ == "Keiki agent list"@
        } else {
            lacks_credentials(step)
        },
{
    if account.is_ready() {
        RefreshStep::ListAgents { operation: "Keiki agent list" }
    } else {
        unavailable()
    }
}

/// The agents were listed, or could not be. The token may have been renewed for
/// it, and the account may be signed out by now.
pub fn agents_listed(account: &Account, listed: Result<Vec<AgentSummary>, Failure>) -> (step:
    RefreshStep)
    ensures
        match listed {
            Err(failure) => step == RefreshStep::Fail(failure),
            Ok(agents) => if account.ready() {
                &&& step is ListConversations
                &&& step->ListConversations_operation@ == "Keiki conversation list"@
                &&& step->agents == agents
            } else {
                lacks_credentials(step)
            },
        },
{
    match listed {
        Err(failure) => RefreshStep::Fail(failure),
        Ok(agents) => {
            if account.is_ready() {
                RefreshStep::ListConversations { operation: "Keiki conversation list", agents }
            } else {
                unavailable()
            }
        },
    }
}

/// The conversations were listed, or could not be. Only then do any rows
/// change.
pub fn conversations_listed(
    agents: &Vec<AgentSummary>,
    listed: Result<Vec<ConversationSummary>, Failure>,
    now: Timestamp,
) -> (step: RefreshStep)
    ensures
        match listed {
            Err(failure) => step == RefreshStep::Fail(failure),
            Ok(conversations) => {
                let named = with_agent(conversations@);
                &&& step is Apply
                &&& step->spaces@.len() == agents@.len()
                &&& step->chats@.len() == named.len()
                &&& forall|i: int|
                    0 <= i < agents@.len() ==> #[trigger] space_of(step->spaces@[i], agents@[i], now)
                &&& forall|i: int|
                    0 <= i < named.len() ==> #[trigger] chat_of(
                        step->chats@[i],
                        named[i],
                        named[i].agent_id->0@,
                        now,
                    )
            },
        },
{
    match listed {
        Err(failure) => RefreshStep::Fail(failure),
        Ok(conversations) => {
            let (spaces, chats) = map_snapshot(agents, &conversations, now);
            RefreshStep::Apply { spaces, chats }
        },
    }
}

/// A failure is recorded in its words, and nothing else of the account changes.
pub proof fn law_a_failure_changes_only_the_status(after: Account, before: Account, words: Seq<char>)
    requires
        after.failed_with(before, words),
    ensures
        after.status is Error,
        after.error is Some && after.error->0@ == words,
        after.token == before.token && after.credentials == before.credentials,
        after.flow == before.flow && after.has_client == before.has_client,
{
}

/// Requests can be signed and sent where there is a client, a token and what it
/// is renewed with; without them a refresh fails and says so.
pub proof fn law_a_refresh_needs_credentials(account: Account, step: RefreshStep)
    ensures
        account.ready() == (account.has_client && account.token is Some
            && account.credentials is Some),
        lacks_credentials(step) ==> step is Fail && step->Fail_0.words()
            == "Keiki credentials are unavailable"@,
{
}

} // verus!
