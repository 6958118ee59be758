//! Logging in: what to do in each authorization state that the client
//! reports.
use vstd::prelude::*;

verus! {

/// The authorization states that the program tells apart.
#[derive(Clone, Copy, Debug, PartialEq, Eq, Structural)]
pub enum AuthState {
    WaitTdlibParameters,
    WaitPhoneNumber,
    WaitCode,
    Ready,
    Closed,
    /// Any other state.
    Other,
}

/// How the login proceeds.
#[derive(Clone, Debug)]
pub enum AuthFlow {
    /// Resume a saved login; anything but a ready client ends the program.
    Resume,
    /// Log in by asking the user for phone number and code.
    Interactive,
    /// Log in with this phone number, if given, asking for the rest.
    WithPhone(Option<String>),
}

/// What to do in an authorization state.
#[derive(Clone, Debug, PartialEq, Eq)]
pub enum AuthAction {
    /// Send the client its parameters.
    SetParameters,
    /// Ask the user for the phone number and submit it, until accepted.
    AskPhoneNumber,
    /// Submit this phone number, until accepted.
    SubmitPhoneNumber(String),
    /// Ask the user for the code and submit it, until accepted.
    AskCode,
    /// The client is ready: greet the user by name and stop.
    GreetAndStop,
    /// The client is ready: stop.
    Stop,
    /// The client has closed: stop receiving updates and stop.
    StopUpdatesAndStop,
    /// Not logged in: tell the user and end the program.
    ExitNotLoggedIn,
    /// Nothing to do: wait for the next state.
    Wait,
}

/// What to do in `state` for the flow.
pub open spec fn auth_action_of(flow: AuthFlow, state: AuthState) -> AuthAction {
    match flow {
        AuthFlow::Resume => match state {
            AuthState::WaitTdlibParameters => AuthAction::SetParameters,
            AuthState::Ready => AuthAction::GreetAndStop,
            _ => AuthAction::ExitNotLoggedIn,
        },
        AuthFlow::Interactive => match state {
            AuthState::WaitTdlibParameters => AuthAction::SetParameters,
            AuthState::WaitPhoneNumber => AuthAction::AskPhoneNumber,
            AuthState::WaitCode => AuthAction::AskCode,
            AuthState::Ready => AuthAction::GreetAndStop,
            AuthState::Closed => AuthAction::StopUpdatesAndStop,
            AuthState::Other => AuthAction::Wait,
        },
        AuthFlow::WithPhone(phone) => match state {
            AuthState::WaitTdlibParameters => AuthAction::SetParameters,
            AuthState::WaitPhoneNumber => match phone {
                Some(p) => AuthAction::SubmitPhoneNumber(p),
                None => AuthAction::AskPhoneNumber,
            },
            AuthState::WaitCode => AuthAction::AskCode,
            AuthState::Ready => AuthAction::Stop,
            AuthState::Closed => AuthAction::StopUpdatesAndStop,
            AuthState::Other => AuthAction::Wait,
        },
    }
}

/// Whether an action ends the handling of authorization states.
pub open spec fn ends_login(a: AuthAction) -> bool {
    a == AuthAction::GreetAndStop || a == AuthAction::Stop || a == AuthAction::StopUpdatesAndStop || a
        == AuthAction::ExitNotLoggedIn
}

/// How every login flow proceeds: the client's parameters are always sent
/// when it waits for them; a resumed login ends the program in any state
/// but those two; the other flows ask for (or submit) the phone number and
/// ask for the code when the client waits for them, stop receiving updates
/// once the client has closed, and otherwise wait.
pub proof fn lemma_login_flows(flow: AuthFlow, phone: Option<String>, s: AuthState)
    ensures
        auth_action_of(flow, AuthState::WaitTdlibParameters) == AuthAction::SetParameters,
        flow is Resume && s != AuthState::WaitTdlibParameters && s != AuthState::Ready ==> auth_action_of(flow, s)
            == AuthAction::ExitNotLoggedIn,
        !(flow is WithPhone) ==> auth_action_of(flow, AuthState::Ready) == AuthAction::GreetAndStop,
        flow is WithPhone ==> auth_action_of(flow, AuthState::Ready) == AuthAction::Stop,
        !(flow is Resume) ==> auth_action_of(flow, AuthState::WaitCode) == AuthAction::AskCode,
        !(flow is Resume) ==> auth_action_of(flow, AuthState::Closed) == AuthAction::StopUpdatesAndStop,
        !(flow is Resume) ==> auth_action_of(flow, AuthState::Other) == AuthAction::Wait,
        auth_action_of(AuthFlow::Interactive, AuthState::WaitPhoneNumber) == AuthAction::AskPhoneNumber,
        auth_action_of(AuthFlow::WithPhone(None), AuthState::WaitPhoneNumber) == AuthAction::AskPhoneNumber,
        phone matches Some(p) ==> auth_action_of(AuthFlow::WithPhone(phone), AuthState::WaitPhoneNumber)
            == AuthAction::SubmitPhoneNumber(p),
{
}

/// What to do in `state` for the flow (see `auth_action_of`).
pub fn auth_action(flow: &AuthFlow, state: AuthState) -> (a: AuthAction)
    ensures
        state == AuthState::WaitTdlibParameters ==> a == AuthAction::SetParameters,
        *flow is Resume && state != AuthState::WaitTdlibParameters && state != AuthState::Ready ==> a
            == AuthAction::ExitNotLoggedIn,
        state == AuthState::Ready ==> a == (if *flow is WithPhone {
            AuthAction::Stop
        } else {
            AuthAction::GreetAndStop
        }),
        !(*flow is Resume) && state == AuthState::WaitCode ==> a == AuthAction::AskCode,
        !(*flow is Resume) && state == AuthState::Closed ==> a == AuthAction::StopUpdatesAndStop,
        !(*flow is Resume) && state == AuthState::Other ==> a == AuthAction::Wait,
        !(*flow is Resume) && state == AuthState::WaitPhoneNumber ==> match *flow {
            AuthFlow::WithPhone(Some(p)) => a matches AuthAction::SubmitPhoneNumber(q) && q@ == p@,
            _ => a == AuthAction::AskPhoneNumber,
        },
        match (*flow, state, a) {
            (AuthFlow::WithPhone(Some(p)), AuthState::WaitPhoneNumber, AuthAction::SubmitPhoneNumber(q)) => q@
                == p@,
            _ => a == auth_action_of(*flow, state),
        },
{
    match flow {
        AuthFlow::Resume => match state {
            AuthState::WaitTdlibParameters => AuthAction::SetParameters,
            AuthState::Ready => AuthAction::GreetAndStop,
            _ => AuthAction::ExitNotLoggedIn,
        },
        AuthFlow::Interactive => match state {
            AuthState::WaitTdlibParameters => AuthAction::SetParameters,
            AuthState::WaitPhoneNumber => AuthAction::AskPhoneNumber,
            AuthState::WaitCode => AuthAction::AskCode,
            AuthState::Ready => AuthAction::GreetAndStop,
            AuthState::Closed => AuthAction::StopUpdatesAndStop,
            AuthState::Other => AuthAction::Wait,
        },
        AuthFlow::WithPhone(phone) => match state {
            AuthState::WaitTdlibParameters => AuthAction::SetParameters,
            AuthState::WaitPhoneNumber => match phone {
                Some(p) => AuthAction::SubmitPhoneNumber(p.clone()),
                None => AuthAction::AskPhoneNumber,
            },
            AuthState::WaitCode => AuthAction::AskCode,
            AuthState::Ready => AuthAction::Stop,
            AuthState::Closed => AuthAction::StopUpdatesAndStop,
            AuthState::Other => AuthAction::Wait,
        },
    }
}

/// A client that is ready ends every login flow, and only the resumed
/// flow ends on a state other than ready or closed.
pub proof fn lemma_ready_ends_every_flow(flow: AuthFlow)
    ensures
        ends_login(auth_action_of(flow, AuthState::Ready)),
        !(flow is Resume) ==> ends_login(auth_action_of(flow, AuthState::Closed)),
        forall|s: AuthState|
            !(flow is Resume) && s != AuthState::Ready && s != AuthState::Closed ==> !ends_login(
                #[trigger] auth_action_of(flow, s),
            ),
{
}

} // verus!
