use autogram::auth::{auth_action, AuthAction, AuthFlow, AuthState};
use autogram::config::{AppCommand, ChatsArgs, Service};

#[test]
fn resume_flow() {
    assert_eq!(auth_action(&AuthFlow::Resume, AuthState::WaitTdlibParameters), AuthAction::SetParameters);
    assert_eq!(auth_action(&AuthFlow::Resume, AuthState::Ready), AuthAction::GreetAndStop);
    assert_eq!(auth_action(&AuthFlow::Resume, AuthState::WaitPhoneNumber), AuthAction::ExitNotLoggedIn);
    assert_eq!(auth_action(&AuthFlow::Resume, AuthState::Closed), AuthAction::ExitNotLoggedIn);
}

#[test]
fn interactive_flow() {
    let f = AuthFlow::Interactive;
    assert_eq!(auth_action(&f, AuthState::WaitPhoneNumber), AuthAction::AskPhoneNumber);
    assert_eq!(auth_action(&f, AuthState::WaitCode), AuthAction::AskCode);
    assert_eq!(auth_action(&f, AuthState::Ready), AuthAction::GreetAndStop);
    assert_eq!(auth_action(&f, AuthState::Closed), AuthAction::StopUpdatesAndStop);
    assert_eq!(auth_action(&f, AuthState::Other), AuthAction::Wait);
}

#[test]
fn phone_flow() {
    let f = AuthFlow::WithPhone(Some("+861".to_string()));
    assert_eq!(auth_action(&f, AuthState::WaitPhoneNumber), AuthAction::SubmitPhoneNumber("+861".to_string()));
    assert_eq!(auth_action(&f, AuthState::Ready), AuthAction::Stop);
    assert_eq!(auth_action(&AuthFlow::WithPhone(None), AuthState::WaitPhoneNumber), AuthAction::AskPhoneNumber);
}

#[test]
fn commands() {
    assert!(!AppCommand::Login.needs_saved_login());
    let c = AppCommand::Chats(ChatsArgs { top: 20, archive: false });
    assert!(c.needs_saved_login());
    assert_eq!(c.service(), Some(Service::Chats));
    assert_eq!(AppCommand::Login.service(), None);
}
