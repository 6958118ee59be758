use autogram::config::GuessCodeArgs;
use autogram::guess_code::{
    classify_reply, guess_candidates, guess_plan, start_message, use_code_message, use_code_outcome, CodeStatus,
    GuessAction, GuessCodeError, GuessEvent, GuessSession, UseCodeError,
};

#[test]
fn candidates_upper_then_lower_then_digits() {
    let v = guess_candidates("ab*", "0aA").unwrap();
    assert_eq!(v.len(), 62);
    assert_eq!(v[0], "abA");
    assert_eq!(v[25], "abZ");
    assert_eq!(v[26], "aba");
    assert_eq!(v[51], "abz");
    assert_eq!(v[52], "ab0");
    assert_eq!(v[61], "ab9");
}

#[test]
fn candidates_digits_only() {
    let v = guess_candidates("*x", "0").unwrap();
    let want: Vec<String> = (0..10).map(|d| format!("{}x", d)).collect();
    assert_eq!(v, want);
    assert_eq!(guess_candidates("*x", "").unwrap(), Vec::<String>::new());
}

#[test]
fn candidates_errors() {
    assert_eq!(guess_candidates("abc", "A"), Err(GuessCodeError::MissingWildcard));
    assert_eq!(guess_candidates("a**", "A"), Err(GuessCodeError::TooManyWildcards));
    assert_eq!(guess_candidates("*a*", "A"), Err(GuessCodeError::TooManyWildcards));
    assert_eq!(guess_candidates("a*,b", "A"), Err(GuessCodeError::MissingWildcard));
    assert_eq!(guess_candidates("a**,b", "A"), Err(GuessCodeError::TooManyWildcards));
    assert_eq!(guess_candidates("a*,", "A"), Err(GuessCodeError::MissingWildcard));
    assert_eq!(guess_candidates("", "A"), Err(GuessCodeError::MissingWildcard));
}

#[test]
fn comma_separated_codes_are_guessed_in_turn() {
    let v = guess_candidates("a*,b*", "0").unwrap();
    let mut want: Vec<String> = (0..10).map(|d| format!("a{}", d)).collect();
    want.extend((0..10).map(|d| format!("b{}", d)));
    assert_eq!(v, want);
}

#[test]
fn plan_from_args() {
    let args = GuessCodeArgs { chat_id: 1, archive: None, code: "码*".to_string(), rule: "A".to_string(), speed: None };
    let v = guess_plan(&args).unwrap();
    assert_eq!(v[1], "码B");
}

#[test]
fn start_messages() {
    assert_eq!(start_message("AB1"), "/start AB1");
    assert_eq!(use_code_message("AB 12 C").unwrap(), "/start AB12C");
    assert_eq!(use_code_message("AB*"), Err(UseCodeError::IllegalCharacter));
    assert_eq!(use_code_message("░x"), Err(UseCodeError::IllegalCharacter));
    assert_eq!(use_code_message("a&b"), Err(UseCodeError::IllegalCharacter));
}

#[test]
fn reply_classification() {
    assert_eq!(classify_reply("/start abc 请确认好重试"), None);
    assert_eq!(classify_reply("邀请码错误，请确认好重试"), Some(CodeStatus::Continue));
    assert_eq!(classify_reply("注册码已被使用"), Some(CodeStatus::End));
    assert_eq!(classify_reply("您已进入注册状态"), Some(CodeStatus::End));
    assert_eq!(classify_reply("恭喜获得邀请注册资格"), Some(CodeStatus::End));
    assert_eq!(classify_reply("hello"), None);
    // "retry" wins over "used" when both appear
    assert_eq!(classify_reply("注册码已被使用 请确认好重试"), Some(CodeStatus::Continue));
}

#[test]
fn use_code_outcomes() {
    assert_eq!(use_code_outcome(CodeStatus::Continue), Err(UseCodeError::Rejected));
    assert_eq!(use_code_outcome(CodeStatus::End), Ok(()));
}

#[test]
fn session_waits_for_each_answer() {
    let mut s = GuessSession::new(vec!["a".to_string(), "b".to_string()], None);
    assert_eq!(s.step(GuessEvent::Started), GuessAction::Send("/start a".to_string()));
    assert_eq!(s.step(GuessEvent::Sent), GuessAction::AwaitStatus);
    assert_eq!(s.step(GuessEvent::Answered(CodeStatus::Continue)), GuessAction::Send("/start b".to_string()));
    assert_eq!(s.step(GuessEvent::Sent), GuessAction::AwaitStatus);
    assert_eq!(s.step(GuessEvent::Answered(CodeStatus::Continue)), GuessAction::Close);
}

#[test]
fn session_stops_on_end() {
    let mut s = GuessSession::new(vec!["a".to_string(), "b".to_string()], Some(false));
    assert_eq!(s.step(GuessEvent::Started), GuessAction::Send("/start a".to_string()));
    assert_eq!(s.step(GuessEvent::Sent), GuessAction::AwaitStatus);
    assert_eq!(s.step(GuessEvent::Answered(CodeStatus::End)), GuessAction::Close);
}

#[test]
fn fast_session_sends_all_then_waits_once() {
    let mut s = GuessSession::new(vec!["a".to_string(), "b".to_string()], Some(true));
    assert_eq!(s.step(GuessEvent::Started), GuessAction::Send("/start a".to_string()));
    assert_eq!(s.step(GuessEvent::Sent), GuessAction::Send("/start b".to_string()));
    assert_eq!(s.step(GuessEvent::Sent), GuessAction::AwaitStatus);
    assert_eq!(s.step(GuessEvent::Answered(CodeStatus::Continue)), GuessAction::Close);
}

#[test]
fn empty_sessions() {
    let mut s = GuessSession::new(vec![], None);
    assert_eq!(s.step(GuessEvent::Started), GuessAction::Close);
    let mut f = GuessSession::new(vec![], Some(true));
    assert_eq!(f.step(GuessEvent::Started), GuessAction::AwaitStatus);
    assert_eq!(f.step(GuessEvent::Answered(CodeStatus::End)), GuessAction::Close);
}

#[test]
fn every_guess_fills_only_the_wildcard() {
    let code = "x*yz";
    for g in guess_candidates(code, "Aa0").unwrap() {
        let gc: Vec<char> = g.chars().collect();
        let cc: Vec<char> = code.chars().collect();
        assert_eq!(gc.len(), cc.len());
        for i in 0..cc.len() {
            if cc[i] != '*' {
                assert_eq!(gc[i], cc[i]);
            } else {
                assert!(gc[i].is_ascii_alphanumeric());
            }
        }
    }
}
