use autogram::account::{
    is_registration_announcement, press_verdict, react_in_group, react_to_bot_message, registration_args,
    registration_opened, BotReaction, GroupReaction, ListenRegistry, PressVerdict,
};
use autogram::config::{CreateAccountArgs, CreateAccountListenArgs};
use autogram::message::{ButtonKind, IncomingMessage, InlineButton, MessageContent, MessageSender, ReplyMarkup};

fn create_args() -> CreateAccountArgs {
    CreateAccountArgs {
        chat_id: 10,
        archive: false,
        account_name: "alice".to_string(),
        security_code: "1234".to_string(),
        type_button_interval_mills: 500,
    }
}

fn listen(chat_id: i64, bot_id: i64, prefix: Option<&str>) -> CreateAccountListenArgs {
    CreateAccountListenArgs {
        chat_id,
        bot_chat_id: 77,
        bot_id,
        archive: false,
        bot_archive: true,
        account_name: format!("name{}", chat_id),
        security_code: "code".to_string(),
        code_prefix: prefix.map(|p| p.to_string()),
    }
}

fn msg(chat_id: i64, sender: i64, content: MessageContent, markup: Option<ReplyMarkup>) -> IncomingMessage {
    IncomingMessage { id: 1, chat_id, sender: MessageSender::User(sender), content, reply_markup: markup }
}

#[test]
fn press_verdicts() {
    assert_eq!(press_verdict(None), PressVerdict::RetryAfterPause);
    assert_eq!(press_verdict(Some("请勿重复注册")), PressVerdict::StopListening);
    assert_eq!(press_verdict(Some("自助注册已关闭")), PressVerdict::RetryAfterPause);
    assert_eq!(press_verdict(Some("ok")), PressVerdict::NextButton);
}

#[test]
fn bot_messages() {
    let a = create_args();
    let kb = vec![vec![
        InlineButton { text: "创建账户".to_string(), kind: ButtonKind::Callback(String::new()) },
        InlineButton { text: "创建账户".to_string(), kind: ButtonKind::Other },
    ]];
    let m = msg(10, 1, MessageContent::Unsupported, Some(ReplyMarkup::InlineKeyboard(kb)));
    assert_eq!(react_to_bot_message(&m, &a), BotReaction::PressCreateButtons(vec![(0, 0)]));
    let prompt = msg(10, 1, MessageContent::Text("您已进入注册状态".to_string()), None);
    assert_eq!(react_to_bot_message(&prompt, &a), BotReaction::SendAccountInfo("alice 1234".to_string()));
    let plain = msg(10, 1, MessageContent::Text("hi".to_string()), None);
    assert_eq!(react_to_bot_message(&plain, &a), BotReaction::Ignore);
    let photo = msg(10, 1, MessageContent::Photo("您已进入注册状态".to_string()), None);
    assert_eq!(react_to_bot_message(&photo, &a), BotReaction::NoButtons);
    let other = msg(11, 1, MessageContent::Text("您已进入注册状态".to_string()), None);
    assert_eq!(react_to_bot_message(&other, &a), BotReaction::Ignore);
    let markup = msg(10, 1, MessageContent::Text("您已进入注册状态".to_string()), Some(ReplyMarkup::Other));
    assert_eq!(react_to_bot_message(&markup, &a), BotReaction::Ignore);
}

#[test]
fn announcements() {
    assert!(is_registration_announcement("自由注册 已开启"));
    assert!(is_registration_announcement("定时注册已开启!"));
    assert!(!is_registration_announcement("自由注册已关闭"));
    assert!(!is_registration_announcement("已开启"));
    let m = msg(5, 9, MessageContent::Photo("自由注册已开启".to_string()), None);
    assert!(registration_opened(&m, 5, 9));
    assert!(!registration_opened(&m, 5, 8));
    assert!(!registration_opened(&m, 6, 9));
    let empty = msg(5, 9, MessageContent::Unsupported, None);
    assert!(!registration_opened(&empty, 5, 9));
}

#[test]
fn registration_after_listening() {
    let a = registration_args(&listen(1, 2, None));
    assert_eq!(a.chat_id, 77);
    assert!(a.archive);
    assert_eq!(a.account_name, "name1");
    assert_eq!(a.security_code, "code");
    assert_eq!(a.type_button_interval_mills, 100);
}

#[test]
fn registry_later_entry_wins() {
    let mut second = listen(1, 3, None);
    second.account_name = "later".to_string();
    let r = ListenRegistry::from_args(vec![listen(1, 2, None), listen(4, 5, None), second]);
    assert_eq!(r.get(1).unwrap().account_name, "later");
    assert_eq!(r.get(1).unwrap().bot_id, 3);
    assert_eq!(r.get(4).unwrap().bot_id, 5);
    assert!(r.get(9).is_none());
    assert_eq!(r.chat_ids(), vec![1, 4]);
}

#[test]
fn group_reactions() {
    let r = ListenRegistry::from_args(vec![listen(1, 2, Some("REG-")), listen(4, 5, None)]);
    let open = msg(1, 2, MessageContent::Text("自由注册已开启".to_string()), None);
    match react_in_group(&r, &open) {
        GroupReaction::Register(c) => {
            assert_eq!(c.chat_id, 77);
            assert!(c.archive);
            assert_eq!(c.account_name, "name1");
            assert_eq!(c.type_button_interval_mills, 100);
        }
        other => panic!("unexpected {:?}", other),
    }
    let codes = msg(1, 2, MessageContent::Text("今日码\nREG-abc\nREG-def\nx".to_string()), None);
    match react_in_group(&r, &codes) {
        GroupReaction::TryCodes { bot_id, bot_archive, codes } => {
            assert_eq!(bot_id, 2);
            assert!(bot_archive);
            assert_eq!(codes, vec!["REG-abc".to_string(), "REG-def".to_string()]);
        }
        other => panic!("unexpected {:?}", other),
    }
    let no_prefix = msg(4, 5, MessageContent::Text("REG-abc".to_string()), None);
    assert!(matches!(react_in_group(&r, &no_prefix), GroupReaction::Ignore));
    let wrong_sender = msg(1, 3, MessageContent::Text("自由注册已开启".to_string()), None);
    assert!(matches!(react_in_group(&r, &wrong_sender), GroupReaction::Ignore));
    let unknown = msg(8, 2, MessageContent::Text("自由注册已开启".to_string()), None);
    assert!(matches!(react_in_group(&r, &unknown), GroupReaction::Ignore));
}
