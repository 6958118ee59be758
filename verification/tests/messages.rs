use autogram::chat::{after_attempt, buttons_to_try, red_packet_reaction, ButtonPresses, PressAttempt, PressOutcome, RedPacketReaction};
use autogram::config::RedPacketArgs;
use autogram::message::{
    select_buttons, ButtonFilter, ButtonKind, IncomingMessage, InlineButton, MessageContent, MessageSender, ReplyMarkup,
    UNSUPPORTED_CONTENT,
};

fn cb(text: &str) -> InlineButton {
    InlineButton { text: text.to_string(), kind: ButtonKind::Callback("AQI=".to_string()) }
}

fn web(text: &str) -> InlineButton {
    InlineButton { text: text.to_string(), kind: ButtonKind::WebApp("https://x".to_string()) }
}

fn keyboard() -> Vec<Vec<InlineButton>> {
    vec![vec![cb("a"), web("b"), cb("创建账户 1")], vec![], vec![web("a"), cb("b"), cb("a")]]
}

#[test]
fn content_texts() {
    assert_eq!(MessageContent::Photo("cap".to_string()).text(), Some("cap".to_string()));
    assert_eq!(MessageContent::Unsupported.text(), None);
    assert_eq!(MessageContent::Unsupported.text_or(UNSUPPORTED_CONTENT), "暂不支持的消息类型");
    assert_eq!(MessageContent::Video("v".to_string()).text_or(""), "v");
    assert!(MessageContent::Text("xx您已进入注册状态".to_string()).is_text_holding("您已进入注册状态"));
    assert!(!MessageContent::Photo("您已进入注册状态".to_string()).is_text_holding("您已进入注册状态"));
}

#[test]
fn sender_ids() {
    assert_eq!(MessageSender::User(5).id(), 5);
    assert_eq!(MessageSender::Chat(-9).id(), -9);
}

#[test]
fn button_selection_in_reading_order() {
    let k = keyboard();
    assert_eq!(select_buttons(&k, &ButtonFilter::Named("a".to_string())), vec![(0, 0), (2, 0), (2, 2)]);
    assert_eq!(select_buttons(&k, &ButtonFilter::NamedCallback("a".to_string())), vec![(0, 0), (2, 2)]);
    assert_eq!(select_buttons(&k, &ButtonFilter::CallbackContaining("创建账户".to_string())), vec![(0, 2)]);
    assert_eq!(select_buttons(&vec![], &ButtonFilter::Named("a".to_string())), vec![]);
}

#[test]
fn presses_in_turn() {
    let mut p = ButtonPresses::new(vec!["x".to_string(), "y".to_string()]);
    assert_eq!(p.current(), "x");
    assert!(!p.record(PressOutcome::NotPressed));
    assert!(!p.record(PressOutcome::Failed));
    assert_eq!(p.current(), "x");
    assert!(!p.record(PressOutcome::Pressed));
    assert_eq!(p.current(), "y");
    assert!(p.record(PressOutcome::TimedOut));
}

#[test]
fn attempts() {
    assert_eq!(after_attempt(PressAttempt::CallbackAnswered), Some(PressOutcome::Pressed));
    assert_eq!(after_attempt(PressAttempt::CallbackFailed), Some(PressOutcome::Failed));
    assert_eq!(after_attempt(PressAttempt::WebAppOpened), None);
    assert_eq!(after_attempt(PressAttempt::WebAppFailed), Some(PressOutcome::Failed));
}

#[test]
fn buttons_of_a_reply() {
    let m = ReplyMarkup::InlineKeyboard(keyboard());
    assert_eq!(buttons_to_try(&m, &"b".to_string()), vec![(0, 1), (2, 1)]);
    assert_eq!(buttons_to_try(&ReplyMarkup::Other, &"b".to_string()), vec![]);
}

fn msg(chat_id: i64, markup: Option<ReplyMarkup>, content: MessageContent) -> IncomingMessage {
    IncomingMessage { id: 11, chat_id, sender: MessageSender::User(3), content, reply_markup: markup }
}

#[test]
fn red_packets() {
    let args = RedPacketArgs { chat_id: 1, archive: false, type_button: "a".to_string() };
    let m = msg(1, Some(ReplyMarkup::InlineKeyboard(keyboard())), MessageContent::Unsupported);
    assert_eq!(red_packet_reaction(&m, &args), RedPacketReaction::Press(vec![(0, 0), (2, 2)]));
    let other = msg(2, Some(ReplyMarkup::InlineKeyboard(keyboard())), MessageContent::Unsupported);
    assert_eq!(red_packet_reaction(&other, &args), RedPacketReaction::Ignore);
    let bare = msg(1, None, MessageContent::Unsupported);
    assert_eq!(red_packet_reaction(&bare, &args), RedPacketReaction::NoButtons);
    let odd = msg(1, Some(ReplyMarkup::Other), MessageContent::Unsupported);
    assert_eq!(red_packet_reaction(&odd, &args), RedPacketReaction::Ignore);
}
