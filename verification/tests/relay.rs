use autogram::config::{FollowArgs, ListenArgs, MultiListenArgs};
use autogram::message::{IncomingMessage, MessageContent, MessageSender, SimpleMessage};
use autogram::relay::{listen_body, HistoryPaging, HistoryStep, bot_send_url, follow_plan, multi_listen_body, notice_body, webhook_body, FollowPlan, ForwardPlan};

#[test]
fn webhook_json() {
    let m = SimpleMessage { id: 42, chat_id: -5, content: MessageContent::Text("hi \"you\"\n".to_string()) };
    assert_eq!(webhook_body(&m), Some("{\"content\":\"hi \\\"you\\\"\\n\",\"id\":42}".to_string()));
    let none = SimpleMessage { id: 1, chat_id: 1, content: MessageContent::Unsupported };
    assert_eq!(webhook_body(&none), None);
}

#[test]
fn bot_url() {
    assert_eq!(bot_send_url("123:abc"), "https://api.telegram.org/bot123:abc/sendMessage");
}

#[test]
fn notices() {
    let b = notice_body(-100, None, &MessageContent::Text("hey".to_string()), Some("https://t.me/c/1/2".to_string()));
    assert_eq!(b, "{\"chat_id\":-100,\"message_thread_id\":0,\"text\":\"hey\\nhttps://t.me/c/1/2\"}");
    let b = notice_body(3, Some(9), &MessageContent::Unsupported, None);
    assert_eq!(b, "{\"chat_id\":3,\"message_thread_id\":9,\"text\":\"暂不支持的消息类型\\nnolink\"}");
}

fn follow_args(webhook: bool, forward: Option<i64>) -> FollowArgs {
    FollowArgs {
        user_id: vec![7, 8],
        forward_chat_id: forward,
        forward_topic_id: None,
        forward_chat_archive: false,
        webhook_url: if webhook { Some("http://hook".to_string()) } else { None },
    }
}

fn msg(chat_id: i64, sender: i64, content: MessageContent) -> IncomingMessage {
    IncomingMessage { id: 5, chat_id, sender: MessageSender::User(sender), content, reply_markup: None }
}

#[test]
fn follow_plans() {
    let a = follow_args(true, Some(100));
    assert_eq!(follow_plan(&a, &msg(1, 9, MessageContent::Text("x".to_string())), true), FollowPlan::Ignore);
    assert_eq!(follow_plan(&a, &msg(100, 7, MessageContent::Text("x".to_string())), true), FollowPlan::Ignore);
    assert_eq!(
        follow_plan(&a, &msg(1, 7, MessageContent::Text("x".to_string())), true),
        FollowPlan::Relay {
            webhook_body: Some("{\"content\":\"x\",\"id\":5}".to_string()),
            forward: ForwardPlan::Send { chat_id: 100, topic_id: 0 },
        }
    );
    assert_eq!(
        follow_plan(&a, &msg(1, 8, MessageContent::Unsupported), false),
        FollowPlan::Relay { webhook_body: None, forward: ForwardPlan::MissingBotToken }
    );
    let plain = follow_args(false, None);
    assert_eq!(
        follow_plan(&plain, &IncomingMessage { id: 5, chat_id: 1, sender: MessageSender::Chat(8), content: MessageContent::Text("x".to_string()), reply_markup: None }, true),
        FollowPlan::Relay { webhook_body: None, forward: ForwardPlan::Skip }
    );
}

#[test]
fn multi_listen_bodies() {
    let a = MultiListenArgs { chat_id: vec![1, 2], archive: false, webhook_url: "http://h".to_string() };
    let m = SimpleMessage { id: 3, chat_id: 2, content: MessageContent::Document("doc".to_string()) };
    assert_eq!(multi_listen_body(&a, &m), Some("{\"content\":\"doc\",\"id\":3}".to_string()));
    let other = SimpleMessage { id: 3, chat_id: 5, content: MessageContent::Document("doc".to_string()) };
    assert_eq!(multi_listen_body(&a, &other), None);
}

#[test]
fn listen_bodies() {
    let a = ListenArgs { chat_id: 4, archive: false, history: false, max_history: 100, webhook_url: "http://h".to_string() };
    let m = SimpleMessage { id: 8, chat_id: 4, content: MessageContent::Text("t".to_string()) };
    assert_eq!(listen_body(&a, &m), Some("{\"content\":\"t\",\"id\":8}".to_string()));
    let other = SimpleMessage { id: 8, chat_id: 5, content: MessageContent::Text("t".to_string()) };
    assert_eq!(listen_body(&a, &other), None);
}

#[test]
fn history_paging() {
    let mut h = HistoryPaging::new(3);
    let step = h.on_batch(&vec![50, 40]);
    assert_eq!(step, HistoryStep { fresh: vec![0, 1], next_from: Some(40) });
    // the batch starting at 40 repeats it; only older ones are new
    let step = h.on_batch(&vec![40, 30, 20]);
    assert_eq!(step, HistoryStep { fresh: vec![1, 2], next_from: None });
    assert_eq!(h.fetched, 4);
    let mut e = HistoryPaging::new(10);
    assert_eq!(e.on_batch(&vec![]), HistoryStep { fresh: vec![], next_from: None });
    let mut f = HistoryPaging::new(10);
    f.on_batch(&vec![9]);
    assert_eq!(f.on_batch(&vec![9]), HistoryStep { fresh: vec![], next_from: None });
}
