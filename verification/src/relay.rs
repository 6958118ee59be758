//! Passing messages on: to a webhook as JSON, and to a chat through the
//! Telegram bot API.
use vstd::prelude::*;
use crate::config::{FollowArgs, ListenArgs, MultiListenArgs};
use crate::message::{
    IncomingMessage, MessageContent, SimpleMessage, UNSUPPORTED_CONTENT, content_text, content_text_or,
};
use crate::chat_search::contains_id;

verus! {

/// A value of a flat JSON object.
#[derive(Clone, Debug)]
pub enum JsonScalar {
    Int(i64),
    Text(String),
}

/// A JSON value, with its text as a character sequence.
pub enum JsonScalarView {
    Int(i64),
    Text(Seq<char>),
}

impl View for JsonScalar {
    type V = JsonScalarView;

    open spec fn view(&self) -> JsonScalarView {
        match self {
            JsonScalar::Int(n) => JsonScalarView::Int(*n),
            JsonScalar::Text(s) => JsonScalarView::Text(s@),
        }
    }
}

/// The fields of an object, by view.
pub open spec fn field_views(fields: Seq<(String, JsonScalar)>) -> Seq<(Seq<char>, JsonScalarView)> {
    fields.map_values(|f: (String, JsonScalar)| (f.0@, f.1@))
}

/// The compact JSON text that serde_json writes for the object with these
/// fields.
pub uninterp spec fn json_object_text(fields: Seq<(Seq<char>, JsonScalarView)>) -> Seq<char>;

/// Writes a flat JSON object with serde_json: the fields go into a
/// `serde_json::Map`, and the `Display` of `serde_json::Value::Object`
/// writes it. What the text is, is left to serde_json and named by
/// `json_object_text`; nothing more is stated of it.
#[verifier::external_body]
fn json_object(fields: Vec<(String, JsonScalar)>) -> (s: String)
    ensures
        s@ == json_object_text(field_views(fields@)),
{
    let mut map = serde_json::Map::new();
    for (key, value) in fields {
        let v = match value {
            JsonScalar::Int(n) => serde_json::Value::from(n),
            JsonScalar::Text(t) => serde_json::Value::String(t),
        };
        map.insert(key, v);
    }
    serde_json::Value::Object(map).to_string()
}

/// The fields of a webhook call for the message `id` with text `content`.
pub open spec fn webhook_fields(id: i64, content: Seq<char>) -> Seq<(Seq<char>, JsonScalarView)> {
    seq![("id"@, JsonScalarView::Int(id)), ("content"@, JsonScalarView::Text(content))]
}

/// The body of the webhook call for a message: the JSON object with its id
/// and its text; no call is made for a message without text.
pub fn webhook_body(msg: &SimpleMessage) -> (b: Option<String>)
    ensures
        b is None <==> content_text(msg.content) is None,
        b matches Some(s) ==> s@ == json_object_text(webhook_fields(msg.id, content_text(msg.content)->0)),
{
    webhook_body_for(msg.id, &msg.content)
}

/// The body of the webhook call for the message `id` with this content.
pub fn webhook_body_for(id: i64, content: &MessageContent) -> (b: Option<String>)
    ensures
        b is None <==> content_text(*content) is None,
        b matches Some(s) ==> s@ == json_object_text(webhook_fields(id, content_text(*content)->0)),
{
    match content.text() {
        None => None,
        Some(t) => {
            let ghost tv = t@;
            let mut fields: Vec<(String, JsonScalar)> = Vec::new();
            fields.push((String::from_str("id"), JsonScalar::Int(id)));
            fields.push((String::from_str("content"), JsonScalar::Text(t)));
            assert(field_views(fields@) =~= webhook_fields(id, tv));
            Some(json_object(fields))
        },
    }
}

/// The address of the bot API method that sends a message, for the bot
/// `token`.
pub open spec fn send_message_url(token: Seq<char>) -> Seq<char> {
    "https://api.telegram.org/bot"@ + token + "/sendMessage"@
}

pub fn bot_send_url(token: &str) -> (u: String)
    ensures
        u@ == send_message_url(token@),
{
    let mut u = String::from_str("https://api.telegram.org/bot");
    u.append(token);
    u.append("/sendMessage");
    u
}

/// The text of a notice: the message's text (or a placeholder where it has
/// none), a line break, and the link to the message (or `nolink`).
pub open spec fn notice_text(content: MessageContent, link: Option<Seq<char>>) -> Seq<char> {
    content_text_or(content, UNSUPPORTED_CONTENT@) + "\n"@ + match link {
        Some(l) => l,
        None => "nolink"@,
    }
}

/// The fields of the bot API call that posts a notice.
pub open spec fn notice_fields(chat_id: i64, topic_id: i64, text: Seq<char>) -> Seq<(Seq<char>, JsonScalarView)> {
    seq![
        ("chat_id"@, JsonScalarView::Int(chat_id)),
        ("text"@, JsonScalarView::Text(text)),
        ("message_thread_id"@, JsonScalarView::Int(topic_id)),
    ]
}

/// The body of the bot API call that posts a notice of a message to
/// `chat_id`, in `topic_id` (0 for none).
pub fn notice_body(chat_id: i64, topic_id: Option<i64>, content: &MessageContent, link: Option<String>) -> (b: String)
    ensures
        b@ == json_object_text(
            notice_fields(
                chat_id,
                match topic_id {
                    Some(t) => t,
                    None => 0,
                },
                notice_text(
                    *content,
                    match link {
                        Some(l) => Some(l@),
                        None => None,
                    },
                ),
            ),
        ),
{
    let mut text = content.text_or(UNSUPPORTED_CONTENT);
    text.append("\n");
    match &link {
        Some(l) => text.append(l.as_str()),
        None => text.append("nolink"),
    }
    let topic = match topic_id {
        Some(t) => t,
        None => 0,
    };
    let ghost tv = text@;
    let mut fields: Vec<(String, JsonScalar)> = Vec::new();
    fields.push((String::from_str("chat_id"), JsonScalar::Int(chat_id)));
    fields.push((String::from_str("text"), JsonScalar::Text(text)));
    fields.push((String::from_str("message_thread_id"), JsonScalar::Int(topic)));
    assert(field_views(fields@) =~= notice_fields(chat_id, topic, tv));
    json_object(fields)
}

// ---------------------------------------------------------------------------
// Following users.
// ---------------------------------------------------------------------------

/// How a notice of a followed user's message goes out.
#[derive(Clone, Copy, Debug, PartialEq, Eq, Structural)]
pub enum ForwardPlan {
    /// No chat to notify.
    Skip,
    /// A chat to notify, but no bot to do it with: warn and go on.
    MissingBotToken,
    /// Post a notice to this chat and topic through the bot.
    Send { chat_id: i64, topic_id: i64 },
}

/// What to do with a message while following users.
#[derive(Clone, Debug, PartialEq, Eq)]
pub enum FollowPlan {
    /// Not from a followed user, or posted in the notice chat itself.
    Ignore,
    /// From a followed user: call the webhook with this body (where one is
    /// set and the message has text), then forward as planned.
    Relay { webhook_body: Option<String>, forward: ForwardPlan },
}

/// The plan for a message while following `args.user_id`: messages of the
/// notice chat are ignored; messages of a followed user go to the webhook
/// (if set) and, through the bot (if its token is set), to the notice chat.
pub fn follow_plan(args: &FollowArgs, msg: &IncomingMessage, has_bot_token: bool) -> (p: FollowPlan)
    ensures
        (args.forward_chat_id == Some(msg.chat_id) || !args.user_id@.contains(msg.sender.spec_id())) <==> p
            is Ignore,
        p matches FollowPlan::Relay { webhook_body, forward } ==> ({
            &&& (webhook_body is Some <==> (args.webhook_url is Some && content_text(msg.content) is Some))
            &&& (webhook_body matches Some(b) ==> b@ == json_object_text(
                webhook_fields(msg.id, content_text(msg.content)->0),
            ))
            &&& forward == match args.forward_chat_id {
                None => ForwardPlan::Skip,
                Some(c) => if has_bot_token {
                    ForwardPlan::Send {
                        chat_id: c,
                        topic_id: match args.forward_topic_id {
                            Some(t) => t,
                            None => 0,
                        },
                    }
                } else {
                    ForwardPlan::MissingBotToken
                },
            }
        }),
{
    if let Some(f) = args.forward_chat_id {
        if msg.chat_id == f {
            return FollowPlan::Ignore;
        }
    }
    if !contains_id(&args.user_id, msg.sender.id()) {
        return FollowPlan::Ignore;
    }
    let webhook_body = if args.webhook_url.is_some() {
        webhook_body_for(msg.id, &msg.content)
    } else {
        None
    };
    let forward = match args.forward_chat_id {
        None => ForwardPlan::Skip,
        Some(c) => {
            if has_bot_token {
                let topic_id = match args.forward_topic_id {
                    Some(t) => t,
                    None => 0,
                };
                ForwardPlan::Send { chat_id: c, topic_id }
            } else {
                ForwardPlan::MissingBotToken
            }
        },
    };
    FollowPlan::Relay { webhook_body, forward }
}

/// The webhook body for a message while listening to the chats of `args`:
/// only messages of those chats that have text are passed on.
pub fn multi_listen_body(args: &MultiListenArgs, msg: &SimpleMessage) -> (b: Option<String>)
    ensures
        b is Some <==> (args.chat_id@.contains(msg.chat_id) && content_text(msg.content) is Some),
        b matches Some(s) ==> s@ == json_object_text(webhook_fields(msg.id, content_text(msg.content)->0)),
{
    if contains_id(&args.chat_id, msg.chat_id) {
        webhook_body(msg)
    } else {
        None
    }
}

/// The webhook body for a message while listening to the chat of `args`:
/// only messages of that chat that have text are passed on.
pub fn listen_body(args: &ListenArgs, msg: &SimpleMessage) -> (b: Option<String>)
    ensures
        b is Some <==> (msg.chat_id == args.chat_id && content_text(msg.content) is Some),
        b matches Some(s) ==> s@ == json_object_text(webhook_fields(msg.id, content_text(msg.content)->0)),
{
    if msg.chat_id == args.chat_id {
        webhook_body(msg)
    } else {
        None
    }
}

// ---------------------------------------------------------------------------
// Reading a chat's history.
// ---------------------------------------------------------------------------

/// The positions `0..n`.
pub open spec fn positions(n: nat) -> Seq<usize> {
    Seq::new(n, |k: int| k as usize)
}

/// The predicate "the message at this position was not passed on yet":
/// older than every message passed on so far (history comes newest first).
pub open spec fn is_fresh(ids: Seq<i64>, before: i64) -> spec_fn(usize) -> bool {
    |k: usize| before == 0 || ids[k as int] < before
}

/// Once some messages have been passed on, only strictly older ones are
/// passed on after them: the oldest one passed on, and anything newer, is
/// never passed on again; before any, every message is new.
pub proof fn lemma_history_never_repeats(ids: Seq<i64>, before: i64, k: usize)
    ensures
        before != 0 && is_fresh(ids, before)(k) ==> ids[k as int] < before,
        before != 0 && ids[k as int] >= before ==> !is_fresh(ids, before)(k),
        is_fresh(ids, 0)(k),
{
}

/// Reading a chat's history, newest first, in batches: the id of the oldest
/// message passed on so far (0 before the first batch), how many were passed
/// on, and the most to pass on (a batch may go beyond it).
#[derive(Clone, Copy, Debug)]
pub struct HistoryPaging {
    pub before: i64,
    pub fetched: usize,
    pub max: usize,
}

/// The decision on a batch of history: the positions of its messages to
/// pass on, in order, and the message to fetch the next batch from (none
/// when the history is done).
#[derive(Clone, Debug, PartialEq, Eq)]
pub struct HistoryStep {
    pub fresh: Vec<usize>,
    pub next_from: Option<i64>,
}

impl HistoryPaging {
    /// Reading at most `max` messages; the first batch starts at the latest
    /// message (id 0).
    pub fn new(max: usize) -> (h: Self)
        ensures
            h.before == 0,
            h.fetched == 0,
            h.max == max,
    {
        HistoryPaging { before: 0, fetched: 0, max }
    }

    /// Decides on a batch of message ids (newest first): the messages older
    /// than all passed on so far are passed on; the reading goes on from the
    /// last of them unless none was new or `max` messages have been passed
    /// on.
    pub fn on_batch(&mut self, ids: &Vec<i64>) -> (step: HistoryStep)
        requires
            old(self).fetched + ids.len() <= usize::MAX,
        ensures
            step.fresh@ == positions(ids.len() as nat).filter(is_fresh(ids@, old(self).before)),
            final(self).fetched == old(self).fetched + step.fresh.len(),
            final(self).max == old(self).max,
            step.fresh.len() == 0 ==> final(self).before == old(self).before && step.next_from is None,
            step.fresh.len() > 0 ==> final(self).before == ids@[step.fresh@.last() as int],
            step.fresh.len() > 0 ==> (step.next_from is None <==> final(self).fetched >= final(self).max),
            step.next_from matches Some(f) ==> f == final(self).before,
    {
        let ghost pred = is_fresh(ids@, old(self).before);
        let mut fresh: Vec<usize> = Vec::new();
        for k in 0..ids.len()
            invariant
                pred == is_fresh(ids@, old(self).before),
                self.before == old(self).before,
                fresh@ == positions(k as nat).filter(pred),
                fresh.len() <= k,
                forall|j: int| 0 <= j < fresh.len() ==> fresh@[j] < k,
        {
            proof {
                assert(positions((k + 1) as nat) =~= positions(k as nat).push(k));
                positions(k as nat).lemma_filter_push(k, pred);
            }
            if self.before == 0 || ids[k] < self.before {
                fresh.push(k);
            }
        }
        self.fetched = self.fetched + fresh.len();
        if fresh.len() == 0 {
            return HistoryStep { fresh, next_from: None };
        }
        let last = fresh[fresh.len() - 1];
        self.before = ids[last];
        let next_from = if self.fetched >= self.max {
            None
        } else {
            Some(self.before)
        };
        HistoryStep { fresh, next_from }
    }
}

} // verus!
