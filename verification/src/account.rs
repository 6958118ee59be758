//! Registering an account with a bot: pressing its create button, answering
//! its prompt, and watching groups for the bot to open registration.
use vstd::prelude::*;
use crate::config::{CreateAccountArgs, CreateAccountListenArgs};
use crate::message::{
    ButtonFilter, FilterView, IncomingMessage, MessageContent, ReplyMarkup, content_text_or, select_buttons,
    selected_positions,
};
use crate::text::{has_sub, lines_starting_with, split_on, str_contains, views, begins_with};

verus! {

/// The text that a create-account button holds.
pub open spec fn create_button_text() -> Seq<char> {
    "创建账户"@
}

/// What to do after pressing the create-account button, given the bot's
/// answer (`None` when the press failed).
#[derive(Clone, Copy, Debug, PartialEq, Eq, Structural)]
pub enum PressVerdict {
    /// Already registered: stop listening to the bot.
    StopListening,
    /// Wait the configured interval and press again.
    RetryAfterPause,
    /// Go on with the next button.
    NextButton,
}

/// The verdict on a press of the create-account button: a failed press and
/// "自助注册已关闭" (self-registration closed) are retried; "请勿重复注册"
/// (do not register twice) ends the listening; anything else moves on.
pub open spec fn press_verdict_of(answer: Option<Seq<char>>) -> PressVerdict {
    match answer {
        None => PressVerdict::RetryAfterPause,
        Some(t) => if has_sub(t, "请勿重复注册"@) {
            PressVerdict::StopListening
        } else if has_sub(t, "自助注册已关闭"@) {
            PressVerdict::RetryAfterPause
        } else {
            PressVerdict::NextButton
        },
    }
}

/// A failed press is retried; an answer that says registration is closed
/// ("自助注册已关闭"), wherever it says so, is retried unless it also says
/// not to register twice ("请勿重复注册"), which always stops; only an
/// answer that says neither moves on to the next button.
pub proof fn lemma_press_verdicts(a: Seq<char>, b: Seq<char>, t: Seq<char>)
    ensures
        press_verdict_of(None) == PressVerdict::RetryAfterPause,
        !has_sub(a + "自助注册已关闭"@ + b, "请勿重复注册"@) ==> press_verdict_of(Some(a + "自助注册已关闭"@ + b))
            == PressVerdict::RetryAfterPause,
        press_verdict_of(Some(a + "请勿重复注册"@ + b)) == PressVerdict::StopListening,
        press_verdict_of(Some(t)) == PressVerdict::NextButton <==> !has_sub(t, "自助注册已关闭"@) && !has_sub(
            t,
            "请勿重复注册"@,
        ),
{
    crate::text::lemma_holds_inserted(a, "自助注册已关闭"@, b);
    crate::text::lemma_holds_inserted(a, "请勿重复注册"@, b);
}

/// Decides after a press of the create-account button (see `press_verdict_of`).
pub fn press_verdict(answer: Option<&str>) -> (v: PressVerdict)
    ensures
        v == press_verdict_of(
            match answer {
                Some(t) => Some(t@),
                None => None,
            },
        ),
        answer is None ==> v == PressVerdict::RetryAfterPause,
        answer matches Some(t) ==> (has_sub(t@, "请勿重复注册"@) <==> v == PressVerdict::StopListening),
        answer matches Some(t) ==> (has_sub(t@, "自助注册已关闭"@) && !has_sub(t@, "请勿重复注册"@) ==> v
            == PressVerdict::RetryAfterPause),
        answer matches Some(t) ==> (v == PressVerdict::NextButton <==> !has_sub(t@, "自助注册已关闭"@)
            && !has_sub(t@, "请勿重复注册"@)),
{
    match answer {
        None => PressVerdict::RetryAfterPause,
        Some(t) => {
            if str_contains(t, "请勿重复注册") {
                PressVerdict::StopListening
            } else if str_contains(t, "自助注册已关闭") {
                PressVerdict::RetryAfterPause
            } else {
                PressVerdict::NextButton
            }
        },
    }
}

/// The message that answers the bot's registration prompt: the account
/// name and the security code, separated by a space.
pub open spec fn account_info(name: Seq<char>, code: Seq<char>) -> Seq<char> {
    name + " "@ + code
}

/// How to react to a message while registering.
#[derive(Clone, Debug, PartialEq, Eq)]
pub enum BotReaction {
    /// Not for us, or nothing to do.
    Ignore,
    /// Press these buttons (row, column), in order, as create buttons.
    PressCreateButtons(Vec<(usize, usize)>),
    /// Send this message with the account details.
    SendAccountInfo(String),
    /// The message has no markup and no text: report that it has no buttons.
    NoButtons,
}

/// The reaction to a message while registering with the bot in
/// `args.chat_id`: messages of other chats are ignored; an inline keyboard
/// means pressing its callback buttons that hold "创建账户"; another markup
/// is ignored; without markup, a text holding "您已进入注册状态"
/// (registration begun) is answered with the account details, another text
/// is ignored, and a content that is no text is reported as having no
/// buttons.
pub fn react_to_bot_message(msg: &IncomingMessage, args: &CreateAccountArgs) -> (r: BotReaction)
    ensures
        msg.chat_id != args.chat_id ==> r == BotReaction::Ignore,
        msg.chat_id == args.chat_id ==> match msg.reply_markup {
            Some(ReplyMarkup::InlineKeyboard(rows)) => r matches BotReaction::PressCreateButtons(ps)
                && ps@ == selected_positions(rows@, FilterView::CallbackContaining(create_button_text())),
            Some(ReplyMarkup::Other) => r == BotReaction::Ignore,
            None => if msg.content matches MessageContent::Text(t) && has_sub(t@, "您已进入注册状态"@) {
                r matches BotReaction::SendAccountInfo(m) && m@ == account_info(
                    args.account_name@,
                    args.security_code@,
                )
            } else if msg.content is Text {
                r == BotReaction::Ignore
            } else {
                r == BotReaction::NoButtons
            },
        },
{
    if msg.chat_id != args.chat_id {
        return BotReaction::Ignore;
    }
    match &msg.reply_markup {
        Some(ReplyMarkup::InlineKeyboard(rows)) => {
            let f = ButtonFilter::CallbackContaining(String::from_str("创建账户"));
            let ps = select_buttons(rows, &f);
            BotReaction::PressCreateButtons(ps)
        },
        Some(ReplyMarkup::Other) => BotReaction::Ignore,
        None => {
            if msg.content.is_text_holding("您已进入注册状态") {
                let mut m = args.account_name.clone();
                m.append(" ");
                m.append(args.security_code.as_str());
                BotReaction::SendAccountInfo(m)
            } else if matches!(msg.content, MessageContent::Text(_)) {
                BotReaction::Ignore
            } else {
                BotReaction::NoButtons
            }
        },
    }
}

// ---------------------------------------------------------------------------
// Waiting for registration to open.
// ---------------------------------------------------------------------------

/// Whether a text announces that registration is open: it mentions free
/// ("自由注册") or timed ("定时注册") registration, and "已开启" (opened).
pub open spec fn announces_registration(t: Seq<char>) -> bool {
    (has_sub(t, "自由注册"@) || has_sub(t, "定时注册"@)) && has_sub(t, "已开启"@)
}

/// A text announces registration exactly when it mentions free or timed
/// registration somewhere and "已开启" (opened) somewhere, in either order.
pub proof fn lemma_announcement(a: Seq<char>, b: Seq<char>, c: Seq<char>, d: Seq<char>, t: Seq<char>)
    ensures
        t == a + "自由注册"@ + b && t == c + "已开启"@ + d ==> announces_registration(t),
        t == a + "定时注册"@ + b && t == c + "已开启"@ + d ==> announces_registration(t),
        announces_registration(t) ==> has_sub(t, "已开启"@) && (has_sub(t, "自由注册"@) || has_sub(
            t,
            "定时注册"@,
        )),
{
    crate::text::lemma_holds_inserted(a, "自由注册"@, b);
    crate::text::lemma_holds_inserted(a, "定时注册"@, b);
    crate::text::lemma_holds_inserted(c, "已开启"@, d);
}

/// Whether a text announces that registration is open.
pub fn is_registration_announcement(t: &str) -> (b: bool)
    ensures
        b == announces_registration(t@),
        b <==> (has_sub(t@, "自由注册"@) || has_sub(t@, "定时注册"@)) && has_sub(t@, "已开启"@),
{
    (str_contains(t, "自由注册") || str_contains(t, "定时注册")) && str_contains(t, "已开启")
}

/// Whether `msg` is the bot `bot_id` announcing in the chat `chat_id` that
/// registration is open (a content without text counts as empty text).
pub fn registration_opened(msg: &IncomingMessage, chat_id: i64, bot_id: i64) -> (b: bool)
    ensures
        b == (msg.chat_id == chat_id && msg.sender.spec_id() == bot_id && announces_registration(
            content_text_or(msg.content, Seq::empty()),
        )),
{
    if msg.chat_id != chat_id || msg.sender.id() != bot_id {
        return false;
    }
    let t = msg.content.text_or("");
    proof {
        reveal_strlit("");
        assert(""@ =~= Seq::<char>::empty());
    }
    is_registration_announcement(t.as_str())
}

/// The arguments of the registration that follows an announcement in the
/// group of `listen`: with the bot's chat `bot_chat_id`, and 100 ms between
/// presses.
pub fn registration_args(listen: &CreateAccountListenArgs) -> (a: CreateAccountArgs)
    ensures
        a.chat_id == listen.bot_chat_id,
        a.archive == listen.bot_archive,
        a.account_name@ == listen.account_name@,
        a.security_code@ == listen.security_code@,
        a.type_button_interval_mills == 100,
{
    CreateAccountArgs {
        chat_id: listen.bot_chat_id,
        archive: listen.bot_archive,
        account_name: listen.account_name.clone(),
        security_code: listen.security_code.clone(),
        type_button_interval_mills: 100,
    }
}

// ---------------------------------------------------------------------------
// Watching several groups.
// ---------------------------------------------------------------------------

/// The arguments of the groups, keyed by group chat id: where several name
/// the same group, the later one counts.
pub open spec fn keyed(items: Seq<CreateAccountListenArgs>) -> Map<i64, CreateAccountListenArgs>
    decreases items.len(),
{
    if items.len() == 0 {
        Map::empty()
    } else {
        keyed(items.drop_last()).insert(items.last().chat_id, items.last())
    }
}

/// Of the argument sets naming the same group, the later one counts, and
/// adding one leaves the other groups as they were; the groups are exactly
/// those that some argument set names.
pub proof fn lemma_later_entry_wins(items: Seq<CreateAccountListenArgs>, x: CreateAccountListenArgs, id: i64)
    ensures
        keyed(items.push(x)).contains_key(x.chat_id) && keyed(items.push(x))[x.chat_id] == x,
        id != x.chat_id ==> (keyed(items.push(x)).contains_key(id) == keyed(items).contains_key(id)),
        id != x.chat_id && keyed(items).contains_key(id) ==> keyed(items.push(x))[id] == keyed(items)[id],
        keyed(items).contains_key(id) <==> exists|j: int| 0 <= j < items.len() && #[trigger] items[j].chat_id == id,
    decreases items.len(),
{
    assert(items.push(x).drop_last() =~= items);
    if items.len() > 0 {
        lemma_later_entry_wins(items.drop_last(), items.last(), id);
        assert(items.drop_last().push(items.last()) =~= items);
        if keyed(items).contains_key(id) && id != items.last().chat_id {
            let j = choose|j: int| 0 <= j < items.drop_last().len() && #[trigger] items.drop_last()[j].chat_id == id;
            assert(items[j].chat_id == id);
        }
        if exists|j: int| 0 <= j < items.len() && #[trigger] items[j].chat_id == id {
            let j = choose|j: int| 0 <= j < items.len() && #[trigger] items[j].chat_id == id;
            if j < items.len() - 1 {
                assert(items.drop_last()[j].chat_id == id);
            }
        }
    }
}

/// No two entries name the same group.
pub open spec fn distinct_chats(s: Seq<CreateAccountListenArgs>) -> bool {
    forall|i: int, j: int| 0 <= i < j < s.len() ==> s[i].chat_id != s[j].chat_id
}

/// The groups being watched, each with its arguments.
#[derive(Debug)]
pub struct ListenRegistry {
    entries: Vec<CreateAccountListenArgs>,
}

impl View for ListenRegistry {
    type V = Map<i64, CreateAccountListenArgs>;

    closed spec fn view(&self) -> Map<i64, CreateAccountListenArgs> {
        keyed(self.entries@)
    }
}

/// Replacing the entry of a group replaces its arguments in the map.
proof fn lemma_keyed_update(s: Seq<CreateAccountListenArgs>, j: int, x: CreateAccountListenArgs)
    requires
        distinct_chats(s),
        0 <= j < s.len(),
        x.chat_id == s[j].chat_id,
    ensures
        keyed(s.update(j, x)) == keyed(s).insert(x.chat_id, x),
    decreases s.len(),
{
    let u = s.update(j, x);
    if j == s.len() - 1 {
        assert(u.drop_last() =~= s.drop_last());
        assert(keyed(u) =~= keyed(s).insert(x.chat_id, x));
    } else {
        assert(u.drop_last() =~= s.drop_last().update(j, x));
        lemma_keyed_update(s.drop_last(), j, x);
        assert(s.last().chat_id != x.chat_id);
        assert(keyed(u) =~= keyed(s).insert(x.chat_id, x));
    }
}

/// With distinct groups, each entry is what the map holds for its group,
/// and the map holds only those groups.
proof fn lemma_keyed_lookup(s: Seq<CreateAccountListenArgs>)
    requires
        distinct_chats(s),
    ensures
        forall|j: int| 0 <= j < s.len() ==> keyed(s).contains_key(#[trigger] s[j].chat_id) && keyed(s)[s[j].chat_id] == s[j],
        forall|id: i64| keyed(s).contains_key(id) ==> exists|j: int| 0 <= j < s.len() && #[trigger] s[j].chat_id == id,
    decreases s.len(),
{
    if s.len() > 0 {
        let d = s.drop_last();
        lemma_keyed_lookup(d);
        assert forall|j: int| 0 <= j < s.len() implies keyed(s).contains_key(#[trigger] s[j].chat_id)
            && keyed(s)[s[j].chat_id] == s[j] by {
            if j < s.len() - 1 {
                assert(d[j] == s[j]);
                assert(s[j].chat_id != s.last().chat_id);
            }
        }
        assert forall|id: i64| keyed(s).contains_key(id) implies exists|j: int|
            0 <= j < s.len() && #[trigger] s[j].chat_id == id by {
            if id != s.last().chat_id {
                assert(keyed(d).contains_key(id));
                let j = choose|j: int| 0 <= j < d.len() && #[trigger] d[j].chat_id == id;
                assert(s[j].chat_id == id);
            } else {
                assert(s[s.len() - 1].chat_id == id);
            }
        }
    }
}

impl ListenRegistry {
    #[verifier::type_invariant]
    closed spec fn inv(&self) -> bool {
        distinct_chats(self.entries@)
    }

    /// The registry of `items`, keyed by group chat id; where several name
    /// the same group, the later one counts.
    pub fn from_args(items: Vec<CreateAccountListenArgs>) -> (r: Self)
        ensures
            r@ == keyed(items@),
    {
        let mut entries: Vec<CreateAccountListenArgs> = Vec::new();
        let mut rest = items;
        let ghost consumed: Seq<CreateAccountListenArgs> = Seq::empty();
        while rest.len() > 0
            invariant
                items@ == consumed + rest@,
                distinct_chats(entries@),
                keyed(entries@) == keyed(consumed),
            decreases rest.len(),
        {
            let x = rest.remove(0);
            let ghost next = consumed.push(x);
            proof {
                assert(next.drop_last() == consumed);
                assert(items@ =~= next + rest@);
            }
            let mut k: usize = 0;
            let mut pos: Option<usize> = None;
            while k < entries.len()
                invariant
                    k <= entries.len(),
                    pos is None ==> forall|m: int| 0 <= m < k ==> entries@[m].chat_id != x.chat_id,
                    pos matches Some(j) ==> j < entries.len() && entries@[j as int].chat_id == x.chat_id,
                decreases entries.len() - k,
            {
                if pos.is_none() && entries[k].chat_id == x.chat_id {
                    pos = Some(k);
                }
                k += 1;
            }
            match pos {
                Some(j) => {
                    let ghost before = entries@;
                    proof {
                        lemma_keyed_update(before, j as int, x);
                    }
                    entries.set(j, x);
                    assert(entries@ == before.update(j as int, x));
                    assert(distinct_chats(entries@)) by {
                        assert forall|a: int, b: int| 0 <= a < b < entries@.len() implies entries@[a].chat_id
                            != entries@[b].chat_id by {
                            assert(entries@[a].chat_id == before[a].chat_id);
                            assert(entries@[b].chat_id == before[b].chat_id);
                        }
                    }
                },
                None => {
                    let ghost before = entries@;
                    entries.push(x);
                    assert(entries@.drop_last() == before);
                },
            }
            proof {
                consumed = next;
            }
        }
        assert(consumed =~= items@);
        ListenRegistry { entries }
    }

    /// The arguments of the group `chat_id`, if it is watched.
    pub fn get(&self, chat_id: i64) -> (a: Option<&CreateAccountListenArgs>)
        ensures
            a matches Some(x) ==> self@.contains_key(chat_id) && self@[chat_id] == *x,
            a is None ==> !self@.contains_key(chat_id),
    {
        proof {
            use_type_invariant(self);
            lemma_keyed_lookup(self.entries@);
        }
        let mut k: usize = 0;
        while k < self.entries.len()
            invariant
                k <= self.entries.len(),
                forall|m: int| 0 <= m < k ==> self.entries@[m].chat_id != chat_id,
            decreases self.entries.len() - k,
        {
            if self.entries[k].chat_id == chat_id {
                proof {
                    use_type_invariant(self);
                    lemma_keyed_lookup(self.entries@);
                }
                assert(self.entries@[k as int].chat_id == chat_id);
                assert(keyed(self.entries@).contains_key(self.entries@[k as int].chat_id));
                assert(keyed(self.entries@)[chat_id] == self.entries@[k as int]);
                return Some(&self.entries[k]);
            }
            k += 1;
        }
        proof {
            if self@.contains_key(chat_id) {
                let j = choose|j: int| 0 <= j < self.entries@.len() && #[trigger] self.entries@[j].chat_id == chat_id;
                assert(self.entries@[j].chat_id != chat_id);
            }
        }
        None
    }

    /// The group chat ids, each once.
    pub fn chat_ids(&self) -> (ids: Vec<i64>)
        ensures
            forall|id: i64| ids@.contains(id) <==> self@.contains_key(id),
            ids.len() == self@.len(),
            ids@.no_duplicates(),
    {
        proof {
            use_type_invariant(self);
            lemma_keyed_lookup(self.entries@);
        }
        let mut ids: Vec<i64> = Vec::new();
        for k in 0..self.entries.len()
            invariant
                ids@ == self.entries@.take(k as int).map_values(|e: CreateAccountListenArgs| e.chat_id),
        {
            ids.push(self.entries[k].chat_id);
            assert(self.entries@.take(k + 1) =~= self.entries@.take(k as int).push(self.entries@[k as int]));
            assert(ids@ =~= self.entries@.take(k + 1).map_values(|e: CreateAccountListenArgs| e.chat_id));
        }
        assert(self.entries@.take(self.entries.len() as int) =~= self.entries@);
        proof {
            assert forall|id: i64| ids@.contains(id) <==> self@.contains_key(id) by {
                if self@.contains_key(id) {
                    let j = choose|j: int| 0 <= j < self.entries@.len() && #[trigger] self.entries@[j].chat_id == id;
                    assert(ids@[j] == id);
                }
                if ids@.contains(id) {
                    let j = choose|j: int| 0 <= j < ids@.len() && ids@[j] == id;
                    assert(self.entries@[j].chat_id == id);
                }
            }
            lemma_distinct_keys_len(self.entries@);
            assert forall|a: int, b: int| 0 <= a < ids.len() && 0 <= b < ids.len() && a != b implies ids@[a]
                != ids@[b] by {
                assert(ids@[a] == self.entries@[a].chat_id && ids@[b] == self.entries@[b].chat_id);
            }
        }
        ids
    }
}

/// The keyed map of distinct entries has as many keys as entries.
proof fn lemma_distinct_keys_len(s: Seq<CreateAccountListenArgs>)
    requires
        distinct_chats(s),
    ensures
        keyed(s).dom().finite(),
        keyed(s).len() == s.len(),
    decreases s.len(),
{
    if s.len() > 0 {
        let d = s.drop_last();
        lemma_distinct_keys_len(d);
        lemma_keyed_lookup(d);
        if keyed(d).contains_key(s.last().chat_id) {
            let j = choose|j: int| 0 <= j < d.len() && #[trigger] d[j].chat_id == s.last().chat_id;
            assert(s[j].chat_id == s[s.len() - 1].chat_id);
        }
    }
}

/// How to react to a message in one of the watched groups.
#[derive(Clone, Debug)]
pub enum GroupReaction {
    /// Not from a watched group's bot.
    Ignore,
    /// The bot opened registration: register with these arguments.
    Register(CreateAccountArgs),
    /// Try these registration codes, in order, with the bot `bot_id`.
    TryCodes { bot_id: i64, bot_archive: bool, codes: Vec<String> },
}

/// The reaction to a message in the watched groups: a message of a watched
/// group sent by that group's bot either announces registration (then
/// register in the bot's chat `bot_chat_id`, 100 ms between
/// presses) or, where the group has a code prefix, offers its lines that
/// begin with the prefix as codes to try.
pub fn react_in_group(reg: &ListenRegistry, msg: &IncomingMessage) -> (r: GroupReaction)
    ensures
        !(reg@.contains_key(msg.chat_id) && msg.sender.spec_id() == reg@[msg.chat_id].bot_id) ==> r
            is Ignore,
        reg@.contains_key(msg.chat_id) && msg.sender.spec_id() == reg@[msg.chat_id].bot_id ==> ({
            let a = reg@[msg.chat_id];
            let text = content_text_or(msg.content, Seq::empty());
            if announces_registration(text) {
                r matches GroupReaction::Register(c) && c.chat_id == a.bot_chat_id && c.archive == a.bot_archive
                    && c.account_name@ == a.account_name@ && c.security_code@ == a.security_code@
                    && c.type_button_interval_mills == 100
            } else {
                match a.code_prefix {
                    Some(p) => r matches GroupReaction::TryCodes { bot_id, bot_archive, codes }
                        && bot_id == a.bot_id && bot_archive == a.bot_archive && views(codes@)
                        == split_on(text, '\n').filter(begins_with(p@)),
                    None => r is Ignore,
                }
            }
        }),
{
    let a = match reg.get(msg.chat_id) {
        Some(a) => a,
        None => return GroupReaction::Ignore,
    };
    if msg.sender.id() != a.bot_id {
        return GroupReaction::Ignore;
    }
    let text = msg.content.text_or("");
    proof {
        reveal_strlit("");
        assert(""@ =~= Seq::<char>::empty());
    }
    if is_registration_announcement(text.as_str()) {
        return GroupReaction::Register(registration_args(a));
    }
    match &a.code_prefix {
        Some(p) => {
            let codes = lines_starting_with(text.as_str(), p.as_str());
            GroupReaction::TryCodes { bot_id: a.bot_id, bot_archive: a.bot_archive, codes }
        },
        None => GroupReaction::Ignore,
    }
}

} // verus!
