//! The messages that the program reads, as plain data: who sent them, what
//! they say, and which buttons they carry.
use vstd::prelude::*;
use crate::text::{has_sub, str_contains};

verus! {

/// What replaces the text of a message whose kind has no text.
pub const UNSUPPORTED_CONTENT: &'static str = "暂不支持的消息类型";

/// The content of a message: the text, or the caption of a media message.
#[derive(Clone, Debug)]
pub enum MessageContent {
    Text(String),
    Photo(String),
    Audio(String),
    Document(String),
    Video(String),
    /// Any other kind of content.
    Unsupported,
}

/// The text that a content carries, if its kind carries one.
pub open spec fn content_text(c: MessageContent) -> Option<Seq<char>> {
    match c {
        MessageContent::Text(t) => Some(t@),
        MessageContent::Photo(t) => Some(t@),
        MessageContent::Audio(t) => Some(t@),
        MessageContent::Document(t) => Some(t@),
        MessageContent::Video(t) => Some(t@),
        MessageContent::Unsupported => None,
    }
}

/// Text messages carry their text, and photo, audio, document and video
/// messages their caption; no other kind carries text, and the fallback
/// stands in only for those.
pub proof fn lemma_content_texts(s: String, fallback: Seq<char>, c: MessageContent)
    ensures
        content_text(MessageContent::Text(s)) == Some(s@),
        content_text(MessageContent::Photo(s)) == Some(s@),
        content_text(MessageContent::Audio(s)) == Some(s@),
        content_text(MessageContent::Document(s)) == Some(s@),
        content_text(MessageContent::Video(s)) == Some(s@),
        content_text(MessageContent::Unsupported) is None,
        content_text_or(c, fallback) == fallback <== c is Unsupported,
        !(c is Unsupported) ==> content_text(c) is Some && content_text_or(c, fallback) == content_text(c)->0,
{
}

/// The text of a content, or `fallback` where its kind has none.
pub open spec fn content_text_or(c: MessageContent, fallback: Seq<char>) -> Seq<char> {
    match content_text(c) {
        Some(t) => t,
        None => fallback,
    }
}

impl MessageContent {
    /// The text or caption, where the kind of content has one.
    pub fn text(&self) -> (t: Option<String>)
        ensures
            t matches Some(s) ==> content_text(*self) == Some(s@),
            t is None ==> content_text(*self) is None,
    {
        match self {
            MessageContent::Text(t) => Some(t.clone()),
            MessageContent::Photo(t) => Some(t.clone()),
            MessageContent::Audio(t) => Some(t.clone()),
            MessageContent::Document(t) => Some(t.clone()),
            MessageContent::Video(t) => Some(t.clone()),
            MessageContent::Unsupported => None,
        }
    }

    /// The text or caption, or `fallback` where the kind of content has none.
    pub fn text_or(&self, fallback: &str) -> (t: String)
        ensures
            t@ == content_text_or(*self, fallback@),
    {
        match self.text() {
            Some(t) => t,
            None => fallback.to_string(),
        }
    }

    /// Whether the content is a plain text message whose text holds `p`.
    pub fn is_text_holding(&self, p: &str) -> (b: bool)
        ensures
            b == (self matches MessageContent::Text(t) && has_sub(t@, p@)),
    {
        match self {
            MessageContent::Text(t) => str_contains(t.as_str(), p),
            _ => false,
        }
    }
}

/// Who sent a message: a user or a chat, each by id.
#[derive(Clone, Copy, Debug, PartialEq, Eq, Structural)]
pub enum MessageSender {
    User(i64),
    Chat(i64),
}

impl MessageSender {
    pub open spec fn spec_id(self) -> i64 {
        match self {
            MessageSender::User(id) => id,
            MessageSender::Chat(id) => id,
        }
    }

    /// The id of the user or chat.
    pub fn id(&self) -> (id: i64)
        ensures
            id == self.spec_id(),
    {
        match self {
            MessageSender::User(id) => *id,
            MessageSender::Chat(id) => *id,
        }
    }
}

/// What pressing a button does.
#[derive(Clone, Debug)]
pub enum ButtonKind {
    /// Sends this data (as the client library hands it over) back to the bot.
    Callback(String),
    /// Opens a web app at this address.
    WebApp(String),
    /// Anything else.
    Other,
}

/// A button of an inline keyboard.
#[derive(Clone, Debug)]
pub struct InlineButton {
    pub text: String,
    pub kind: ButtonKind,
}

/// The markup that a message carries.
#[derive(Clone, Debug)]
pub enum ReplyMarkup {
    /// Rows of buttons under the message.
    InlineKeyboard(Vec<Vec<InlineButton>>),
    /// Any other markup.
    Other,
}

/// A new message.
#[derive(Clone, Debug)]
pub struct IncomingMessage {
    pub id: i64,
    pub chat_id: i64,
    pub sender: MessageSender,
    pub content: MessageContent,
    pub reply_markup: Option<ReplyMarkup>,
}

/// A message, or the new content of an edited one, as the listeners pass
/// it on.
#[derive(Clone, Debug)]
pub struct SimpleMessage {
    pub id: i64,
    pub chat_id: i64,
    pub content: MessageContent,
}

// ---------------------------------------------------------------------------
// Selecting buttons of a keyboard.
// ---------------------------------------------------------------------------

/// Which buttons to select.
#[derive(Clone, Debug)]
pub enum ButtonFilter {
    /// Buttons with exactly this text.
    Named(String),
    /// Callback buttons with exactly this text.
    NamedCallback(String),
    /// Callback buttons whose text holds this text.
    CallbackContaining(String),
}

/// A button filter, with its texts as character sequences.
pub enum FilterView {
    Named(Seq<char>),
    NamedCallback(Seq<char>),
    CallbackContaining(Seq<char>),
}

impl View for ButtonFilter {
    type V = FilterView;

    open spec fn view(&self) -> FilterView {
        match self {
            ButtonFilter::Named(t) => FilterView::Named(t@),
            ButtonFilter::NamedCallback(t) => FilterView::NamedCallback(t@),
            ButtonFilter::CallbackContaining(t) => FilterView::CallbackContaining(t@),
        }
    }
}

/// Whether a button is selected by the filter.
pub open spec fn button_selected(b: InlineButton, f: FilterView) -> bool {
    match f {
        FilterView::Named(t) => b.text@ == t,
        FilterView::NamedCallback(t) => b.text@ == t && b.kind is Callback,
        FilterView::CallbackContaining(t) => has_sub(b.text@, t) && b.kind is Callback,
    }
}

/// The positions (row, column) of a row of `n` buttons, left to right.
pub open spec fn row_positions(r: int, n: nat) -> Seq<(usize, usize)> {
    Seq::new(n, |c: int| (r as usize, c as usize))
}

/// The positions of all buttons, row by row, each row left to right.
pub open spec fn all_positions(rows: Seq<Vec<InlineButton>>) -> Seq<(usize, usize)>
    decreases rows.len(),
{
    if rows.len() == 0 {
        Seq::empty()
    } else {
        all_positions(rows.drop_last()) + row_positions(rows.len() - 1, rows.last()@.len())
    }
}

/// The predicate "the button at this position is selected".
pub open spec fn selected_at(rows: Seq<Vec<InlineButton>>, f: FilterView) -> spec_fn((usize, usize)) -> bool {
    |p: (usize, usize)| button_selected(rows[p.0 as int]@[p.1 as int], f)
}

/// The positions of the selected buttons, in reading order.
pub open spec fn selected_positions(rows: Seq<Vec<InlineButton>>, f: FilterView) -> Seq<(usize, usize)> {
    all_positions(rows).filter(selected_at(rows, f))
}

/// Position `p` comes before `q` in reading order.
pub open spec fn reads_before(p: (usize, usize), q: (usize, usize)) -> bool {
    p.0 < q.0 || (p.0 == q.0 && p.1 < q.1)
}

/// The position is that of a button of the keyboard.
pub open spec fn on_keyboard(rows: Seq<Vec<InlineButton>>, p: (usize, usize)) -> bool {
    p.0 < rows.len() && p.1 < rows[p.0 as int]@.len()
}

/// A keyboard whose size fits in memory.
pub open spec fn addressable(rows: Seq<Vec<InlineButton>>) -> bool {
    rows.len() <= usize::MAX && forall|r: int| 0 <= r < rows.len() ==> #[trigger] rows[r]@.len() <= usize::MAX
}

/// The positions of a keyboard are all its buttons, each once, in reading
/// order.
proof fn lemma_all_positions(rows: Seq<Vec<InlineButton>>)
    requires
        addressable(rows),
    ensures
        forall|r: usize, c: usize| #![trigger all_positions(rows).contains((r, c))]
            on_keyboard(rows, (r, c)) ==> all_positions(rows).contains((r, c)),
        forall|k: int| 0 <= k < all_positions(rows).len() ==> on_keyboard(rows, #[trigger] all_positions(rows)[k]),
        forall|i: int, j: int|
            0 <= i < j < all_positions(rows).len() ==> reads_before(
                #[trigger] all_positions(rows)[i],
                #[trigger] all_positions(rows)[j],
            ),
    decreases rows.len(),
{
    if rows.len() > 0 {
        let init = rows.drop_last();
        assert forall|r: int| 0 <= r < init.len() implies #[trigger] init[r]@.len() <= usize::MAX by {
            assert(init[r] == rows[r]);
        }
        lemma_all_positions(init);
        let a = all_positions(init);
        let b = row_positions(rows.len() - 1, rows.last()@.len());
        let ap = all_positions(rows);
        assert(ap == a + b);
        assert forall|r: usize, c: usize| #![trigger ap.contains((r, c))]
            on_keyboard(rows, (r, c)) implies ap.contains((r, c)) by {
            if r < rows.len() - 1 {
                assert(init[r as int] == rows[r as int]);
                assert(on_keyboard(init, (r, c)));
                assert(a.contains((r, c)));
                let k = choose|k: int| 0 <= k < a.len() && a[k] == (r, c);
                assert(ap[k] == (r, c));
            } else {
                assert(ap[a.len() + c] == (r, c));
            }
        }
        assert forall|k: int| 0 <= k < ap.len() implies on_keyboard(rows, #[trigger] ap[k]) by {
            if k < a.len() {
                assert(ap[k] == a[k]);
                assert(on_keyboard(init, a[k]));
                assert(init[a[k].0 as int] == rows[a[k].0 as int]);
            } else {
                assert(ap[k] == b[k - a.len()]);
                assert(rows[rows.len() - 1]@.len() <= usize::MAX);
            }
        }
        assert forall|i: int, j: int| 0 <= i < j < ap.len() implies reads_before(
            #[trigger] ap[i],
            #[trigger] ap[j],
        ) by {
            assert(rows[rows.len() - 1]@.len() <= usize::MAX);
            if j < a.len() {
                assert(ap[i] == a[i] && ap[j] == a[j]);
            } else if i < a.len() {
                assert(ap[i] == a[i]);
                assert(ap[j] == b[j - a.len()]);
                assert(on_keyboard(init, a[i]));
            } else {
                assert(ap[i] == b[i - a.len()]);
                assert(ap[j] == b[j - a.len()]);
            }
        }
    }
}

/// Keeping the elements that satisfy a predicate keeps reading order.
proof fn lemma_filter_keeps_order(s: Seq<(usize, usize)>, pred: spec_fn((usize, usize)) -> bool)
    requires
        forall|i: int, j: int| 0 <= i < j < s.len() ==> reads_before(#[trigger] s[i], #[trigger] s[j]),
    ensures
        forall|i: int, j: int|
            0 <= i < j < s.filter(pred).len() ==> reads_before(#[trigger] s.filter(pred)[i], #[trigger] s.filter(pred)[j]),
    decreases s.len(),
{
    if s.len() > 0 {
        let init = s.drop_last();
        lemma_filter_keeps_order(init, pred);
        assert(init.push(s.last()) =~= s);
        init.lemma_filter_push(s.last(), pred);
        let f = s.filter(pred);
        let fi = init.filter(pred);
        if pred(s.last()) {
            assert forall|i: int, j: int| 0 <= i < j < f.len() implies reads_before(#[trigger] f[i], #[trigger] f[j]) by {
                if j == f.len() - 1 {
                    assert(f[i] == fi[i]);
                    init.lemma_filter_contains_rev(pred, fi[i]);
                    assert(init.contains(fi[i]));
                    let k = choose|k: int| 0 <= k < init.len() && init[k] == fi[i];
                    assert(s[k] == init[k]);
                    assert(reads_before(s[k], s[s.len() - 1]));
                } else {
                    assert(f[i] == fi[i] && f[j] == fi[j]);
                }
            }
        }
    }
}

/// The buttons selected are exactly the buttons of the keyboard that the
/// filter picks, each once, in reading order; a filter picks a button by
/// its exact text, by its exact text on a callback button, or by a text
/// that the label of a callback button holds anywhere.
pub proof fn lemma_selection(rows: Seq<Vec<InlineButton>>, f: FilterView, r: usize, c: usize)
    requires
        addressable(rows),
    ensures
        on_keyboard(rows, (r, c)) && button_selected(rows[r as int]@[c as int], f) ==> selected_positions(
            rows,
            f,
        ).contains((r, c)),
        selected_positions(rows, f).contains((r, c)) ==> on_keyboard(rows, (r, c)) && button_selected(
            rows[r as int]@[c as int],
            f,
        ),
        forall|i: int, j: int|
            0 <= i < j < selected_positions(rows, f).len() ==> reads_before(
                #[trigger] selected_positions(rows, f)[i],
                #[trigger] selected_positions(rows, f)[j],
            ),
{
    lemma_all_positions(rows);
    let ap = all_positions(rows);
    let pred = selected_at(rows, f);
    lemma_filter_keeps_order(ap, pred);
    if on_keyboard(rows, (r, c)) && button_selected(rows[r as int]@[c as int], f) {
        assert(ap.contains((r, c)));
        let k = choose|k: int| 0 <= k < ap.len() && ap[k] == (r, c);
        ap.lemma_filter_contains(pred, k);
    }
    if selected_positions(rows, f).contains((r, c)) {
        ap.lemma_filter_contains_rev(pred, (r, c));
        let k = choose|k: int| 0 <= k < ap.len() && ap[k] == (r, c);
        assert(on_keyboard(rows, ap[k]));
        let s = ap.filter(pred);
        let m = choose|m: int| 0 <= m < s.len() && s[m] == (r, c);
        ap.lemma_filter_pred(pred, m);
    }
}

/// What each filter picks.
pub proof fn lemma_filters(b: InlineButton, t: Seq<char>, x: Seq<char>, y: Seq<char>)
    ensures
        button_selected(b, FilterView::Named(t)) <==> b.text@ == t,
        button_selected(b, FilterView::NamedCallback(t)) <==> b.text@ == t && b.kind is Callback,
        b.text@ == x + t + y && b.kind is Callback ==> button_selected(b, FilterView::CallbackContaining(t)),
        button_selected(b, FilterView::CallbackContaining(t)) ==> b.kind is Callback && has_sub(b.text@, t),
{
    crate::text::lemma_holds_inserted(x, t, y);
}

/// Whether a button is selected by the filter.
pub fn matches_filter(b: &InlineButton, f: &ButtonFilter) -> (m: bool)
    ensures
        m == button_selected(*b, f@),
{
    match f {
        ButtonFilter::Named(t) => b.text == *t,
        ButtonFilter::NamedCallback(t) => b.text == *t && matches!(b.kind, ButtonKind::Callback(_)),
        ButtonFilter::CallbackContaining(t) => str_contains(b.text.as_str(), t.as_str()) && matches!(
            b.kind,
            ButtonKind::Callback(_)
        ),
    }
}

/// The positions of the buttons that the filter selects, row by row, each
/// row left to right.
pub fn select_buttons(rows: &Vec<Vec<InlineButton>>, f: &ButtonFilter) -> (ps: Vec<(usize, usize)>)
    ensures
        ps@ == selected_positions(rows@, f@),
        forall|k: int|
            0 <= k < ps.len() ==> (#[trigger] ps@[k]).0 < rows.len() && ps@[k].1 < rows@[ps@[k].0 as int].len(),
{
    let ghost pred = selected_at(rows@, f@);
    let mut ps: Vec<(usize, usize)> = Vec::new();
    for r in 0..rows.len()
        invariant
            pred == selected_at(rows@, f@),
            ps@ == all_positions(rows@.take(r as int)).filter(pred),
            forall|k: int|
                0 <= k < ps.len() ==> (#[trigger] ps@[k]).0 < r && ps@[k].1 < rows@[ps@[k].0 as int].len(),
    {
        let row = &rows[r];
        let ghost base = all_positions(rows@.take(r as int));
        for c in 0..row.len()
            invariant
                pred == selected_at(rows@, f@),
                r < rows.len(),
                *row == rows@[r as int],
                base == all_positions(rows@.take(r as int)),
                ps@ == (base + row_positions(r as int, c as nat)).filter(pred),
                forall|k: int|
                    0 <= k < ps.len() ==> (#[trigger] ps@[k]).0 <= r && ps@[k].1 < rows@[ps@[k].0 as int].len(),
        {
            proof {
                assert(base + row_positions(r as int, (c + 1) as nat) =~= (base + row_positions(
                    r as int,
                    c as nat,
                )).push((r, c)));
                (base + row_positions(r as int, c as nat)).lemma_filter_push((r, c), pred);
            }
            if matches_filter(&row[c], f) {
                ps.push((r, c));
            }
        }
        proof {
            assert(rows@.take(r + 1).drop_last() =~= rows@.take(r as int));
            assert(rows@.take(r + 1).last() == rows@[r as int]);
        }
    }
    proof {
        assert(rows@.take(rows.len() as int) =~= rows@);
    }
    ps
}

} // verus!
