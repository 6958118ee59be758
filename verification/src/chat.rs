//! Talking to a bot in a chat: pressing the buttons of its replies in turn,
//! and pressing a button on every message (red packets).
use vstd::prelude::*;
use crate::config::RedPacketArgs;
use crate::message::{FilterView, IncomingMessage, ReplyMarkup, ButtonFilter, select_buttons, selected_positions};

verus! {

/// How one attempt to press the current button of a reply went.
#[derive(Clone, Copy, Debug, PartialEq, Eq, Structural)]
pub enum PressOutcome {
    /// A button was pressed and the bot answered.
    Pressed,
    /// The reply had no such button to press.
    NotPressed,
    /// Pressing failed.
    Failed,
    /// The attempt took too long.
    TimedOut,
}

/// The buttons to press, one per reply, in turn.
#[derive(Clone, Debug)]
pub struct ButtonPresses {
    pub targets: Vec<String>,
    pub index: usize,
}

impl ButtonPresses {
    pub open spec fn done(&self) -> bool {
        self.index >= self.targets.len()
    }

    pub fn new(targets: Vec<String>) -> (p: Self)
        ensures
            p.targets@ == targets@,
            p.index == 0,
    {
        ButtonPresses { targets, index: 0 }
    }

    /// The text of the button to press next.
    pub fn current(&self) -> (t: &String)
        requires
            !self.done(),
        ensures
            *t == self.targets@[self.index as int],
    {
        &self.targets[self.index]
    }

    /// Records an attempt: a press, or running out of time, moves on to the
    /// next button; a reply without the button, or a failed press, keeps the
    /// same one. Returns whether all buttons are done.
    pub fn record(&mut self, outcome: PressOutcome) -> (all_done: bool)
        requires
            !old(self).done(),
        ensures
            final(self).targets@ == old(self).targets@,
            (outcome == PressOutcome::Pressed || outcome == PressOutcome::TimedOut) ==> final(self).index
                == old(self).index + 1,
            (outcome == PressOutcome::NotPressed || outcome == PressOutcome::Failed) ==> final(self).index
                == old(self).index,
            all_done == final(self).done(),
    {
        match outcome {
            PressOutcome::Pressed | PressOutcome::TimedOut => {
                self.index = self.index + 1;
            },
            PressOutcome::NotPressed | PressOutcome::Failed => {},
        }
        self.index >= self.targets.len()
    }
}

/// What pressing one matching button gave.
#[derive(Clone, Copy, Debug, PartialEq, Eq, Structural)]
pub enum PressAttempt {
    /// A callback button: the bot answered.
    CallbackAnswered,
    /// A callback button: no answer.
    CallbackFailed,
    /// A web app button: the app was opened.
    WebAppOpened,
    /// A web app button: opening failed.
    WebAppFailed,
}

/// Whether the scan of a reply's buttons ends after an attempt, and how:
/// an answered callback ends it as pressed; a failure ends it as failed;
/// an opened web app lets the scan go on.
pub fn after_attempt(a: PressAttempt) -> (r: Option<PressOutcome>)
    ensures
        a == PressAttempt::CallbackAnswered ==> r == Some(PressOutcome::Pressed),
        (a == PressAttempt::CallbackFailed || a == PressAttempt::WebAppFailed) ==> r == Some(
            PressOutcome::Failed,
        ),
        a == PressAttempt::WebAppOpened ==> r is None,
{
    match a {
        PressAttempt::CallbackAnswered => Some(PressOutcome::Pressed),
        PressAttempt::CallbackFailed => Some(PressOutcome::Failed),
        PressAttempt::WebAppOpened => None,
        PressAttempt::WebAppFailed => Some(PressOutcome::Failed),
    }
}

/// The buttons (row, column) of a reply's inline keyboard that bear
/// `target`, in reading order; none for another markup.
pub fn buttons_to_try(markup: &ReplyMarkup, target: &String) -> (ps: Vec<(usize, usize)>)
    ensures
        match *markup {
            ReplyMarkup::InlineKeyboard(rows) => ps@ == selected_positions(rows@, FilterView::Named(target@)),
            ReplyMarkup::Other => ps@.len() == 0,
        },
{
    match markup {
        ReplyMarkup::InlineKeyboard(rows) => {
            let f = ButtonFilter::Named(target.clone());
            select_buttons(rows, &f)
        },
        ReplyMarkup::Other => Vec::new(),
    }
}

/// What to do with a message of the red-packet chat.
#[derive(Clone, Debug, PartialEq, Eq)]
pub enum RedPacketReaction {
    /// Another chat, or a markup that is no inline keyboard.
    Ignore,
    /// Press these callback buttons (row, column), in order.
    Press(Vec<(usize, usize)>),
    /// The message has no buttons at all.
    NoButtons,
}

/// The reaction to a message while grabbing red packets in `args.chat_id`:
/// press every callback button whose text is `args.type_button`.
pub fn red_packet_reaction(msg: &IncomingMessage, args: &RedPacketArgs) -> (r: RedPacketReaction)
    ensures
        msg.chat_id != args.chat_id ==> r == RedPacketReaction::Ignore,
        msg.chat_id == args.chat_id ==> match msg.reply_markup {
            Some(ReplyMarkup::InlineKeyboard(rows)) => r matches RedPacketReaction::Press(ps) && ps@
                == selected_positions(rows@, FilterView::NamedCallback(args.type_button@)),
            Some(ReplyMarkup::Other) => r == RedPacketReaction::Ignore,
            None => r == RedPacketReaction::NoButtons,
        },
{
    if msg.chat_id != args.chat_id {
        return RedPacketReaction::Ignore;
    }
    match &msg.reply_markup {
        Some(ReplyMarkup::InlineKeyboard(rows)) => {
            let f = ButtonFilter::NamedCallback(args.type_button.clone());
            RedPacketReaction::Press(select_buttons(rows, &f))
        },
        Some(ReplyMarkup::Other) => RedPacketReaction::Ignore,
        None => RedPacketReaction::NoButtons,
    }
}

} // verus!
