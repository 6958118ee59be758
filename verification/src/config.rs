//! The program's commands and their arguments, as plain data. Parsing them
//! from the command line is done around the library.
use vstd::prelude::*;

verus! {

/// Arguments of `chats`: list the first chats with their ids and titles.
#[derive(Clone, Debug)]
pub struct ChatsArgs {
    /// How many chats to list (20 unless given).
    pub top: i32,
    /// Whether to list the archived chats.
    pub archive: bool,
}

/// Arguments of `chat`: send a message to a chat.
#[derive(Clone, Debug)]
pub struct ChatArgs {
    pub chat_id: i64,
    /// The text to send.
    pub message: String,
    /// Whether the chat is archived.
    pub archive: Option<bool>,
    /// Texts of the buttons to press, in turn, in the replies.
    pub type_button: Option<Vec<String>>,
    /// Chat to forward the replies to, so that they survive deletion.
    pub forward_chat_id: Option<i64>,
    /// Topic of that chat to forward the replies to.
    pub forward_topic_id: Option<i64>,
    /// Seconds to spend pressing buttons (5 unless given).
    pub timeout: Option<u64>,
    /// Seconds to spend on one button (5 unless given).
    pub single_step_timeout: Option<u64>,
}

/// Arguments of `multi-chat`.
#[derive(Clone, Debug)]
pub struct MultiChatArgs {
    pub chat: Vec<String>,
}

/// Arguments of `listen`: watch one chat.
#[derive(Clone, Debug)]
pub struct ListenArgs {
    pub chat_id: i64,
    pub archive: bool,
    /// Whether to read the history as well.
    pub history: bool,
    /// At most this many history messages (100 unless given).
    pub max_history: usize,
    pub webhook_url: String,
}

/// Arguments of `multi-listen`: watch several chats and pass their messages
/// to a webhook.
#[derive(Clone, Debug)]
pub struct MultiListenArgs {
    pub chat_id: Vec<i64>,
    pub archive: bool,
    pub webhook_url: String,
}

/// Arguments of `follow`: watch what some users write anywhere.
#[derive(Clone, Debug)]
pub struct FollowArgs {
    pub user_id: Vec<i64>,
    /// Chat that a notice of each message goes to, through the bot.
    pub forward_chat_id: Option<i64>,
    /// Topic of that chat.
    pub forward_topic_id: Option<i64>,
    /// Whether that chat is archived.
    pub forward_chat_archive: bool,
    pub webhook_url: Option<String>,
}

/// Arguments of `guess-code`: try every value of the one unknown character
/// of an invitation code.
#[derive(Clone, Debug)]
pub struct GuessCodeArgs {
    /// The code bot's chat.
    pub chat_id: i64,
    pub archive: Option<bool>,
    /// The invitation codes, separated by commas, each with `*` in place of
    /// its unknown character.
    pub code: String,
    /// Which characters to try: `A` upper-case letters, `a` lower-case
    /// letters, `0` digits.
    pub rule: String,
    /// Send all guesses without waiting for each answer.
    pub speed: Option<bool>,
}

/// Arguments of `red-packet`: press a button on every message of a chat.
#[derive(Clone, Debug)]
pub struct RedPacketArgs {
    pub chat_id: i64,
    pub archive: bool,
    /// Text of the button to press.
    pub type_button: String,
}

/// Arguments of `create-account`: register an account with a bot.
#[derive(Clone, Debug)]
pub struct CreateAccountArgs {
    pub chat_id: i64,
    pub archive: bool,
    pub account_name: String,
    pub security_code: String,
    /// Milliseconds between two presses of the create button.
    pub type_button_interval_mills: u64,
}

/// Arguments of `create-account-listen`: wait in a group for the bot to open
/// registration, then register.
#[derive(Clone, Debug)]
pub struct CreateAccountListenArgs {
    pub chat_id: i64,
    pub bot_chat_id: i64,
    pub bot_id: i64,
    pub archive: bool,
    pub bot_archive: bool,
    pub account_name: String,
    pub security_code: String,
    /// Lines that start with this are registration codes to try.
    pub code_prefix: Option<String>,
}

/// Arguments of the login: a phone number to use instead of asking.
#[derive(Clone, Debug)]
pub struct LoginArgs {
    pub phone: Option<String>,
}

/// Arguments of the listening for several groups: one JSON text of
/// `CreateAccountListenArgs` per group.
#[derive(Clone, Debug)]
pub struct MultiCreateAccountListenArgs {
    pub multi: Vec<String>,
}

/// A command of the program.
#[derive(Clone, Debug)]
pub enum AppCommand {
    /// Log in; every other command needs a saved login.
    Login,
    Chats(ChatsArgs),
    Chat(ChatArgs),
    MultiChat(MultiChatArgs),
    Listen(ListenArgs),
    MultiListen(MultiListenArgs),
    Follow(FollowArgs),
    GuessCode(GuessCodeArgs),
    RedPacket(RedPacketArgs),
    CreateAccount(CreateAccountArgs),
    CreateAccountListen(CreateAccountListenArgs),
}

/// The parsed command line.
#[derive(Clone, Debug)]
pub struct Args {
    pub command: AppCommand,
}

/// The services that the program runs after logging in.
#[derive(Clone, Copy, Debug, PartialEq, Eq, Structural)]
pub enum Service {
    Chats,
    Chat,
    Listen,
    MultiListen,
    Follow,
}

/// The service that a command runs, if any.
pub open spec fn service_of(c: AppCommand) -> Option<Service> {
    match c {
        AppCommand::Chats(_) => Some(Service::Chats),
        AppCommand::Chat(_) => Some(Service::Chat),
        AppCommand::Listen(_) => Some(Service::Listen),
        AppCommand::MultiListen(_) => Some(Service::MultiListen),
        AppCommand::Follow(_) => Some(Service::Follow),
        _ => None,
    }
}

impl AppCommand {
    /// Whether the client starts from a saved login (every command but
    /// `login`, which logs in interactively).
    pub fn needs_saved_login(&self) -> (b: bool)
        ensures
            b == !(self is Login),
    {
        match self {
            AppCommand::Login => false,
            _ => true,
        }
    }

    /// The service that the command runs once the client is ready. Only
    /// `chats`, `chat`, `listen`, `multi-listen` and `follow` run one; the
    /// other commands only start and close the client.
    pub fn service(&self) -> (s: Option<Service>)
        ensures
            s == service_of(*self),
    {
        match self {
            AppCommand::Chats(_) => Some(Service::Chats),
            AppCommand::Chat(_) => Some(Service::Chat),
            AppCommand::Listen(_) => Some(Service::Listen),
            AppCommand::MultiListen(_) => Some(Service::MultiListen),
            AppCommand::Follow(_) => Some(Service::Follow),
            _ => None,
        }
    }
}

} // verus!
