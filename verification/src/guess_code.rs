//! Guessing the unknown character of an invitation code, and reading the
//! code bot's answers.
use vstd::prelude::*;
use crate::text::{
    split_on,
    chars_of, string_of, has_char, count_of, replace_char, remove_char, str_contains,
    str_starts_with, has_sub, replace_each, without_char, count_char, views,
};
use crate::config::GuessCodeArgs;

verus! {

/// The character that stands for the unknown one in a code.
pub const WILDCARD: char = '*';

pub open spec fn upper_letters() -> Seq<char> {
    "ABCDEFGHIJKLMNOPQRSTUVWXYZ"@
}

pub open spec fn lower_letters() -> Seq<char> {
    "abcdefghijklmnopqrstuvwxyz"@
}

pub open spec fn digits() -> Seq<char> {
    "0123456789"@
}

/// The code with its wildcard replaced by each character of `alphabet`, in
/// the alphabet's order.
pub open spec fn fillings(code: Seq<char>, alphabet: Seq<char>) -> Seq<Seq<char>> {
    alphabet.map_values(|c: char| replace_each(code, WILDCARD, seq![c]))
}

/// The guesses for `code` under `rule`: first the upper-case letters A to Z
/// if the rule holds `A`, then the lower-case letters a to z if it holds
/// `a`, then the digits 0 to 9 if it holds `0`.
pub open spec fn guesses(code: Seq<char>, rule: Seq<char>) -> Seq<Seq<char>> {
    (if rule.contains('A') { fillings(code, upper_letters()) } else { Seq::empty() })
        + (if rule.contains('a') { fillings(code, lower_letters()) } else { Seq::empty() })
        + (if rule.contains('0') { fillings(code, digits()) } else { Seq::empty() })
}

/// Filling the wildcard with a character changes nothing else: the guess
/// has the code's length, holds that character wherever the code holds the
/// wildcard, and agrees with the code everywhere else.
pub proof fn lemma_filling_shape(code: Seq<char>, x: char)
    ensures
        replace_each(code, WILDCARD, seq![x]).len() == code.len(),
        forall|i: int|
            0 <= i < code.len() ==> #[trigger] replace_each(code, WILDCARD, seq![x])[i] == if code[i] == WILDCARD {
                x
            } else {
                code[i]
            },
    decreases code.len(),
{
    if code.len() > 0 {
        let init = code.drop_last();
        lemma_filling_shape(init, x);
        let r = replace_each(code, WILDCARD, seq![x]);
        assert forall|i: int| 0 <= i < code.len() implies #[trigger] r[i] == if code[i] == WILDCARD {
            x
        } else {
            code[i]
        } by {
            if i < code.len() - 1 {
                assert(init[i] == code[i]);
                assert(r[i] == replace_each(init, WILDCARD, seq![x])[i]);
            }
        }
    }
}

/// How many guesses a rule gives: 26 for `A`, 26 for `a`, 10 for `0`.
pub proof fn lemma_guess_count(code: Seq<char>, rule: Seq<char>)
    ensures
        guesses(code, rule).len() == (if rule.contains('A') { 26int } else { 0 }) + (if rule.contains('a') {
            26int
        } else {
            0
        }) + (if rule.contains('0') { 10int } else { 0 }),
{
    reveal_strlit("ABCDEFGHIJKLMNOPQRSTUVWXYZ");
    reveal_strlit("abcdefghijklmnopqrstuvwxyz");
    reveal_strlit("0123456789");
}

/// The alphabets in character order.
proof fn lemma_alphabets()
    ensures
        upper_letters() == Seq::new(26, |i: int| (65 + i) as char),
        lower_letters() == Seq::new(26, |i: int| (97 + i) as char),
        digits() == Seq::new(10, |i: int| (48 + i) as char),
{
    reveal_strlit("ABCDEFGHIJKLMNOPQRSTUVWXYZ");
    reveal_strlit("abcdefghijklmnopqrstuvwxyz");
    reveal_strlit("0123456789");
    assert(upper_letters() =~= Seq::new(26, |i: int| (65 + i) as char));
    assert(lower_letters() =~= Seq::new(26, |i: int| (97 + i) as char));
    assert(digits() =~= Seq::new(10, |i: int| (48 + i) as char));
}

/// The guesses come in character order: with `A` in the rule, the first 26
/// fill in A to Z; otherwise, with `a`, the first 26 fill in a to z; with
/// `0`, the last 10 fill in 0 to 9.
pub proof fn lemma_guess_order(code: Seq<char>, rule: Seq<char>, k: int)
    ensures
        rule.contains('A') && 0 <= k < 26 ==> guesses(code, rule)[k] == replace_each(
            code,
            WILDCARD,
            seq![(65 + k) as char],
        ),
        !rule.contains('A') && rule.contains('a') && 0 <= k < 26 ==> guesses(code, rule)[k] == replace_each(
            code,
            WILDCARD,
            seq![(97 + k) as char],
        ),
        rule.contains('0') && 0 <= k < 10 ==> guesses(code, rule)[guesses(code, rule).len() - 10 + k]
            == replace_each(code, WILDCARD, seq![(48 + k) as char]),
{
    lemma_alphabets();
    lemma_guess_count(code, rule);
}

/// Every guess is the code with its wildcard filled by one character that
/// the rule allows.
pub proof fn lemma_guess_is_a_filling(code: Seq<char>, rule: Seq<char>, k: int)
    requires
        0 <= k < guesses(code, rule).len(),
    ensures
        exists|x: char|
            ((rule.contains('A') && upper_letters().contains(x)) || (rule.contains('a') && lower_letters().contains(x))
                || (rule.contains('0') && digits().contains(x))) && guesses(code, rule)[k] == replace_each(
                code,
                WILDCARD,
                seq![x],
            ),
{
    let u = if rule.contains('A') { fillings(code, upper_letters()) } else { Seq::empty() };
    let l = if rule.contains('a') { fillings(code, lower_letters()) } else { Seq::empty() };
    let d = if rule.contains('0') { fillings(code, digits()) } else { Seq::empty() };
    assert(guesses(code, rule) == u + l + d);
    if k < u.len() {
        let x = upper_letters()[k];
        assert(upper_letters().contains(x));
        assert(guesses(code, rule)[k] == u[k]);
    } else if k < u.len() + l.len() {
        let x = lower_letters()[k - u.len()];
        assert(lower_letters().contains(x));
        assert(guesses(code, rule)[k] == l[k - u.len()]);
    } else {
        let x = digits()[k - u.len() - l.len()];
        assert(digits().contains(x));
        assert(guesses(code, rule)[k] == d[k - u.len() - l.len()]);
    }
}

/// Why a code cannot be guessed.
#[derive(Clone, Copy, Debug, PartialEq, Eq, Structural)]
pub enum GuessCodeError {
    /// A code has no `*`: there is nothing to guess (the program then
    /// ends the command without sending anything).
    MissingWildcard,
    /// A code has more than one `*`.
    TooManyWildcards,
}

/// Appends the fillings of `code` by every character of `alphabet`.
fn push_fillings(out: &mut Vec<String>, code: &Vec<char>, alphabet: &str)
    ensures
        views(final(out)@) == views(old(out)@) + fillings(code@, alphabet@),
{
    let letters = chars_of(alphabet);
    for i in 0..letters.len()
        invariant
            letters@ == alphabet@,
            views(out@) == views(old(out)@) + fillings(code@, letters@.take(i as int)),
    {
        let mut one: Vec<char> = Vec::new();
        one.push(letters[i]);
        let filled = replace_char(code, WILDCARD, &one);
        let s = string_of(&filled);
        let ghost before = out@;
        out.push(s);
        proof {
            assert(one@ =~= seq![letters@[i as int]]);
            assert(views(out@) =~= views(before).push(s@));
            assert(fillings(code@, letters@.take(i + 1)) =~= fillings(code@, letters@.take(i as int)).push(
                replace_each(code@, WILDCARD, seq![letters@[i as int]]),
            ));
        }
    }
    proof {
        assert(letters@.take(letters.len() as int) =~= letters@);
    }
}

/// What is wrong with one code, if anything: it must hold exactly one `*`.
pub open spec fn code_error(code: Seq<char>) -> Option<GuessCodeError> {
    if !code.contains(WILDCARD) {
        Some(GuessCodeError::MissingWildcard)
    } else if count_char(code, WILDCARD) >= 2 {
        Some(GuessCodeError::TooManyWildcards)
    } else {
        None
    }
}

/// What is wrong with the first faulty code of the list, if any.
pub open spec fn first_code_error(codes: Seq<Seq<char>>) -> Option<GuessCodeError>
    decreases codes.len(),
{
    if codes.len() == 0 {
        None
    } else {
        match first_code_error(codes.drop_last()) {
            Some(e) => Some(e),
            None => code_error(codes.last()),
        }
    }
}

/// The guesses for each code of the list in turn.
pub open spec fn all_guesses(codes: Seq<Seq<char>>, rule: Seq<char>) -> Seq<Seq<char>>
    decreases codes.len(),
{
    if codes.len() == 0 {
        Seq::empty()
    } else {
        all_guesses(codes.drop_last(), rule) + guesses(codes.last(), rule)
    }
}

/// The codes of a `code` argument: several codes are separated by commas.
pub open spec fn code_list(code: Seq<char>) -> Seq<Seq<char>> {
    split_on(code, ',')
}

/// What is wrong with one code (see `code_error`).
fn check_code(code: &Vec<char>) -> (e: Option<GuessCodeError>)
    ensures
        e == code_error(code@),
{
    if !has_char(code, WILDCARD) {
        Some(GuessCodeError::MissingWildcard)
    } else if count_of(code, WILDCARD) >= 2 {
        Some(GuessCodeError::TooManyWildcards)
    } else {
        None
    }
}

/// Appends the guesses for one code under the rule.
fn push_guesses(out: &mut Vec<String>, code: &Vec<char>, rule: &Vec<char>)
    ensures
        views(final(out)@) == views(old(out)@) + guesses(code@, rule@),
{
    let ghost start = views(out@);
    if has_char(rule, 'A') {
        push_fillings(out, code, "ABCDEFGHIJKLMNOPQRSTUVWXYZ");
    }
    if has_char(rule, 'a') {
        push_fillings(out, code, "abcdefghijklmnopqrstuvwxyz");
    }
    if has_char(rule, '0') {
        push_fillings(out, code, "0123456789");
    }
    proof {
        assert(views(out@) =~= start + guesses(code@, rule@));
    }
}

/// The codes to try for the `code` argument under `rule`: the codes are
/// separated by commas, each must hold exactly one `*`, and the guesses are
/// those of each code in turn (see `guesses`). Where a code is faulty, the
/// fault of the first faulty code is returned and nothing is to be sent.
pub fn guess_candidates(code: &str, rule: &str) -> (r: Result<Vec<String>, GuessCodeError>)
    ensures
        r is Err <==> first_code_error(code_list(code@)) is Some,
        r matches Err(e) ==> first_code_error(code_list(code@)) == Some(e),
        r matches Ok(v) ==> views(v@) == all_guesses(code_list(code@), rule@),
{
    let c = chars_of(code);
    let rl = chars_of(rule);
    let mut out: Vec<String> = Vec::new();
    let mut cur: Vec<char> = Vec::new();
    let mut err: Option<GuessCodeError> = None;
    proof {
        assert(c@.take(0) =~= Seq::<char>::empty());
        assert(views(out@) =~= Seq::<Seq<char>>::empty());
    }
    for i in 0..c.len()
        invariant
            c@ == code@,
            rl@ == rule@,
            split_on(c@.take(i as int), ',').len() >= 1,
            err == first_code_error(split_on(c@.take(i as int), ',').drop_last()),
            err is None ==> views(out@) == all_guesses(split_on(c@.take(i as int), ',').drop_last(), rule@),
            cur@ == split_on(c@.take(i as int), ',').last(),
    {
        let ghost sp = split_on(c@.take(i as int), ',');
        assert(c@.take(i + 1).drop_last() == c@.take(i as int));
        assert(c@.take(i + 1).last() == c@[i as int]);
        if c[i] == ',' {
            assert(split_on(c@.take(i + 1), ',').drop_last() == sp);
            if err.is_none() {
                err = check_code(&cur);
                if err.is_none() {
                    push_guesses(&mut out, &cur, &rl);
                }
            }
            cur = Vec::new();
        } else {
            cur.push(c[i]);
            assert(split_on(c@.take(i + 1), ',').drop_last() =~= sp.drop_last());
        }
    }
    proof {
        assert(c@.take(c.len() as int) == c@);
    }
    if err.is_none() {
        err = check_code(&cur);
        if err.is_none() {
            push_guesses(&mut out, &cur, &rl);
        }
    }
    match err {
        Some(e) => Err(e),
        None => Ok(out),
    }
}

/// A code argument without commas is one code.
pub proof fn lemma_single_code(code: Seq<char>, rule: Seq<char>)
    requires
        !code.contains(','),
    ensures
        code_list(code) == seq![code],
        first_code_error(code_list(code)) == code_error(code),
        all_guesses(code_list(code), rule) == guesses(code, rule),
    decreases code.len(),
{
    if code.len() > 0 {
        let init = code.drop_last();
        assert(!init.contains(',')) by {
            if init.contains(',') {
                let i = choose|i: int| 0 <= i < init.len() && init[i] == ',';
                assert(code[i] == ',');
            }
        }
        assert(code[code.len() - 1] != ',');
        lemma_single_code(init, rule);
        assert(init.push(code.last()) =~= code);
        assert(code_list(code) =~= seq![code]);
    } else {
        assert(code =~= Seq::<char>::empty());
        assert(code_list(code) =~= seq![code]);
    }
    let one = seq![code];
    assert(one.drop_last() =~= Seq::<Seq<char>>::empty());
    assert(one.last() == code);
    assert(first_code_error(one.drop_last()) == None::<GuessCodeError>);
    assert(first_code_error(one) == code_error(code));
    assert(all_guesses(one, rule) == all_guesses(one.drop_last(), rule) + guesses(code, rule));
    assert(all_guesses(one, rule) =~= guesses(code, rule));
}

/// The codes to try for the arguments of `guess-code`.
pub fn guess_plan(args: &GuessCodeArgs) -> (r: Result<Vec<String>, GuessCodeError>)
    ensures
        r is Err <==> first_code_error(code_list(args.code@)) is Some,
        r matches Err(e) ==> first_code_error(code_list(args.code@)) == Some(e),
        r matches Ok(v) ==> views(v@) == all_guesses(code_list(args.code@), args.rule@),
{
    guess_candidates(args.code.as_str(), args.rule.as_str())
}

/// Two codes separated by a comma are checked and guessed in turn: the
/// first one's fault, if any, counts; otherwise the second one's; and the
/// guesses are those of the first code followed by those of the second.
pub proof fn lemma_two_codes(c1: Seq<char>, c2: Seq<char>, rule: Seq<char>)
    requires
        !c1.contains(','),
        !c2.contains(','),
    ensures
        code_list(c1 + ","@ + c2) == seq![c1, c2],
        first_code_error(code_list(c1 + ","@ + c2)) == (if code_error(c1) is Some {
            code_error(c1)
        } else {
            code_error(c2)
        }),
        all_guesses(code_list(c1 + ","@ + c2), rule) == guesses(c1, rule) + guesses(c2, rule),
{
    reveal_strlit(",");
    assert(","@ =~= seq![',']);
    crate::text::lemma_split_concat(c1, ',', c2);
    lemma_single_code(c1, rule);
    lemma_single_code(c2, rule);
    let l = seq![c1, c2];
    assert(code_list(c1 + ","@ + c2) =~= l);
    assert(l.drop_last() =~= seq![c1]);
    assert(seq![c1].drop_last() =~= Seq::<Seq<char>>::empty());
    assert(first_code_error(seq![c1]) == code_error(c1));
    assert(all_guesses(seq![c1], rule) =~= guesses(c1, rule));
}

/// The message that submits a code to the bot.
pub open spec fn start_command(code: Seq<char>) -> Seq<char> {
    "/start "@ + code
}

/// The message that submits `code`.
pub fn start_message(code: &str) -> (m: String)
    ensures
        m@ == start_command(code@),
{
    let mut m = String::from_str("/start ");
    m.append(code);
    m
}

// ---------------------------------------------------------------------------
// The bot's answers.
// ---------------------------------------------------------------------------

/// What an answer of the code bot means.
#[derive(Clone, Copy, Debug, PartialEq, Eq, Structural)]
pub enum CodeStatus {
    /// The code was wrong: try the next one.
    Continue,
    /// Done: the code was taken, or registration has begun.
    End,
}

/// The meaning of a message in the code bot's chat, if it has one. The echo
/// of a `/start` command means nothing; then, in this order, "请确认好重试"
/// (check and retry) means the code was wrong, "注册码已被使用" (code already
/// used) ends, and "您已进入注册状态" (registration begun) or "邀请注册资格"
/// (invitation granted) ends.
pub open spec fn reply_status(content: Seq<char>) -> Option<CodeStatus> {
    if "/start"@.is_prefix_of(content) {
        None
    } else if has_sub(content, "请确认好重试"@) {
        Some(CodeStatus::Continue)
    } else if has_sub(content, "注册码已被使用"@) {
        Some(CodeStatus::End)
    } else if has_sub(content, "您已进入注册状态"@) || has_sub(content, "邀请注册资格"@) {
        Some(CodeStatus::End)
    } else {
        None
    }
}

/// An answer that says registration has begun ("您已进入注册状态"), wherever
/// it says so, ends the guessing, unless it is the echo of a `/start`
/// command or asks to check and retry.
pub proof fn lemma_registration_begun_ends(a: Seq<char>, b: Seq<char>)
    ensures
        ({
            let t = a + "您已进入注册状态"@ + b;
            !"/start"@.is_prefix_of(t) && !has_sub(t, "请确认好重试"@) ==> reply_status(t) == Some(
                CodeStatus::End,
            )
        }),
{
    crate::text::lemma_holds_inserted(a, "您已进入注册状态"@, b);
}

/// An answer that grants the invitation ("邀请注册资格") or says the code
/// is taken ("注册码已被使用"), wherever it says so, ends the guessing,
/// unless it is the echo of a `/start` command or asks to check and retry.
pub proof fn lemma_granted_or_taken_ends(a: Seq<char>, b: Seq<char>)
    ensures
        ({
            let t = a + "邀请注册资格"@ + b;
            !"/start"@.is_prefix_of(t) && !has_sub(t, "请确认好重试"@) ==> reply_status(t) == Some(
                CodeStatus::End,
            )
        }),
        ({
            let t = a + "注册码已被使用"@ + b;
            !"/start"@.is_prefix_of(t) && !has_sub(t, "请确认好重试"@) ==> reply_status(t) == Some(
                CodeStatus::End,
            )
        }),
{
    crate::text::lemma_holds_inserted(a, "邀请注册资格"@, b);
    crate::text::lemma_holds_inserted(a, "注册码已被使用"@, b);
}

/// An answer asking to check and retry ("请确认好重试"), wherever it asks,
/// moves on to the next guess, unless it is the echo of a `/start` command;
/// the echo itself means nothing.
pub proof fn lemma_retry_continues(a: Seq<char>, b: Seq<char>)
    ensures
        ({
            let t = a + "请确认好重试"@ + b;
            !"/start"@.is_prefix_of(t) ==> reply_status(t) == Some(CodeStatus::Continue)
        }),
        "/start"@.is_prefix_of("/start"@ + b) && reply_status("/start"@ + b) is None,
{
    crate::text::lemma_holds_inserted(a, "请确认好重试"@, b);
    assert(("/start"@ + b).subrange(0, "/start"@.len() as int) =~= "/start"@);
}

/// Reads a message of the code bot (see `reply_status`).
pub fn classify_reply(content: &str) -> (s: Option<CodeStatus>)
    ensures
        s == reply_status(content@),
        "/start"@.is_prefix_of(content@) ==> s is None,
        !"/start"@.is_prefix_of(content@) && has_sub(content@, "请确认好重试"@) ==> s == Some(CodeStatus::Continue),
        !"/start"@.is_prefix_of(content@) && !has_sub(content@, "请确认好重试"@) && (has_sub(
            content@,
            "注册码已被使用"@,
        ) || has_sub(content@, "您已进入注册状态"@) || has_sub(content@, "邀请注册资格"@)) ==> s == Some(
            CodeStatus::End,
        ),
        s is Some ==> !"/start"@.is_prefix_of(content@) && (has_sub(content@, "请确认好重试"@) || has_sub(
            content@,
            "注册码已被使用"@,
        ) || has_sub(content@, "您已进入注册状态"@) || has_sub(content@, "邀请注册资格"@)),
        s == Some(CodeStatus::Continue) ==> has_sub(content@, "请确认好重试"@),
{
    if str_starts_with(content, "/start") {
        None
    } else if str_contains(content, "请确认好重试") {
        Some(CodeStatus::Continue)
    } else if str_contains(content, "注册码已被使用") {
        Some(CodeStatus::End)
    } else if str_contains(content, "您已进入注册状态") || str_contains(content, "邀请注册资格") {
        Some(CodeStatus::End)
    } else {
        None
    }
}

// ---------------------------------------------------------------------------
// The guessing session.
// ---------------------------------------------------------------------------

/// What happened since the last step of a guessing session.
#[derive(Clone, Copy, Debug, PartialEq, Eq, Structural)]
pub enum GuessEvent {
    /// The chat is open: the session begins.
    Started,
    /// The last guess was sent.
    Sent,
    /// The bot's answer was read.
    Answered(CodeStatus),
}

/// What to do next in a guessing session.
#[derive(Clone, Debug, PartialEq, Eq)]
pub enum GuessAction {
    /// Send this message.
    Send(String),
    /// Wait for the bot's answer.
    AwaitStatus,
    /// Close the chat: the session is over.
    Close,
}

/// A guessing session: the guesses, how many were sent, and whether they
/// are sent without waiting for each answer.
#[derive(Clone, Debug)]
pub struct GuessSession {
    pub candidates: Vec<String>,
    pub next: usize,
    pub fast: bool,
}

impl GuessSession {
    pub open spec fn wf(&self) -> bool {
        self.next <= self.candidates.len()
    }

    /// A session over `candidates`; `speed` set to `true` sends them all
    /// before reading one answer.
    pub fn new(candidates: Vec<String>, speed: Option<bool>) -> (s: Self)
        ensures
            s.wf(),
            s.candidates@ == candidates@,
            s.next == 0,
            s.fast == (speed == Some(true)),
    {
        let fast = match speed {
            Some(true) => true,
            _ => false,
        };
        GuessSession { candidates, next: 0, fast }
    }

    /// Sends the next guess, or (when none is left) takes the given action.
    fn send_next_or(&mut self, otherwise: GuessAction) -> (a: GuessAction)
        requires
            old(self).wf(),
        ensures
            final(self).wf(),
            final(self).candidates@ == old(self).candidates@,
            final(self).fast == old(self).fast,
            old(self).next < old(self).candidates.len() ==> final(self).next == old(self).next + 1 && a
                == GuessAction::Send(a->Send_0) && a->Send_0@ == start_command(
                old(self).candidates@[old(self).next as int]@,
            ),
            old(self).next >= old(self).candidates.len() ==> final(self).next == old(self).next && a
                == otherwise,
    {
        if self.next < self.candidates.len() {
            let m = start_message(self.candidates[self.next].as_str());
            self.next = self.next + 1;
            GuessAction::Send(m)
        } else {
            otherwise
        }
    }

    /// The next step of the session. Guesses go out in their order, each
    /// once. Without `fast`, each guess is followed by a wait for the answer,
    /// and the session goes on only while the answer says "try the next
    /// one"; with `fast`, all guesses go out and then one answer is awaited.
    /// The session closes when the guesses run out.
    pub fn step(&mut self, event: GuessEvent) -> (a: GuessAction)
        requires
            old(self).wf(),
        ensures
            final(self).wf(),
            final(self).candidates@ == old(self).candidates@,
            final(self).fast == old(self).fast,
            a is Send ==> final(self).next == old(self).next + 1 && a->Send_0@ == start_command(
                old(self).candidates@[old(self).next as int]@,
            ),
            !(a is Send) ==> final(self).next == old(self).next,
            a == GuessAction::AwaitStatus ==> (old(self).fast ==> final(self).next == final(self).candidates.len()),
            match event {
                GuessEvent::Started => if old(self).next < old(self).candidates.len() {
                    a is Send
                } else if old(self).fast {
                    a == GuessAction::AwaitStatus
                } else {
                    a == GuessAction::Close
                },
                GuessEvent::Sent => if !old(self).fast {
                    a == GuessAction::AwaitStatus
                } else if old(self).next < old(self).candidates.len() {
                    a is Send
                } else {
                    a == GuessAction::AwaitStatus
                },
                GuessEvent::Answered(s) => if !old(self).fast && s == CodeStatus::Continue && old(
                    self,
                ).next < old(self).candidates.len() {
                    a is Send
                } else {
                    a == GuessAction::Close
                },
            },
    {
        match event {
            GuessEvent::Started => {
                if self.fast {
                    self.send_next_or(GuessAction::AwaitStatus)
                } else {
                    self.send_next_or(GuessAction::Close)
                }
            },
            GuessEvent::Sent => {
                if !self.fast {
                    GuessAction::AwaitStatus
                } else {
                    self.send_next_or(GuessAction::AwaitStatus)
                }
            },
            GuessEvent::Answered(s) => {
                if !self.fast && s == CodeStatus::Continue {
                    self.send_next_or(GuessAction::Close)
                } else {
                    GuessAction::Close
                }
            },
        }
    }
}

// ---------------------------------------------------------------------------
// Using a registration code.
// ---------------------------------------------------------------------------

/// The characters that no registration code holds.
pub open spec fn forbidden_code_chars() -> Seq<char> {
    "*?░@#!$%^&"@
}

/// Whether `code` holds a character that no registration code holds.
pub open spec fn has_forbidden_char(code: Seq<char>) -> bool {
    exists|i: int| 0 <= i < code.len() && forbidden_code_chars().contains(#[trigger] code[i])
}

/// Why a registration code was not used.
#[derive(Clone, Copy, Debug, PartialEq, Eq, Structural)]
pub enum UseCodeError {
    /// The code holds a forbidden character.
    IllegalCharacter,
    /// The bot answered that the code was wrong or is taken.
    Rejected,
}

/// A code holding any of `*`, `?`, `░`, `@`, `#`, `!`, `$`, `%`, `^`, `&`,
/// anywhere, is refused; a code made of other characters is accepted, and
/// the message sent for it starts with `/start ` and holds no space.
pub proof fn lemma_forbidden_chars(a: Seq<char>, b: Seq<char>, x: char, code: Seq<char>)
    ensures
        (x == '*' || x == '?' || x == '░' || x == '@' || x == '#' || x == '!' || x == '$' || x == '%' || x == '^'
            || x == '&') ==> has_forbidden_char(a.push(x) + b),
        (forall|i: int|
            0 <= i < code.len() ==> code[i] != '*' && code[i] != '?' && code[i] != '░' && code[i] != '@'
                && code[i] != '#' && code[i] != '!' && code[i] != '$' && code[i] != '%' && code[i] != '^'
                && code[i] != '&') ==> !has_forbidden_char(code),
        !without_char(code, ' ').contains(' '),
        "/start "@.is_prefix_of(start_command(code)),
{
    reveal_strlit("*?░@#!$%^&");
    let f = forbidden_code_chars();
    if x == '*' || x == '?' || x == '░' || x == '@' || x == '#' || x == '!' || x == '$' || x == '%' || x == '^'
        || x == '&' {
        let t = a.push(x) + b;
        assert(t[a.len() as int] == x);
        assert(f.contains(x)) by {
            if x == '*' { assert(f[0] == x); }
            else if x == '?' { assert(f[1] == x); }
            else if x == '░' { assert(f[2] == x); }
            else if x == '@' { assert(f[3] == x); }
            else if x == '#' { assert(f[4] == x); }
            else if x == '!' { assert(f[5] == x); }
            else if x == '$' { assert(f[6] == x); }
            else if x == '%' { assert(f[7] == x); }
            else if x == '^' { assert(f[8] == x); }
            else { assert(f[9] == x); }
        }
    }
    if forall|i: int|
        0 <= i < code.len() ==> code[i] != '*' && code[i] != '?' && code[i] != '░' && code[i] != '@' && code[i]
            != '#' && code[i] != '!' && code[i] != '$' && code[i] != '%' && code[i] != '^' && code[i] != '&' {
        assert forall|i: int| 0 <= i < code.len() implies !f.contains(#[trigger] code[i]) by {
            if f.contains(code[i]) {
                let j = choose|j: int| 0 <= j < f.len() && f[j] == code[i];
                assert(f[j] == code[i]);
            }
        }
    }
    let w = without_char(code, ' ');
    if w.contains(' ') {
        let j = choose|j: int| 0 <= j < w.len() && w[j] == ' ';
        code.lemma_filter_pred(crate::text::other_than(' '), j);
    }
    assert(start_command(code).subrange(0, "/start "@.len() as int) =~= "/start "@);
}

/// The message that submits a registration code: `/start ` and the code
/// with its spaces left out; or an error when the code holds a forbidden
/// character.
pub fn use_code_message(code: &str) -> (r: Result<String, UseCodeError>)
    ensures
        r is Err <==> has_forbidden_char(code@),
        r matches Err(e) ==> e == UseCodeError::IllegalCharacter,
        r matches Ok(m) ==> m@ == start_command(without_char(code@, ' ')),
{
    let c = chars_of(code);
    let bad = chars_of("*?░@#!$%^&");
    let mut i: usize = 0;
    while i < c.len()
        invariant
            c@ == code@,
            bad@ == forbidden_code_chars(),
            i <= c.len(),
            forall|k: int| 0 <= k < i ==> !forbidden_code_chars().contains(#[trigger] code@[k]),
        decreases c.len() - i,
    {
        if has_char(&bad, c[i]) {
            return Err(UseCodeError::IllegalCharacter);
        }
        i += 1;
    }
    let kept = remove_char(&c, ' ');
    let kept_s = string_of(&kept);
    Ok(start_message(kept_s.as_str()))
}

/// The result of using a code, from the bot's answer: "try the next one"
/// means the code was rejected.
pub fn use_code_outcome(status: CodeStatus) -> (r: Result<(), UseCodeError>)
    ensures
        r is Ok <==> status == CodeStatus::End,
        r matches Err(e) ==> e == UseCodeError::Rejected,
{
    match status {
        CodeStatus::Continue => Err(UseCodeError::Rejected),
        CodeStatus::End => Ok(()),
    }
}

} // verus!
