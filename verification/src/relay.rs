//! The rules of the relay: what one inbound message leads to.
//!
//! [`process_message`] takes the configuration, the two membership stores,
//! the rate limiter and a message, changes the stores and the limiter as the
//! rules say, and returns what is to be sent. It sends nothing itself.

use vstd::prelude::*;
use vstd::string::StringExecFns;
use crate::decimal::{append_i64, int_decimal, parse_i64_spec, parse_range};
use crate::ids_set::{is_encoding, toggled, IdsSet};
use crate::rate_limiter::{throttles, RateLimiter};
use crate::simple_storage::SimpleStorage;
use crate::text::{chars_of, has_prefix, range_equals, trim, trim_range};

verus! {

/// The optional rate limit.
#[derive(Debug, Clone)]
pub struct BotSpamControlConfig {
    /// The window after an accepted message in which further messages of the
    /// same sender are throttled.
    pub delay: i64,
    /// The reply to a throttled message.
    pub delayed_message: String,
}

/// The replies and settings that the rules draw on.
#[derive(Debug, Clone)]
pub struct BotConfig {
    /// The credential of the transport. The rules never look at it.
    pub token: String,
    pub start_message: String,
    pub command_not_allowed: String,
    pub add_ignore: String,
    pub remove_ignore: String,
    pub error_ignore: String,
    pub add_listener: String,
    pub remove_listener: String,
    pub error_listener: String,
    pub proxy_activate_code: String,
    pub message_not_text_error: Option<String>,
    pub answer_after_message: Option<String>,
    pub answer_after_message_ignored: Option<String>,
    pub spam_control: Option<BotSpamControlConfig>,
}

/// What is known of the person who sent a message.
#[derive(Debug, Clone)]
pub struct Sender {
    pub id: i32,
    pub first_name: String,
    pub last_name: Option<String>,
    pub username: Option<String>,
}

/// One inbound message.
#[derive(Debug, Clone)]
pub struct Incoming {
    /// The chat that the message came from; it identifies the sender.
    pub chat_id: i64,
    /// The time of the message, as its source gave it.
    pub date: i32,
    /// The text, if the message has one.
    pub text: Option<String>,
    pub from: Option<Sender>,
}

/// What the text of a message asks for.
#[derive(Debug, Clone, Copy, PartialEq, Eq, Structural)]
pub enum Command {
    /// `/start`
    Start,
    /// `/ignore`, with the identifier that its argument denotes, if any.
    Ignore(Option<i64>),
    /// `/listening`, and whether its argument is the activation code.
    Listening(bool),
    /// No command: a text to relay.
    Text,
}

/// The command that `text` holds. The three command words are tried in this
/// order, and each counts wherever the text starts with it; what follows the
/// word, without the white space around it, is the argument.
pub open spec fn command_of(text: Seq<char>, activation_code: Seq<char>) -> Command {
    if "/start"@.is_prefix_of(text) {
        Command::Start
    } else if "/ignore"@.is_prefix_of(text) {
        Command::Ignore(parse_i64_spec(trim(text.skip("/ignore"@.len() as int))))
    } else if "/listening"@.is_prefix_of(text) {
        Command::Listening(trim(text.skip("/listening"@.len() as int)) == activation_code)
    } else {
        Command::Text
    }
}

/// Reads the command that `text` holds.
pub fn parse_command(text: &str, activation_code: &str) -> (command: Command)
    ensures
        command == command_of(text@, activation_code@),
{
    let chars = chars_of(text);
    let n: usize = chars.len();
    if has_prefix(&chars, "/start") {
        Command::Start
    } else if has_prefix(&chars, "/ignore") {
        proof {
            reveal_strlit("/ignore");
        }
        assert(chars@.skip(7) =~= chars@.subrange(7, n as int));
        let (a, b) = trim_range(&chars, 7, n);
        Command::Ignore(parse_range(&chars, a, b))
    } else if has_prefix(&chars, "/listening") {
        proof {
            reveal_strlit("/listening");
        }
        assert(chars@.skip(10) =~= chars@.subrange(10, n as int));
        let (a, b) = trim_range(&chars, 10, n);
        Command::Listening(range_equals(&chars, a, b, activation_code))
    } else {
        Command::Text
    }
}

/// What the rules make of a message.
#[derive(Debug, Clone, Copy, PartialEq, Eq, Structural)]
pub enum Decision {
    /// Too soon after the sender's last accepted message.
    Throttled,
    /// `/start`.
    Start,
    /// A command that the sender may not give: `/ignore` from someone who is
    /// no listener, or `/listening` without the activation code.
    Denied,
    /// `/ignore` from a listener, but its argument denotes no identifier or
    /// the ignored set is out of reach.
    IgnoreFailed,
    /// `/ignore` from a listener: the membership of this identifier in the
    /// ignored set is flipped.
    IgnoreToggled(i64),
    /// `/listening` with the activation code, but the listeners are out of
    /// reach.
    ListeningFailed,
    /// `/listening` with the activation code: the sender's own membership in
    /// the listeners is flipped.
    ListeningToggled,
    /// A text of a sender who is not ignored: it goes to the listeners.
    Relayed,
    /// A text of an ignored sender: it goes nowhere.
    Muted,
    /// A message without text.
    NotText,
}

/// The members that a reader of `store` finds: none where it is poisoned.
pub open spec fn readable(store: SimpleStorage<IdsSet>) -> Set<i64> {
    if store.is_poisoned() {
        Set::empty()
    } else {
        store@
    }
}

/// The text of `s`, if there is one.
pub open spec fn text_of(s: Option<String>) -> Option<Seq<char>> {
    match s {
        Some(s) => Some(s@),
        None => None,
    }
}

/// Whether the rate limit stops `message`.
pub open spec fn is_throttled(config: BotConfig, limiter: RateLimiter, message: Incoming) -> bool {
    match config.spam_control {
        Some(control) => throttles(limiter@, message.chat_id, message.date, control.delay),
        None => false,
    }
}

/// What the rules make of `message`, in the order in which they apply: the
/// rate limit first, then the command words, then the ignored set.
pub open spec fn decision_of(
    config: BotConfig,
    listeners: SimpleStorage<IdsSet>,
    ignored: SimpleStorage<IdsSet>,
    limiter: RateLimiter,
    message: Incoming,
) -> Decision {
    if is_throttled(config, limiter, message) {
        Decision::Throttled
    } else {
        match message.text {
            None => Decision::NotText,
            Some(text) => match command_of(text@, config.proxy_activate_code@) {
                Command::Start => Decision::Start,
                Command::Ignore(target) => if !readable(listeners).contains(message.chat_id) {
                    Decision::Denied
                } else {
                    match target {
                        Some(id) => if ignored.is_poisoned() {
                            Decision::IgnoreFailed
                        } else {
                            Decision::IgnoreToggled(id)
                        },
                        None => Decision::IgnoreFailed,
                    }
                },
                Command::Listening(authorized) => if !authorized {
                    Decision::Denied
                } else if listeners.is_poisoned() {
                    Decision::ListeningFailed
                } else {
                    Decision::ListeningToggled
                },
                Command::Text => if readable(ignored).contains(message.chat_id) {
                    Decision::Muted
                } else {
                    Decision::Relayed
                },
            },
        }
    }
}

/// The text of an ignored sender is never relayed, whoever listens.
pub proof fn lemma_ignored_never_relayed(
    config: BotConfig,
    listeners: SimpleStorage<IdsSet>,
    ignored: SimpleStorage<IdsSet>,
    limiter: RateLimiter,
    message: Incoming,
)
    requires
        readable(ignored).contains(message.chat_id),
    ensures
        decision_of(config, listeners, ignored, limiter, message) != Decision::Relayed,
{
}

/// Finds what the rules make of `message`. Nothing is changed.
pub fn decide(
    config: &BotConfig,
    listeners: &SimpleStorage<IdsSet>,
    ignored: &SimpleStorage<IdsSet>,
    limiter: &RateLimiter,
    message: &Incoming,
) -> (decision: Decision)
    ensures
        decision == decision_of(*config, *listeners, *ignored, *limiter, *message),
{
    match &config.spam_control {
        Some(control) => {
            if limiter.check_and_should_throttle(message.chat_id, message.date, control.delay) {
                return Decision::Throttled;
            }
        },
        None => {},
    }
    let is_listener = match listeners.mem_storage() {
        Ok(members) => members.contains(message.chat_id),
        Err(_) => false,
    };
    let is_ignored = match ignored.mem_storage() {
        Ok(members) => members.contains(message.chat_id),
        Err(_) => false,
    };
    match &message.text {
        None => Decision::NotText,
        Some(text) => match parse_command(text.as_str(), config.proxy_activate_code.as_str()) {
            Command::Start => Decision::Start,
            Command::Ignore(target) => {
                if !is_listener {
                    Decision::Denied
                } else {
                    match target {
                        Some(id) => {
                            if ignored.poisoned() {
                                Decision::IgnoreFailed
                            } else {
                                Decision::IgnoreToggled(id)
                            }
                        },
                        None => Decision::IgnoreFailed,
                    }
                }
            },
            Command::Listening(authorized) => {
                if !authorized {
                    Decision::Denied
                } else if listeners.poisoned() {
                    Decision::ListeningFailed
                } else {
                    Decision::ListeningToggled
                }
            },
            Command::Text => {
                if is_ignored {
                    Decision::Muted
                } else {
                    Decision::Relayed
                }
            },
        },
    }
}

/// How a sender is named in front of a relayed text: first name, last name
/// or `-`, and in brackets the user name or else the numeric identifier.
pub open spec fn sender_label(from: Sender) -> Seq<char> {
    from.first_name@ + " "@ + (match from.last_name {
        Some(name) => name@,
        None => "-"@,
    }) + " ("@ + (match from.username {
        Some(name) => name@,
        None => int_decimal(from.id as int),
    }) + ") "@
}

/// The text that a listener receives for `text` sent in chat `chat_id`: the
/// sender's label where the sender is known, the chat, an empty line, and
/// the text itself.
pub open spec fn forward_text(chat_id: i64, from: Option<Sender>, text: Seq<char>) -> Seq<char> {
    (match from {
        Some(user) => sender_label(user),
        None => Seq::empty(),
    }) + "(Chat ID: "@ + int_decimal(chat_id as int) + ")\n\n"@ + text
}

/// Writes the text that a listener receives.
pub fn render_forward(chat_id: i64, from: &Option<Sender>, text: &str) -> (r: String)
    ensures
        r@ == forward_text(chat_id, *from, text@),
{
    let mut out = String::new();
    match from {
        Some(user) => {
            out.append(user.first_name.as_str());
            out.append(" ");
            match &user.last_name {
                Some(name) => out.append(name.as_str()),
                None => out.append("-"),
            }
            out.append(" (");
            match &user.username {
                Some(name) => out.append(name.as_str()),
                None => append_i64(&mut out, user.id as i64),
            }
            out.append(") ");
            assert(out@ =~= sender_label(*user));
        },
        None => {},
    }
    out.append("(Chat ID: ");
    append_i64(&mut out, chat_id);
    out.append(")\n\n");
    out.append(text);
    assert(out@ =~= forward_text(chat_id, *from, text@));
    out
}

/// One copy of a relayed text, on its way to a listener.
#[derive(Debug, Clone, PartialEq, Eq)]
pub struct Forward {
    pub recipient: i64,
    pub text: String,
}

/// The recipients of `forwards`, in their order.
pub open spec fn recipients(forwards: Seq<Forward>) -> Seq<i64> {
    forwards.map_values(|forward: Forward| forward.recipient)
}

/// Who receives what `sender` sends: the listeners that can be read, without
/// the sender.
pub open spec fn audience(listeners: SimpleStorage<IdsSet>, sender: i64) -> Set<i64> {
    readable(listeners).remove(sender)
}

/// Whether `forwards` brings `text` to every member of `audience`, once, and
/// nothing to anyone else.
pub open spec fn delivers(forwards: Seq<Forward>, audience: Set<i64>, text: Seq<char>) -> bool {
    &&& recipients(forwards).no_duplicates()
    &&& recipients(forwards).to_set() == audience
    &&& forall|k: int| 0 <= k < forwards.len() ==> (#[trigger] forwards[k]).text@ == text
}

/// Copies that are delivered to an audience without the sender never go to
/// the sender.
pub proof fn lemma_sender_excluded(
    forwards: Seq<Forward>,
    audience: Set<i64>,
    sender: i64,
    text: Seq<char>,
)
    requires
        delivers(forwards, audience.remove(sender), text),
    ensures
        forall|k: int| 0 <= k < forwards.len() ==> (#[trigger] forwards[k]).recipient != sender,
{
    assert forall|k: int| 0 <= k < forwards.len() implies (#[trigger] forwards[k]).recipient
        != sender by {
        assert(recipients(forwards)[k] == forwards[k].recipient);
        assert(recipients(forwards).to_set().contains(forwards[k].recipient));
    }
}

/// The copies of `text`, sent in chat `chat_id`, for the listeners: one for
/// each listener that can be read, but none for the sender.
pub fn forwards_for(
    listeners: &SimpleStorage<IdsSet>,
    chat_id: i64,
    from: &Option<Sender>,
    text: &str,
) -> (forwards: Vec<Forward>)
    ensures
        delivers(forwards@, audience(*listeners, chat_id), forward_text(chat_id, *from, text@)),
{
    let listening = match listeners.mem_storage() {
        Ok(members) => members.members(),
        Err(_) => Vec::new(),
    };
    assert(listening@.to_set() =~= readable(*listeners));
    let rendered = render_forward(chat_id, from, text);
    let mut forwards: Vec<Forward> = Vec::new();
    let mut i: usize = 0;
    while i < listening.len()
        invariant
            i <= listening.len(),
            listening@.no_duplicates(),
            rendered@ == forward_text(chat_id, *from, text@),
            recipients(forwards@).no_duplicates(),
            forall|x: i64|
                recipients(forwards@).contains(x) <==> (x != chat_id && exists|j: int|
                    0 <= j < i && listening@[j] == x),
            forall|k: int| 0 <= k < forwards.len() ==> (#[trigger] forwards@[k]).text@ == rendered@,
        decreases listening.len() - i,
    {
        let listener: i64 = listening[i];
        if listener != chat_id {
            let ghost before = forwards@;
            forwards.push(Forward { recipient: listener, text: rendered.clone() });
            proof {
                assert(recipients(forwards@) =~= recipients(before).push(listener));
                assert(!recipients(before).contains(listener));
                assert forall|x: i64|
                    recipients(forwards@).contains(x) <==> (x != chat_id && exists|j: int|
                        0 <= j < i + 1 && listening@[j] == x) by {
                    if recipients(forwards@).contains(x) {
                        let k = choose|k: int|
                            0 <= k < recipients(forwards@).len() && recipients(forwards@)[k] == x;
                        if k < before.len() {
                            assert(recipients(before)[k] == x);
                            assert(recipients(before).contains(x));
                        } else {
                            assert(listening@[i as int] == x);
                        }
                    }
                    if x != chat_id && exists|j: int| 0 <= j < i + 1 && listening@[j] == x {
                        let j = choose|j: int| 0 <= j < i + 1 && listening@[j] == x;
                        if j < i {
                            assert(recipients(before).contains(x));
                            let k = choose|k: int|
                                0 <= k < recipients(before).len() && recipients(before)[k] == x;
                            assert(recipients(forwards@)[k] == x);
                        } else {
                            assert(recipients(forwards@)[before.len() as int] == x);
                        }
                    }
                }
            }
        } else {
            assert forall|x: i64|
                recipients(forwards@).contains(x) <==> (x != chat_id && exists|j: int|
                    0 <= j < i + 1 && listening@[j] == x) by {
                if x != chat_id && exists|j: int| 0 <= j < i + 1 && listening@[j] == x {
                    let j = choose|j: int| 0 <= j < i + 1 && listening@[j] == x;
                    assert(j < i);
                }
            }
        }
        i += 1;
    }
    proof {
        assert forall|x: i64|
            recipients(forwards@).to_set().contains(x) <==> readable(*listeners).remove(
                chat_id,
            ).contains(x) by {
            if readable(*listeners).remove(chat_id).contains(x) {
                assert(listening@.to_set().contains(x));
                let j = choose|j: int| 0 <= j < listening@.len() && listening@[j] == x;
                assert(listening@[j] == x);
            }
            if recipients(forwards@).contains(x) {
                let j = choose|j: int| 0 <= j < i && listening@[j] == x;
                assert(listening@.contains(x));
            }
        }
        assert(recipients(forwards@).to_set() =~= readable(*listeners).remove(chat_id));
    }
    forwards
}

/// One of the two membership stores.
#[derive(Debug, Clone, Copy, PartialEq, Eq, Structural)]
pub enum StoreKind {
    Listeners,
    Ignored,
}

/// A request to overwrite the durable resource of a store.
#[derive(Debug, Clone, PartialEq, Eq)]
pub struct Persist {
    pub store: StoreKind,
    /// The whole new content of the resource.
    pub contents: String,
}

/// What is to be done for one message.
#[derive(Debug, Clone, PartialEq, Eq)]
pub struct Outcome {
    /// The reply to the sender, if there is one.
    pub reply: Option<String>,
    /// The copies for the listeners. Each is sent on its own: that one
    /// cannot be delivered does not hold up the others, nor the reply.
    pub forwards: Vec<Forward>,
    /// The store to write out, if one was changed.
    pub persist: Option<Persist>,
}

/// The reply that goes with a decision. `listeners` and `ignored` are the
/// members before the message was processed.
pub open spec fn reply_of(
    config: BotConfig,
    decision: Decision,
    listeners: Set<i64>,
    ignored: Set<i64>,
    sender: i64,
) -> Option<Seq<char>> {
    match decision {
        Decision::Throttled => match config.spam_control {
            Some(control) => Some(control.delayed_message@),
            None => None,
        },
        Decision::Start => Some(config.start_message@),
        Decision::Denied => Some(config.command_not_allowed@),
        Decision::IgnoreFailed => Some(config.error_ignore@),
        Decision::IgnoreToggled(id) => Some(
            if ignored.contains(id) {
                config.remove_ignore@
            } else {
                config.add_ignore@
            },
        ),
        Decision::ListeningFailed => Some(config.error_listener@),
        Decision::ListeningToggled => Some(
            if listeners.contains(sender) {
                config.remove_listener@
            } else {
                config.add_listener@
            },
        ),
        Decision::Relayed => text_of(config.answer_after_message),
        Decision::Muted => text_of(config.answer_after_message_ignored),
        Decision::NotText => text_of(config.message_not_text_error),
    }
}

/// Whether a message on which this was decided counts as accepted, so that
/// its time opens a new window for its sender. The commands that a listener
/// or the holder of the activation code gives, and `/start`, do not.
pub open spec fn is_accepted(decision: Decision) -> bool {
    decision == Decision::Denied || decision == Decision::Relayed || decision == Decision::Muted
        || decision == Decision::NotText
}

/// The listeners after a message on which this was decided. Only
/// `/listening` with the activation code changes them, and only the sender's
/// own membership.
pub open spec fn listeners_after(decision: Decision, listeners: Set<i64>, sender: i64) -> Set<i64> {
    if decision == Decision::ListeningToggled {
        toggled(listeners, sender)
    } else {
        listeners
    }
}

/// The ignored set after a message on which this was decided. Only
/// `/ignore` from a listener changes it, and only the membership of its
/// target.
pub open spec fn ignored_after(decision: Decision, ignored: Set<i64>) -> Set<i64> {
    match decision {
        Decision::IgnoreToggled(id) => toggled(ignored, id),
        _ => ignored,
    }
}

/// The recorded times after a message of `sender` at `date` on which this
/// was decided. An accepted message replaces the sender's entry, any other
/// leaves the times as they are.
pub open spec fn accepted_after(
    decision: Decision,
    accepted: Map<i64, i32>,
    sender: i64,
    date: i32,
) -> Map<i64, i32> {
    if is_accepted(decision) {
        accepted.insert(sender, date)
    } else {
        accepted
    }
}

/// Whether `persist` asks to overwrite the resource of `store` with a text
/// form of `members`.
pub open spec fn persists(persist: Option<Persist>, store: StoreKind, members: Set<i64>) -> bool {
    match persist {
        Some(request) => request.store == store && is_encoding(members, request.contents@),
        None => false,
    }
}

fn clone_text(text: &Option<String>) -> (r: Option<String>)
    ensures
        text_of(r) == text_of(*text),
{
    match text {
        Some(text) => Some(text.clone()),
        None => None,
    }
}

/// Processes one message to its end: changes the stores and the limiter as
/// the rules say, and returns what is to be sent and written.
pub fn process_message(
    config: &BotConfig,
    listeners: &mut SimpleStorage<IdsSet>,
    ignored: &mut SimpleStorage<IdsSet>,
    limiter: &mut RateLimiter,
    message: &Incoming,
) -> (outcome: Outcome)
    ensures
        ({
            let sender = message.chat_id;
            let decision = decision_of(
                *config,
                *old(listeners),
                *old(ignored),
                *old(limiter),
                *message,
            );
            &&& text_of(outcome.reply) == reply_of(
                *config,
                decision,
                old(listeners)@,
                old(ignored)@,
                sender,
            )
            &&& final(listeners).is_poisoned() == old(listeners).is_poisoned()
            &&& final(listeners)@ == listeners_after(decision, old(listeners)@, sender)
            &&& final(ignored).is_poisoned() == old(ignored).is_poisoned()
            &&& final(ignored)@ == ignored_after(decision, old(ignored)@)
            &&& final(limiter).is_poisoned() == old(limiter).is_poisoned()
            &&& final(limiter)@ == if old(limiter).is_poisoned() {
                old(limiter)@
            } else {
                accepted_after(decision, old(limiter)@, sender, message.date)
            }
            &&& match decision {
                Decision::Relayed => delivers(
                    outcome.forwards@,
                    audience(*old(listeners), sender),
                    forward_text(sender, message.from, message.text->Some_0@),
                ),
                _ => outcome.forwards@.len() == 0,
            }
            &&& match decision {
                Decision::IgnoreToggled(_) => persists(
                    outcome.persist,
                    StoreKind::Ignored,
                    final(ignored)@,
                ),
                Decision::ListeningToggled => persists(
                    outcome.persist,
                    StoreKind::Listeners,
                    final(listeners)@,
                ),
                _ => outcome.persist is None,
            }
        }),
        readable(*old(ignored)).contains(message.chat_id) ==> outcome.forwards@.len() == 0,
        forall|k: int|
            0 <= k < outcome.forwards@.len() ==> (#[trigger] outcome.forwards@[k]).recipient
                != message.chat_id,
{
    let sender: i64 = message.chat_id;
    let decision = decide(config, listeners, ignored, limiter, message);
    let mut outcome = Outcome { reply: None, forwards: Vec::new(), persist: None };
    match decision {
        Decision::Throttled => {
            outcome.reply =
            match &config.spam_control {
                Some(control) => Some(control.delayed_message.clone()),
                None => None,
            };
        },
        Decision::Start => {
            outcome.reply = Some(config.start_message.clone());
        },
        Decision::Denied => {
            outcome.reply = Some(config.command_not_allowed.clone());
            limiter.record_accepted(sender, message.date);
        },
        Decision::IgnoreFailed => {
            outcome.reply = Some(config.error_ignore.clone());
        },
        Decision::IgnoreToggled(id) => {
            match ignored.mutable_mem_storage() {
                Ok(members) => {
                    if members.toggle(id) {
                        outcome.reply = Some(config.add_ignore.clone());
                    } else {
                        outcome.reply = Some(config.remove_ignore.clone());
                    }
                },
                Err(_) => {
                    outcome.reply = Some(config.error_ignore.clone());
                },
            }
            match ignored.sync_file_from_mem() {
                Ok(contents) => {
                    outcome.persist = Some(Persist { store: StoreKind::Ignored, contents });
                },
                Err(_) => {},
            }
        },
        Decision::ListeningFailed => {
            outcome.reply = Some(config.error_listener.clone());
        },
        Decision::ListeningToggled => {
            match listeners.mutable_mem_storage() {
                Ok(members) => {
                    if members.toggle(sender) {
                        outcome.reply = Some(config.add_listener.clone());
                    } else {
                        outcome.reply = Some(config.remove_listener.clone());
                    }
                },
                Err(_) => {
                    outcome.reply = Some(config.error_listener.clone());
                },
            }
            match listeners.sync_file_from_mem() {
                Ok(contents) => {
                    outcome.persist = Some(Persist { store: StoreKind::Listeners, contents });
                },
                Err(_) => {},
            }
        },
        Decision::Relayed => {
            match &message.text {
                Some(text) => {
                    outcome.forwards =
                    forwards_for(listeners, sender, &message.from, text.as_str());
                    proof {
                        lemma_sender_excluded(
                            outcome.forwards@,
                            readable(*listeners),
                            sender,
                            forward_text(sender, message.from, text@),
                        );
                    }
                },
                None => {},
            }
            outcome.reply = clone_text(&config.answer_after_message);
            limiter.record_accepted(sender, message.date);
        },
        Decision::Muted => {
            outcome.reply = clone_text(&config.answer_after_message_ignored);
            limiter.record_accepted(sender, message.date);
        },
        Decision::NotText => {
            outcome.reply = clone_text(&config.message_not_text_error);
            limiter.record_accepted(sender, message.date);
        },
    }
    outcome
}

} // verus!
