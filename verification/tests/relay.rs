use proxy_telegram_bot::ids_set::IdsSet;
use proxy_telegram_bot::rate_limiter::RateLimiter;
use proxy_telegram_bot::relay::{
    forwards_for, decide, parse_command, process_message, render_forward, BotConfig,
    BotSpamControlConfig, Command, Forward, Incoming, Outcome, Sender, StoreKind, Decision,
};
use proxy_telegram_bot::simple_storage::{SimpleStorage, TextForm};

fn config() -> BotConfig {
    BotConfig {
        token: String::from("test-token"),
        start_message: String::from("welcome"),
        command_not_allowed: String::from("not allowed"),
        add_ignore: String::from("ignore added"),
        remove_ignore: String::from("ignore removed"),
        error_ignore: String::from("ignore error"),
        add_listener: String::from("listener added"),
        remove_listener: String::from("listener removed"),
        error_listener: String::from("listener error"),
        proxy_activate_code: String::from("ABC123"),
        message_not_text_error: Some(String::from("text only")),
        answer_after_message: Some(String::from("sent")),
        answer_after_message_ignored: Some(String::from("sent too")),
        spam_control: None,
    }
}

fn config_with_delay(delay: i64) -> BotConfig {
    let mut c = config();
    c.spam_control =
        Some(BotSpamControlConfig { delay, delayed_message: String::from("slow down") });
    c
}

fn store_of(ids: &[i64]) -> SimpleStorage<IdsSet> {
    let mut store: SimpleStorage<IdsSet> = SimpleStorage::new();
    for id in ids.iter() {
        store.mutable_mem_storage().unwrap().insert(*id);
    }
    store
}

fn members(store: &SimpleStorage<IdsSet>) -> Vec<i64> {
    let mut v = store.mem_storage().unwrap().members();
    v.sort();
    v
}

fn text_message(chat_id: i64, date: i32, text: &str) -> Incoming {
    Incoming { chat_id, date, text: Some(String::from(text)), from: None }
}

fn alice() -> Sender {
    Sender {
        id: 77,
        first_name: String::from("Alice"),
        last_name: Some(String::from("Liddell")),
        username: Some(String::from("alice")),
    }
}

fn recipients(outcome: &Outcome) -> Vec<i64> {
    let mut v: Vec<i64> = outcome.forwards.iter().map(|f| f.recipient).collect();
    v.sort();
    v
}

fn decoded(text: &str) -> Vec<i64> {
    let mut v = IdsSet::from_text(text).members();
    v.sort();
    v
}

struct World {
    config: BotConfig,
    listeners: SimpleStorage<IdsSet>,
    ignored: SimpleStorage<IdsSet>,
    limiter: RateLimiter,
}

impl World {
    fn new(config: BotConfig, listeners: &[i64], ignored: &[i64]) -> World {
        World {
            config,
            listeners: store_of(listeners),
            ignored: store_of(ignored),
            limiter: RateLimiter::new(),
        }
    }

    fn send(&mut self, message: &Incoming) -> Outcome {
        process_message(
            &self.config,
            &mut self.listeners,
            &mut self.ignored,
            &mut self.limiter,
            message,
        )
    }

    fn decision(&self, message: &Incoming) -> Decision {
        decide(&self.config, &self.listeners, &self.ignored, &self.limiter, message)
    }
}

#[test]
fn command_words() {
    assert_eq!(parse_command("/start", "c"), Command::Start);
    assert_eq!(parse_command("/start now", "c"), Command::Start);
    assert_eq!(parse_command("/started", "c"), Command::Start);
    assert_eq!(parse_command("/star", "c"), Command::Text);
    assert_eq!(parse_command(" /start", "c"), Command::Text);
    assert_eq!(parse_command("/Start", "c"), Command::Text);
    assert_eq!(parse_command("hello", "c"), Command::Text);
    assert_eq!(parse_command("", "c"), Command::Text);
}

#[test]
fn ignore_arguments() {
    assert_eq!(parse_command("/ignore 42", "c"), Command::Ignore(Some(42)));
    assert_eq!(parse_command("/ignore   -42  ", "c"), Command::Ignore(Some(-42)));
    assert_eq!(parse_command("/ignore\t+7\n", "c"), Command::Ignore(Some(7)));
    assert_eq!(parse_command("/ignore42", "c"), Command::Ignore(Some(42)));
    assert_eq!(parse_command("/ignore", "c"), Command::Ignore(None));
    assert_eq!(parse_command("/ignore ", "c"), Command::Ignore(None));
    assert_eq!(parse_command("/ignore bob", "c"), Command::Ignore(None));
    assert_eq!(parse_command("/ignore 1 2", "c"), Command::Ignore(None));
    assert_eq!(parse_command("/ignore 9223372036854775808", "c"), Command::Ignore(None));
    assert_eq!(
        parse_command("/ignore -9223372036854775808", "c"),
        Command::Ignore(Some(i64::MIN))
    );
}

#[test]
fn listening_arguments() {
    assert_eq!(parse_command("/listening ABC123", "ABC123"), Command::Listening(true));
    assert_eq!(parse_command("/listening   ABC123 \n", "ABC123"), Command::Listening(true));
    assert_eq!(parse_command("/listeningABC123", "ABC123"), Command::Listening(true));
    assert_eq!(parse_command("/listening abc123", "ABC123"), Command::Listening(false));
    assert_eq!(parse_command("/listening ABC1234", "ABC123"), Command::Listening(false));
    assert_eq!(parse_command("/listening", "ABC123"), Command::Listening(false));
    assert_eq!(parse_command("/listening", ""), Command::Listening(true));
    assert_eq!(parse_command("/listening  ", ""), Command::Listening(true));
    assert_eq!(parse_command("/listening A B", "A B"), Command::Listening(true));
    assert_eq!(parse_command("/listening x", " x"), Command::Listening(false));
}

#[test]
fn forward_text_with_full_sender() {
    let from = Some(alice());
    assert_eq!(
        render_forward(200, &from, "hello"),
        "Alice Liddell (alice) (Chat ID: 200)\n\nhello"
    );
}

#[test]
fn forward_text_with_sparse_sender() {
    let from = Some(Sender {
        id: -31,
        first_name: String::from("Bob"),
        last_name: None,
        username: None,
    });
    assert_eq!(render_forward(-1001, &from, "a\nb"), "Bob - (-31) (Chat ID: -1001)\n\na\nb");
}

#[test]
fn forward_text_without_sender() {
    assert_eq!(render_forward(200, &None, "hello"), "(Chat ID: 200)\n\nhello");
    assert_eq!(render_forward(0, &None, ""), "(Chat ID: 0)\n\n");
}

#[test]
fn forward_text_agrees_with_the_format_macro() {
    let user = alice();
    let expected = format!(
        "{} {} ({}) (Chat ID: {})\n\n{}",
        user.first_name.clone(),
        user.last_name.clone().unwrap_or("-".to_string()),
        user.username.clone().unwrap_or(user.id.clone().to_string()),
        i64::MIN,
        "text 💬"
    );
    assert_eq!(render_forward(i64::MIN, &Some(user), "text 💬"), expected);
}

#[test]
fn forwards_go_to_every_listener_but_the_sender() {
    let listeners = store_of(&[1, 2, 3]);
    let mut forwards = forwards_for(&listeners, 2, &None, "hi");
    forwards.sort_by_key(|f| f.recipient);
    assert_eq!(
        forwards,
        vec![
            Forward { recipient: 1, text: String::from("(Chat ID: 2)\n\nhi") },
            Forward { recipient: 3, text: String::from("(Chat ID: 2)\n\nhi") },
        ]
    );
    assert_eq!(forwards_for(&store_of(&[]), 2, &None, "hi"), Vec::<Forward>::new());
    assert_eq!(forwards_for(&store_of(&[2]), 2, &None, "hi"), Vec::<Forward>::new());
}

#[test]
fn ordinary_text_is_forwarded_with_the_senders_info() {
    let mut world = World::new(config(), &[100], &[]);
    let message = Incoming {
        chat_id: 200,
        date: 5,
        text: Some(String::from("hello")),
        from: Some(alice()),
    };
    let outcome = world.send(&message);
    assert_eq!(outcome.forwards.len(), 1);
    assert_eq!(outcome.forwards[0].recipient, 100);
    assert!(outcome.forwards[0].text.contains("hello"));
    assert!(outcome.forwards[0].text.contains("Alice"));
    assert!(outcome.forwards[0].text.contains("200"));
    assert_eq!(outcome.forwards[0].text, "Alice Liddell (alice) (Chat ID: 200)\n\nhello");
    assert!(outcome.forwards.iter().all(|f| f.recipient != 200));
    assert_eq!(outcome.reply, Some(String::from("sent")));
    assert_eq!(outcome.persist, None);
    assert_eq!(world.limiter.last_accepted(200), Some(5));
}

#[test]
fn listening_with_the_code_subscribes_and_then_unsubscribes() {
    let mut world = World::new(config(), &[], &[]);
    let message = text_message(300, 1, "/listening ABC123");
    assert_eq!(world.decision(&message), Decision::ListeningToggled);
    let first = world.send(&message);
    assert_eq!(first.reply, Some(String::from("listener added")));
    assert_eq!(members(&world.listeners), vec![300]);
    let persist = first.persist.unwrap();
    assert_eq!(persist.store, StoreKind::Listeners);
    assert_eq!(persist.contents, "300\n");
    assert!(first.forwards.is_empty());
    let second = world.send(&message);
    assert_eq!(second.reply, Some(String::from("listener removed")));
    assert_eq!(members(&world.listeners), Vec::<i64>::new());
    let persist = second.persist.unwrap();
    assert_eq!(persist.store, StoreKind::Listeners);
    assert_eq!(persist.contents, "");
    assert_eq!(world.limiter.last_accepted(300), None);
}

#[test]
fn spam_window_throttles_up_to_its_end() {
    let mut world = World::new(config_with_delay(10), &[100], &[]);
    let first = world.send(&text_message(400, 0, "one"));
    assert_eq!(recipients(&first), vec![100]);
    assert_eq!(first.reply, Some(String::from("sent")));

    let at_nine = text_message(400, 9, "two");
    assert_eq!(world.decision(&at_nine), Decision::Throttled);
    let second = world.send(&at_nine);
    assert_eq!(second.reply, Some(String::from("slow down")));
    assert!(second.forwards.is_empty());
    assert_eq!(second.persist, None);
    assert_eq!(world.limiter.last_accepted(400), Some(0));

    let third = world.send(&text_message(400, 10, "three"));
    assert_eq!(third.reply, Some(String::from("slow down")));
    assert!(third.forwards.is_empty());
    assert_eq!(world.limiter.last_accepted(400), Some(0));

    let fourth = world.send(&text_message(400, 11, "four"));
    assert_eq!(recipients(&fourth), vec![100]);
    assert_eq!(fourth.forwards[0].text, "(Chat ID: 400)\n\nfour");
    assert_eq!(fourth.reply, Some(String::from("sent")));
    assert_eq!(world.limiter.last_accepted(400), Some(11));
}

#[test]
fn throttle_is_per_sender() {
    let mut world = World::new(config_with_delay(10), &[100], &[]);
    world.send(&text_message(400, 0, "one"));
    let other = world.send(&text_message(401, 1, "hi"));
    assert_eq!(recipients(&other), vec![100]);
    assert_eq!(other.reply, Some(String::from("sent")));
}

#[test]
fn throttle_comes_before_every_command() {
    let mut world = World::new(config_with_delay(10), &[400], &[]);
    world.send(&text_message(400, 0, "one"));
    for text in ["/start", "/ignore 5", "/listening ABC123", "/listening no", "text"].iter() {
        let outcome = world.send(&text_message(400, 5, text));
        assert_eq!(outcome.reply, Some(String::from("slow down")));
        assert!(outcome.forwards.is_empty());
        assert_eq!(outcome.persist, None);
    }
    let no_text = Incoming { chat_id: 400, date: 5, text: None, from: None };
    assert_eq!(world.send(&no_text).reply, Some(String::from("slow down")));
    assert_eq!(members(&world.listeners), vec![400]);
    assert_eq!(members(&world.ignored), Vec::<i64>::new());
    assert_eq!(world.limiter.last_accepted(400), Some(0));
}

#[test]
fn ignored_sender_is_never_forwarded() {
    let mut world = World::new(config(), &[1, 2, 3, 200], &[200]);
    let message = text_message(200, 5, "hello");
    assert_eq!(world.decision(&message), Decision::Muted);
    let outcome = world.send(&message);
    assert!(outcome.forwards.is_empty());
    assert_eq!(outcome.reply, Some(String::from("sent too")));
    assert_eq!(outcome.persist, None);
    assert_eq!(world.limiter.last_accepted(200), Some(5));
}

#[test]
fn listener_gets_no_copy_of_their_own_message() {
    let mut world = World::new(config(), &[100, 200, 300], &[]);
    let outcome = world.send(&text_message(200, 5, "hello"));
    assert_eq!(recipients(&outcome), vec![100, 300]);
    let mut alone = World::new(config(), &[200], &[]);
    let outcome = alone.send(&text_message(200, 5, "hello"));
    assert!(outcome.forwards.is_empty());
    assert_eq!(outcome.reply, Some(String::from("sent")));
}

#[test]
fn start_replies_and_records_nothing() {
    let mut world = World::new(config(), &[100], &[]);
    let message = text_message(5, 9, "/start");
    assert_eq!(world.decision(&message), Decision::Start);
    let outcome = world.send(&message);
    assert_eq!(outcome.reply, Some(String::from("welcome")));
    assert!(outcome.forwards.is_empty());
    assert_eq!(outcome.persist, None);
    assert_eq!(world.limiter.last_accepted(5), None);
}

#[test]
fn ignore_from_a_stranger_is_denied_and_recorded() {
    let mut world = World::new(config(), &[100], &[]);
    let message = text_message(5, 9, "/ignore 77");
    assert_eq!(world.decision(&message), Decision::Denied);
    let outcome = world.send(&message);
    assert_eq!(outcome.reply, Some(String::from("not allowed")));
    assert_eq!(outcome.persist, None);
    assert_eq!(members(&world.ignored), Vec::<i64>::new());
    assert_eq!(world.limiter.last_accepted(5), Some(9));
}

#[test]
fn ignore_from_a_listener_toggles_the_target() {
    let mut world = World::new(config(), &[100], &[1]);
    let message = text_message(100, 9, "/ignore 77");
    assert_eq!(world.decision(&message), Decision::IgnoreToggled(77));
    let added = world.send(&message);
    assert_eq!(added.reply, Some(String::from("ignore added")));
    assert_eq!(members(&world.ignored), vec![1, 77]);
    let persist = added.persist.unwrap();
    assert_eq!(persist.store, StoreKind::Ignored);
    assert_eq!(decoded(&persist.contents), vec![1, 77]);
    assert!(added.forwards.is_empty());
    assert_eq!(world.limiter.last_accepted(100), None);

    let removed = world.send(&message);
    assert_eq!(removed.reply, Some(String::from("ignore removed")));
    assert_eq!(members(&world.ignored), vec![1]);
    let persist = removed.persist.unwrap();
    assert_eq!(persist.store, StoreKind::Ignored);
    assert_eq!(persist.contents, "1\n");
    assert_eq!(members(&world.listeners), vec![100]);
}

#[test]
fn ignore_with_a_bad_argument_fails() {
    let mut world = World::new(config(), &[100], &[1]);
    for text in ["/ignore", "/ignore bob", "/ignore 1.5", "/ignore 99999999999999999999"].iter() {
        let message = text_message(100, 9, text);
        assert_eq!(world.decision(&message), Decision::IgnoreFailed);
        let outcome = world.send(&message);
        assert_eq!(outcome.reply, Some(String::from("ignore error")));
        assert_eq!(outcome.persist, None);
        assert!(outcome.forwards.is_empty());
    }
    assert_eq!(members(&world.ignored), vec![1]);
    assert_eq!(world.limiter.last_accepted(100), None);
}

#[test]
fn listening_without_the_code_is_denied_and_recorded() {
    let mut world = World::new(config(), &[], &[]);
    for text in ["/listening", "/listening abc123", "/listening ABC123 x"].iter() {
        let message = text_message(300, 4, text);
        assert_eq!(world.decision(&message), Decision::Denied);
        let outcome = world.send(&message);
        assert_eq!(outcome.reply, Some(String::from("not allowed")));
        assert_eq!(outcome.persist, None);
    }
    assert_eq!(members(&world.listeners), Vec::<i64>::new());
    assert_eq!(world.limiter.last_accepted(300), Some(4));
}

#[test]
fn message_without_text_gets_the_configured_reply() {
    let mut world = World::new(config(), &[100], &[]);
    let message = Incoming { chat_id: 9, date: 3, text: None, from: Some(alice()) };
    assert_eq!(world.decision(&message), Decision::NotText);
    let outcome = world.send(&message);
    assert_eq!(outcome.reply, Some(String::from("text only")));
    assert!(outcome.forwards.is_empty());
    assert_eq!(outcome.persist, None);
    assert_eq!(world.limiter.last_accepted(9), Some(3));
}

#[test]
fn optional_replies_may_be_absent() {
    let mut c = config();
    c.message_not_text_error = None;
    c.answer_after_message = None;
    c.answer_after_message_ignored = None;
    let mut world = World::new(c, &[100], &[7]);
    let relayed = world.send(&text_message(1, 1, "a"));
    assert_eq!(relayed.reply, None);
    assert_eq!(recipients(&relayed), vec![100]);
    let muted = world.send(&text_message(7, 1, "a"));
    assert_eq!(muted.reply, None);
    let no_text = world.send(&Incoming { chat_id: 2, date: 1, text: None, from: None });
    assert_eq!(no_text.reply, None);
    assert_eq!(world.limiter.last_accepted(1), Some(1));
    assert_eq!(world.limiter.last_accepted(7), Some(1));
    assert_eq!(world.limiter.last_accepted(2), Some(1));
}

#[test]
fn commands_of_an_ignored_listener_still_work() {
    let mut world = World::new(config(), &[100], &[100]);
    let outcome = world.send(&text_message(100, 1, "/ignore 100"));
    assert_eq!(outcome.reply, Some(String::from("ignore removed")));
    assert_eq!(members(&world.ignored), Vec::<i64>::new());
}

#[test]
fn poisoned_listeners_read_as_empty() {
    let mut world = World::new(config(), &[100, 200], &[]);
    world.listeners.poison();
    let relayed = world.send(&text_message(300, 1, "hello"));
    assert!(relayed.forwards.is_empty());
    assert_eq!(relayed.reply, Some(String::from("sent")));
    assert_eq!(world.limiter.last_accepted(300), Some(1));
    let denied = world.send(&text_message(100, 2, "/ignore 5"));
    assert_eq!(denied.reply, Some(String::from("not allowed")));
    let message = text_message(300, 3, "/listening ABC123");
    assert_eq!(world.decision(&message), Decision::ListeningFailed);
    let failed = world.send(&message);
    assert_eq!(failed.reply, Some(String::from("listener error")));
    assert_eq!(failed.persist, None);
    assert!(world.listeners.poisoned());
}

#[test]
fn poisoned_ignored_set_reads_as_empty_and_cannot_be_changed() {
    let mut world = World::new(config(), &[100], &[300]);
    world.ignored.poison();
    let relayed = world.send(&text_message(300, 1, "hello"));
    assert_eq!(recipients(&relayed), vec![100]);
    let message = text_message(100, 2, "/ignore 5");
    assert_eq!(world.decision(&message), Decision::IgnoreFailed);
    let failed = world.send(&message);
    assert_eq!(failed.reply, Some(String::from("ignore error")));
    assert_eq!(failed.persist, None);
    assert!(world.ignored.poisoned());
}

#[test]
fn poisoned_limiter_never_throttles() {
    let mut world = World::new(config_with_delay(1000), &[100], &[]);
    world.send(&text_message(400, 0, "one"));
    world.limiter.poison();
    let outcome = world.send(&text_message(400, 1, "two"));
    assert_eq!(recipients(&outcome), vec![100]);
    assert_eq!(world.limiter.last_accepted(400), None);
}

#[test]
fn decide_changes_nothing() {
    let world = World::new(config_with_delay(10), &[100], &[5]);
    assert_eq!(world.decision(&text_message(1, 0, "hi")), Decision::Relayed);
    assert_eq!(world.decision(&text_message(1, 0, "hi")), Decision::Relayed);
    assert_eq!(world.decision(&text_message(5, 0, "hi")), Decision::Muted);
    assert_eq!(world.decision(&text_message(100, 0, "/ignore 1")), Decision::IgnoreToggled(1));
    assert_eq!(members(&world.ignored), vec![5]);
    assert_eq!(world.limiter.last_accepted(1), None);
}
