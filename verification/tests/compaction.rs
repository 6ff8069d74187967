use agent_runner::compact::prune;
use agent_runner::message::{is_status, Message};

fn system(text: &str) -> Message {
    Message::System(text.to_string())
}

fn user(text: &str) -> Message {
    Message::User(text.to_string())
}

fn assistant(text: &str) -> Message {
    Message::Assistant(text.to_string())
}

fn tool(call: &str, result: &str) -> Message {
    Message::ToolCall(call.to_string(), result.to_string())
}

fn status(call: &str, text: &str) -> Message {
    Message::Status(call.to_string(), text.to_string())
}

#[test]
fn older_status_is_dropped_when_all_fits() {
    let log = vec![
        system("S"),
        user("u1"),
        status("st", "a"),
        assistant("a1"),
        status("st", "b"),
    ];
    let kept = prune(log, 1000);
    assert_eq!(kept, vec![system("S"), user("u1"), assistant("a1"), status("st", "b")]);
}

#[test]
fn preamble_stays_first_for_any_budget() {
    for budget in [0u64, 1, 2, 5, 8, 100, u64::MAX] {
        let log = vec![system("preamble"), user("one"), assistant("two"), user("three")];
        let kept = prune(log, budget);
        assert_eq!(kept[0], system("preamble"));
    }
}

#[test]
fn budget_zero_keeps_preamble_and_latest() {
    let log = vec![system("S"), user("first"), assistant("second"), user("third")];
    assert_eq!(prune(log, 0), vec![system("S"), user("third")]);
}

#[test]
fn budget_zero_keeps_an_empty_latest_and_the_one_before() {
    // An empty message adds nothing to the total, so the budget is not yet
    // exceeded when the message before it is looked at.
    let log = vec![system("S"), user("first"), assistant("second"), user("")];
    assert_eq!(prune(log, 0), vec![system("S"), assistant("second"), user("")]);
}

#[test]
fn preamble_alone_is_unchanged() {
    assert_eq!(prune(vec![system("S")], 0), vec![system("S")]);
    assert_eq!(prune(vec![system("S")], 10), vec![system("S")]);
}

#[test]
fn empty_log_is_unchanged() {
    assert_eq!(prune(Vec::new(), 7), Vec::<Message>::new());
}

#[test]
fn message_that_crosses_the_budget_is_kept_and_older_ones_go() {
    let log = vec![system("S"), user("aaaa"), assistant("bbb"), user("cc")];
    assert_eq!(prune(log, 4), vec![system("S"), assistant("bbb"), user("cc")]);
}

#[test]
fn total_equal_to_the_budget_does_not_cut() {
    let log = vec![system("S"), user("aaaa"), assistant("bbb"), user("cc")];
    assert_eq!(
        prune(log, 5),
        vec![system("S"), user("aaaa"), assistant("bbb"), user("cc")]
    );
}

#[test]
fn preamble_weight_does_not_count() {
    let log = vec![system("a very long preamble indeed"), user("ab"), user("cd")];
    assert_eq!(
        prune(log, 2),
        vec![system("a very long preamble indeed"), user("ab"), user("cd")]
    );
}

#[test]
fn both_sides_of_a_pair_count() {
    let log = vec![system("S"), user("old"), tool("ab", "cde"), user("x")];
    // after the last message the total is 1, after the pair 6
    assert_eq!(
        prune(log.clone(), 5),
        vec![system("S"), tool("ab", "cde"), user("x")]
    );
    assert_eq!(
        prune(log, 6),
        vec![system("S"), user("old"), tool("ab", "cde"), user("x")]
    );
}

#[test]
fn weight_is_counted_in_bytes() {
    let log = vec![system("S"), user("x"), assistant("\u{e9}\u{e9}")];
    assert_eq!(prune(log.clone(), 3), vec![system("S"), assistant("\u{e9}\u{e9}")]);
    assert_eq!(
        prune(log, 4),
        vec![system("S"), user("x"), assistant("\u{e9}\u{e9}")]
    );
}

#[test]
fn dropped_status_still_counts_toward_the_budget() {
    let log = vec![system("S"), user("zz"), status("st", "aaaa"), status("st", "b")];
    assert_eq!(prune(log, 5), vec![system("S"), status("st", "b")]);
}

#[test]
fn only_the_most_recent_status_stays() {
    let log = vec![
        system("S"),
        status("st", "1"),
        user("a"),
        status("st", "2"),
        tool("t", "r"),
        status("st", "3"),
        assistant("b"),
    ];
    let kept = prune(log, 1000);
    assert_eq!(
        kept,
        vec![system("S"), user("a"), tool("t", "r"), status("st", "3"), assistant("b")]
    );
    assert_eq!(kept.iter().filter(|message| is_status(message)).count(), 1);
}

#[test]
fn status_before_the_window_is_not_brought_back() {
    let log = vec![system("S"), status("st", "old"), user("aaaaaa"), assistant("bb")];
    assert_eq!(prune(log, 3), vec![system("S"), user("aaaaaa"), assistant("bb")]);
}

#[test]
fn log_without_status_is_only_cut() {
    let log = vec![system("S"), user("1"), assistant("2"), user("3"), assistant("4")];
    assert_eq!(
        prune(log, 1),
        vec![system("S"), user("3"), assistant("4")]
    );
}

#[test]
fn compacting_twice_changes_nothing() {
    let logs = vec![
        vec![system("S"), user("aaaa"), assistant("bbb"), user("cc")],
        vec![system("S"), user("zz"), status("st", "aaaa"), status("st", "b")],
        vec![system("S"), status("st", "1"), user("a"), status("st", "2"), user("b")],
        vec![system("S")],
    ];
    for log in logs {
        for budget in [0u64, 1, 3, 5, 9, 50] {
            let once = prune(log.clone(), budget);
            let twice = prune(once.clone(), budget);
            assert_eq!(twice, once);
        }
    }
}

#[test]
fn kept_messages_keep_their_order() {
    let log = vec![
        system("S"),
        user("m1"),
        status("st", "s1"),
        assistant("m2"),
        user("m3"),
        status("st", "s2"),
        assistant("m4"),
    ];
    for budget in [0u64, 2, 4, 8, 16, 64] {
        let kept = prune(log.clone(), budget);
        let mut place = 0;
        for message in &kept {
            while log[place] != *message {
                place += 1;
            }
            place += 1;
        }
        assert_eq!(kept.last(), log.last());
    }
}

#[test]
fn is_status_tells_status_apart() {
    assert!(is_status(&status("st", "x")));
    assert!(!is_status(&system("x")));
    assert!(!is_status(&user("x")));
    assert!(!is_status(&assistant("x")));
    assert!(!is_status(&tool("st", "x")));
}

#[test]
fn weight_sums_the_byte_lengths() {
    assert_eq!(system("abc").weight(), 3);
    assert_eq!(user("").weight(), 0);
    assert_eq!(assistant("\u{20ac}").weight(), 3);
    assert_eq!(tool("ab", "cde").weight(), 5);
    assert_eq!(status("st", "\u{e9}").weight(), 4);
}

#[test]
fn budget_is_a_soft_ceiling() {
    let log = vec![
        system("S"),
        user("aaaaaaa"),
        tool("bb", "ccc"),
        status("st", "dd"),
        assistant("eeee"),
        user("f"),
    ];
    for budget in 0u64..30 {
        let kept = prune(log.clone(), budget);
        let after_preamble: u128 = kept[1..].iter().map(|message| message.weight()).sum();
        assert!(after_preamble <= u128::from(budget) + kept[1].weight());
        if kept.len() < log.len() {
            // the next older message was dropped because the budget was exceeded
            assert!(after_preamble > u128::from(budget));
        }
    }
}
