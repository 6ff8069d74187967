use agent_runner::agent::{
    dispatch_next, queue_calls, record_content, record_tool_result, record_user_turn, Action,
    Agent, Delims, Event, Stage, ToolCall, ToolDelims, ToolOutcome,
};
use agent_runner::config::{load, ConfigError, Delim, Field};
use agent_runner::message::Message;
use std::collections::VecDeque;

const CONFIG: &str = r#"{
    "base_url": "http://localhost:8080",
    "model": "small",
    "temperature": 0.5,
    "delims": {
        "reasoning": ["<think>", "</think>"],
        "available_tools": ["<tools>", "</tools>"],
        "tool_call": ["<call>", "</call>"]
    },
    "char_limit": 1000
}"#;

fn config_with_budget(budget: u64) -> String {
    CONFIG.replace("\"char_limit\": 1000", &format!("\"char_limit\": {}", budget))
}

fn pair(open: &str, close: &str) -> Delim {
    Delim { open: open.to_string(), close: close.to_string() }
}

fn call(name: &str, arguments: &str) -> ToolCall {
    ToolCall { name: name.to_string(), arguments: arguments.to_string() }
}

fn outcome(output: &str, status: Option<&str>) -> ToolOutcome {
    ToolOutcome { output: output.to_string(), status: status.map(|text| text.to_string()) }
}

fn initialized(preamble: &str, status_tool: &str) -> Event {
    Event::Initialized { preamble: preamble.to_string(), status_tool: status_tool.to_string() }
}

fn answered(text: &str) -> Event {
    Event::Prompted(Ok(text.to_string()))
}

fn continued(text: &str) -> Event {
    Event::Prompted(Err(text.to_string()))
}

fn completed(text: &str, tool_calls: Vec<ToolCall>) -> Event {
    Event::Completed { text: text.to_string(), tool_calls }
}

fn parsed(content: &str, tool_calls: Vec<ToolCall>) -> Event {
    Event::Parsed { content: content.to_string(), tool_calls }
}

fn conversation(agent: &Agent) -> Vec<Message> {
    agent.request().unwrap().messages.clone()
}

/// An agent that has its preamble and first user turn and waits for the
/// completion endpoint.
fn requesting(budget: u64) -> Agent {
    let agent = Agent::start("question".to_string(), &config_with_budget(budget));
    let agent = agent.step(initialized("P", "status"));
    let agent = agent.step(continued("first turn"));
    assert_eq!(agent.pending(), Action::Complete);
    agent
}

#[test]
fn start_asks_the_tooling_for_its_preamble() {
    let agent = Agent::start("question".to_string(), CONFIG);
    assert_eq!(
        agent.pending(),
        Action::Initialize(ToolDelims {
            available_tools: pair("<tools>", "</tools>"),
            tool_call: pair("<call>", "</call>"),
        })
    );
    let request = agent.request().unwrap();
    assert_eq!(request.base_url, "http://localhost:8080");
    assert_eq!(request.model, "small");
    assert_eq!(request.api_key, None);
    assert_eq!(request.top_p, None);
    assert_eq!(request.temperature.as_ref().unwrap().literal, "0.5");
    assert!(request.stream);
    assert!(request.messages.is_empty());
    assert_eq!(agent.answer(), None);
}

#[test]
fn then_the_input_goes_to_the_tooling() {
    let agent = Agent::start("question".to_string(), CONFIG).step(initialized("P", "status"));
    assert_eq!(agent.pending(), Action::Prompt("question".to_string()));
    assert_eq!(conversation(&agent), vec![Message::System("P".to_string())]);
}

#[test]
fn immediate_answer_ends_the_run_before_any_completion() {
    let mut agent = Agent::start("question".to_string(), CONFIG);
    let mut asked = vec![agent.pending()];
    agent = agent.step(initialized("P", "status"));
    asked.push(agent.pending());
    agent = agent.step(answered("hello"));
    asked.push(agent.pending());
    assert_eq!(asked[2], Action::Finish("hello".to_string()));
    assert!(!asked.contains(&Action::Complete));
    assert_eq!(agent.answer(), Some(&"hello".to_string()));
    assert!(agent.request().is_none());
}

#[test]
fn first_turn_opens_the_conversation() {
    let agent = requesting(1000);
    assert_eq!(
        conversation(&agent),
        vec![Message::System("P".to_string()), Message::User("first turn".to_string())]
    );
}

#[test]
fn missing_model_fails_without_any_request_to_a_collaborator() {
    let source = CONFIG.replace("\"model\": \"small\",", "");
    let agent = Agent::start("question".to_string(), &source);
    assert_eq!(agent.pending(), Action::Finish("missing field `model`".to_string()));
    assert_eq!(agent.answer(), Some(&"missing field `model`".to_string()));
    let agent = agent.step(initialized("P", "status"));
    assert_eq!(agent.pending(), Action::Finish("missing field `model`".to_string()));
}

#[test]
fn malformed_configuration_fails_with_the_parser_message() {
    let agent = Agent::start("question".to_string(), "{ not json");
    let message = match load("{ not json") {
        Err(ConfigError::Malformed(message)) => message,
        other => panic!("expected a malformed configuration, got {:?}", other),
    };
    assert!(!message.is_empty());
    assert_eq!(agent.pending(), Action::Finish(message));
}

#[test]
fn open_takes_a_configuration_that_was_already_read() {
    let agent = Agent::open("q".to_string(), Err(ConfigError::Invalid(Field::CharLimit)));
    assert_eq!(
        agent.pending(),
        Action::Finish("invalid value for field `char_limit`".to_string())
    );
    let agent = Agent::open("q".to_string(), load(CONFIG));
    assert!(matches!(agent.pending(), Action::Initialize(_)));
}

#[test]
fn completion_is_always_handed_to_the_parser() {
    let agent = requesting(1000).step(completed("raw text", vec![call("t", "{}")]));
    assert_eq!(
        agent.pending(),
        Action::Parse {
            text: "raw text".to_string(),
            delims: Delims {
                reasoning: Some(pair("<think>", "</think>")),
                tool_call: pair("<call>", "</call>"),
            },
        }
    );
}

#[test]
fn failed_completion_is_asked_again_unchanged() {
    let agent = requesting(1000);
    let before = conversation(&agent);
    let mut agent = agent;
    for _ in 0..5 {
        agent = agent.step(Event::CompletionFailed);
        assert_eq!(agent.pending(), Action::Complete);
        assert_eq!(conversation(&agent), before);
    }
}

#[test]
fn empty_content_appends_no_assistant_message() {
    let agent = requesting(1000).step(completed("", vec![]));
    let before = conversation(&agent);
    let agent = agent.step(parsed("  \n\t ", vec![]));
    assert_eq!(conversation(&agent), before);
    assert_eq!(agent.pending(), Action::Prompt("".to_string()));
}

#[test]
fn content_is_trimmed_and_appended() {
    let agent = requesting(1000).step(completed("raw", vec![])).step(parsed("  visible \n", vec![]));
    assert_eq!(
        conversation(&agent),
        vec![
            Message::System("P".to_string()),
            Message::User("first turn".to_string()),
            Message::Assistant("visible".to_string()),
        ]
    );
    assert_eq!(agent.pending(), Action::Prompt("visible".to_string()));
}

#[test]
fn structured_calls_win_over_parsed_ones() {
    let agent = requesting(1000)
        .step(completed("raw", vec![call("structured", "{}")]))
        .step(parsed("text", vec![call("parsed", "{}")]));
    assert_eq!(agent.pending(), Action::Call(call("structured", "{}")));
}

#[test]
fn parsed_calls_are_taken_when_no_structured_ones_came() {
    let agent = requesting(1000)
        .step(completed("raw", vec![]))
        .step(parsed("text", vec![call("parsed", "[1]")]));
    assert_eq!(agent.pending(), Action::Call(call("parsed", "[1]")));
}

#[test]
fn calls_are_dispatched_in_order_and_recorded() {
    let agent = requesting(1000)
        .step(completed("raw", vec![call("one", "{\"a\":1}"), call("two", "[]")]))
        .step(parsed("", vec![]));
    assert_eq!(agent.pending(), Action::Call(call("one", "{\"a\":1}")));
    let agent = agent.step(Event::ToolReturned(outcome("out 1", None)));
    assert_eq!(agent.pending(), Action::Call(call("two", "[]")));
    let agent = agent.step(Event::ToolReturned(outcome("out 2", Some("state"))));
    assert_eq!(agent.pending(), Action::Prompt("".to_string()));
    assert_eq!(
        conversation(&agent),
        vec![
            Message::System("P".to_string()),
            Message::User("first turn".to_string()),
            Message::ToolCall(
                "{\"name\":\"one\",\"arguments\":{\"a\":1}}".to_string(),
                "out 1".to_string()
            ),
            Message::ToolCall("{\"name\":\"two\",\"arguments\":[]}".to_string(), "out 2".to_string()),
            Message::Status("status".to_string(), "state".to_string()),
        ]
    );
}

#[test]
fn reserved_status_name_is_never_dispatched() {
    let agent = requesting(1000)
        .step(completed(
            "raw",
            vec![call("status", "{}"), call("real", "{}"), call("status", "[]")],
        ))
        .step(parsed("note", vec![]));
    assert_eq!(agent.pending(), Action::Call(call("real", "{}")));
    let agent = agent.step(Event::ToolReturned(outcome("done", None)));
    assert_eq!(agent.pending(), Action::Prompt("note".to_string()));

    let agent = requesting(1000)
        .step(completed("raw", vec![call("status", "{}")]))
        .step(parsed("note", vec![]));
    assert_eq!(agent.pending(), Action::Prompt("note".to_string()));
}

#[test]
fn answer_ends_the_run() {
    let agent = requesting(1000)
        .step(completed("raw", vec![]))
        .step(parsed("done", vec![]))
        .step(answered("final answer"));
    assert_eq!(agent.pending(), Action::Finish("final answer".to_string()));
    assert_eq!(agent.answer(), Some(&"final answer".to_string()));
    let agent = agent.step(completed("late", vec![]));
    assert_eq!(agent.pending(), Action::Finish("final answer".to_string()));
}

#[test]
fn next_turn_is_appended_and_a_new_round_begins() {
    let agent = requesting(1000)
        .step(completed("raw", vec![]))
        .step(parsed("thinking", vec![]))
        .step(continued("go on"));
    assert_eq!(agent.pending(), Action::Complete);
    assert_eq!(
        conversation(&agent),
        vec![
            Message::System("P".to_string()),
            Message::User("first turn".to_string()),
            Message::Assistant("thinking".to_string()),
            Message::User("go on".to_string()),
        ]
    );
}

#[test]
fn empty_next_turn_appends_nothing() {
    let agent = requesting(1000)
        .step(completed("raw", vec![call("t", "{}")]))
        .step(parsed("", vec![]))
        .step(Event::ToolReturned(outcome("out", None)))
        .step(continued(""));
    assert_eq!(agent.pending(), Action::Complete);
    assert_eq!(
        conversation(&agent),
        vec![
            Message::System("P".to_string()),
            Message::User("first turn".to_string()),
            Message::ToolCall("{\"name\":\"t\",\"arguments\":{}}".to_string(), "out".to_string()),
        ]
    );
}

#[test]
fn conversation_is_compacted_at_the_end_of_a_round() {
    let agent = requesting(6)
        .step(completed("raw", vec![]))
        .step(parsed("abcd", vec![]))
        .step(continued("efg"));
    // "efg" weighs 3, "abcd" brings the total to 7, so the first turn goes
    assert_eq!(
        conversation(&agent),
        vec![
            Message::System("P".to_string()),
            Message::Assistant("abcd".to_string()),
            Message::User("efg".to_string()),
        ]
    );
}

#[test]
fn only_the_latest_status_outlives_a_round() {
    let agent = requesting(1000)
        .step(completed("raw", vec![call("a", "1"), call("b", "2")]))
        .step(parsed("", vec![]))
        .step(Event::ToolReturned(outcome("x", Some("s1"))))
        .step(Event::ToolReturned(outcome("y", Some("s2"))));
    assert_eq!(conversation(&agent).len(), 6);
    let agent = agent.step(continued(""));
    assert_eq!(
        conversation(&agent),
        vec![
            Message::System("P".to_string()),
            Message::User("first turn".to_string()),
            Message::ToolCall("{\"name\":\"a\",\"arguments\":1}".to_string(), "x".to_string()),
            Message::ToolCall("{\"name\":\"b\",\"arguments\":2}".to_string(), "y".to_string()),
            Message::Status("status".to_string(), "s2".to_string()),
        ]
    );
}

#[test]
fn reply_that_is_not_waited_for_changes_nothing() {
    let agent = requesting(1000);
    let before = conversation(&agent);
    let agent = agent
        .step(parsed("stray", vec![call("t", "{}")]))
        .step(Event::ToolReturned(outcome("stray", Some("s"))))
        .step(answered("stray"))
        .step(continued("stray"))
        .step(initialized("other", "other"));
    assert_eq!(agent.pending(), Action::Complete);
    assert_eq!(conversation(&agent), before);
}

#[test]
fn record_content_skips_empty_content() {
    let mut log = vec![Message::System("P".to_string())];
    record_content(&mut log, &"".to_string());
    assert_eq!(log.len(), 1);
    record_content(&mut log, &"text".to_string());
    assert_eq!(log[1], Message::Assistant("text".to_string()));
}

#[test]
fn record_tool_result_pairs_record_and_output() {
    let mut log = Vec::new();
    record_tool_result(&mut log, &"st".to_string(), &call("n", "{}"), outcome("o", None));
    record_tool_result(&mut log, &"st".to_string(), &call("m", "[]"), outcome("p", Some("q")));
    assert_eq!(
        log,
        vec![
            Message::ToolCall("{\"name\":\"n\",\"arguments\":{}}".to_string(), "o".to_string()),
            Message::ToolCall("{\"name\":\"m\",\"arguments\":[]}".to_string(), "p".to_string()),
            Message::Status("st".to_string(), "q".to_string()),
        ]
    );
}

#[test]
fn record_user_turn_skips_an_empty_turn() {
    let mut log = Vec::new();
    record_user_turn(&mut log, "".to_string());
    assert!(log.is_empty());
    record_user_turn(&mut log, " ".to_string());
    assert_eq!(log, vec![Message::User(" ".to_string())]);
}

#[test]
fn queue_calls_filters_by_name_only() {
    let queue = queue_calls(
        vec![call("st", "1"), call("a", "st"), call("st", "2"), call("b", "3"), call("St", "4")],
        &"st".to_string(),
    );
    assert_eq!(
        queue,
        VecDeque::from(vec![call("a", "st"), call("b", "3"), call("St", "4")])
    );
    assert!(queue_calls(vec![], &"st".to_string()).is_empty());
}

#[test]
fn dispatch_next_takes_the_first_call() {
    let stage = dispatch_next(
        "c".to_string(),
        VecDeque::from(vec![call("a", "1"), call("b", "2")]),
    );
    assert_eq!(
        stage,
        Stage::Dispatching {
            content: "c".to_string(),
            current: call("a", "1"),
            later: VecDeque::from(vec![call("b", "2")]),
        }
    );
    assert_eq!(
        dispatch_next("c".to_string(), VecDeque::new()),
        Stage::Deciding { content: "c".to_string() }
    );
}

#[test]
fn duplicate_is_equal_to_the_call() {
    let first = call("name", "{\"k\": [1, 2]}");
    assert_eq!(first.duplicate(), first);
    let delim = pair("<a>", "</a>");
    assert_eq!(delim.duplicate(), delim);
}
