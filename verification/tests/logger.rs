use claude_logger::git::{append_decimal, GitRepo};
use claude_logger::logger::{
    build_command, create_session_log, detect_methodology, list_positions, list_sessions,
    parse_energy, parse_methodology_filter, InvalidEnergy,
};
use claude_logger::session::{Instant, Methodology, SessionMetadata, SessionsMetadata};

fn record(id: &str, methodology: Methodology, secs: i64) -> SessionMetadata {
    SessionMetadata {
        id: id.to_string(),
        timestamp: Instant { secs, nanos: 0 },
        project: "demo".to_string(),
        methodology,
        working_directory: "/work/demo".to_string(),
        command: "assistant".to_string(),
        log_file: format!("/logs/{}.log", id),
        duration: None,
        end_time: None,
        features_worked_on: Vec::new(),
        creative_energy: None,
    }
}

fn store() -> SessionsMetadata {
    let mut store = SessionsMetadata::new();
    store.add_session(record("a", Methodology::ContextDriven, 30));
    store.add_session(record("b", Methodology::CommandBased, 50));
    store.add_session(record("c", Methodology::ContextDriven, 10));
    store.add_session(record("d", Methodology::Unknown, 50));
    store.add_session(record("e", Methodology::ContextDriven, 40));
    store
}

fn ids(listed: &Vec<&SessionMetadata>) -> Vec<String> {
    listed.iter().map(|s| s.id.clone()).collect()
}

#[test]
fn methodology_is_read_from_the_configuration() {
    assert_eq!(detect_methodology(None), Methodology::Unknown);
    assert_eq!(detect_methodology(Some("")), Methodology::Unknown);
    assert_eq!(
        detect_methodology(Some("# Rules\nWe work Context-Driven here.")),
        Methodology::ContextDriven
    );
    assert_eq!(detect_methodology(Some("a context-driven flow")), Methodology::ContextDriven);
    assert_eq!(detect_methodology(Some("Command-Based")), Methodology::CommandBased);
    assert_eq!(detect_methodology(Some("xcommand-basedx")), Methodology::CommandBased);
    assert_eq!(
        detect_methodology(Some("command-based, then context-driven")),
        Methodology::ContextDriven
    );
    assert_eq!(detect_methodology(Some("CONTEXT-DRIVEN")), Methodology::Unknown);
    assert_eq!(detect_methodology(Some("Context Driven")), Methodology::Unknown);
}

#[test]
fn command_line_joins_program_and_arguments() {
    assert_eq!(build_command("assistant", &vec![]), "assistant");
    assert_eq!(
        build_command("assistant", &vec!["--resume".to_string(), "x y".to_string()]),
        "assistant --resume x y"
    );
    assert_eq!(build_command("assistant", &vec![String::new()]), "assistant ");
}

#[test]
fn a_blank_answer_gives_no_rating() {
    assert_eq!(parse_energy(""), Ok(None));
    assert_eq!(parse_energy("\n"), Ok(None));
    assert_eq!(parse_energy(" \t\r\n"), Ok(None));
}

#[test]
fn ratings_one_to_three_are_read() {
    assert_eq!(parse_energy("1"), Ok(Some(1)));
    assert_eq!(parse_energy("2\n"), Ok(Some(2)));
    assert_eq!(parse_energy("  3 \r\n"), Ok(Some(3)));
    assert_eq!(parse_energy("+1"), Ok(Some(1)));
    assert_eq!(parse_energy("003"), Ok(Some(3)));
    assert_eq!(parse_energy("+02"), Ok(Some(2)));
}

#[test]
fn other_answers_are_refused() {
    for answer in ["0", "4", "10", "13", "255", "256", "abc", "1 2", "-1", "+", "++1", "1.0", "１", "2x", "00"] {
        assert_eq!(parse_energy(answer), Err(InvalidEnergy), "{}", answer);
    }
}

#[test]
fn answers_agree_with_the_standard_parser() {
    for answer in ["", " ", "1", "3 ", " +2", "0003", "4", "03x", "+", "-2", "2 2", "300", "\t1\n"] {
        let trimmed = answer.trim();
        let expected = if trimmed.is_empty() {
            Ok(None)
        } else {
            match trimmed.parse::<u8>() {
                Ok(e) if (1..=3).contains(&e) => Ok(Some(e)),
                _ => Err(InvalidEnergy),
            }
        };
        assert_eq!(parse_energy(answer), expected, "{:?}", answer);
    }
}

#[test]
fn a_new_session_is_named_by_its_start() {
    let start = Instant { secs: 1_700_000_000, nanos: 999_999_999 };
    let args = vec!["--resume".to_string()];
    let (log_file, session) = create_session_log(
        "/home/me/logs",
        start,
        "demo",
        "/work/demo",
        Some("We are command-based."),
        "assistant",
        &args,
    )
    .expect("the instant is on the calendar");
    assert_eq!(session.id, "2023-11-14_22-13-20");
    assert_eq!(log_file, "/home/me/logs/2023-11-14_22-13-20.log");
    assert_eq!(session.log_file, log_file);
    assert_eq!(session.timestamp, start);
    assert_eq!(session.project, "demo");
    assert_eq!(session.methodology, Methodology::CommandBased);
    assert_eq!(session.working_directory, "/work/demo");
    assert_eq!(session.command, "assistant --resume");
    assert_eq!(session.duration, None);
    assert_eq!(session.end_time, None);
    assert!(session.features_worked_on.is_empty());
    assert_eq!(session.creative_energy, None);
}

#[test]
fn the_epoch_is_formatted_in_utc() {
    let (_, session) = create_session_log(
        "logs",
        Instant { secs: 0, nanos: 0 },
        "p",
        "/p",
        None,
        "assistant",
        &vec![],
    )
    .expect("the epoch is on the calendar");
    assert_eq!(session.id, "1970-01-01_00-00-00");
    assert_eq!(session.methodology, Methodology::Unknown);
    assert_eq!(session.command, "assistant");
}

#[test]
fn an_instant_off_the_calendar_gives_no_session() {
    let far = Instant { secs: i64::MAX, nanos: 0 };
    assert!(create_session_log("logs", far, "p", "/p", None, "assistant", &vec![]).is_none());
    let bad = Instant { secs: 0, nanos: 3_000_000_000 };
    assert!(create_session_log("logs", bad, "p", "/p", None, "assistant", &vec![]).is_none());
}

#[test]
fn filters_name_methodologies_in_any_case() {
    assert_eq!(parse_methodology_filter(None), None);
    assert_eq!(parse_methodology_filter(Some("Context-Driven")), Some(Methodology::ContextDriven));
    assert_eq!(parse_methodology_filter(Some("CONTEXTDRIVEN")), Some(Methodology::ContextDriven));
    assert_eq!(parse_methodology_filter(Some("command-based")), Some(Methodology::CommandBased));
    assert_eq!(parse_methodology_filter(Some("CommandBased")), Some(Methodology::CommandBased));
    assert_eq!(parse_methodology_filter(Some("UNKNOWN")), Some(Methodology::Unknown));
    assert_eq!(parse_methodology_filter(Some("context driven")), None);
    assert_eq!(parse_methodology_filter(Some("")), None);
}

#[test]
fn sessions_are_listed_newest_first() {
    let store = store();
    assert_eq!(ids(&list_sessions(&store, None, 10)), vec!["b", "d", "e", "a", "c"]);
    assert_eq!(ids(&list_sessions(&store, None, 3)), vec!["b", "d", "e"]);
    assert_eq!(ids(&list_sessions(&store, None, 0)), Vec::<String>::new());
    assert_eq!(list_positions(store.sessions(), None, 2), vec![1, 3]);
}

#[test]
fn listing_honours_the_filter() {
    let store = store();
    assert_eq!(ids(&list_sessions(&store, Some("Context-Driven"), 10)), vec!["e", "a", "c"]);
    assert_eq!(ids(&list_sessions(&store, Some("contextdriven"), 2)), vec!["e", "a"]);
    assert_eq!(ids(&list_sessions(&store, Some("unknown"), 10)), vec!["d"]);
    assert_eq!(ids(&list_sessions(&store, Some("no such"), 10)), vec!["b", "d", "e", "a", "c"]);
    let empty = SessionsMetadata::new();
    assert!(list_sessions(&empty, Some("unknown"), 10).is_empty());
}

#[test]
fn listing_orders_by_nanoseconds_too() {
    let mut store = SessionsMetadata::new();
    let mut early = record("early", Methodology::Unknown, 5);
    early.timestamp.nanos = 1;
    let mut late = record("late", Methodology::Unknown, 5);
    late.timestamp.nanos = 2;
    store.add_session(early);
    store.add_session(late);
    assert_eq!(ids(&list_sessions(&store, None, 10)), vec!["late", "early"]);
}

#[test]
fn commit_message_names_the_session() {
    let repo = GitRepo::at("/repo");
    let mut session = record("2024-01-02_03-04-05", Methodology::ContextDriven, 0);
    assert_eq!(
        repo.generate_commit_message(&session),
        "Session: 2024-01-02_03-04-05 | Context-Driven | demo"
    );
    session.duration = Some(10 * 60_000 + 59_999);
    session.creative_energy = Some(3);
    session.features_worked_on = vec!["parser".to_string(), "tests".to_string()];
    assert_eq!(
        repo.generate_commit_message(&session),
        "Session: 2024-01-02_03-04-05 | Context-Driven | demo | 10m | Energy: 3/3 | Features: parser, tests"
    );
    session.duration = None;
    session.features_worked_on = vec!["one".to_string()];
    assert_eq!(
        repo.generate_commit_message(&session),
        "Session: 2024-01-02_03-04-05 | Context-Driven | demo | Energy: 3/3 | Features: one"
    );
}

#[test]
fn commit_message_rounds_minutes_toward_zero() {
    let repo = GitRepo::at("/repo");
    let mut session = record("s", Methodology::Unknown, 0);
    session.duration = Some(59_999);
    assert_eq!(repo.generate_commit_message(&session), "Session: s | Unknown | demo | 0m");
    session.duration = Some(-59_999);
    assert_eq!(repo.generate_commit_message(&session), "Session: s | Unknown | demo | 0m");
    session.duration = Some(-125 * 60_000 - 1);
    assert_eq!(repo.generate_commit_message(&session), "Session: s | Unknown | demo | -125m");
    session.duration = Some(i64::MIN);
    assert_eq!(
        repo.generate_commit_message(&session),
        format!("Session: s | Unknown | demo | {}m", i64::MIN / 60_000)
    );
    session.duration = Some(i64::MAX);
    session.creative_energy = Some(200);
    assert_eq!(
        repo.generate_commit_message(&session),
        format!("Session: s | Unknown | demo | {}m | Energy: 200/3", i64::MAX / 60_000)
    );
}

#[test]
fn decimals_have_no_leading_zeros() {
    for n in [0u64, 7, 10, 99, 100, 1_234_567_890, u64::MAX] {
        let mut text = String::from("n=");
        append_decimal(&mut text, n);
        assert_eq!(text, format!("n={}", n));
    }
}

#[test]
fn a_session_record_is_built_around_its_identifier() {
    let start = Instant { secs: 7, nanos: 8 };
    let (log_file, session) = claude_logger::logger::new_session(
        "some-id".to_string(),
        "/var/logs",
        start,
        "demo",
        "/work/demo",
        None,
        "assistant",
        &vec!["a".to_string(), "b".to_string()],
    );
    assert_eq!(log_file, "/var/logs/some-id.log");
    assert_eq!(session.id, "some-id");
    assert_eq!(session.log_file, "/var/logs/some-id.log");
    assert_eq!(session.timestamp, start);
    assert_eq!(session.project, "demo");
    assert_eq!(session.working_directory, "/work/demo");
    assert_eq!(session.methodology, Methodology::Unknown);
    assert_eq!(session.command, "assistant a b");
    assert_eq!(session.duration, None);
    assert_eq!(session.end_time, None);
    assert!(session.features_worked_on.is_empty());
    assert_eq!(session.creative_energy, None);
}
