use claude_logger::git::GitRepo;
use claude_logger::logger::{ClaudeLogger, InvalidEnergy};
use claude_logger::session::{Instant, Methodology, SessionMetadata, SessionsMetadata, StoreError};

fn record(id: &str, methodology: Methodology, secs: i64) -> SessionMetadata {
    SessionMetadata {
        id: id.to_string(),
        timestamp: Instant { secs, nanos: 0 },
        project: "demo".to_string(),
        methodology,
        working_directory: "/work/demo".to_string(),
        command: "assistant".to_string(),
        log_file: format!("/logs/{}.log", id),
        duration: None,
        end_time: None,
        features_worked_on: vec!["store".to_string()],
        creative_energy: None,
    }
}

fn logger() -> ClaudeLogger {
    let mut store = SessionsMetadata::new();
    store.add_session(record("a", Methodology::Unknown, 1));
    ClaudeLogger::with_parts("/logs", "/logs/sessions_metadata.json", store, GitRepo::at("/logs"))
}

#[test]
fn logger_keeps_its_parts() {
    let logger = logger();
    assert_eq!(logger.logs_dir(), "/logs");
    assert_eq!(logger.metadata_file(), "/logs/sessions_metadata.json");
    assert_eq!(logger.git_repo().repo_path(), "/logs");
    assert_eq!(logger.metadata().sessions().len(), 1);
    assert_eq!(logger.get_session("a").map(|s| s.timestamp.secs), Some(1));
    assert!(logger.get_session("b").is_none());
}

#[test]
fn logger_creates_sessions_in_its_directory() {
    let logger = logger();
    let (log_file, session) = logger
        .create_session_log(
            Instant { secs: 86_400, nanos: 0 },
            "demo",
            "/work/demo",
            Some("Context-Driven"),
            "assistant",
            &vec!["-c".to_string()],
        )
        .expect("the instant is on the calendar");
    assert_eq!(log_file, "/logs/1970-01-02_00-00-00.log");
    assert_eq!(session.id, "1970-01-02_00-00-00");
    assert_eq!(session.methodology, Methodology::ContextDriven);
    assert_eq!(session.command, "assistant -c");
    assert_eq!(logger.metadata().sessions().len(), 1);
}

#[test]
fn completing_a_session_stores_it_finished() {
    let mut logger = logger();
    let end = Instant { secs: 700, nanos: 3 };
    let result = logger.complete_session(record("b", Methodology::CommandBased, 100), 600_000, end, Some(2));
    assert_eq!(result, Ok(()));
    let b = logger.get_session("b").expect("b is stored");
    assert_eq!(b.duration, Some(600_000));
    assert_eq!(b.end_time, Some(end));
    assert_eq!(b.creative_energy, Some(2));
    assert_eq!(b.methodology, Methodology::CommandBased);
    assert_eq!(b.features_worked_on, vec!["store".to_string()]);
    assert_eq!(logger.metadata().sessions().len(), 2);
    assert_eq!(logger.metadata().sessions()[1].id, "b");
}

#[test]
fn completing_with_a_bad_rating_changes_nothing() {
    let mut logger = logger();
    let end = Instant { secs: 700, nanos: 0 };
    for bad in [0u8, 4, 255] {
        let result = logger.complete_session(record("b", Methodology::Unknown, 100), 1, end, Some(bad));
        assert_eq!(result, Err(StoreError::InvalidEnergy));
    }
    assert_eq!(logger.metadata().sessions().len(), 1);
    assert!(logger.get_session("b").is_none());
}

#[test]
fn completing_over_an_identifier_overwrites() {
    let mut logger = logger();
    let end = Instant { secs: 9, nanos: 0 };
    assert_eq!(logger.complete_session(record("a", Methodology::ContextDriven, 5), 7, end, None), Ok(()));
    assert_eq!(logger.metadata().sessions().len(), 1);
    let a = logger.get_session("a").expect("a is stored");
    assert_eq!(a.methodology, Methodology::ContextDriven);
    assert_eq!(a.duration, Some(7));
    assert_eq!(a.creative_energy, None);
}

#[test]
fn logger_adds_and_lists() {
    let mut logger = logger();
    logger.add_session(record("b", Methodology::ContextDriven, 9));
    logger.add_session(record("c", Methodology::ContextDriven, 5));
    let listed: Vec<String> =
        logger.list_sessions(None, 2).iter().map(|s| s.id.clone()).collect();
    assert_eq!(listed, vec!["b", "c"]);
    let filtered: Vec<String> =
        logger.list_sessions(Some("UNKNOWN"), 5).iter().map(|s| s.id.clone()).collect();
    assert_eq!(filtered, vec!["a"]);
}

#[test]
fn typed_ratings_are_read_by_the_logger() {
    assert_eq!(ClaudeLogger::get_creative_energy("\n"), Ok(None));
    assert_eq!(ClaudeLogger::get_creative_energy("3\n"), Ok(Some(3)));
    assert_eq!(ClaudeLogger::get_creative_energy("5\n"), Err(InvalidEnergy));
}
