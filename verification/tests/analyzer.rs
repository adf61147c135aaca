use claude_logger::analyzer::{
    generate_recommendations, name_matches, select_group, AnalysisError, GroupOutcome, MethodologyComparison, Recommendation,
    SessionAnalyzer,
};
use claude_logger::patterns::SessionQuality;
use claude_logger::session::{
    AnalysisMetrics, Instant, Methodology, MethodologyStats, Ratio, SessionMetadata,
    SessionsMetadata,
};

const MINUTE: i64 = 60_000;

fn record(id: &str, methodology: Methodology, minutes: Option<i64>, energy: Option<u8>) -> SessionMetadata {
    SessionMetadata {
        id: id.to_string(),
        timestamp: Instant { secs: 1_700_000_000, nanos: 0 },
        project: "demo".to_string(),
        methodology,
        working_directory: "/work/demo".to_string(),
        command: "assistant --resume".to_string(),
        log_file: format!("/logs/{}.log", id),
        duration: minutes.map(|m| m * MINUTE),
        end_time: None,
        features_worked_on: Vec::new(),
        creative_energy: energy,
    }
}

fn analyzer(records: Vec<SessionMetadata>) -> SessionAnalyzer {
    let mut store = SessionsMetadata::new();
    for r in records {
        store.add_session(r);
    }
    SessionAnalyzer::with_metadata(store).expect("the detectors compile")
}

fn text(s: &str) -> Option<String> {
    Some(s.to_string())
}

fn group(sessions: usize, energy: Option<Ratio>, confusion: usize, code: usize) -> Option<GroupOutcome> {
    let mut stats = MethodologyStats::new();
    stats.sessions = sessions;
    stats.avg_energy = energy;
    stats.metrics.confusion_markers = confusion;
    stats.metrics.code_blocks = code;
    Some(GroupOutcome { stats, skipped: 0, members: sessions })
}

fn comparison(
    context_driven: Option<GroupOutcome>,
    command_based: Option<GroupOutcome>,
    unknown: Option<GroupOutcome>,
) -> MethodologyComparison {
    MethodologyComparison { context_driven, command_based, unknown }
}

#[test]
fn three_durations_average_to_the_middle() {
    let a = analyzer(vec![
        record("a", Methodology::ContextDriven, Some(10), None),
        record("b", Methodology::ContextDriven, Some(20), None),
        record("c", Methodology::ContextDriven, Some(30), None),
    ]);
    let c = a.compare_methodologies(&vec![text("x"), text("y"), text("z")]).expect("fits");
    let g = c.context_driven.expect("the group has sessions");
    assert_eq!(g.stats.sessions, 3);
    assert_eq!(g.stats.avg_duration, (20 * MINUTE) as i128);
    assert!(c.command_based.is_none());
    assert!(c.unknown.is_none());

    let first_two = analyzer(vec![
        record("a", Methodology::ContextDriven, Some(10), None),
        record("b", Methodology::ContextDriven, Some(20), None),
    ]);
    let c = first_two.compare_methodologies(&vec![text("x"), text("y")]).expect("fits");
    assert_eq!(c.context_driven.expect("present").stats.avg_duration, (15 * MINUTE) as i128);
}

#[test]
fn unreadable_transcripts_are_skipped_and_counted() {
    let a = analyzer(vec![
        record("a", Methodology::CommandBased, Some(1), Some(1)),
        record("b", Methodology::CommandBased, Some(1), Some(2)),
        record("c", Methodology::CommandBased, Some(1), Some(3)),
        record("d", Methodology::CommandBased, Some(1), Some(3)),
        record("e", Methodology::CommandBased, Some(1), Some(3)),
    ]);
    let transcripts = vec![text("Human: a"), text("Human: b"), None, text("Human: d"), text("")];
    let c = a.compare_methodologies(&transcripts).expect("fits");
    let g = c.command_based.as_ref().expect("the group has members");
    assert_eq!(g.stats.sessions, 4);
    assert_eq!(g.skipped, 1);
    assert_eq!(g.members, 5);
    assert_eq!(g.stats.metrics.exchanges, 3);
    assert_eq!(g.stats.creative_energy, vec![1, 2, 3, 3]);
    assert_eq!(g.stats.avg_energy, Some(Ratio { num: 9, den: 4 }));
    assert_eq!(g.avg_exchanges(), Some(Ratio { num: 3, den: 4 }));
    assert_eq!(g.avg_code_blocks(), Some(Ratio { num: 0, den: 4 }));
    let report = a.generate_report(&transcripts).expect("fits");
    assert_eq!(report.total_sessions, 4);
    assert_eq!(report.skipped_sessions, 1);
}

#[test]
fn a_group_of_unreadable_sessions_is_present_but_empty() {
    let a = analyzer(vec![record("a", Methodology::Unknown, None, None)]);
    let c = a.compare_methodologies(&vec![None]).expect("fits");
    let g = c.unknown.as_ref().expect("the group has a member");
    assert_eq!(g.stats.sessions, 0);
    assert_eq!(g.skipped, 1);
    assert_eq!(g.avg_exchanges(), None);
    assert_eq!(generate_recommendations(&c), vec![Recommendation::KeepLogging]);
    let q = a.generate_quality_report(&c, &vec![None]).expect("one transcript for each record");
    assert_eq!(q.unknown, None);
}

#[test]
fn groups_are_kept_apart() {
    let a = analyzer(vec![
        record("a", Methodology::ContextDriven, Some(4), None),
        record("b", Methodology::CommandBased, Some(8), None),
        record("c", Methodology::ContextDriven, None, Some(2)),
    ]);
    let c = a
        .compare_methodologies(&vec![text("Human: great"), text("```x```"), text("why?")])
        .expect("fits");
    let cd = c.context_driven.as_ref().expect("present");
    let cb = c.command_based.as_ref().expect("present");
    assert_eq!(cd.stats.sessions, 2);
    assert_eq!(cd.stats.metrics.exchanges, 1);
    assert_eq!(cd.stats.metrics.enthusiasm_markers, 1);
    assert_eq!(cd.stats.metrics.questions_asked, 1);
    assert_eq!(cd.stats.total_duration, (4 * MINUTE) as i128);
    assert_eq!(cd.stats.avg_duration, (4 * MINUTE) as i128);
    assert_eq!(cb.stats.sessions, 1);
    assert_eq!(cb.stats.metrics.code_blocks, 1);
    assert!(c.unknown.is_none());
    assert_eq!(c.group(Methodology::CommandBased).as_ref().map(|g| g.members), Some(1));
}

#[test]
fn transcripts_must_be_one_for_each_record() {
    let a = analyzer(vec![record("a", Methodology::Unknown, None, None)]);
    assert_eq!(
        a.compare_methodologies(&vec![]).err(),
        Some(AnalysisError::TranscriptCount)
    );
    assert_eq!(
        a.generate_report(&vec![None, None]).err(),
        Some(AnalysisError::TranscriptCount)
    );
}

#[test]
fn empty_store_gives_an_empty_report() {
    let a = analyzer(vec![]);
    let report = a.generate_report(&vec![]).expect("fits");
    assert_eq!(report.total_sessions, 0);
    assert_eq!(report.skipped_sessions, 0);
    assert!(report.comparison.context_driven.is_none());
    assert!(report.comparison.command_based.is_none());
    assert!(report.comparison.unknown.is_none());
    assert_eq!(report.recommendations, vec![Recommendation::KeepLogging]);
}

#[test]
fn quality_is_sampled_from_the_first_five() {
    let mut records = Vec::new();
    let mut transcripts = Vec::new();
    for i in 0..7 {
        records.push(record(&format!("s{}", i), Methodology::ContextDriven, None, None));
        transcripts.push(text(if i < 5 { "" } else { "great great great" }));
    }
    transcripts[1] = None;
    let a = analyzer(records);
    let c = a.compare_methodologies(&transcripts).expect("fits");
    let q = a.generate_quality_report(&c, &transcripts).expect("one transcript for each record");
    let sample = q.context_driven.expect("sampled");
    assert_eq!(sample.samples, 4);
    assert_eq!(sample.engagement, 200);
    assert_eq!(sample.clarity, 280);
    assert_eq!(sample.productivity, 160);
    assert_eq!(sample.overall_thirds, 640);
    assert_eq!(sample.avg_engagement(), Some(Ratio { num: 200, den: 4 }));
    assert_eq!(sample.avg_clarity(), Some(Ratio { num: 280, den: 4 }));
    assert_eq!(sample.avg_productivity(), Some(Ratio { num: 160, den: 4 }));
    assert_eq!(sample.avg_overall(), Some(Ratio { num: 640, den: 12 }));
    assert_eq!(q.command_based, None);
}

#[test]
fn high_energy_recommends_continuing() {
    let c = comparison(
        group(2, Some(Ratio { num: 5, den: 2 }), 0, 0),
        group(3, Some(Ratio { num: 6, den: 3 }), 0, 0),
        None,
    );
    assert_eq!(
        generate_recommendations(&c),
        vec![Recommendation::ContinueUsing {
            methodology: Methodology::ContextDriven,
            avg_energy: Ratio { num: 5, den: 2 },
        }]
    );
}

#[test]
fn energy_of_exactly_two_does_not_recommend() {
    let c = comparison(None, group(3, Some(Ratio { num: 6, den: 3 }), 0, 0), None);
    assert_eq!(generate_recommendations(&c), vec![Recommendation::KeepLogging]);
}

#[test]
fn of_equal_energies_the_later_group_is_named() {
    let c = comparison(
        group(2, Some(Ratio { num: 5, den: 2 }), 0, 0),
        None,
        group(4, Some(Ratio { num: 10, den: 4 }), 0, 0),
    );
    assert_eq!(
        generate_recommendations(&c),
        vec![Recommendation::ContinueUsing {
            methodology: Methodology::Unknown,
            avg_energy: Ratio { num: 10, den: 4 },
        }]
    );
}

#[test]
fn a_group_without_sessions_is_left_out_of_every_rule() {
    let c = comparison(group(0, Some(Ratio { num: 3, den: 1 }), 100, 100), None, None);
    assert_eq!(generate_recommendations(&c), vec![Recommendation::KeepLogging]);
}

#[test]
fn confusion_and_productivity_rules() {
    let c = comparison(
        group(2, None, 5, 10),
        group(2, None, 4, 11),
        group(1, Some(Ratio { num: 3, den: 1 }), 3, 6),
    );
    assert_eq!(
        generate_recommendations(&c),
        vec![
            Recommendation::ContinueUsing {
                methodology: Methodology::Unknown,
                avg_energy: Ratio { num: 3, den: 1 },
            },
            Recommendation::ClarifyRequirements {
                methodology: Methodology::ContextDriven,
                confusion_rate: Ratio { num: 5, den: 2 },
            },
            Recommendation::ClarifyRequirements {
                methodology: Methodology::Unknown,
                confusion_rate: Ratio { num: 3, den: 1 },
            },
            Recommendation::HighProductivity {
                methodology: Methodology::CommandBased,
                code_rate: Ratio { num: 11, den: 2 },
            },
            Recommendation::HighProductivity {
                methodology: Methodology::Unknown,
                code_rate: Ratio { num: 6, den: 1 },
            },
        ]
    );
}

#[test]
fn report_recommends_from_the_transcripts() {
    let a = analyzer(vec![
        record("a", Methodology::CommandBased, Some(5), Some(3)),
        record("b", Methodology::CommandBased, Some(5), Some(2)),
    ]);
    let confused = "confused, unclear, not sure";
    let report = a.generate_report(&vec![text(confused), text(confused)]).expect("fits");
    assert_eq!(
        report.recommendations,
        vec![
            Recommendation::ContinueUsing {
                methodology: Methodology::CommandBased,
                avg_energy: Ratio { num: 5, den: 2 },
            },
            Recommendation::ClarifyRequirements {
                methodology: Methodology::CommandBased,
                confusion_rate: Ratio { num: 6, den: 2 },
            },
        ]
    );
    let sample = report.quality.command_based.expect("sampled");
    assert_eq!(sample.samples, 2);
    assert_eq!(sample.engagement, 70);
    assert_eq!(sample.clarity, 80);
}

#[test]
fn a_session_is_analyzed_by_its_identifier() {
    let a = analyzer(vec![record("a", Methodology::Unknown, None, None)]);
    let content = "Human: perfect\nAssistant: ```x``` ok?";
    let (metrics, quality) = a.analyze_session("a", content).expect("a is stored");
    assert_eq!(
        metrics,
        AnalysisMetrics {
            exchanges: 2,
            code_blocks: 1,
            questions_asked: 1,
            enthusiasm_markers: 1,
            confusion_markers: 0,
            compaction_indicators: 0,
        }
    );
    assert_eq!(quality, SessionQuality::from_metrics(&metrics));
    assert_eq!(a.analyze_log_file(content), metrics);
    assert_eq!(a.analyze_session("b", content).err(), Some(AnalysisError::SessionNotFound));
    let summary = a.get_session_summary("a", content).expect("a is stored");
    assert_eq!(summary.session.id, "a");
    assert_eq!(summary.metrics, metrics);
    assert_eq!(summary.quality, quality);
    assert_eq!(
        a.get_session_summary("b", content).err(),
        Some(AnalysisError::SessionNotFound)
    );
    assert_eq!(a.metadata().sessions().len(), 1);
}

#[test]
fn a_filter_selects_the_first_group_whose_name_holds_it() {
    let all = comparison(group(1, None, 0, 0), group(1, None, 0, 0), group(1, None, 0, 0));
    assert_eq!(select_group(&all, "context"), Some(Methodology::ContextDriven));
    assert_eq!(select_group(&all, "COMMAND"), Some(Methodology::CommandBased));
    assert_eq!(select_group(&all, "-"), Some(Methodology::ContextDriven));
    assert_eq!(select_group(&all, "n"), Some(Methodology::ContextDriven));
    assert_eq!(select_group(&all, "known"), Some(Methodology::Unknown));
    assert_eq!(select_group(&all, ""), Some(Methodology::ContextDriven));
    assert_eq!(select_group(&all, "other"), None);
    let some = comparison(None, group(1, None, 0, 0), None);
    assert_eq!(select_group(&some, "context"), None);
    assert_eq!(select_group(&some, "Based"), Some(Methodology::CommandBased));
    assert!(name_matches(Methodology::Unknown, "UNK"));
    assert!(!name_matches(Methodology::Unknown, "unknown "));
}
