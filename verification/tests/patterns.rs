use claude_logger::patterns::{
    analyze_session_quality, get_patterns, ConversationPatterns, Detector, SessionQuality,
};
use claude_logger::session::{AnalysisMetrics, Ratio};

fn patterns() -> ConversationPatterns {
    ConversationPatterns::new().expect("the detectors compile")
}

fn metrics(
    exchanges: usize,
    code_blocks: usize,
    questions_asked: usize,
    enthusiasm_markers: usize,
    confusion_markers: usize,
    compaction_indicators: usize,
) -> AnalysisMetrics {
    AnalysisMetrics {
        exchanges,
        code_blocks,
        questions_asked,
        enthusiasm_markers,
        confusion_markers,
        compaction_indicators,
    }
}

#[test]
fn test_pattern_matching() {
    let patterns = ConversationPatterns::new().expect("the detectors compile");
    let content = r#"
Human: This is great! Can you help me with ```rust
fn main() {
    println!("Hello, world!");
}
```
Assistant: Sure\! This code creates a simple Hello World program.
"#;

    let metrics = patterns.analyze_content(content);

    assert_eq!(metrics.exchanges, 2);
    assert_eq!(metrics.code_blocks, 1);
    assert!(metrics.enthusiasm_markers > 0);
}

#[test]
fn detectors_compile() {
    assert!(ConversationPatterns::new().is_ok());
    assert!(get_patterns().is_ok());
}

#[test]
fn detector_patterns_are_the_vocabularies() {
    assert!(Detector::Enthusiasm.pattern().starts_with("(?i)(excellent|great|"));
    assert!(Detector::Confusion.pattern().contains("can you clarify"));
    assert!(Detector::Compaction.pattern().ends_with("|streamline)"));
    assert_eq!(Detector::CodeBlock.pattern(), r"```[\s\S]*?```");
}

#[test]
fn empty_transcript_has_no_counts() {
    let m = patterns().analyze_content("");
    assert_eq!(m, AnalysisMetrics::default());
    assert_eq!(m, metrics(0, 0, 0, 0, 0, 0));
}

#[test]
fn same_transcript_gives_the_same_record() {
    let p = patterns();
    let text = "Human: great, but I'm confused?\n```\ncode?\n```\nAssistant: brief answer\n";
    let first = p.analyze_content(text);
    let second = p.analyze_content(text);
    assert_eq!(first, second);
    assert_eq!(first, metrics(2, 1, 1, 1, 1, 1));
}

#[test]
fn questions_inside_a_fence_are_not_counted() {
    let text = "Human: is this ok?\n```\nwhat? really?\n```\nAssistant: yes?";
    let m = patterns().analyze_content(text);
    assert_eq!(m.questions_asked, 2);
    assert_eq!(m.exchanges, 2);
}

#[test]
fn question_on_a_fence_line_is_not_counted() {
    let p = patterns();
    assert_eq!(p.count_questions("a?\n   ```rust ?\nb?\n```?\nc??"), 3);
    assert_eq!(p.count_questions("\t\u{a0}```\nq?\n"), 0);
}

#[test]
fn unbalanced_fence_stays_open_to_the_end() {
    let p = patterns();
    assert_eq!(p.count_questions("one?\n```\ntwo?\nthree?\n"), 1);
    assert_eq!(p.count_questions("```\n```\n```\nfour?"), 0);
    assert_eq!(p.count_questions("```\n```\nfive?"), 1);
}

#[test]
fn two_backticks_do_not_make_a_fence() {
    let p = patterns();
    assert_eq!(p.count_questions("``\nq?\n` ``\nr?"), 2);
    assert_eq!(p.count_questions("x ```\nq?"), 1);
}

#[test]
fn carriage_returns_do_not_change_the_counts() {
    let p = patterns();
    assert_eq!(p.count_questions("a?\r\n```\r\nb?\r\n```\r\nc?\r\n"), 2);
    assert_eq!(p.count_exchanges("Human: a\r\nAssistant: b\r\n"), 2);
}

#[test]
fn exchanges_are_lines_that_begin_with_a_marker() {
    let p = patterns();
    assert_eq!(p.count_exchanges("Human: hi\nAssistant: hello\nHuman: bye"), 3);
    assert_eq!(p.count_exchanges(" Human: hi\nthe Assistant: hello\nhuman: x\nHuman"), 0);
    assert_eq!(p.count_exchanges("Human:Assistant:\n\nAssistant:"), 2);
    assert_eq!(p.count_exchanges("Human:"), 1);
    assert_eq!(p.count_exchanges("\nAssistant:"), 1);
}

#[test]
fn detection_ignores_case() {
    let p = patterns();
    let upper = p.analyze_content("GREAT");
    let lower = p.analyze_content("great");
    assert_eq!(upper.enthusiasm_markers, 1);
    assert_eq!(upper, lower);
    assert_eq!(
        p.analyze_content("NOT SURE, Can You Clarify").confusion_markers,
        p.analyze_content("not sure, can you clarify").confusion_markers
    );
    assert_eq!(p.analyze_content("Not Sure, CAN you clarify").confusion_markers, 2);
    assert_eq!(
        p.analyze_content("BRIEF Summarize").compaction_indicators,
        p.analyze_content("brief summarize").compaction_indicators
    );
    assert_eq!(p.analyze_content("Brief SUMMARIZE").compaction_indicators, 2);
}

#[test]
fn matches_are_counted_one_by_one() {
    let p = patterns();
    let m = p.analyze_content("great great greatest, love it exactly; perfect");
    assert_eq!(m.enthusiasm_markers, 6);
    assert_eq!(p.analyze_content("nothing of note").enthusiasm_markers, 0);
}

#[test]
fn code_blocks_are_closed_regions() {
    let p = patterns();
    assert_eq!(p.count_code_blocks("```a``` and ```b\nc```"), 2);
    assert_eq!(p.count_code_blocks("```a``` and ```open"), 1);
    assert_eq!(p.count_code_blocks("no fence"), 0);
}

#[test]
fn scores_of_an_empty_record() {
    let quality = SessionQuality::from_metrics(&AnalysisMetrics::default());
    assert_eq!(quality.engagement_score, 50);
    assert_eq!(quality.clarity_score, 70);
    assert_eq!(quality.productivity_score, 40);
    assert_eq!(quality.overall_score, Ratio { num: 160, den: 3 });
    let overall = quality.overall_score.num as f64 / quality.overall_score.den as f64;
    assert!((overall - 53.333333).abs() < 0.0001);
}

#[test]
fn scores_follow_the_formulas() {
    let q = SessionQuality::from_metrics(&metrics(4, 2, 7, 2, 1, 3));
    assert_eq!(q.engagement_score, 73);
    assert_eq!(q.clarity_score, 54);
    assert_eq!(q.productivity_score, 85);
    assert_eq!(q.overall_score, Ratio { num: 212, den: 3 });
}

#[test]
fn scores_are_capped() {
    let q = SessionQuality::from_metrics(&metrics(100, 100, 0, 100, 0, 100));
    assert_eq!(q.engagement_score, 100);
    assert_eq!(q.clarity_score, 70);
    assert_eq!(q.productivity_score, 100);
    assert_eq!(q.overall_score, Ratio { num: 270, den: 3 });
    let low = SessionQuality::from_metrics(&metrics(0, 0, 100, 0, 100, 0));
    assert_eq!(low.engagement_score, 30);
    assert_eq!(low.clarity_score, 10);
    assert_eq!(low.productivity_score, 40);
}

#[test]
fn scores_stay_in_range_for_huge_counts() {
    let big = usize::MAX;
    for m in [
        metrics(big, big, big, big, big, big),
        metrics(0, big, big, 0, big, 0),
        metrics(big, 0, 0, big, 0, big),
        metrics(1, 1, big, 1, 1, 1),
    ] {
        let q = SessionQuality::from_metrics(&m);
        assert!(q.engagement_score <= 100);
        assert!(q.clarity_score <= 100);
        assert!(q.productivity_score <= 100);
        assert!(q.overall_score.num <= 300);
        assert_eq!(q.overall_score.den, 3);
    }
}

#[test]
fn single_scores_agree_with_the_record() {
    let m = metrics(3, 1, 5, 1, 2, 1);
    let q = SessionQuality::from_metrics(&m);
    assert_eq!(SessionQuality::calculate_engagement_score(&m), q.engagement_score);
    assert_eq!(SessionQuality::calculate_clarity_score(&m), q.clarity_score);
    assert_eq!(SessionQuality::calculate_productivity_score(&m), q.productivity_score);
    assert_eq!(q.engagement_score, 56);
    assert_eq!(q.clarity_score, 46);
    assert_eq!(q.productivity_score, 60);
}

#[test]
fn quality_of_a_transcript() {
    let text = "Human: great?\nAssistant: ```x```\n";
    let q = analyze_session_quality(text).expect("the detectors compile");
    let p = patterns();
    assert_eq!(q, SessionQuality::from_metrics(&p.analyze_content(text)));
    assert_eq!(q, p.session_quality(text));
    assert_eq!(q.engagement_score, 64);
    assert_eq!(q.clarity_score, 70);
    assert_eq!(q.productivity_score, 55);
}

fn questions_line_by_line(content: &str) -> usize {
    let mut count = 0;
    let mut in_code_block = false;
    for line in content.lines() {
        if line.trim_start().starts_with("```") {
            in_code_block = !in_code_block;
            continue;
        }
        if !in_code_block {
            count += line.matches('?').count();
        }
    }
    count
}

#[test]
fn white_space_before_a_fence_is_unicode_white_space() {
    let p = patterns();
    for code in 0u32..0x3100 {
        let c = match char::from_u32(code) {
            Some(c) => c,
            None => panic!("every code point below the surrogates is a character"),
        };
        let text = format!("{}```\nq?", c);
        assert_eq!(p.count_questions(&text), questions_line_by_line(&text), "U+{:04X}", code);
        if c != '\n' && c != '`' && c != '?' {
            let expected = if c.is_whitespace() { 0 } else { 1 };
            assert_eq!(p.count_questions(&text), expected, "U+{:04X}", code);
        }
    }
}

#[test]
fn scan_agrees_with_reading_line_by_line() {
    let p = patterns();
    for text in [
        "",
        "?",
        "a?\n```\nb?\n```\nc?",
        "``` ?\n?\n  ```x\n?\n",
        "`?``\n?",
        " \t```\r\n?\r\n```\r\n?",
        "?```\n?",
        "\n\n```\n\n?\n\n```?\n?",
        "``\n`\n?",
        "\r```\n?\n",
    ] {
        assert_eq!(p.count_questions(text), questions_line_by_line(text), "{:?}", text);
    }
}

#[test]
fn text_without_backticks_counts_every_question_mark() {
    let p = patterns();
    let text = "what? why??\n  how?\r\n?\n";
    assert_eq!(p.count_questions(text), text.matches('?').count());
    assert_eq!(p.count_questions(text), 5);
}

#[test]
fn exchanges_agree_with_matching_line_by_line() {
    let p = patterns();
    let marker = regex::Regex::new(r"^(Human:|Assistant:)").expect("the marker pattern compiles");
    for text in [
        "",
        "Human:",
        "Human: a\nAssistant: b\n",
        "Human: a\r\nAssistant: b\r\nHuman:\r",
        " Human: a\nAssistant\n:Assistant:\nassistant: x",
        "x\n\nHuman: y\n\n\nAssistant: z",
        "Human:Human:\nAssistant:Human:",
        "Huma\nn:\nAssistant:",
        "\u{2028}Human: a\n\u{85}Assistant: b\nHuman: c",
    ] {
        let expected = text.lines().filter(|line| marker.is_match(line)).count();
        assert_eq!(p.count_exchanges(text), expected, "{:?}", text);
    }
}
