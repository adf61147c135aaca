//! The lexical detectors of a transcript and the quality scores derived from
//! its metrics.

use crate::matcher::{count_matches, match_count, pattern_compiles, regex_source};
use crate::session::{AnalysisMetrics, MetricTotals, Ratio};
use crate::text::{
    chars_of, count_exchanges, count_questions, exchange_count, question_count,
};
use regex::Regex;
use vstd::prelude::*;

verus! {

/// Words and phrases of positive affect, matched without regard to case.
pub const ENTHUSIASM_PATTERN: &'static str =
    "(?i)(excellent|great|perfect|amazing|awesome|fantastic|wonderful|brilliant|outstanding|superb|terrific|love it|exactly|precisely)";

/// Phrases of uncertainty, matched without regard to case.
pub const CONFUSION_PATTERN: &'static str =
    "(?i)(confused|unclear|not sure|don't understand|what do you mean|can you clarify|help me understand|i'm lost|not following)";

/// Words that ask for brevity, matched without regard to case.
pub const COMPACTION_PATTERN: &'static str =
    "(?i)(concise|brief|short|summarize|compact|terse|reduce|minimize|streamline)";

/// A fenced region: from three backticks to the next three, across lines.
pub const CODE_BLOCK_PATTERN: &'static str = "```[\\s\\S]*?```";

/// The detectors that are regular expressions.
#[derive(Clone, Copy, Debug, PartialEq, Eq, Hash, Structural)]
pub enum Detector {
    Enthusiasm,
    Confusion,
    Compaction,
    CodeBlock,
}

impl Detector {
    /// The pattern text of the detector.
    pub open spec fn pattern_of(self) -> Seq<char> {
        match self {
            Detector::Enthusiasm => ENTHUSIASM_PATTERN@,
            Detector::Confusion => CONFUSION_PATTERN@,
            Detector::Compaction => COMPACTION_PATTERN@,
            Detector::CodeBlock => CODE_BLOCK_PATTERN@,
        }
    }

    /// The pattern text of the detector.
    pub fn pattern(&self) -> (p: &'static str)
        ensures
            p@ == self.pattern_of(),
    {
        match self {
            Detector::Enthusiasm => ENTHUSIASM_PATTERN,
            Detector::Confusion => CONFUSION_PATTERN,
            Detector::Compaction => COMPACTION_PATTERN,
            Detector::CodeBlock => CODE_BLOCK_PATTERN,
        }
    }
}

/// The detector whose pattern the expression engine refused.
#[derive(Clone, Copy, Debug, PartialEq, Eq, Hash, Structural)]
pub struct PatternError {
    pub detector: Detector,
}

/// The first detector, in the order enthusiasm, confusion, compaction, code
/// block, whose pattern the engine refuses; `None` where it accepts all.
pub open spec fn first_refused() -> Option<Detector> {
    if !pattern_compiles(Detector::Enthusiasm.pattern_of()) {
        Some(Detector::Enthusiasm)
    } else if !pattern_compiles(Detector::Confusion.pattern_of()) {
        Some(Detector::Confusion)
    } else if !pattern_compiles(Detector::Compaction.pattern_of()) {
        Some(Detector::Compaction)
    } else if !pattern_compiles(Detector::CodeBlock.pattern_of()) {
        Some(Detector::CodeBlock)
    } else {
        None
    }
}

/// The six counters of the transcript `text`.
pub open spec fn metrics_of(text: Seq<char>) -> MetricTotals {
    MetricTotals {
        exchanges: exchange_count(text),
        code_blocks: match_count(Detector::CodeBlock.pattern_of(), text),
        questions_asked: question_count(text),
        enthusiasm_markers: match_count(Detector::Enthusiasm.pattern_of(), text),
        confusion_markers: match_count(Detector::Confusion.pattern_of(), text),
        compaction_indicators: match_count(Detector::Compaction.pattern_of(), text),
    }
}

/// The compiled detectors. A value is built once and then lent to every
/// analysis.
pub struct ConversationPatterns {
    enthusiasm: Regex,
    confusion: Regex,
    compaction: Regex,
    code_blocks: Regex,
}

impl ConversationPatterns {
    /// Each expression was compiled from the pattern of its detector.
    #[verifier::type_invariant]
    spec fn well_formed(self) -> bool {
        &&& regex_source(self.enthusiasm) == Detector::Enthusiasm.pattern_of()
        &&& regex_source(self.confusion) == Detector::Confusion.pattern_of()
        &&& regex_source(self.compaction) == Detector::Compaction.pattern_of()
        &&& regex_source(self.code_blocks) == Detector::CodeBlock.pattern_of()
    }

    /// Compiles the detectors. Fails with the first detector whose pattern
    /// the engine refuses.
    pub fn new() -> (r: Result<ConversationPatterns, PatternError>)
        ensures
            r is Ok <==> first_refused() is None,
            r matches Err(e) ==> first_refused() == Some(e.detector),
    {
        let enthusiasm = match Regex::new(Detector::Enthusiasm.pattern()) {
            Ok(re) => re,
            Err(_) => { return Err(PatternError { detector: Detector::Enthusiasm }); },
        };
        let confusion = match Regex::new(Detector::Confusion.pattern()) {
            Ok(re) => re,
            Err(_) => { return Err(PatternError { detector: Detector::Confusion }); },
        };
        let compaction = match Regex::new(Detector::Compaction.pattern()) {
            Ok(re) => re,
            Err(_) => { return Err(PatternError { detector: Detector::Compaction }); },
        };
        let code_blocks = match Regex::new(Detector::CodeBlock.pattern()) {
            Ok(re) => re,
            Err(_) => { return Err(PatternError { detector: Detector::CodeBlock }); },
        };
        Ok(ConversationPatterns { enthusiasm, confusion, compaction, code_blocks })
    }

    /// The six counters of `content`.
    pub fn analyze_content(&self, content: &str) -> (m: AnalysisMetrics)
        ensures
            m@ == metrics_of(content@),
    {
        proof {
            use_type_invariant(self);
        }
        AnalysisMetrics {
            exchanges: self.count_exchanges(content),
            code_blocks: self.count_code_blocks(content),
            questions_asked: self.count_questions(content),
            enthusiasm_markers: count_matches(&self.enthusiasm, content),
            confusion_markers: count_matches(&self.confusion, content),
            compaction_indicators: count_matches(&self.compaction, content),
        }
    }

    /// The number of lines of `content` that begin with a role marker.
    pub fn count_exchanges(&self, content: &str) -> (n: usize)
        ensures
            n as nat == exchange_count(content@),
    {
        let chars = chars_of(content);
        count_exchanges(&chars)
    }

    /// The number of fenced regions in `content`.
    pub fn count_code_blocks(&self, content: &str) -> (n: usize)
        ensures
            n as nat == match_count(Detector::CodeBlock.pattern_of(), content@),
    {
        proof {
            use_type_invariant(self);
        }
        count_matches(&self.code_blocks, content)
    }

    /// The number of question marks of `content` outside fenced code.
    pub fn count_questions(&self, content: &str) -> (n: usize)
        ensures
            n as nat == question_count(content@),
    {
        let chars = chars_of(content);
        count_questions(&chars)
    }

    /// The quality scores of `content`.
    pub fn session_quality(&self, content: &str) -> (q: SessionQuality)
        ensures
            q == quality_of(metrics_of(content@)),
    {
        let metrics = self.analyze_content(content);
        SessionQuality::from_metrics(&metrics)
    }
}

/// A transcript has one metrics record: two records of the same text are
/// the same, counter for counter.
pub proof fn lemma_metrics_determined(first: AnalysisMetrics, second: AnalysisMetrics, text: Seq<char>)
    requires
        first@ == metrics_of(text),
        second@ == metrics_of(text),
    ensures
        first == second,
{
}

/// Compiles the detectors.
pub fn get_patterns() -> (r: Result<ConversationPatterns, PatternError>)
    ensures
        r is Ok <==> first_refused() is None,
        r matches Err(e) ==> first_refused() == Some(e.detector),
{
    ConversationPatterns::new()
}

/// The quality scores of the transcript `content`, with detectors compiled
/// for this call.
pub fn analyze_session_quality(content: &str) -> (r: Result<SessionQuality, PatternError>)
    ensures
        r is Ok <==> first_refused() is None,
        r matches Ok(q) ==> q == quality_of(metrics_of(content@)),
        r matches Err(e) ==> first_refused() == Some(e.detector),
{
    match get_patterns() {
        Ok(patterns) => Ok(patterns.session_quality(content)),
        Err(e) => Err(e),
    }
}

/// The smaller of two integers.
pub open spec fn least(a: int, b: int) -> int {
    if a <= b {
        a
    } else {
        b
    }
}

/// `v` brought into the range of a score, 0 to 100.
pub open spec fn clamp_score(v: int) -> int {
    if v < 0 {
        0
    } else if v > 100 {
        100
    } else {
        v
    }
}

/// Engagement: 50, plus 10 for each enthusiasm marker up to 30, plus 2 for
/// each exchange up to 20, minus 5 for each confusion marker up to 20.
pub open spec fn engagement_of(m: MetricTotals) -> int {
    clamp_score(
        50 + least((m.enthusiasm_markers * 10) as int, 30) + least((m.exchanges * 2) as int, 20) - least((m.confusion_markers * 5) as int,
            20,
        ),
    )
}

/// The penalty for questions beyond the number of exchanges: 2 for each, up
/// to 20.
pub open spec fn question_penalty_of(m: MetricTotals) -> int {
    if m.questions_asked > m.exchanges {
        least((m.questions_asked - m.exchanges) * 2, 20)
    } else {
        0
    }
}

/// Clarity: 70, minus 10 for each confusion marker up to 40, minus the
/// question penalty.
pub open spec fn clarity_of(m: MetricTotals) -> int {
    clamp_score(70 - least((m.confusion_markers * 10) as int, 40) - question_penalty_of(m))
}

/// Productivity: 40, plus 15 for each code block up to 40, plus 5 for each
/// compaction indicator up to 20.
pub open spec fn productivity_of(m: MetricTotals) -> int {
    clamp_score(40 + least((m.code_blocks * 15) as int, 40) + least((m.compaction_indicators * 5) as int, 20))
}

/// The four scores of a session. Each of the first three is a whole number
/// from 0 to 100; the overall score is their mean, kept as their sum over 3.
#[derive(Clone, Copy, Debug, PartialEq, Eq, Hash, Structural)]
pub struct SessionQuality {
    pub engagement_score: u32,
    pub clarity_score: u32,
    pub productivity_score: u32,
    pub overall_score: Ratio,
}

/// The scores that the metrics `m` give.
pub open spec fn quality_of(m: MetricTotals) -> SessionQuality {
    SessionQuality {
        engagement_score: engagement_of(m) as u32,
        clarity_score: clarity_of(m) as u32,
        productivity_score: productivity_of(m) as u32,
        overall_score: Ratio {
            num: (engagement_of(m) + clarity_of(m) + productivity_of(m)) as u64,
            den: 3,
        },
    }
}

/// `count * weight`, or `cap` where that is less.
fn capped_product(count: usize, weight: u32, cap: u32) -> (r: u32)
    requires
        1 <= weight <= 100,
        cap <= 100,
    ensures
        r as int == least(count * weight, cap as int),
{
    if count >= cap as usize {
        assert(count * weight >= cap) by (nonlinear_arith)
            requires
                count >= cap,
                weight >= 1,
        ;
        cap
    } else {
        assert(count * weight <= 100 * 100) by (nonlinear_arith)
            requires
                count < 100,
                weight <= 100,
        ;
        let product: u32 = (count as u32) * weight;
        if product > cap {
            cap
        } else {
            product
        }
    }
}

impl SessionQuality {
    /// Scores a metrics record. Every score lies between 0 and 100.
    pub fn from_metrics(metrics: &AnalysisMetrics) -> (q: SessionQuality)
        ensures
            q == quality_of(metrics@),
            q.engagement_score <= 100,
            q.clarity_score <= 100,
            q.productivity_score <= 100,
            q.overall_score.den == 3,
            q.overall_score.num == q.engagement_score + q.clarity_score + q.productivity_score,
            q.overall_score.num <= 300,
    {
        let engagement_score = Self::calculate_engagement_score(metrics);
        let clarity_score = Self::calculate_clarity_score(metrics);
        let productivity_score = Self::calculate_productivity_score(metrics);
        let sum: u32 = engagement_score + clarity_score + productivity_score;
        SessionQuality {
            engagement_score,
            clarity_score,
            productivity_score,
            overall_score: Ratio { num: sum as u64, den: 3 },
        }
    }

    /// The engagement score of `metrics`.
    pub fn calculate_engagement_score(metrics: &AnalysisMetrics) -> (score: u32)
        ensures
            score as int == engagement_of(metrics@),
            score <= 100,
    {
        let enthusiasm_bonus = capped_product(metrics.enthusiasm_markers, 10, 30);
        let confusion_penalty = capped_product(metrics.confusion_markers, 5, 20);
        let exchange_bonus = capped_product(metrics.exchanges, 2, 20);
        let raised: u32 = 50 + enthusiasm_bonus + exchange_bonus;
        let score: u32 = raised - confusion_penalty;
        if score > 100 {
            100
        } else {
            score
        }
    }

    /// The clarity score of `metrics`.
    pub fn calculate_clarity_score(metrics: &AnalysisMetrics) -> (score: u32)
        ensures
            score as int == clarity_of(metrics@),
            score <= 100,
    {
        let confusion_penalty = capped_product(metrics.confusion_markers, 10, 40);
        let question_penalty: u32 = if metrics.questions_asked > metrics.exchanges {
            capped_product(metrics.questions_asked - metrics.exchanges, 2, 20)
        } else {
            0
        };
        70 - confusion_penalty - question_penalty
    }

    /// The productivity score of `metrics`.
    pub fn calculate_productivity_score(metrics: &AnalysisMetrics) -> (score: u32)
        ensures
            score as int == productivity_of(metrics@),
            score <= 100,
    {
        let code_bonus = capped_product(metrics.code_blocks, 15, 40);
        let compaction_bonus = capped_product(metrics.compaction_indicators, 5, 20);
        40 + code_bonus + compaction_bonus
    }
}

/// Every score of every metrics record lies between 0 and 100, and the
/// overall score, a sum over 3, lies there with them.
pub proof fn lemma_scores_bounded(m: MetricTotals)
    ensures
        0 <= engagement_of(m) <= 100,
        0 <= clarity_of(m) <= 100,
        0 <= productivity_of(m) <= 100,
        0 <= engagement_of(m) + clarity_of(m) + productivity_of(m) <= 3 * 100,
{
}

/// The scores of a transcript in which nothing was detected: 50, 70, 40, and
/// 160 over 3 overall.
pub proof fn lemma_scores_of_nothing()
    ensures
        engagement_of(MetricTotals::zero()) == 50,
        clarity_of(MetricTotals::zero()) == 70,
        productivity_of(MetricTotals::zero()) == 40,
        quality_of(MetricTotals::zero()).overall_score == (Ratio { num: 160, den: 3 }),
{
}

} // verus!
