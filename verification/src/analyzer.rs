//! Statistics across sessions: one group per methodology, a quality sample
//! of each group, and the recommendations that follow from them.
//!
//! The caller reads the transcripts. It hands them over as one entry for each
//! record of the store, in the store's order; an entry is `None` where the
//! transcript could not be read.

use crate::patterns::{metrics_of, quality_of, ConversationPatterns, PatternError, SessionQuality};
use crate::session::{
    holds_id, AnalysisMetrics, Methodology, MethodologyStats, Ratio, SessionMetadata,
    SessionsMetadata, StatsModel,
};
use crate::text::{chars_of, contains_text, lowercase, lowercase_of, occurs_in};
use vstd::prelude::*;

verus! {

/// Why an analysis gave no result.
#[derive(Clone, Copy, Debug, PartialEq, Eq, Hash, Structural)]
pub enum AnalysisError {
    /// No record has the identifier asked for.
    SessionNotFound,
    /// The transcripts handed over are not one for each record.
    TranscriptCount,
    /// A total exceeds the machine numbers that hold it.
    Overflow,
}

/// A group as mathematical values.
pub struct GroupModel {
    /// The statistics of the sessions that were analyzed.
    pub stats: StatsModel,
    /// Sessions whose transcript could not be read.
    pub skipped: nat,
    /// Sessions of the group, analyzed or skipped.
    pub members: nat,
}

/// The group before any session.
pub open spec fn empty_group() -> GroupModel {
    GroupModel { stats: StatsModel::empty(), skipped: 0, members: 0 }
}

/// The group `g` after one more of its sessions: folded into the statistics
/// where the transcript was read, counted as skipped where it was not.
pub open spec fn group_step(g: GroupModel, session: SessionMetadata, text: Option<String>) -> GroupModel {
    match text {
        Some(t) => GroupModel {
            stats: g.stats.with_session(
                session.duration,
                session.creative_energy,
                metrics_of(t@),
            ),
            skipped: g.skipped,
            members: g.members + 1,
        },
        None => GroupModel { stats: g.stats, skipped: g.skipped + 1, members: g.members + 1 },
    }
}

/// The group of methodology `m` after the first `n` records.
pub open spec fn group_after(
    entries: Seq<SessionMetadata>,
    texts: Seq<Option<String>>,
    m: Methodology,
    n: int,
) -> GroupModel
    decreases n,
{
    if n <= 0 {
        empty_group()
    } else if entries[n - 1].methodology == m {
        group_step(group_after(entries, texts, m, n - 1), entries[n - 1], texts[n - 1])
    } else {
        group_after(entries, texts, m, n - 1)
    }
}

/// Whether every running total of every group fits its machine number.
pub open spec fn totals_fit(entries: Seq<SessionMetadata>, texts: Seq<Option<String>>) -> bool {
    forall|m: Methodology, n: int|
        0 <= n <= entries.len() ==> (#[trigger] group_after(entries, texts, m, n)).stats.fits()
}

/// The outcome of folding the sessions of one methodology.
#[derive(Debug)]
pub struct GroupOutcome {
    /// The statistics of the sessions that were analyzed.
    pub stats: MethodologyStats,
    /// Sessions whose transcript could not be read.
    pub skipped: usize,
    /// Sessions of the group, analyzed or skipped.
    pub members: usize,
}

impl View for GroupOutcome {
    type V = GroupModel;

    open spec fn view(&self) -> GroupModel {
        GroupModel {
            stats: self.stats@,
            skipped: self.skipped as nat,
            members: self.members as nat,
        }
    }
}

impl GroupOutcome {
    /// The group before any session.
    pub fn new() -> (g: GroupOutcome)
        ensures
            g@ == empty_group(),
    {
        GroupOutcome { stats: MethodologyStats::new(), skipped: 0, members: 0 }
    }

    /// Takes one more session of the group. Returns `false`, and leaves the
    /// group as it was, where a total would no longer fit.
    fn absorb(
        &mut self,
        session: &SessionMetadata,
        text: &Option<String>,
        patterns: &ConversationPatterns,
    ) -> (ok: bool)
        requires
            old(self).members < usize::MAX,
            old(self).skipped <= old(self).members,
        ensures
            ok == (text is None || group_step(old(self)@, *session, *text).stats.fits()),
            ok ==> final(self)@ == group_step(old(self)@, *session, *text),
            !ok ==> *final(self) == *old(self),
    {
        match text {
            Some(t) => {
                let metrics = patterns.analyze_content(t.as_str());
                if !self.stats.accepts(session, &metrics) {
                    return false;
                }
                self.stats.add_session(session, metrics);
                self.members = self.members + 1;
                true
            },
            None => {
                self.skipped = self.skipped + 1;
                self.members = self.members + 1;
                true
            },
        }
    }

    /// Exchanges per analyzed session; `None` where no session was analyzed.
    pub fn avg_exchanges(&self) -> (avg: Option<Ratio>)
        ensures
            avg == per_session(self.stats.metrics.exchanges, self.stats.sessions),
    {
        rate(self.stats.metrics.exchanges, self.stats.sessions)
    }

    /// Code blocks per analyzed session; `None` where no session was
    /// analyzed.
    pub fn avg_code_blocks(&self) -> (avg: Option<Ratio>)
        ensures
            avg == per_session(self.stats.metrics.code_blocks, self.stats.sessions),
    {
        rate(self.stats.metrics.code_blocks, self.stats.sessions)
    }
}

/// `count` over `sessions` as a fraction; `None` where there is no session.
pub open spec fn per_session(count: usize, sessions: usize) -> Option<Ratio> {
    if sessions == 0 {
        None
    } else {
        Some(Ratio { num: count as u64, den: sessions as u64 })
    }
}

/// `count` over `sessions` as a fraction.
fn rate(count: usize, sessions: usize) -> (r: Option<Ratio>)
    ensures
        r == per_session(count, sessions),
{
    if sessions == 0 {
        None
    } else {
        Some(Ratio { num: count as u64, den: sessions as u64 })
    }
}

/// One group for each methodology that has a session.
#[derive(Debug)]
pub struct MethodologyComparison {
    pub context_driven: Option<GroupOutcome>,
    pub command_based: Option<GroupOutcome>,
    pub unknown: Option<GroupOutcome>,
}

impl MethodologyComparison {
    /// The group of methodology `m`.
    pub open spec fn group_of(self, m: Methodology) -> Option<GroupOutcome> {
        match m {
            Methodology::ContextDriven => self.context_driven,
            Methodology::CommandBased => self.command_based,
            Methodology::Unknown => self.unknown,
        }
    }

    /// The group of methodology `m`.
    pub fn group(&self, m: Methodology) -> (g: &Option<GroupOutcome>)
        ensures
            *g == self.group_of(m),
    {
        match m {
            Methodology::ContextDriven => &self.context_driven,
            Methodology::CommandBased => &self.command_based,
            Methodology::Unknown => &self.unknown,
        }
    }

    /// Whether the group of `m` has an analyzed session.
    pub open spec fn is_active(self, m: Methodology) -> bool {
        self.group_of(m) matches Some(g) && g.stats.sessions > 0
    }
}

/// Whether `group` reports `model`: absent where the group has no member,
/// else equal to it.
pub open spec fn reports(group: Option<GroupOutcome>, model: GroupModel) -> bool {
    match group {
        Some(g) => model.members > 0 && g@ == model,
        None => model.members == 0,
    }
}

/// A group as it is reported: absent where it has no member.
fn present(group: GroupOutcome) -> (r: Option<GroupOutcome>)
    ensures
        reports(r, group@),
{
    if group.members == 0 {
        None
    } else {
        Some(group)
    }
}

/// The sessions of `group` that were analyzed.
pub open spec fn analyzed_in(group: Option<GroupOutcome>) -> nat {
    match group {
        Some(g) => g.stats.sessions as nat,
        None => 0,
    }
}

/// The sessions of `group` that were skipped.
pub open spec fn skipped_in(group: Option<GroupOutcome>) -> nat {
    match group {
        Some(g) => g.skipped as nat,
        None => 0,
    }
}

/// The sessions that were analyzed, over all groups.
pub open spec fn sessions_analyzed(c: MethodologyComparison) -> nat {
    analyzed_in(c.context_driven) + analyzed_in(c.command_based) + analyzed_in(c.unknown)
}

/// The sessions that were skipped, over all groups.
pub open spec fn sessions_skipped(c: MethodologyComparison) -> nat {
    skipped_in(c.context_driven) + skipped_in(c.command_based) + skipped_in(c.unknown)
}

/// Folds every record into the group of its methodology. Every record is
/// either analyzed or skipped, none is lost.
pub fn fold_sessions(
    sessions: &Vec<SessionMetadata>,
    transcripts: &Vec<Option<String>>,
    patterns: &ConversationPatterns,
) -> (r: Result<MethodologyComparison, AnalysisError>)
    ensures
        sessions@.len() != transcripts@.len() ==> r == Err::<MethodologyComparison, AnalysisError>(
            AnalysisError::TranscriptCount,
        ),
        sessions@.len() == transcripts@.len() ==> (r is Ok <==> totals_fit(
            sessions@,
            transcripts@,
        )),
        sessions@.len() == transcripts@.len() && r is Err ==> r == Err::<
            MethodologyComparison,
            AnalysisError,
        >(AnalysisError::Overflow),
        r matches Ok(c) ==> forall|m: Methodology|
            reports(
                #[trigger] c.group_of(m),
                group_after(sessions@, transcripts@, m, sessions@.len() as int),
            ),
        r matches Ok(c) ==> sessions_analyzed(c) + sessions_skipped(c) == sessions@.len(),
{
    if sessions.len() != transcripts.len() {
        return Err(AnalysisError::TranscriptCount);
    }
    let mut context_driven = GroupOutcome::new();
    let mut command_based = GroupOutcome::new();
    let mut unknown = GroupOutcome::new();
    let mut i: usize = 0;
    while i < sessions.len()
        invariant
            i <= sessions.len(),
            sessions@.len() == transcripts@.len(),
            context_driven@ == group_after(
                sessions@,
                transcripts@,
                Methodology::ContextDriven,
                i as int,
            ),
            command_based@ == group_after(
                sessions@,
                transcripts@,
                Methodology::CommandBased,
                i as int,
            ),
            unknown@ == group_after(sessions@, transcripts@, Methodology::Unknown, i as int),
            context_driven.members <= i,
            command_based.members <= i,
            unknown.members <= i,
            context_driven.stats.sessions + context_driven.skipped == context_driven.members,
            command_based.stats.sessions + command_based.skipped == command_based.members,
            unknown.stats.sessions + unknown.skipped == unknown.members,
            context_driven.members + command_based.members + unknown.members == i,
            forall|m: Methodology, n: int|
                0 <= n <= i ==> (#[trigger] group_after(
                    sessions@,
                    transcripts@,
                    m,
                    n,
                )).stats.fits(),
        decreases sessions.len() - i,
    {
        let session = &sessions[i];
        let text = &transcripts[i];
        let ok = match session.methodology {
            Methodology::ContextDriven => context_driven.absorb(session, text, patterns),
            Methodology::CommandBased => command_based.absorb(session, text, patterns),
            Methodology::Unknown => unknown.absorb(session, text, patterns),
        };
        proof {
            let m = session.methodology;
            assert(sessions@[i as int] == *session);
            assert(transcripts@[i as int] == *text);
            assert(group_after(sessions@, transcripts@, m, i + 1) == group_step(
                group_after(sessions@, transcripts@, m, i as int),
                *session,
                *text,
            ));
        }
        if !ok {
            proof {
                assert(!group_after(
                    sessions@,
                    transcripts@,
                    session.methodology,
                    i + 1,
                ).stats.fits());
            }
            return Err(AnalysisError::Overflow);
        }
        proof {
            assert forall|m: Methodology, n: int| 0 <= n <= i + 1 implies (#[trigger] group_after(
                sessions@,
                transcripts@,
                m,
                n,
            )).stats.fits() by {
                if n == i + 1 {
                    assert(group_after(sessions@, transcripts@, m, i as int).stats.fits());
                }
            }
        }
        i = i + 1;
    }
    let c = MethodologyComparison {
        context_driven: present(context_driven),
        command_based: present(command_based),
        unknown: present(unknown),
    };
    Ok(c)
}

/// How many sessions of a group are sampled for its quality scores: the
/// first five in the order of the store.
pub const QUALITY_SAMPLE_SIZE: usize = 5;

/// Sums of the scores of the sampled sessions of one group.
#[derive(Clone, Copy, Debug, PartialEq, Eq, Hash, Structural)]
pub struct QualitySample {
    /// Sampled sessions whose transcript was read.
    pub samples: u32,
    /// Sum of their engagement scores.
    pub engagement: u32,
    /// Sum of their clarity scores.
    pub clarity: u32,
    /// Sum of their productivity scores.
    pub productivity: u32,
    /// Sum of their overall scores, counted in thirds of a point.
    pub overall_thirds: u32,
}

/// The sums of a sample as natural numbers.
pub struct SampleModel {
    pub samples: nat,
    pub engagement: nat,
    pub clarity: nat,
    pub productivity: nat,
    pub overall_thirds: nat,
}

impl SampleModel {
    /// The sums with the scores `q` added.
    pub open spec fn plus(self, q: SessionQuality) -> SampleModel {
        SampleModel {
            samples: self.samples + 1,
            engagement: self.engagement + q.engagement_score as nat,
            clarity: self.clarity + q.clarity_score as nat,
            productivity: self.productivity + q.productivity_score as nat,
            overall_thirds: self.overall_thirds + q.overall_score.num as nat,
        }
    }
}

impl View for QualitySample {
    type V = SampleModel;

    open spec fn view(&self) -> SampleModel {
        SampleModel {
            samples: self.samples as nat,
            engagement: self.engagement as nat,
            clarity: self.clarity as nat,
            productivity: self.productivity as nat,
            overall_thirds: self.overall_thirds as nat,
        }
    }
}

impl QualitySample {
    /// The mean engagement score; `None` for an empty sample.
    pub fn avg_engagement(&self) -> (avg: Option<Ratio>)
        ensures
            avg == mean_of(self.engagement, self.samples, 1),
    {
        mean(self.engagement, self.samples, 1)
    }

    /// The mean clarity score; `None` for an empty sample.
    pub fn avg_clarity(&self) -> (avg: Option<Ratio>)
        ensures
            avg == mean_of(self.clarity, self.samples, 1),
    {
        mean(self.clarity, self.samples, 1)
    }

    /// The mean productivity score; `None` for an empty sample.
    pub fn avg_productivity(&self) -> (avg: Option<Ratio>)
        ensures
            avg == mean_of(self.productivity, self.samples, 1),
    {
        mean(self.productivity, self.samples, 1)
    }

    /// The mean overall score; `None` for an empty sample.
    pub fn avg_overall(&self) -> (avg: Option<Ratio>)
        ensures
            avg == mean_of(self.overall_thirds, self.samples, 3),
    {
        mean(self.overall_thirds, self.samples, 3)
    }
}

/// `total` over `count * unit` as a fraction; `None` where `count` is 0.
pub open spec fn mean_of(total: u32, count: u32, unit: u8) -> Option<Ratio> {
    if count == 0 {
        None
    } else {
        Some(Ratio { num: total as u64, den: (count * unit) as u64 })
    }
}

/// `total` over `count * unit` as a fraction.
fn mean(total: u32, count: u32, unit: u8) -> (r: Option<Ratio>)
    ensures
        r == mean_of(total, count, unit),
{
    if count == 0 {
        None
    } else {
        assert(count * unit <= u32::MAX * 255) by (nonlinear_arith)
            requires
                count <= u32::MAX,
                unit <= 255,
        ;
        Some(Ratio { num: total as u64, den: (count as u64) * (unit as u64) })
    }
}

/// The number of records of methodology `m` among the first `n`.
pub open spec fn group_rank(entries: Seq<SessionMetadata>, m: Methodology, n: int) -> nat
    decreases n,
{
    if n <= 0 {
        0
    } else if entries[n - 1].methodology == m {
        group_rank(entries, m, n - 1) + 1
    } else {
        group_rank(entries, m, n - 1)
    }
}

/// Whether record `at` is sampled for the quality of its group `m`: it is
/// among the first five of the group and its transcript was read.
pub open spec fn is_sampled(
    entries: Seq<SessionMetadata>,
    texts: Seq<Option<String>>,
    m: Methodology,
    at: int,
) -> bool {
    &&& entries[at].methodology == m
    &&& group_rank(entries, m, at) < QUALITY_SAMPLE_SIZE
    &&& texts[at] is Some
}

/// The quality sample of group `m` over the first `n` records.
pub open spec fn sample_after(
    entries: Seq<SessionMetadata>,
    texts: Seq<Option<String>>,
    m: Methodology,
    n: int,
) -> SampleModel
    decreases n,
{
    if n <= 0 {
        SampleModel { samples: 0, engagement: 0, clarity: 0, productivity: 0, overall_thirds: 0 }
    } else if is_sampled(entries, texts, m, n - 1) {
        sample_after(entries, texts, m, n - 1).plus(quality_of(metrics_of(texts[n - 1]->0@)))
    } else {
        sample_after(entries, texts, m, n - 1)
    }
}

/// Scores the first five sessions of group `m`, as far as their transcripts
/// were read, and sums the scores.
fn sample_quality(
    sessions: &Vec<SessionMetadata>,
    transcripts: &Vec<Option<String>>,
    patterns: &ConversationPatterns,
    m: Methodology,
) -> (sample: QualitySample)
    requires
        sessions@.len() == transcripts@.len(),
    ensures
        sample@ == sample_after(sessions@, transcripts@, m, sessions@.len() as int),
        sample.samples <= QUALITY_SAMPLE_SIZE,
{
    let mut sample = QualitySample {
        samples: 0,
        engagement: 0,
        clarity: 0,
        productivity: 0,
        overall_thirds: 0,
    };
    let mut seen: usize = 0;
    let mut i: usize = 0;
    while i < sessions.len()
        invariant
            i <= sessions.len(),
            sessions@.len() == transcripts@.len(),
            seen as nat == group_rank(sessions@, m, i as int),
            seen <= i,
            sample@ == sample_after(sessions@, transcripts@, m, i as int),
            sample.samples <= seen,
            sample.samples <= QUALITY_SAMPLE_SIZE,
            sample.engagement <= 100 * sample.samples,
            sample.clarity <= 100 * sample.samples,
            sample.productivity <= 100 * sample.samples,
            sample.overall_thirds <= 300 * sample.samples,
        decreases sessions.len() - i,
    {
        if sessions[i].methodology == m {
            if seen < QUALITY_SAMPLE_SIZE {
                if let Some(t) = &transcripts[i] {
                    let metrics = patterns.analyze_content(t.as_str());
                    let q = SessionQuality::from_metrics(&metrics);
                    sample.samples = sample.samples + 1;
                    sample.engagement = sample.engagement + q.engagement_score;
                    sample.clarity = sample.clarity + q.clarity_score;
                    sample.productivity = sample.productivity + q.productivity_score;
                    sample.overall_thirds = sample.overall_thirds + q.overall_score.num as u32;
                }
            }
            seen = seen + 1;
        }
        i = i + 1;
    }
    sample
}

/// What the statistics suggest.
#[derive(Clone, Copy, Debug, PartialEq, Eq, Hash, Structural)]
pub enum Recommendation {
    /// The methodology with the highest mean creative energy, where that
    /// mean is above 2.
    ContinueUsing { methodology: Methodology, avg_energy: Ratio },
    /// More than 2 confusion markers per session.
    ClarifyRequirements { methodology: Methodology, confusion_rate: Ratio },
    /// More than 5 code blocks per session.
    HighProductivity { methodology: Methodology, code_rate: Ratio },
    /// No rule applies.
    KeepLogging,
}

/// The mean creative energy by which groups are ranked: the mean rating, or
/// zero where none was given.
pub open spec fn energy_score_of(stats: MethodologyStats) -> Ratio {
    match stats.avg_energy {
        Some(r) => r,
        None => Ratio { num: 0, den: 1 },
    }
}

/// The better of the best group so far and the group of `m`: the group of
/// `m` where it has an analyzed session and its energy is not below that of
/// the best so far. Of groups with equal energy the later one is taken.
pub open spec fn better_of(
    c: MethodologyComparison,
    best: Option<Methodology>,
    m: Methodology,
) -> Option<Methodology> {
    if !c.is_active(m) {
        best
    } else {
        match best {
            None => Some(m),
            Some(b) => if energy_score_of(c.group_of(b)->0.stats).is_greater(
                energy_score_of(c.group_of(m)->0.stats),
            ) {
                Some(b)
            } else {
                Some(m)
            },
        }
    }
}

/// The group with the highest mean creative energy among those with an
/// analyzed session, taken in the order context-driven, command-based,
/// unknown.
pub open spec fn best_group_of(c: MethodologyComparison) -> Option<Methodology> {
    better_of(
        c,
        better_of(c, better_of(c, None, Methodology::ContextDriven), Methodology::CommandBased),
        Methodology::Unknown,
    )
}

/// The recommendation to continue with the best group, where its mean
/// energy is above 2.
pub open spec fn continue_part(c: MethodologyComparison) -> Seq<Recommendation> {
    match best_group_of(c) {
        Some(m) => match c.group_of(m)->0.stats.avg_energy {
            Some(r) => if r.is_above(2) {
                seq![Recommendation::ContinueUsing { methodology: m, avg_energy: r }]
            } else {
                Seq::empty()
            },
            None => Seq::empty(),
        },
        None => Seq::empty(),
    }
}

/// The recommendation to clarify requirements for `m`, where its group has
/// more than 2 confusion markers per analyzed session.
pub open spec fn clarify_part(c: MethodologyComparison, m: Methodology) -> Seq<Recommendation> {
    if c.is_active(m) && per_session(
        c.group_of(m)->0.stats.metrics.confusion_markers,
        c.group_of(m)->0.stats.sessions,
    )->0.is_above(2) {
        seq![
            Recommendation::ClarifyRequirements {
                methodology: m,
                confusion_rate: per_session(
                    c.group_of(m)->0.stats.metrics.confusion_markers,
                    c.group_of(m)->0.stats.sessions,
                )->0,
            },
        ]
    } else {
        Seq::empty()
    }
}

/// The note of high productivity for `m`, where its group has more than 5
/// code blocks per analyzed session.
pub open spec fn productivity_part(c: MethodologyComparison, m: Methodology) -> Seq<
    Recommendation,
> {
    if c.is_active(m) && per_session(
        c.group_of(m)->0.stats.metrics.code_blocks,
        c.group_of(m)->0.stats.sessions,
    )->0.is_above(5) {
        seq![
            Recommendation::HighProductivity {
                methodology: m,
                code_rate: per_session(
                    c.group_of(m)->0.stats.metrics.code_blocks,
                    c.group_of(m)->0.stats.sessions,
                )->0,
            },
        ]
    } else {
        Seq::empty()
    }
}

/// Every recommendation that a rule gives, in the order of the rules and,
/// within a rule, of the methodologies.
pub open spec fn fired_rules(c: MethodologyComparison) -> Seq<Recommendation> {
    continue_part(c) + clarify_part(c, Methodology::ContextDriven) + clarify_part(
        c,
        Methodology::CommandBased,
    ) + clarify_part(c, Methodology::Unknown) + productivity_part(c, Methodology::ContextDriven)
        + productivity_part(c, Methodology::CommandBased) + productivity_part(
        c,
        Methodology::Unknown,
    )
}

/// The recommendations for `c`: what the rules give, or the one fallback
/// where they give nothing.
pub open spec fn recommendations_of(c: MethodologyComparison) -> Seq<Recommendation> {
    if fired_rules(c).len() == 0 {
        seq![Recommendation::KeepLogging]
    } else {
        fired_rules(c)
    }
}

/// Tells whether the group of `m` has an analyzed session.
fn group_is_active(c: &MethodologyComparison, m: Methodology) -> (b: bool)
    ensures
        b == c.is_active(m),
{
    match c.group(m) {
        Some(g) => g.stats.sessions > 0,
        None => false,
    }
}

/// The energy by which the group of `m` is ranked.
fn energy_score(c: &MethodologyComparison, m: Methodology) -> (r: Ratio)
    requires
        c.is_active(m),
    ensures
        r == energy_score_of(c.group_of(m)->0.stats),
{
    match c.group(m) {
        Some(g) => match g.stats.avg_energy {
            Some(r) => r,
            None => Ratio { num: 0, den: 1 },
        },
        None => Ratio { num: 0, den: 1 },
    }
}

/// The better of the best group so far and the group of `m`.
fn better(c: &MethodologyComparison, best: Option<Methodology>, m: Methodology) -> (r: Option<
    Methodology,
>)
    requires
        best matches Some(b) ==> c.is_active(b),
    ensures
        r == better_of(*c, best, m),
        r matches Some(b) ==> c.is_active(b),
{
    if !group_is_active(c, m) {
        best
    } else {
        match best {
            None => Some(m),
            Some(b) => {
                let held = energy_score(c, b);
                let offered = energy_score(c, m);
                if held.greater_than(&offered) {
                    Some(b)
                } else {
                    Some(m)
                }
            },
        }
    }
}

/// Appends the recommendation to clarify requirements for `m`, if due.
fn push_clarify(c: &MethodologyComparison, m: Methodology, recs: &mut Vec<Recommendation>)
    ensures
        final(recs)@ == old(recs)@ + clarify_part(*c, m),
{
    if let Some(g) = c.group(m) {
        if let Some(confusion_rate) = rate(g.stats.metrics.confusion_markers, g.stats.sessions) {
            if confusion_rate.exceeds(2) {
                recs.push(Recommendation::ClarifyRequirements { methodology: m, confusion_rate });
            }
        }
    }
    assert(recs@ =~= old(recs)@ + clarify_part(*c, m));
}

/// Appends the note of high productivity for `m`, if due.
fn push_productivity(c: &MethodologyComparison, m: Methodology, recs: &mut Vec<Recommendation>)
    ensures
        final(recs)@ == old(recs)@ + productivity_part(*c, m),
{
    if let Some(g) = c.group(m) {
        if let Some(code_rate) = rate(g.stats.metrics.code_blocks, g.stats.sessions) {
            if code_rate.exceeds(5) {
                recs.push(Recommendation::HighProductivity { methodology: m, code_rate });
            }
        }
    }
    assert(recs@ =~= old(recs)@ + productivity_part(*c, m));
}

/// Derives the recommendations from the finished statistics.
pub fn generate_recommendations(c: &MethodologyComparison) -> (recs: Vec<Recommendation>)
    ensures
        recs@ == recommendations_of(*c),
{
    let mut recs: Vec<Recommendation> = Vec::new();
    let first = better(c, None, Methodology::ContextDriven);
    let second = better(c, first, Methodology::CommandBased);
    let best = better(c, second, Methodology::Unknown);
    if let Some(m) = best {
        if let Some(g) = c.group(m) {
            if let Some(r) = g.stats.avg_energy {
                if r.exceeds(2) {
                    recs.push(Recommendation::ContinueUsing { methodology: m, avg_energy: r });
                }
            }
        }
    }
    assert(recs@ =~= continue_part(*c));
    push_clarify(c, Methodology::ContextDriven, &mut recs);
    push_clarify(c, Methodology::CommandBased, &mut recs);
    push_clarify(c, Methodology::Unknown, &mut recs);
    push_productivity(c, Methodology::ContextDriven, &mut recs);
    push_productivity(c, Methodology::CommandBased, &mut recs);
    push_productivity(c, Methodology::Unknown, &mut recs);
    if recs.len() == 0 {
        recs.push(Recommendation::KeepLogging);
        assert(recs@ =~= seq![Recommendation::KeepLogging]);
    }
    recs
}

/// Where one group has an analyzed session, a mean creative energy above 2,
/// and a mean above that of every other group with an analyzed session, the
/// first recommendation is to continue with its methodology.
pub proof fn lemma_continue_with_best(c: MethodologyComparison, m: Methodology, r: Ratio)
    requires
        c.is_active(m),
        c.group_of(m)->0.stats.avg_energy == Some(r),
        r.is_above(2),
        forall|o: Methodology|
            o != m && #[trigger] c.is_active(o) ==> r.is_greater(
                energy_score_of(c.group_of(o)->0.stats),
            ),
    ensures
        recommendations_of(c).len() > 0,
        recommendations_of(c)[0] == (Recommendation::ContinueUsing {
            methodology: m,
            avg_energy: r,
        }),
{
    assert(forall|o: Methodology|
        o != m && c.is_active(o) ==> !energy_score_of(c.group_of(o)->0.stats).is_greater(r)) by {
        assert forall|o: Methodology| o != m && c.is_active(o) implies !energy_score_of(
            c.group_of(o)->0.stats,
        ).is_greater(r) by {
            let s = energy_score_of(c.group_of(o)->0.stats);
            assert(r.is_greater(s));
            assert(r.num * s.den == s.den * r.num) by (nonlinear_arith);
            assert(s.num * r.den == r.den * s.num) by (nonlinear_arith);
        }
    }
    assert(best_group_of(c) == Some(m));
    assert(continue_part(c) =~= seq![
        Recommendation::ContinueUsing { methodology: m, avg_energy: r },
    ]);
    assert(fired_rules(c)[0] == continue_part(c)[0]);
}

/// A group whose mean creative energy is not above 2, or which has none, is
/// never recommended for continuation: a mean of exactly 2 does not suffice.
pub proof fn lemma_no_continue_at_two(c: MethodologyComparison, m: Methodology, k: int)
    requires
        !(c.group_of(m) matches Some(g) && g.stats.avg_energy matches Some(r) && r.is_above(2)),
        0 <= k < recommendations_of(c).len(),
    ensures
        !(recommendations_of(c)[k] matches Recommendation::ContinueUsing { methodology, .. }
            && methodology == m),
{
    let head = continue_part(c);
    assert(head.len() <= 1);
    if k < head.len() {
        assert(fired_rules(c)[k] == head[k]);
    }
}

/// Of every group, each session is either analyzed or skipped, and the
/// group has as many members as records carry its methodology.
pub proof fn lemma_group_counts(
    entries: Seq<SessionMetadata>,
    texts: Seq<Option<String>>,
    m: Methodology,
    n: int,
)
    ensures
        group_after(entries, texts, m, n).stats.sessions + group_after(
            entries,
            texts,
            m,
            n,
        ).skipped == group_after(entries, texts, m, n).members,
        group_after(entries, texts, m, n).members == group_rank(entries, m, n),
    decreases n,
{
    if n > 0 {
        lemma_group_counts(entries, texts, m, n - 1);
    }
}

/// The quality samples of the groups that have an analyzed session and a
/// sampled transcript.
#[derive(Clone, Copy, Debug, PartialEq, Eq, Hash, Structural)]
pub struct QualityReport {
    pub context_driven: Option<QualitySample>,
    pub command_based: Option<QualitySample>,
    pub unknown: Option<QualitySample>,
}

/// Whether `entry` is the quality entry of group `m`: the sample of the
/// group, or nothing where the group has no analyzed session or the sample
/// is empty.
pub open spec fn is_quality_entry(
    entry: Option<QualitySample>,
    c: MethodologyComparison,
    entries: Seq<SessionMetadata>,
    texts: Seq<Option<String>>,
    m: Methodology,
) -> bool {
    let sample = sample_after(entries, texts, m, entries.len() as int);
    if c.is_active(m) && sample.samples > 0 {
        entry matches Some(q) && q@ == sample
    } else {
        entry is None
    }
}

/// The quality entry of group `m`.
fn quality_entry(
    c: &MethodologyComparison,
    sessions: &Vec<SessionMetadata>,
    transcripts: &Vec<Option<String>>,
    patterns: &ConversationPatterns,
    m: Methodology,
) -> (entry: Option<QualitySample>)
    requires
        sessions@.len() == transcripts@.len(),
    ensures
        is_quality_entry(entry, *c, sessions@, transcripts@, m),
{
    if !group_is_active(c, m) {
        return None;
    }
    let sample = sample_quality(sessions, transcripts, patterns, m);
    if sample.samples == 0 {
        None
    } else {
        Some(sample)
    }
}

/// Everything a report shows, as values.
#[derive(Debug)]
pub struct Report {
    /// Sessions analyzed, over all groups.
    pub total_sessions: usize,
    /// Sessions skipped because their transcript could not be read.
    pub skipped_sessions: usize,
    /// The statistics of each group.
    pub comparison: MethodologyComparison,
    /// The quality sample of each group.
    pub quality: QualityReport,
    /// What the statistics suggest.
    pub recommendations: Vec<Recommendation>,
}

/// The session count of a group, zero where it is absent.
fn analyzed_count(group: &Option<GroupOutcome>) -> (n: usize)
    ensures
        n as nat == analyzed_in(*group),
{
    match group {
        Some(g) => g.stats.sessions,
        None => 0,
    }
}

/// The skip count of a group, zero where it is absent.
fn skipped_count(group: &Option<GroupOutcome>) -> (n: usize)
    ensures
        n as nat == skipped_in(*group),
{
    match group {
        Some(g) => g.skipped,
        None => 0,
    }
}

/// One analyzed session: its record, its metrics and its scores.
#[derive(Debug)]
pub struct SessionSummary<'a> {
    pub session: &'a SessionMetadata,
    pub metrics: AnalysisMetrics,
    pub quality: SessionQuality,
}

/// The store together with the compiled detectors.
pub struct SessionAnalyzer {
    metadata: SessionsMetadata,
    patterns: ConversationPatterns,
}

impl View for SessionAnalyzer {
    type V = Seq<SessionMetadata>;

    closed spec fn view(&self) -> Seq<SessionMetadata> {
        self.metadata@
    }
}

impl SessionAnalyzer {
    /// An analyzer over `metadata`. Fails where a detector does not compile.
    pub fn with_metadata(metadata: SessionsMetadata) -> (r: Result<SessionAnalyzer, PatternError>)
        ensures
            r is Ok <==> crate::patterns::first_refused() is None,
            r matches Ok(a) ==> a@ == metadata@,
            r matches Err(e) ==> crate::patterns::first_refused() == Some(e.detector),
    {
        match ConversationPatterns::new() {
            Ok(patterns) => Ok(SessionAnalyzer { metadata, patterns }),
            Err(e) => Err(e),
        }
    }

    /// The store.
    pub fn metadata(&self) -> (store: &SessionsMetadata)
        ensures
            store@ == self@,
    {
        &self.metadata
    }

    /// The metrics of a transcript that was read from a log file.
    pub fn analyze_log_file(&self, content: &str) -> (m: AnalysisMetrics)
        ensures
            m@ == metrics_of(content@),
    {
        self.patterns.analyze_content(content)
    }

    /// The metrics and scores of the session `session_id`, whose transcript
    /// is `content`. Fails where the store has no such session.
    pub fn analyze_session(&self, session_id: &str, content: &str) -> (r: Result<
        (AnalysisMetrics, SessionQuality),
        AnalysisError,
    >)
        ensures
            r is Ok <==> holds_id(self@, session_id@),
            r is Err ==> r == Err::<(AnalysisMetrics, SessionQuality), AnalysisError>(
                AnalysisError::SessionNotFound,
            ),
            r matches Ok(pair) ==> pair.0@ == metrics_of(content@) && pair.1 == quality_of(
                metrics_of(content@),
            ),
    {
        match self.metadata.get_session(session_id) {
            None => Err(AnalysisError::SessionNotFound),
            Some(_) => {
                let metrics = self.analyze_log_file(content);
                let quality = self.patterns.session_quality(content);
                Ok((metrics, quality))
            },
        }
    }

    /// The record, metrics and scores of the session `session_id`, whose
    /// transcript is `content`. Fails where the store has no such session.
    pub fn get_session_summary(&self, session_id: &str, content: &str) -> (r: Result<
        SessionSummary<'_>,
        AnalysisError,
    >)
        ensures
            r is Ok <==> holds_id(self@, session_id@),
            r is Err ==> r matches Err(AnalysisError::SessionNotFound),
            r matches Ok(summary) ==> {
                &&& summary.session.id@ == session_id@
                &&& exists|i: int| 0 <= i < self@.len() && #[trigger] self@[i] == *summary.session
                &&& summary.metrics@ == metrics_of(content@)
                &&& summary.quality == quality_of(metrics_of(content@))
            },
    {
        match self.metadata.get_session(session_id) {
            None => Err(AnalysisError::SessionNotFound),
            Some(session) => {
                let metrics = self.analyze_log_file(content);
                let quality = SessionQuality::from_metrics(&metrics);
                proof {
                    let i = choose|i: int| 0 <= i < self@.len() && #[trigger] self@[i] == *session;
                    assert(self@[i] == *session);
                }
                Ok(SessionSummary { session, metrics, quality })
            },
        }
    }

    /// The statistics of each methodology over the sessions of the store,
    /// with `transcripts` as their transcripts in the store's order.
    pub fn compare_methodologies(&self, transcripts: &Vec<Option<String>>) -> (r: Result<
        MethodologyComparison,
        AnalysisError,
    >)
        ensures
            self@.len() != transcripts@.len() ==> r matches Err(AnalysisError::TranscriptCount),
            self@.len() == transcripts@.len() ==> (r is Ok <==> totals_fit(self@, transcripts@)),
            self@.len() == transcripts@.len() && r is Err ==> r matches Err(
                AnalysisError::Overflow,
            ),
            r matches Ok(c) ==> forall|m: Methodology|
                reports(
                    #[trigger] c.group_of(m),
                    group_after(self@, transcripts@, m, self@.len() as int),
                ),
            r matches Ok(c) ==> sessions_analyzed(c) + sessions_skipped(c) == self@.len(),
    {
        fold_sessions(self.metadata.sessions(), transcripts, &self.patterns)
    }

    /// The quality sample of each group of `c`, with `transcripts` as the
    /// transcripts of the store's sessions in its order.
    pub fn generate_quality_report(
        &self,
        c: &MethodologyComparison,
        transcripts: &Vec<Option<String>>,
    ) -> (r: Result<QualityReport, AnalysisError>)
        ensures
            r is Ok <==> self@.len() == transcripts@.len(),
            r is Err ==> r matches Err(AnalysisError::TranscriptCount),
            r matches Ok(q) ==> {
                &&& is_quality_entry(
                    q.context_driven,
                    *c,
                    self@,
                    transcripts@,
                    Methodology::ContextDriven,
                )
                &&& is_quality_entry(
                    q.command_based,
                    *c,
                    self@,
                    transcripts@,
                    Methodology::CommandBased,
                )
                &&& is_quality_entry(q.unknown, *c, self@, transcripts@, Methodology::Unknown)
            },
    {
        let sessions = self.metadata.sessions();
        if sessions.len() != transcripts.len() {
            return Err(AnalysisError::TranscriptCount);
        }
        Ok(
            QualityReport {
                context_driven: quality_entry(
                    c,
                    sessions,
                    transcripts,
                    &self.patterns,
                    Methodology::ContextDriven,
                ),
                command_based: quality_entry(
                    c,
                    sessions,
                    transcripts,
                    &self.patterns,
                    Methodology::CommandBased,
                ),
                unknown: quality_entry(
                    c,
                    sessions,
                    transcripts,
                    &self.patterns,
                    Methodology::Unknown,
                ),
            },
        )
    }

    /// The full report over the sessions of the store, with `transcripts`
    /// as their transcripts in the store's order.
    pub fn generate_report(&self, transcripts: &Vec<Option<String>>) -> (r: Result<
        Report,
        AnalysisError,
    >)
        ensures
            self@.len() != transcripts@.len() ==> r matches Err(AnalysisError::TranscriptCount),
            self@.len() == transcripts@.len() ==> (r is Ok <==> totals_fit(self@, transcripts@)),
            self@.len() == transcripts@.len() && r is Err ==> r matches Err(
                AnalysisError::Overflow,
            ),
            r matches Ok(report) ==> {
                &&& forall|m: Methodology|
                    reports(
                        #[trigger] report.comparison.group_of(m),
                        group_after(self@, transcripts@, m, self@.len() as int),
                    )
                &&& report.total_sessions as nat == sessions_analyzed(report.comparison)
                &&& report.skipped_sessions as nat == sessions_skipped(report.comparison)
                &&& report.total_sessions + report.skipped_sessions == self@.len()
                &&& is_quality_entry(
                    report.quality.context_driven,
                    report.comparison,
                    self@,
                    transcripts@,
                    Methodology::ContextDriven,
                )
                &&& is_quality_entry(
                    report.quality.command_based,
                    report.comparison,
                    self@,
                    transcripts@,
                    Methodology::CommandBased,
                )
                &&& is_quality_entry(
                    report.quality.unknown,
                    report.comparison,
                    self@,
                    transcripts@,
                    Methodology::Unknown,
                )
                &&& report.recommendations@ == recommendations_of(report.comparison)
            },
    {
        let comparison = match self.compare_methodologies(transcripts) {
            Ok(c) => c,
            Err(e) => { return Err(e); },
        };
        let records: usize = self.metadata.sessions().len();
        assert(sessions_analyzed(comparison) + sessions_skipped(comparison) == records);
        let total_sessions: usize = analyzed_count(&comparison.context_driven) + analyzed_count(
            &comparison.command_based,
        ) + analyzed_count(&comparison.unknown);
        let skipped_sessions: usize = skipped_count(&comparison.context_driven) + skipped_count(
            &comparison.command_based,
        ) + skipped_count(&comparison.unknown);
        let quality = match self.generate_quality_report(&comparison, transcripts) {
            Ok(q) => q,
            Err(e) => { return Err(e); },
        };
        let recommendations = generate_recommendations(&comparison);
        Ok(Report { total_sessions, skipped_sessions, comparison, quality, recommendations })
    }
}

/// Whether the name of `m` holds `filter`, both taken in lower case.
pub open spec fn name_holds(m: Methodology, filter: Seq<char>) -> bool {
    occurs_in(lowercase_of(m.label_of()), lowercase_of(filter))
}

/// Tells whether the name of `m` holds `filter`, whatever the case of
/// either.
pub fn name_matches(m: Methodology, filter: &str) -> (b: bool)
    ensures
        b == name_holds(m, filter@),
{
    let name = lowercase(m.label());
    let wanted = lowercase(filter);
    contains_text(&chars_of(name.as_str()), &chars_of(wanted.as_str()))
}

/// Whether `m` has a group in `c` and its name holds `filter`.
pub open spec fn is_selected(c: MethodologyComparison, m: Methodology, filter: Seq<char>) -> bool {
    c.group_of(m) is Some && name_holds(m, filter)
}

/// The group that a filter selects: the first, in the order context-driven,
/// command-based, unknown, that is present and whose name holds `filter`.
pub open spec fn selected_group(c: MethodologyComparison, filter: Seq<char>) -> Option<
    Methodology,
> {
    if is_selected(c, Methodology::ContextDriven, filter) {
        Some(Methodology::ContextDriven)
    } else if is_selected(c, Methodology::CommandBased, filter) {
        Some(Methodology::CommandBased)
    } else if is_selected(c, Methodology::Unknown, filter) {
        Some(Methodology::Unknown)
    } else {
        None
    }
}

/// Tells whether `m` has a group in `c` and its name holds `filter`.
fn selects(c: &MethodologyComparison, m: Methodology, filter: &str) -> (b: bool)
    ensures
        b == is_selected(*c, m, filter@),
{
    c.group(m).is_some() && name_matches(m, filter)
}

/// The methodology whose statistics a filter asks for, if any of `c`
/// matches it.
pub fn select_group(c: &MethodologyComparison, filter: &str) -> (m: Option<Methodology>)
    ensures
        m == selected_group(*c, filter@),
{
    if selects(c, Methodology::ContextDriven, filter) {
        Some(Methodology::ContextDriven)
    } else if selects(c, Methodology::CommandBased, filter) {
        Some(Methodology::CommandBased)
    } else if selects(c, Methodology::Unknown, filter) {
        Some(Methodology::Unknown)
    } else {
        None
    }
}

} // verus!
