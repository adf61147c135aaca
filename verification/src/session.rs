//! Session records, per-session metrics and the running statistics of a
//! methodology group.
//!
//! Instants are seconds and nanoseconds since the Unix epoch; time spans are
//! signed milliseconds; paths are text. Averages are kept as exact fractions.

use vstd::prelude::*;

verus! {

/// How a project's instructions guide the assistant.
#[derive(Clone, Copy, Debug, PartialEq, Eq, Hash, Structural)]
pub enum Methodology {
    ContextDriven,
    CommandBased,
    Unknown,
}

impl Methodology {
    /// The name under which the methodology is shown.
    pub open spec fn label_of(self) -> Seq<char> {
        match self {
            Methodology::ContextDriven => "Context-Driven"@,
            Methodology::CommandBased => "Command-Based"@,
            Methodology::Unknown => "Unknown"@,
        }
    }

    /// The name under which the methodology is shown.
    pub fn label(&self) -> (s: &'static str)
        ensures
            s@ == self.label_of(),
    {
        match self {
            Methodology::ContextDriven => "Context-Driven",
            Methodology::CommandBased => "Command-Based",
            Methodology::Unknown => "Unknown",
        }
    }
}

/// A point in time: seconds since the Unix epoch and the nanoseconds within
/// that second.
#[derive(Clone, Copy, Debug, PartialEq, Eq, Hash, Structural)]
pub struct Instant {
    pub secs: i64,
    pub nanos: u32,
}

impl Instant {
    /// Whether `self` lies strictly before `other`.
    pub open spec fn is_before(self, other: Instant) -> bool {
        self.secs < other.secs || (self.secs == other.secs && self.nanos < other.nanos)
    }

    /// Tells whether `self` lies strictly before `other`.
    pub fn before(&self, other: &Instant) -> (b: bool)
        ensures
            b == self.is_before(*other),
    {
        self.secs < other.secs || (self.secs == other.secs && self.nanos < other.nanos)
    }
}

/// The six counters of one transcript, or their totals over a group.
#[derive(Clone, Copy, Debug, PartialEq, Eq, Hash, Structural)]
pub struct AnalysisMetrics {
    pub exchanges: usize,
    pub code_blocks: usize,
    pub questions_asked: usize,
    pub enthusiasm_markers: usize,
    pub confusion_markers: usize,
    pub compaction_indicators: usize,
}

/// Six counters as natural numbers.
pub struct MetricTotals {
    pub exchanges: nat,
    pub code_blocks: nat,
    pub questions_asked: nat,
    pub enthusiasm_markers: nat,
    pub confusion_markers: nat,
    pub compaction_indicators: nat,
}

impl MetricTotals {
    /// Six zeros.
    pub open spec fn zero() -> MetricTotals {
        MetricTotals {
            exchanges: 0,
            code_blocks: 0,
            questions_asked: 0,
            enthusiasm_markers: 0,
            confusion_markers: 0,
            compaction_indicators: 0,
        }
    }

    /// The counter-wise sum.
    pub open spec fn plus(self, other: MetricTotals) -> MetricTotals {
        MetricTotals {
            exchanges: self.exchanges + other.exchanges,
            code_blocks: self.code_blocks + other.code_blocks,
            questions_asked: self.questions_asked + other.questions_asked,
            enthusiasm_markers: self.enthusiasm_markers + other.enthusiasm_markers,
            confusion_markers: self.confusion_markers + other.confusion_markers,
            compaction_indicators: self.compaction_indicators + other.compaction_indicators,
        }
    }

    /// Whether every counter fits a machine word.
    pub open spec fn fits(self) -> bool {
        &&& self.exchanges <= usize::MAX
        &&& self.code_blocks <= usize::MAX
        &&& self.questions_asked <= usize::MAX
        &&& self.enthusiasm_markers <= usize::MAX
        &&& self.confusion_markers <= usize::MAX
        &&& self.compaction_indicators <= usize::MAX
    }
}

impl View for AnalysisMetrics {
    type V = MetricTotals;

    open spec fn view(&self) -> MetricTotals {
        MetricTotals {
            exchanges: self.exchanges as nat,
            code_blocks: self.code_blocks as nat,
            questions_asked: self.questions_asked as nat,
            enthusiasm_markers: self.enthusiasm_markers as nat,
            confusion_markers: self.confusion_markers as nat,
            compaction_indicators: self.compaction_indicators as nat,
        }
    }
}

impl Default for AnalysisMetrics {
    fn default() -> (m: AnalysisMetrics)
        ensures
            m@ == MetricTotals::zero(),
    {
        AnalysisMetrics {
            exchanges: 0,
            code_blocks: 0,
            questions_asked: 0,
            enthusiasm_markers: 0,
            confusion_markers: 0,
            compaction_indicators: 0,
        }
    }
}

/// An exact fraction `num / den`. A mean is the sum of its terms over their
/// number.
#[derive(Clone, Copy, Debug, PartialEq, Eq, Hash, Structural)]
pub struct Ratio {
    pub num: u64,
    pub den: u64,
}

impl Ratio {
    /// Whether the fraction is strictly greater than the whole number `k`.
    pub open spec fn is_above(self, k: int) -> bool {
        self.num > k * self.den
    }

    /// Whether the fraction is strictly greater than `other`, both with a
    /// positive denominator.
    pub open spec fn is_greater(self, other: Ratio) -> bool {
        self.num * other.den > other.num * self.den
    }

    /// Tells whether the fraction is strictly greater than `k`.
    pub fn exceeds(&self, k: u8) -> (b: bool)
        ensures
            b == self.is_above(k as int),
    {
        assert(k * self.den <= 255 * u64::MAX) by (nonlinear_arith)
            requires
                k <= 255,
                self.den <= u64::MAX,
        ;
        let bound: u128 = (k as u128) * (self.den as u128);
        (self.num as u128) > bound
    }

    /// Tells whether the fraction is strictly greater than `other`.
    pub fn greater_than(&self, other: &Ratio) -> (b: bool)
        ensures
            b == self.is_greater(*other),
    {
        assert(self.num * other.den <= u64::MAX * u64::MAX) by (nonlinear_arith)
            requires
                self.num <= u64::MAX,
                other.den <= u64::MAX,
        ;
        assert(other.num * self.den <= u64::MAX * u64::MAX) by (nonlinear_arith)
            requires
                other.num <= u64::MAX,
                self.den <= u64::MAX,
        ;
        let left: u128 = (self.num as u128) * (other.den as u128);
        let right: u128 = (other.num as u128) * (self.den as u128);
        left > right
    }
}

/// The record of one logged session.
#[derive(Clone, Debug)]
pub struct SessionMetadata {
    /// Identifier, derived from the creation time.
    pub id: String,
    pub timestamp: Instant,
    pub project: String,
    pub methodology: Methodology,
    pub working_directory: String,
    pub command: String,
    /// Path of the transcript.
    pub log_file: String,
    /// Elapsed time in milliseconds, once the session has ended.
    pub duration: Option<i64>,
    pub end_time: Option<Instant>,
    pub features_worked_on: Vec<String>,
    /// Self-reported rating, 1 to 3.
    pub creative_energy: Option<u8>,
}

/// The sum of the ratings in `ratings`.
pub open spec fn rating_sum(ratings: Seq<u8>) -> nat
    decreases ratings.len(),
{
    if ratings.len() == 0 {
        0
    } else {
        rating_sum(ratings.drop_last()) + ratings.last() as nat
    }
}

/// The quotient of `a` by a positive `n`, rounded toward zero.
pub open spec fn quotient_toward_zero(a: int, n: int) -> int {
    if a >= 0 {
        a / n
    } else {
        -((-a) / n)
    }
}

/// The statistics of a group as mathematical values.
pub struct StatsModel {
    pub sessions: nat,
    pub total_duration: int,
    pub avg_duration: int,
    pub creative_energy: Seq<u8>,
    /// Sum and number of the ratings that the mean was last taken over.
    pub avg_energy: Option<(nat, nat)>,
    pub metrics: MetricTotals,
}

impl StatsModel {
    /// The statistics of no session.
    pub open spec fn empty() -> StatsModel {
        StatsModel {
            sessions: 0,
            total_duration: 0,
            avg_duration: 0,
            creative_energy: Seq::empty(),
            avg_energy: None,
            metrics: MetricTotals::zero(),
        }
    }

    /// The statistics after one more session with the given duration, rating
    /// and metrics. The mean duration is taken anew when the session has a
    /// duration, the mean rating when it has a rating.
    pub open spec fn with_session(
        self,
        duration: Option<i64>,
        energy: Option<u8>,
        metrics: MetricTotals,
    ) -> StatsModel {
        let sessions = self.sessions + 1;
        let total = match duration {
            Some(d) => self.total_duration + d,
            None => self.total_duration,
        };
        let ratings = match energy {
            Some(e) => self.creative_energy.push(e),
            None => self.creative_energy,
        };
        StatsModel {
            sessions,
            total_duration: total,
            avg_duration: if duration is Some {
                quotient_toward_zero(total, sessions as int)
            } else {
                self.avg_duration
            },
            creative_energy: ratings,
            avg_energy: if energy is Some {
                Some((rating_sum(ratings), ratings.len()))
            } else {
                self.avg_energy
            },
            metrics: self.metrics.plus(metrics),
        }
    }

    /// Whether every number fits the machine type that holds it.
    pub open spec fn fits(self) -> bool {
        &&& self.sessions <= usize::MAX
        &&& i128::MIN <= self.total_duration <= i128::MAX
        &&& rating_sum(self.creative_energy) <= u64::MAX
        &&& self.creative_energy.len() <= usize::MAX
        &&& self.metrics.fits()
    }
}

/// The running statistics of one methodology group.
#[derive(Clone, Debug)]
pub struct MethodologyStats {
    /// Sessions folded in.
    pub sessions: usize,
    /// Sum of the recorded durations, in milliseconds.
    pub total_duration: i128,
    /// `total_duration` over `sessions`, as of the last session that
    /// recorded a duration.
    pub avg_duration: i128,
    /// The ratings recorded, in the order of the sessions.
    pub creative_energy: Vec<u8>,
    /// The mean rating, as of the last session that recorded one.
    pub avg_energy: Option<Ratio>,
    /// Counter-wise totals.
    pub metrics: AnalysisMetrics,
}

impl View for MethodologyStats {
    type V = StatsModel;

    open spec fn view(&self) -> StatsModel {
        StatsModel {
            sessions: self.sessions as nat,
            total_duration: self.total_duration as int,
            avg_duration: self.avg_duration as int,
            creative_energy: self.creative_energy@,
            avg_energy: match self.avg_energy {
                Some(r) => Some((r.num as nat, r.den as nat)),
                None => None,
            },
            metrics: self.metrics@,
        }
    }
}

/// Divides `a` by `n`, rounding toward zero.
pub fn divide_toward_zero(a: i128, n: usize) -> (q: i128)
    requires
        n > 0,
    ensures
        q == quotient_toward_zero(a as int, n as int),
{
    if a >= 0 {
        let q: u128 = (a as u128) / (n as u128);
        q as i128
    } else if a == i128::MIN {
        let half: u128 = 0x8000_0000_0000_0000_0000_0000_0000_0000u128;
        let q: u128 = half / (n as u128);
        if q == half {
            i128::MIN
        } else {
            -(q as i128)
        }
    } else {
        let q: u128 = ((-a) as u128) / (n as u128);
        -(q as i128)
    }
}

/// Sums the ratings of `ratings`, or reports that the sum exceeds 64 bits.
pub fn sum_ratings(ratings: &Vec<u8>) -> (total: Option<u64>)
    ensures
        total is Some <==> rating_sum(ratings@) <= u64::MAX,
        total matches Some(t) ==> t as nat == rating_sum(ratings@),
{
    let mut sum: u64 = 0;
    let mut i: usize = 0;
    while i < ratings.len()
        invariant
            i <= ratings.len(),
            sum as nat == rating_sum(ratings@.take(i as int)),
        decreases ratings.len() - i,
    {
        proof {
            assert(ratings@.take(i + 1).drop_last() == ratings@.take(i as int));
            lemma_rating_sum_prefix(ratings@, i + 1);
        }
        if sum > u64::MAX - (ratings[i] as u64) {
            return None;
        }
        sum = sum + ratings[i] as u64;
        i = i + 1;
    }
    proof {
        assert(ratings@.take(ratings.len() as int) == ratings@);
    }
    Some(sum)
}

/// The ratings of a prefix sum to no more than all of them.
pub proof fn lemma_rating_sum_prefix(ratings: Seq<u8>, n: int)
    requires
        0 <= n <= ratings.len(),
    ensures
        rating_sum(ratings.take(n)) <= rating_sum(ratings),
    decreases ratings.len(),
{
    if n < ratings.len() {
        lemma_rating_sum_prefix(ratings.drop_last(), n);
        assert(ratings.drop_last().take(n) == ratings.take(n));
    } else {
        assert(ratings.take(n) == ratings);
    }
}

impl MethodologyStats {
    /// The statistics of no session.
    pub fn new() -> (stats: MethodologyStats)
        ensures
            stats@ == StatsModel::empty(),
    {
        MethodologyStats {
            sessions: 0,
            total_duration: 0,
            avg_duration: 0,
            creative_energy: Vec::new(),
            avg_energy: None,
            metrics: AnalysisMetrics::default(),
        }
    }

    /// Tells whether one more session with these values keeps every number
    /// within its machine type, so that `add_session` may be called.
    pub fn accepts(&self, session: &SessionMetadata, metrics: &AnalysisMetrics) -> (ok: bool)
        ensures
            ok == self@.with_session(session.duration, session.creative_energy, metrics@).fits(),
    {
        proof {
            if let Some(e) = session.creative_energy {
                assert(self.creative_energy@.push(e).drop_last() == self.creative_energy@);
            }
        }
        let base = sum_ratings(&self.creative_energy);
        if base.is_none() {
            return false;
        }
        let sum: u64 = base.unwrap();
        let rated: usize = self.creative_energy.len();
        if self.sessions == usize::MAX {
            return false;
        }
        if let Some(d) = session.duration {
            if d >= 0 && self.total_duration > i128::MAX - (d as i128) {
                return false;
            }
            if d < 0 && self.total_duration < i128::MIN - (d as i128) {
                return false;
            }
        }
        if let Some(e) = session.creative_energy {
            if sum > u64::MAX - (e as u64) || rated == usize::MAX {
                return false;
            }
        }
        let m = &self.metrics;
        m.exchanges <= usize::MAX - metrics.exchanges && m.code_blocks <= usize::MAX
            - metrics.code_blocks && m.questions_asked <= usize::MAX - metrics.questions_asked
            && m.enthusiasm_markers <= usize::MAX - metrics.enthusiasm_markers
            && m.confusion_markers <= usize::MAX - metrics.confusion_markers
            && m.compaction_indicators <= usize::MAX - metrics.compaction_indicators
    }

    /// Folds one session and its metrics into the statistics.
    pub fn add_session(&mut self, session: &SessionMetadata, metrics: AnalysisMetrics)
        requires
            old(self)@.with_session(session.duration, session.creative_energy, metrics@).fits(),
        ensures
            final(self)@ == old(self)@.with_session(
                session.duration,
                session.creative_energy,
                metrics@,
            ),
    {
        self.sessions = self.sessions + 1;
        if let Some(d) = session.duration {
            self.total_duration = self.total_duration + d as i128;
            self.avg_duration = divide_toward_zero(self.total_duration, self.sessions);
        }
        if let Some(e) = session.creative_energy {
            self.creative_energy.push(e);
            let total = sum_ratings(&self.creative_energy);
            let count: usize = self.creative_energy.len();
            self.avg_energy = Some(Ratio { num: total.unwrap(), den: count as u64 });
        }
        self.metrics.exchanges = self.metrics.exchanges + metrics.exchanges;
        self.metrics.code_blocks = self.metrics.code_blocks + metrics.code_blocks;
        self.metrics.questions_asked = self.metrics.questions_asked + metrics.questions_asked;
        self.metrics.enthusiasm_markers = self.metrics.enthusiasm_markers
            + metrics.enthusiasm_markers;
        self.metrics.confusion_markers = self.metrics.confusion_markers
            + metrics.confusion_markers;
        self.metrics.compaction_indicators = self.metrics.compaction_indicators
            + metrics.compaction_indicators;
    }
}

/// Whether no two records of `entries` share an identifier.
pub open spec fn distinct_ids(entries: Seq<SessionMetadata>) -> bool {
    forall|i: int, j: int|
        0 <= i < j < entries.len() ==> (#[trigger] entries[i]).id@ != (#[trigger] entries[j]).id@
}

/// Whether `entries` holds a record with the identifier `id`.
pub open spec fn holds_id(entries: Seq<SessionMetadata>, id: Seq<char>) -> bool {
    exists|i: int| 0 <= i < entries.len() && (#[trigger] entries[i]).id@ == id
}

/// The records of `entries` with methodology `m`, in their order.
pub open spec fn members_of(entries: Seq<SessionMetadata>, m: Methodology) -> Seq<SessionMetadata>
    decreases entries.len(),
{
    if entries.len() == 0 {
        Seq::empty()
    } else if entries.last().methodology == m {
        members_of(entries.drop_last(), m).push(entries.last())
    } else {
        members_of(entries.drop_last(), m)
    }
}

/// Whether `energy`, if given, is one of the ratings 1, 2, 3.
pub open spec fn is_valid_energy(energy: Option<u8>) -> bool {
    match energy {
        Some(e) => 1 <= e <= 3,
        None => true,
    }
}

/// `record` with the values that the end of its session supplies.
pub open spec fn finished(
    record: SessionMetadata,
    duration: i64,
    end_time: Instant,
    energy: Option<u8>,
) -> SessionMetadata {
    SessionMetadata {
        duration: Some(duration),
        end_time: Some(end_time),
        creative_energy: energy,
        ..record
    }
}

/// Why the store refused to record the end of a session.
#[derive(Clone, Copy, Debug, PartialEq, Eq, Hash, Structural)]
pub enum StoreError {
    /// The rating is none of 1, 2, 3.
    InvalidEnergy,
    /// No record has the identifier.
    SessionNotFound,
    /// The record already has a duration or an end time.
    AlreadyFinished,
}

/// The records of one store, split by methodology, each group in the order
/// of the store.
pub struct MethodologyGroups<'a> {
    pub context_driven: Vec<&'a SessionMetadata>,
    pub command_based: Vec<&'a SessionMetadata>,
    pub unknown: Vec<&'a SessionMetadata>,
}

/// Whether `group` refers to the records of `members`, one for one.
pub open spec fn refers_to(group: Seq<&SessionMetadata>, members: Seq<SessionMetadata>) -> bool {
    &&& group.len() == members.len()
    &&& forall|k: int| 0 <= k < group.len() ==> *(#[trigger] group[k]) == members[k]
}

/// All session records, unique by identifier, in the order in which their
/// identifiers were first inserted.
#[derive(Debug)]
pub struct SessionsMetadata {
    sessions: Vec<SessionMetadata>,
}

impl View for SessionsMetadata {
    type V = Seq<SessionMetadata>;

    closed spec fn view(&self) -> Seq<SessionMetadata> {
        self.sessions@
    }
}

impl SessionsMetadata {
    /// No identifier occurs twice.
    pub open spec fn wf(&self) -> bool {
        distinct_ids(self@)
    }

    /// The empty store.
    pub fn new() -> (store: SessionsMetadata)
        ensures
            store@ == Seq::<SessionMetadata>::empty(),
            store.wf(),
    {
        SessionsMetadata { sessions: Vec::new() }
    }

    /// The records in the order of the store.
    pub fn sessions(&self) -> (all: &Vec<SessionMetadata>)
        ensures
            all@ == self@,
    {
        &self.sessions
    }

    /// The position of the record with identifier `id`, if there is one.
    pub fn position(&self, id: &str) -> (at: Option<usize>)
        ensures
            at is Some <==> holds_id(self@, id@),
            at matches Some(i) ==> i < self@.len() && self@[i as int].id@ == id@,
    {
        let key: String = id.to_owned();
        let mut i: usize = 0;
        while i < self.sessions.len()
            invariant
                i <= self.sessions.len(),
                key@ == id@,
                forall|k: int| 0 <= k < i ==> (#[trigger] self@[k]).id@ != id@,
            decreases self.sessions.len() - i,
        {
            if self.sessions[i].id == key {
                return Some(i);
            }
            i = i + 1;
        }
        None
    }

    /// Inserts `session`; a record with the same identifier is replaced
    /// where it stands.
    pub fn add_session(&mut self, session: SessionMetadata)
        requires
            old(self).wf(),
        ensures
            final(self).wf(),
            !holds_id(old(self)@, session.id@) ==> final(self)@ == old(self)@.push(session),
            forall|i: int|
                0 <= i < old(self)@.len() && (#[trigger] old(self)@[i]).id@ == session.id@
                    ==> final(self)@ == old(self)@.update(i, session),
    {
        match self.position(session.id.as_str()) {
            Some(i) => {
                self.sessions.set(i, session);
            },
            None => {
                self.sessions.push(session);
            },
        }
    }

    /// The record with identifier `id`.
    pub fn get_session(&self, id: &str) -> (found: Option<&SessionMetadata>)
        ensures
            found is Some <==> holds_id(self@, id@),
            found matches Some(s) ==> s.id@ == id@ && exists|i: int|
                0 <= i < self@.len() && #[trigger] self@[i] == *s,
    {
        match self.position(id) {
            Some(i) => Some(&self.sessions[i]),
            None => None,
        }
    }

    /// Records the end of the session `id`: its duration, end time and
    /// rating. A rating outside 1 to 3 is refused first, then an unknown
    /// identifier, then a session that has ended before; the store is then
    /// left as it was.
    pub fn finish_session(
        &mut self,
        id: &str,
        duration: i64,
        end_time: Instant,
        energy: Option<u8>,
    ) -> (r: Result<(), StoreError>)
        requires
            old(self).wf(),
        ensures
            final(self).wf(),
            !is_valid_energy(energy) ==> r == Err::<(), StoreError>(StoreError::InvalidEnergy),
            is_valid_energy(energy) && !holds_id(old(self)@, id@) ==> r == Err::<(), StoreError>(
                StoreError::SessionNotFound,
            ),
            r is Err ==> final(self)@ == old(self)@,
            forall|i: int|
                is_valid_energy(energy) && 0 <= i < old(self)@.len() && (#[trigger] old(
                    self,
                )@[i]).id@ == id@ ==> {
                    let record = old(self)@[i];
                    if record.duration is Some || record.end_time is Some {
                        r == Err::<(), StoreError>(StoreError::AlreadyFinished)
                    } else {
                        r is Ok && final(self)@ == old(self)@.update(
                            i,
                            finished(record, duration, end_time, energy),
                        )
                    }
                },
    {
        if let Some(e) = energy {
            if e < 1 || e > 3 {
                return Err(StoreError::InvalidEnergy);
            }
        }
        match self.position(id) {
            None => Err(StoreError::SessionNotFound),
            Some(i) => {
                if self.sessions[i].duration.is_some() || self.sessions[i].end_time.is_some() {
                    return Err(StoreError::AlreadyFinished);
                }
                let mut record = self.sessions.remove(i);
                let ghost before = record;
                record.duration = Some(duration);
                record.end_time = Some(end_time);
                record.creative_energy = energy;
                self.sessions.insert(i, record);
                proof {
                    assert(self@ =~= old(self)@.update(
                        i as int,
                        finished(before, duration, end_time, energy),
                    ));
                }
                Ok(())
            },
        }
    }

    /// The records split by methodology.
    pub fn sessions_by_methodology(&self) -> (groups: MethodologyGroups<'_>)
        ensures
            refers_to(groups.context_driven@, members_of(self@, Methodology::ContextDriven)),
            refers_to(groups.command_based@, members_of(self@, Methodology::CommandBased)),
            refers_to(groups.unknown@, members_of(self@, Methodology::Unknown)),
    {
        let mut context_driven: Vec<&SessionMetadata> = Vec::new();
        let mut command_based: Vec<&SessionMetadata> = Vec::new();
        let mut unknown: Vec<&SessionMetadata> = Vec::new();
        let mut i: usize = 0;
        while i < self.sessions.len()
            invariant
                i <= self.sessions.len(),
                refers_to(
                    context_driven@,
                    members_of(self@.take(i as int), Methodology::ContextDriven),
                ),
                refers_to(
                    command_based@,
                    members_of(self@.take(i as int), Methodology::CommandBased),
                ),
                refers_to(unknown@, members_of(self@.take(i as int), Methodology::Unknown)),
            decreases self.sessions.len() - i,
        {
            proof {
                assert(self@.take(i + 1).drop_last() == self@.take(i as int));
            }
            let session = &self.sessions[i];
            match session.methodology {
                Methodology::ContextDriven => context_driven.push(session),
                Methodology::CommandBased => command_based.push(session),
                Methodology::Unknown => unknown.push(session),
            }
            i = i + 1;
        }
        proof {
            assert(self@.take(self@.len() as int) == self@);
        }
        MethodologyGroups { context_driven, command_based, unknown }
    }
}

impl Default for SessionsMetadata {
    fn default() -> (store: SessionsMetadata)
        ensures
            store@ == Seq::<SessionMetadata>::empty(),
            store.wf(),
    {
        SessionsMetadata::new()
    }
}

/// Inserting under a new identifier adds the record at the end: it is then
/// held, the store is one longer, and every record that was held is held
/// where it was.
pub proof fn lemma_insert_new(entries: Seq<SessionMetadata>, session: SessionMetadata)
    requires
        distinct_ids(entries),
        !holds_id(entries, session.id@),
    ensures
        distinct_ids(entries.push(session)),
        holds_id(entries.push(session), session.id@),
        entries.push(session).len() == entries.len() + 1,
        forall|i: int| 0 <= i < entries.len() ==> entries.push(session)[i] == entries[i],
{
    let after = entries.push(session);
    assert(after[entries.len() as int].id@ == session.id@);
    assert forall|i: int, j: int| 0 <= i < j < after.len() implies (#[trigger] after[i]).id@ != (
    #[trigger] after[j]).id@ by {
        if j == entries.len() {
            assert(entries[i].id@ != session.id@);
        } else {
            assert(entries[i].id@ != entries[j].id@);
        }
    }
}

/// Inserting under an identifier that is held overwrites that record and no
/// other: the store is as long as before and holds the same identifiers.
pub proof fn lemma_insert_held(entries: Seq<SessionMetadata>, session: SessionMetadata, at: int)
    requires
        distinct_ids(entries),
        0 <= at < entries.len(),
        entries[at].id@ == session.id@,
    ensures
        distinct_ids(entries.update(at, session)),
        entries.update(at, session).len() == entries.len(),
        entries.update(at, session)[at] == session,
        forall|i: int|
            0 <= i < entries.len() ==> (#[trigger] entries.update(at, session)[i]).id@
                == entries[i].id@,
        forall|i: int|
            0 <= i < entries.len() && i != at ==> entries.update(at, session)[i] == entries[i],
{
    let after = entries.update(at, session);
    assert forall|i: int, j: int| 0 <= i < j < after.len() implies (#[trigger] after[i]).id@ != (
    #[trigger] after[j]).id@ by {
        assert(entries[i].id@ != entries[j].id@);
    }
}

/// An identifier is held by at most one record: two that carry it are the
/// same record at the same place.
pub proof fn lemma_lookup_unique(entries: Seq<SessionMetadata>, i: int, j: int)
    requires
        distinct_ids(entries),
        0 <= i < entries.len(),
        0 <= j < entries.len(),
        entries[i].id@ == entries[j].id@,
    ensures
        i == j,
{
    if i < j {
        assert(entries[i].id@ != entries[j].id@);
    } else if j < i {
        assert(entries[j].id@ != entries[i].id@);
    }
}

} // verus!
