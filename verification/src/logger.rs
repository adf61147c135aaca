//! What the logging front end decides from plain values: the methodology of
//! a project, the command line that was run, and a creative-energy rating
//! typed by the user.

use crate::calendar::{format_instant, formatted_time, is_formattable};
use crate::git::GitRepo;
use crate::session::{
    distinct_ids, finished, holds_id, is_valid_energy, Instant, Methodology, SessionMetadata,
    SessionsMetadata, StoreError,
};
use crate::text::{
    char_is_space, chars_of, contains_text, is_space, lowercase, lowercase_of, occurs_in,
};
use vstd::prelude::*;
use vstd::string::StringExecFns;

verus! {

/// The methodology that the configuration text `config` names: the
/// context-driven one where it is named, else the command-based one where
/// that is named, else none.
pub open spec fn methodology_of(config: Seq<char>) -> Methodology {
    if occurs_in(config, "Context-Driven"@) || occurs_in(config, "context-driven"@) {
        Methodology::ContextDriven
    } else if occurs_in(config, "Command-Based"@) || occurs_in(config, "command-based"@) {
        Methodology::CommandBased
    } else {
        Methodology::Unknown
    }
}

/// Classifies a project by the text of its configuration; a project without
/// one is unclassified.
pub fn detect_methodology(config: Option<&str>) -> (m: Methodology)
    ensures
        m == match config {
            Some(text) => methodology_of(text@),
            None => Methodology::Unknown,
        },
{
    match config {
        None => Methodology::Unknown,
        Some(text) => {
            let chars = chars_of(text);
            if contains_text(&chars, &chars_of("Context-Driven")) || contains_text(
                &chars,
                &chars_of("context-driven"),
            ) {
                Methodology::ContextDriven
            } else if contains_text(&chars, &chars_of("Command-Based")) || contains_text(
                &chars,
                &chars_of("command-based"),
            ) {
                Methodology::CommandBased
            } else {
                Methodology::Unknown
            }
        },
    }
}

/// The command line of `program` with the first `n` of `args`, each after a
/// space.
pub open spec fn command_of(program: Seq<char>, args: Seq<String>, n: int) -> Seq<char>
    decreases n,
{
    if n <= 0 {
        program
    } else {
        command_of(program, args, n - 1) + " "@ + args[n - 1]@
    }
}

/// The command line that runs `program` with `args`.
pub fn build_command(program: &str, args: &Vec<String>) -> (command: String)
    ensures
        command@ == command_of(program@, args@, args@.len() as int),
{
    let mut command: String = program.to_owned();
    let mut i: usize = 0;
    while i < args.len()
        invariant
            i <= args.len(),
            command@ == command_of(program@, args@, i as int),
        decreases args.len() - i,
    {
        command.append(" ");
        command.append(args[i].as_str());
        i = i + 1;
    }
    command
}

/// A rating was typed that is none of 1, 2, 3.
#[derive(Clone, Copy, Debug, PartialEq, Eq, Hash, Structural)]
pub struct InvalidEnergy;

/// Whether `text` is white space throughout.
pub open spec fn is_blank(text: Seq<char>) -> bool {
    forall|i: int| 0 <= i < text.len() ==> is_space(#[trigger] text[i])
}

/// Whether `a` and `b` bound what is left of `text` when the white space at
/// both ends is taken off.
pub open spec fn is_trimmed_range(text: Seq<char>, a: int, b: int) -> bool {
    &&& 0 <= a < b <= text.len()
    &&& !is_space(text[a])
    &&& !is_space(text[b - 1])
    &&& forall|i: int| 0 <= i < a ==> is_space(#[trigger] text[i])
    &&& forall|i: int| b <= i < text.len() ==> is_space(#[trigger] text[i])
}

/// `body` without a plus sign at its front.
pub open spec fn unsigned_part(body: Seq<char>) -> Seq<char> {
    if body.len() > 0 && body[0] == '+' {
        body.skip(1)
    } else {
        body
    }
}

/// Whether every character of `digits` but the last is a zero.
pub open spec fn zeros_lead(digits: Seq<char>) -> bool {
    forall|i: int| 0 <= i < digits.len() - 1 ==> (#[trigger] digits[i]) == '0'
}

/// The rating that `body` writes as a decimal number: an optional plus
/// sign, any number of zeros, and one of the digits 1, 2, 3.
pub open spec fn rating_of(body: Seq<char>) -> Option<u8> {
    let digits = unsigned_part(body);
    if digits.len() >= 1 && zeros_lead(digits) {
        if digits.last() == '1' {
            Some(1u8)
        } else if digits.last() == '2' {
            Some(2u8)
        } else if digits.last() == '3' {
            Some(3u8)
        } else {
            None
        }
    } else {
        None
    }
}

/// What a typed answer means, given what is left of it without the white
/// space at its ends.
pub open spec fn answer_of(body: Seq<char>) -> Result<Option<u8>, InvalidEnergy> {
    match rating_of(body) {
        Some(e) => Ok(Some(e)),
        None => Err(InvalidEnergy),
    }
}

/// Reads a creative-energy rating from a line that the user typed. A blank
/// line means that no rating is given; 1, 2 or 3, written as a decimal
/// number, is the rating; anything else is refused.
#[verifier::loop_isolation(false)]
pub fn parse_energy(input: &str) -> (r: Result<Option<u8>, InvalidEnergy>)
    ensures
        is_blank(input@) ==> r == Ok::<Option<u8>, InvalidEnergy>(None),
        forall|a: int, b: int|
            (#[trigger] is_trimmed_range(input@, a, b)) ==> r == answer_of(input@.subrange(a, b)),
{
    let chars = chars_of(input);
    let mut a: usize = 0;
    while a < chars.len() && char_is_space(chars[a])
        invariant
            a <= chars.len(),
            forall|i: int| 0 <= i < a ==> is_space(#[trigger] chars@[i]),
        decreases chars.len() - a,
    {
        a = a + 1;
    }
    if a == chars.len() {
        return Ok(None);
    }
    let mut b: usize = chars.len();
    while b > a + 1 && char_is_space(chars[b - 1])
        invariant
            a < b <= chars.len(),
            !is_space(chars@[a as int]),
            forall|i: int| b <= i < chars.len() ==> is_space(#[trigger] chars@[i]),
        decreases b,
    {
        b = b - 1;
    }
    proof {
        assert(is_trimmed_range(chars@, a as int, b as int));
        assert forall|x: int, y: int| (#[trigger] is_trimmed_range(chars@, x, y)) implies x == a
            && y == b by {
            if x < a {
                assert(is_space(chars@[x]));
            }
            if a < x {
                assert(is_space(chars@[a as int]));
            }
            if y < b {
                assert(is_space(chars@[b - 1]));
            }
            if b < y {
                assert(is_space(chars@[y - 1]));
            }
        }
    }
    let ghost body = chars@.subrange(a as int, b as int);
    let start: usize = if chars[a] == '+' {
        a + 1
    } else {
        a
    };
    let ghost digits = unsigned_part(body);
    proof {
        assert(digits =~= chars@.subrange(start as int, b as int));
    }
    if start >= b {
        return Err(InvalidEnergy);
    }
    let mut k: usize = start;
    while k < b - 1
        invariant
            start <= k <= b - 1,
            b <= chars.len(),
            digits == chars@.subrange(start as int, b as int),
            forall|i: int| 0 <= i < k - start ==> (#[trigger] digits[i]) == '0',
        decreases b - k,
    {
        if chars[k] != '0' {
            proof {
                assert(digits[k - start] == chars@[k as int]);
            }
            return Err(InvalidEnergy);
        }
        proof {
            assert(digits[k - start] == chars@[k as int]);
        }
        k = k + 1;
    }
    let last: char = chars[b - 1];
    proof {
        assert(digits.last() == last);
    }
    if last == '1' {
        Ok(Some(1))
    } else if last == '2' {
        Ok(Some(2))
    } else if last == '3' {
        Ok(Some(3))
    } else {
        Err(InvalidEnergy)
    }
}

/// The path of the transcript of session `id` in the directory `logs_dir`.
pub open spec fn log_path_of(logs_dir: Seq<char>, id: Seq<char>) -> Seq<char> {
    logs_dir + "/"@ + id + ".log"@
}

/// Whether `session` is the record of a session with identifier `id` that
/// starts at `timestamp` in the project `project` at `project_dir`, whose
/// configuration text is `config`, running `program` with `args` and
/// logging into `logs_dir`.
pub open spec fn is_new_session(
    session: SessionMetadata,
    id: Seq<char>,
    logs_dir: Seq<char>,
    timestamp: Instant,
    project: Seq<char>,
    project_dir: Seq<char>,
    config: Option<&str>,
    program: Seq<char>,
    args: Seq<String>,
) -> bool {
    &&& session.id@ == id
    &&& session.timestamp == timestamp
    &&& session.project@ == project
    &&& session.methodology == match config {
        Some(text) => methodology_of(text@),
        None => Methodology::Unknown,
    }
    &&& session.working_directory@ == project_dir
    &&& session.command@ == command_of(program, args, args.len() as int)
    &&& session.log_file@ == log_path_of(logs_dir, id)
    &&& session.duration is None
    &&& session.end_time is None
    &&& session.features_worked_on@.len() == 0
    &&& session.creative_energy is None
}

/// The record of a session with identifier `id` that starts at
/// `timestamp`, and the path of its transcript.
pub fn new_session(
    id: String,
    logs_dir: &str,
    timestamp: Instant,
    project: &str,
    project_dir: &str,
    config: Option<&str>,
    program: &str,
    args: &Vec<String>,
) -> (pair: (String, SessionMetadata))
    ensures
        pair.0@ == log_path_of(logs_dir@, id@),
        is_new_session(
            pair.1,
            id@,
            logs_dir@,
            timestamp,
            project@,
            project_dir@,
            config,
            program@,
            args@,
        ),
{
    let mut log_file: String = logs_dir.to_owned();
    log_file.append("/");
    log_file.append(id.as_str());
    log_file.append(".log");
    let session = SessionMetadata {
        id,
        timestamp,
        project: project.to_owned(),
        methodology: detect_methodology(config),
        working_directory: project_dir.to_owned(),
        command: build_command(program, args),
        log_file: log_file.clone(),
        duration: None,
        end_time: None,
        features_worked_on: Vec::new(),
        creative_energy: None,
    };
    (log_file, session)
}

/// The pattern of session identifiers: the UTC date and time to the second.
pub const SESSION_ID_PATTERN: &'static str = "%Y-%m-%d_%H-%M-%S";

/// Whether a session that starts at `timestamp` can be given an identifier.
pub open spec fn has_session_id(timestamp: Instant) -> bool {
    is_formattable(timestamp.secs as int, timestamp.nanos as int, SESSION_ID_PATTERN@)
}

/// The identifier of a session that starts at `timestamp`.
pub open spec fn session_id_of(timestamp: Instant) -> Seq<char> {
    formatted_time(timestamp.secs as int, timestamp.nanos as int, SESSION_ID_PATTERN@)
}

/// The record of a session that starts now, and the path of its
/// transcript. The identifier is the UTC date and time of `timestamp` to
/// the second. Fails where the calendar has no such point in time.
pub fn create_session_log(
    logs_dir: &str,
    timestamp: Instant,
    project: &str,
    project_dir: &str,
    config: Option<&str>,
    program: &str,
    args: &Vec<String>,
) -> (r: Option<(String, SessionMetadata)>)
    ensures
        r is Some <==> has_session_id(timestamp),
        r matches Some(pair) ==> pair.0@ == pair.1.log_file@ && is_new_session(
            pair.1,
            session_id_of(timestamp),
            logs_dir@,
            timestamp,
            project@,
            project_dir@,
            config,
            program@,
            args@,
        ),
{
    match format_instant(timestamp, SESSION_ID_PATTERN) {
        Some(id) => Some(
            new_session(id, logs_dir, timestamp, project, project_dir, config, program, args),
        ),
        None => None,
    }
}

/// The methodology that the lower-case word `word` names in a filter.
pub open spec fn methodology_named_by(word: Seq<char>) -> Option<Methodology> {
    if word == "context-driven"@ || word == "contextdriven"@ {
        Some(Methodology::ContextDriven)
    } else if word == "command-based"@ || word == "commandbased"@ {
        Some(Methodology::CommandBased)
    } else if word == "unknown"@ {
        Some(Methodology::Unknown)
    } else {
        None
    }
}

/// Tells whether `word` is the text `name`.
fn is_word(word: &String, name: &str) -> (b: bool)
    ensures
        b == (word@ == name@),
{
    let other: String = name.to_owned();
    *word == other
}

/// The methodology that the lower-case word `word` names in a filter.
pub fn methodology_named(word: &String) -> (m: Option<Methodology>)
    ensures
        m == methodology_named_by(word@),
{
    if is_word(word, "context-driven") || is_word(word, "contextdriven") {
        Some(Methodology::ContextDriven)
    } else if is_word(word, "command-based") || is_word(word, "commandbased") {
        Some(Methodology::CommandBased)
    } else if is_word(word, "unknown") {
        Some(Methodology::Unknown)
    } else {
        None
    }
}

/// The methodology that a filter asks for, whatever its case; `None` where
/// there is no filter or it names no methodology.
pub open spec fn filter_of(filter: Option<&str>) -> Option<Methodology> {
    match filter {
        Some(text) => methodology_named_by(lowercase_of(text@)),
        None => None,
    }
}

/// The methodology that a filter asks for.
pub fn parse_methodology_filter(filter: Option<&str>) -> (m: Option<Methodology>)
    ensures
        m == filter_of(filter),
{
    match filter {
        Some(text) => {
            let lower = lowercase(text);
            methodology_named(&lower)
        },
        None => None,
    }
}

/// Whether record `q` passes the filter.
pub open spec fn is_candidate(
    entries: Seq<SessionMetadata>,
    filter: Option<Methodology>,
    q: int,
) -> bool {
    0 <= q < entries.len() && (filter matches Some(m) ==> entries[q].methodology == m)
}

/// Whether record `x` is listed before record `y`: it is newer, or as old
/// and earlier in the store.
pub open spec fn ranks_before(entries: Seq<SessionMetadata>, x: int, y: int) -> bool {
    entries[y].timestamp.is_before(entries[x].timestamp) || (entries[x].timestamp
        == entries[y].timestamp && x < y)
}

/// Whether the positions `p` list the records that pass the filter, newest
/// first, up to `limit` of them: every position passes, each is listed
/// before the next, and a record that passes is left out only where the
/// limit is reached and all that are listed come before it.
pub open spec fn is_listing(
    entries: Seq<SessionMetadata>,
    filter: Option<Methodology>,
    limit: int,
    p: Seq<usize>,
) -> bool {
    &&& p.len() <= limit
    &&& forall|k: int| 0 <= k < p.len() ==> is_candidate(entries, filter, #[trigger] p[k] as int)
    &&& forall|i: int, j: int|
        0 <= i < j < p.len() ==> ranks_before(entries, #[trigger] p[i] as int, #[trigger] p[j] as int)
    &&& forall|q: int| #[trigger]
        is_candidate(entries, filter, q) ==> is_listed(p, q) || (p.len() == limit && all_before(
            entries,
            p,
            q,
        ))
}

/// Whether `q` is among the positions `p`.
pub open spec fn is_listed(p: Seq<usize>, q: int) -> bool {
    exists|k: int| 0 <= k < p.len() && #[trigger] p[k] == q
}

/// Whether every position of `p` is listed before `q`.
pub open spec fn all_before(entries: Seq<SessionMetadata>, p: Seq<usize>, q: int) -> bool {
    forall|k: int| 0 <= k < p.len() ==> ranks_before(entries, #[trigger] p[k] as int, q)
}

/// Tells whether record `x` is listed before record `y`.
fn comes_first(sessions: &Vec<SessionMetadata>, x: usize, y: usize) -> (b: bool)
    requires
        x < sessions@.len(),
        y < sessions@.len(),
    ensures
        b == ranks_before(sessions@, x as int, y as int),
{
    sessions[y].timestamp.before(&sessions[x].timestamp) || (sessions[x].timestamp
        == sessions[y].timestamp && x < y)
}

/// Tells whether record `q` passes the filter.
fn passes(sessions: &Vec<SessionMetadata>, filter: Option<Methodology>, q: usize) -> (b: bool)
    requires
        q < sessions@.len(),
    ensures
        b == is_candidate(sessions@, filter, q as int),
{
    match filter {
        Some(m) => sessions[q].methodology == m,
        None => true,
    }
}

/// Whether `q` may be listed next after the positions `p`.
pub open spec fn may_follow(entries: Seq<SessionMetadata>, p: Seq<usize>, q: int) -> bool {
    p.len() == 0 || ranks_before(entries, p.last() as int, q)
}

/// The record to list next after `p`: of those that pass the filter and may
/// follow, the one that is listed before the others.
fn next_listed(
    sessions: &Vec<SessionMetadata>,
    filter: Option<Methodology>,
    p: &Vec<usize>,
) -> (best: Option<usize>)
    requires
        forall|k: int| 0 <= k < p@.len() ==> (#[trigger] p@[k]) < sessions@.len(),
    ensures
        best matches Some(b) ==> is_candidate(sessions@, filter, b as int) && may_follow(
            sessions@,
            p@,
            b as int,
        ),
        forall|c: int|
            (#[trigger] is_candidate(sessions@, filter, c)) && may_follow(sessions@, p@, c)
                ==> best is Some && (c == best->0 || ranks_before(sessions@, best->0 as int, c)),
{
    let mut best: Option<usize> = None;
    let mut q: usize = 0;
    while q < sessions.len()
        invariant
            q <= sessions.len(),
            forall|k: int| 0 <= k < p@.len() ==> (#[trigger] p@[k]) < sessions@.len(),
            best matches Some(b) ==> b < q && is_candidate(sessions@, filter, b as int)
                && may_follow(sessions@, p@, b as int),
            forall|c: int|
                0 <= c < q && (#[trigger] is_candidate(sessions@, filter, c)) && may_follow(
                    sessions@,
                    p@,
                    c,
                ) ==> best is Some && (c == best->0 || ranks_before(
                    sessions@,
                    best->0 as int,
                    c,
                )),
        decreases sessions.len() - q,
    {
        let follows = p.len() == 0 || comes_first(sessions, p[p.len() - 1], q);
        if follows && passes(sessions, filter, q) {
            let better = match best {
                Some(b) => comes_first(sessions, q, b),
                None => true,
            };
            if better {
                best = Some(q);
            }
        }
        q = q + 1;
    }
    best
}

/// The positions of the records that pass the filter, newest first, up to
/// `limit` of them.
pub fn list_positions(
    sessions: &Vec<SessionMetadata>,
    filter: Option<Methodology>,
    limit: usize,
) -> (p: Vec<usize>)
    ensures
        is_listing(sessions@, filter, limit as int, p@),
{
    let mut p: Vec<usize> = Vec::new();
    let mut done: bool = false;
    while p.len() < limit && !done
        invariant
            p@.len() <= limit,
            forall|k: int|
                0 <= k < p@.len() ==> is_candidate(sessions@, filter, #[trigger] p@[k] as int),
            forall|i: int, j: int|
                0 <= i < j < p@.len() ==> ranks_before(
                    sessions@,
                    #[trigger] p@[i] as int,
                    #[trigger] p@[j] as int,
                ),
            forall|q: int|
                (#[trigger] is_candidate(sessions@, filter, q)) && !may_follow(sessions@, p@, q)
                    ==> is_listed(p@, q),
            done ==> forall|q: int| #[trigger]
                is_candidate(sessions@, filter, q) ==> is_listed(p@, q),
        decreases (if done { 0int } else { 1int }), limit - p@.len(),
    {
        let ghost before = p@;
        match next_listed(sessions, filter, &p) {
            None => {
                done = true;
                assert forall|q: int| #[trigger]
                    is_candidate(sessions@, filter, q) implies is_listed(p@, q) by {
                    assert(!may_follow(sessions@, p@, q));
                }
            },
            Some(b) => {
                p.push(b);
                assert forall|q: int|
                    (#[trigger] is_candidate(sessions@, filter, q)) && !may_follow(
                        sessions@,
                        p@,
                        q,
                    ) implies is_listed(p@, q) by {
                    if q == b {
                        assert(p@[p@.len() - 1] == q);
                    } else if may_follow(sessions@, before, q) {
                        assert(ranks_before(sessions@, b as int, q));
                    } else {
                        assert(is_listed(before, q));
                        let k = choose|k: int| 0 <= k < before.len() && #[trigger] before[k] == q;
                        assert(p@[k] == q);
                    }
                }
                assert forall|i: int, j: int| 0 <= i < j < p@.len() implies ranks_before(
                    sessions@,
                    #[trigger] p@[i] as int,
                    #[trigger] p@[j] as int,
                ) by {
                    if j == p@.len() - 1 {
                        if i < before.len() - 1 {
                            assert(ranks_before(
                                sessions@,
                                before[i] as int,
                                before[before.len() - 1] as int,
                            ));
                        }
                    } else {
                        assert(p@[i] == before[i] && p@[j] == before[j]);
                    }
                }
            },
        }
    }
    proof {
        assert forall|q: int| #[trigger] is_candidate(sessions@, filter, q) implies is_listed(
            p@,
            q,
        ) || (p@.len() == limit && all_before(sessions@, p@, q)) by {
            if !is_listed(p@, q) {
                assert(may_follow(sessions@, p@, q));
                assert forall|k: int| 0 <= k < p@.len() implies ranks_before(
                    sessions@,
                    #[trigger] p@[k] as int,
                    q,
                ) by {
                    if k < p@.len() - 1 {
                        assert(ranks_before(sessions@, p@[k] as int, p@[p@.len() - 1] as int));
                    }
                }
            }
        }
    }
    p
}

/// Whether `listed` refers to the records at the positions `p`.
pub open spec fn lists(
    listed: Seq<&SessionMetadata>,
    entries: Seq<SessionMetadata>,
    p: Seq<usize>,
) -> bool {
    &&& listed.len() == p.len()
    &&& forall|k: int|
        0 <= k < p.len() ==> 0 <= (#[trigger] p[k]) < entries.len() && *listed[k] == entries[p[k] as int]
}

/// The sessions of `store` that pass the filter, newest first, up to
/// `limit` of them. A filter that names no methodology lets every session
/// pass; sessions of the same instant keep the order of the store.
pub fn list_sessions<'a>(
    store: &'a SessionsMetadata,
    methodology_filter: Option<&str>,
    limit: usize,
) -> (listed: Vec<&'a SessionMetadata>)
    ensures
        exists|p: Seq<usize>|
            is_listing(store@, filter_of(methodology_filter), limit as int, p) && #[trigger] lists(
                listed@,
                store@,
                p,
            ),
{
    let filter = parse_methodology_filter(methodology_filter);
    let sessions = store.sessions();
    let positions = list_positions(sessions, filter, limit);
    let mut listed: Vec<&SessionMetadata> = Vec::new();
    let mut k: usize = 0;
    while k < positions.len()
        invariant
            k <= positions.len(),
            sessions@ == store@,
            is_listing(sessions@, filter, limit as int, positions@),
            listed@.len() == k,
            forall|i: int|
                0 <= i < k ==> 0 <= (#[trigger] positions@[i]) < sessions@.len() && *listed@[i]
                    == sessions@[positions@[i] as int],
        decreases positions.len() - k,
    {
        let at: usize = positions[k];
        assert(is_candidate(sessions@, filter, positions@[k as int] as int));
        listed.push(&sessions[at]);
        k = k + 1;
    }
    proof {
        assert(lists(listed@, store@, positions@));
    }
    listed
}

/// The session store of one log directory, with the repository that keeps
/// its transcripts.
pub struct ClaudeLogger {
    logs_dir: String,
    metadata_file: String,
    metadata: SessionsMetadata,
    git_repo: GitRepo,
}

impl View for ClaudeLogger {
    type V = Seq<SessionMetadata>;

    closed spec fn view(&self) -> Seq<SessionMetadata> {
        self.metadata@
    }
}

impl ClaudeLogger {
    /// The directory that holds the transcripts.
    pub closed spec fn logs_dir_of(&self) -> Seq<char> {
        self.logs_dir@
    }

    /// The path of the file that holds the records.
    pub closed spec fn metadata_file_of(&self) -> Seq<char> {
        self.metadata_file@
    }

    /// No identifier occurs twice among the records.
    pub open spec fn wf(&self) -> bool {
        distinct_ids(self@)
    }

    /// A logger over the records `metadata`, which were loaded from
    /// `metadata_file`, with transcripts in `logs_dir` and `git_repo` to
    /// commit them to.
    pub fn with_parts(
        logs_dir: &str,
        metadata_file: &str,
        metadata: SessionsMetadata,
        git_repo: GitRepo,
    ) -> (logger: ClaudeLogger)
        requires
            metadata.wf(),
        ensures
            logger@ == metadata@,
            logger.wf(),
            logger.logs_dir_of() == logs_dir@,
            logger.metadata_file_of() == metadata_file@,
    {
        ClaudeLogger {
            logs_dir: logs_dir.to_owned(),
            metadata_file: metadata_file.to_owned(),
            metadata,
            git_repo,
        }
    }

    /// The directory that holds the transcripts.
    pub fn logs_dir(&self) -> (dir: &str)
        ensures
            dir@ == self.logs_dir_of(),
    {
        self.logs_dir.as_str()
    }

    /// The path of the file that holds the records.
    pub fn metadata_file(&self) -> (path: &str)
        ensures
            path@ == self.metadata_file_of(),
    {
        self.metadata_file.as_str()
    }

    /// The record of a session that starts at `timestamp`, and the path of
    /// its transcript in the log directory.
    pub fn create_session_log(
        &self,
        timestamp: Instant,
        project: &str,
        project_dir: &str,
        config: Option<&str>,
        program: &str,
        args: &Vec<String>,
    ) -> (r: Option<(String, SessionMetadata)>)
        ensures
            r is Some <==> has_session_id(timestamp),
            r matches Some(pair) ==> pair.0@ == pair.1.log_file@ && is_new_session(
                pair.1,
                session_id_of(timestamp),
                self.logs_dir_of(),
                timestamp,
                project@,
                project_dir@,
                config,
                program@,
                args@,
            ),
    {
        create_session_log(
            self.logs_dir.as_str(),
            timestamp,
            project,
            project_dir,
            config,
            program,
            args,
        )
    }

    /// Reads a creative-energy rating from a line that the user typed.
    pub fn get_creative_energy(input: &str) -> (r: Result<Option<u8>, InvalidEnergy>)
        ensures
            is_blank(input@) ==> r == Ok::<Option<u8>, InvalidEnergy>(None),
            forall|a: int, b: int|
                (#[trigger] is_trimmed_range(input@, a, b)) ==> r == answer_of(
                    input@.subrange(a, b),
                ),
    {
        parse_energy(input)
    }

    /// Records a session that has ended: fills in its duration, end time
    /// and rating, and inserts it. A rating outside 1 to 3 is refused and
    /// the store left as it was.
    pub fn complete_session(
        &mut self,
        session: SessionMetadata,
        duration: i64,
        end_time: Instant,
        energy: Option<u8>,
    ) -> (r: Result<(), StoreError>)
        requires
            old(self).wf(),
        ensures
            final(self).wf(),
            final(self).logs_dir_of() == old(self).logs_dir_of(),
            final(self).metadata_file_of() == old(self).metadata_file_of(),
            r is Ok <==> is_valid_energy(energy),
            r is Err ==> r == Err::<(), StoreError>(StoreError::InvalidEnergy) && final(self)@
                == old(self)@,
            r is Ok && !holds_id(old(self)@, session.id@) ==> final(self)@ == old(self)@.push(
                finished(session, duration, end_time, energy),
            ),
            forall|i: int|
                r is Ok && 0 <= i < old(self)@.len() && (#[trigger] old(self)@[i]).id@
                    == session.id@ ==> final(self)@ == old(self)@.update(
                    i,
                    finished(session, duration, end_time, energy),
                ),
    {
        if let Some(e) = energy {
            if e < 1 || e > 3 {
                return Err(StoreError::InvalidEnergy);
            }
        }
        let mut record = session;
        record.duration = Some(duration);
        record.end_time = Some(end_time);
        record.creative_energy = energy;
        self.metadata.add_session(record);
        Ok(())
    }

    /// The record with identifier `session_id`.
    pub fn get_session(&self, session_id: &str) -> (found: Option<&SessionMetadata>)
        ensures
            found is Some <==> holds_id(self@, session_id@),
            found matches Some(s) ==> s.id@ == session_id@ && exists|i: int|
                0 <= i < self@.len() && #[trigger] self@[i] == *s,
    {
        let found = self.metadata.get_session(session_id);
        proof {
            assert(self@ == self.metadata@);
            if let Some(s) = found {
                let i = choose|i: int|
                    0 <= i < self.metadata@.len() && #[trigger] self.metadata@[i] == *s;
                assert(self@[i] == *s);
            }
        }
        found
    }

    /// The sessions that pass the filter, newest first, up to `limit` of
    /// them.
    pub fn list_sessions(&self, methodology_filter: Option<&str>, limit: usize) -> (listed: Vec<
        &SessionMetadata,
    >)
        ensures
            exists|p: Seq<usize>|
                is_listing(self@, filter_of(methodology_filter), limit as int, p)
                    && #[trigger] lists(listed@, self@, p),
    {
        let listed = list_sessions(&self.metadata, methodology_filter, limit);
        proof {
            assert(self@ == self.metadata@);
            let p = choose|p: Seq<usize>|
                is_listing(self.metadata@, filter_of(methodology_filter), limit as int, p)
                    && #[trigger] lists(listed@, self.metadata@, p);
            assert(lists(listed@, self@, p));
        }
        listed
    }

    /// The store.
    pub fn metadata(&self) -> (store: &SessionsMetadata)
        ensures
            store@ == self@,
    {
        &self.metadata
    }

    /// Inserts `session`; a record with the same identifier is replaced
    /// where it stands.
    pub fn add_session(&mut self, session: SessionMetadata)
        requires
            old(self).wf(),
        ensures
            final(self).wf(),
            final(self).logs_dir_of() == old(self).logs_dir_of(),
            final(self).metadata_file_of() == old(self).metadata_file_of(),
            !holds_id(old(self)@, session.id@) ==> final(self)@ == old(self)@.push(session),
            forall|i: int|
                0 <= i < old(self)@.len() && (#[trigger] old(self)@[i]).id@ == session.id@
                    ==> final(self)@ == old(self)@.update(i, session),
    {
        self.metadata.add_session(session);
    }

    /// The repository that keeps the transcripts.
    pub fn git_repo(&self) -> (repo: &GitRepo)
        ensures
            repo@ == self.repo_path_of(),
    {
        &self.git_repo
    }

    /// The path of the repository.
    pub closed spec fn repo_path_of(&self) -> Seq<char> {
        self.git_repo@
    }
}

} // verus!
