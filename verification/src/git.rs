//! The repository that keeps the transcripts, as far as the library knows
//! it: its place, and the message under which a session is committed.

use crate::session::{quotient_toward_zero, SessionMetadata};
use vstd::prelude::*;
use vstd::string::StringExecFns;

verus! {

/// The decimal digit `d` as text.
pub open spec fn digit_text(d: int) -> Seq<char> {
    if d == 0 {
        "0"@
    } else if d == 1 {
        "1"@
    } else if d == 2 {
        "2"@
    } else if d == 3 {
        "3"@
    } else if d == 4 {
        "4"@
    } else if d == 5 {
        "5"@
    } else if d == 6 {
        "6"@
    } else if d == 7 {
        "7"@
    } else if d == 8 {
        "8"@
    } else {
        "9"@
    }
}

/// The decimal numeral of `n`, without leading zeros.
pub open spec fn decimal_of(n: nat) -> Seq<char>
    decreases n,
{
    if n < 10 {
        digit_text(n as int)
    } else {
        decimal_of(n / 10) + digit_text((n % 10) as int)
    }
}

/// The decimal numeral of `n`, with a minus sign where it is negative.
pub open spec fn signed_decimal_of(n: int) -> Seq<char> {
    if n < 0 {
        "-"@ + decimal_of((-n) as nat)
    } else {
        decimal_of(n as nat)
    }
}

/// The whole minutes of a span of `millis` milliseconds, rounded toward
/// zero.
pub open spec fn whole_minutes(millis: int) -> int {
    quotient_toward_zero(millis, 60000)
}

/// The first `n` of `items`, separated by a comma and a space.
pub open spec fn joined(items: Seq<String>, n: int) -> Seq<char>
    decreases n,
{
    if n <= 0 {
        Seq::empty()
    } else if n == 1 {
        items[0]@
    } else {
        joined(items, n - 1) + ", "@ + items[n - 1]@
    }
}

/// The part of a commit message that gives the duration.
pub open spec fn duration_part(duration: Option<i64>) -> Seq<char> {
    match duration {
        Some(millis) => " | "@ + signed_decimal_of(whole_minutes(millis as int)) + "m"@,
        None => Seq::empty(),
    }
}

/// The part of a commit message that gives the creative energy.
pub open spec fn energy_part(energy: Option<u8>) -> Seq<char> {
    match energy {
        Some(e) => " | Energy: "@ + decimal_of(e as nat) + "/3"@,
        None => Seq::empty(),
    }
}

/// The part of a commit message that lists the features worked on.
pub open spec fn features_part(features: Seq<String>) -> Seq<char> {
    if features.len() == 0 {
        Seq::empty()
    } else {
        " | Features: "@ + joined(features, features.len() as int)
    }
}

/// The message under which `session` is committed: its identifier,
/// methodology and project, then its duration in minutes, its creative
/// energy and its features, each where it has one.
pub open spec fn commit_message_of(session: SessionMetadata) -> Seq<char> {
    "Session: "@ + session.id@ + " | "@ + session.methodology.label_of() + " | "@
        + session.project@ + duration_part(session.duration) + energy_part(
        session.creative_energy,
    ) + features_part(session.features_worked_on@)
}

/// The decimal digit `d` as text.
fn digit_str(d: u64) -> (s: &'static str)
    requires
        d < 10,
    ensures
        s@ == digit_text(d as int),
{
    if d == 0 {
        "0"
    } else if d == 1 {
        "1"
    } else if d == 2 {
        "2"
    } else if d == 3 {
        "3"
    } else if d == 4 {
        "4"
    } else if d == 5 {
        "5"
    } else if d == 6 {
        "6"
    } else if d == 7 {
        "7"
    } else if d == 8 {
        "8"
    } else {
        "9"
    }
}

/// Appends the decimal numeral of `n` to `text`.
pub fn append_decimal(text: &mut String, n: u64)
    ensures
        final(text)@ == old(text)@ + decimal_of(n as nat),
    decreases n,
{
    if n >= 10 {
        append_decimal(text, n / 10);
    }
    text.append(digit_str(n % 10));
    assert(text@ =~= old(text)@ + decimal_of(n as nat));
}

/// Appends the whole minutes of `millis` milliseconds to `text`.
pub fn append_minutes(text: &mut String, millis: i64)
    ensures
        final(text)@ == old(text)@ + signed_decimal_of(whole_minutes(millis as int)),
{
    let wide: i128 = millis as i128;
    let magnitude: u64 = if wide < 0 {
        (-wide) as u64
    } else {
        wide as u64
    };
    let minutes: u64 = magnitude / 60000;
    if millis < 0 && minutes > 0 {
        text.append("-");
    }
    append_decimal(text, minutes);
    assert(text@ =~= old(text)@ + signed_decimal_of(whole_minutes(millis as int)));
}

/// Appends `features`, separated by a comma and a space, to `text`.
pub fn append_joined(text: &mut String, features: &Vec<String>)
    ensures
        final(text)@ == old(text)@ + joined(features@, features@.len() as int),
{
    let mut i: usize = 0;
    while i < features.len()
        invariant
            i <= features.len(),
            text@ == old(text)@ + joined(features@, i as int),
        decreases features.len() - i,
    {
        if i > 0 {
            text.append(", ");
        }
        text.append(features[i].as_str());
        assert(text@ =~= old(text)@ + joined(features@, i + 1));
        i = i + 1;
    }
}

/// A transcript repository at a path.
#[derive(Clone, Debug)]
pub struct GitRepo {
    repo_path: String,
}

impl View for GitRepo {
    type V = Seq<char>;

    closed spec fn view(&self) -> Seq<char> {
        self.repo_path@
    }
}

impl GitRepo {
    /// The repository at `path`.
    pub fn at(path: &str) -> (repo: GitRepo)
        ensures
            repo@ == path@,
    {
        GitRepo { repo_path: path.to_owned() }
    }

    /// The path of the repository.
    pub fn repo_path(&self) -> (path: &str)
        ensures
            path@ == self@,
    {
        self.repo_path.as_str()
    }

    /// The message under which `session` is committed.
    pub fn generate_commit_message(&self, session: &SessionMetadata) -> (message: String)
        ensures
            message@ == commit_message_of(*session),
    {
        let mut message: String = "Session: ".to_owned();
        message.append(session.id.as_str());
        message.append(" | ");
        message.append(session.methodology.label());
        message.append(" | ");
        message.append(session.project.as_str());
        if let Some(millis) = session.duration {
            message.append(" | ");
            append_minutes(&mut message, millis);
            message.append("m");
        }
        let ghost timed = message@;
        assert(timed =~= "Session: "@ + session.id@ + " | "@ + session.methodology.label_of()
            + " | "@ + session.project@ + duration_part(session.duration));
        if let Some(e) = session.creative_energy {
            message.append(" | Energy: ");
            append_decimal(&mut message, e as u64);
            message.append("/3");
        }
        let ghost rated = message@;
        assert(rated =~= timed + energy_part(session.creative_energy));
        if session.features_worked_on.len() > 0 {
            message.append(" | Features: ");
            append_joined(&mut message, &session.features_worked_on);
        }
        assert(message@ =~= rated + features_part(session.features_worked_on@));
        message
    }
}

} // verus!
