//! Character-level work on text: line starts, turn markers, question marks
//! outside fenced code, substrings and lower case.
//!
//! A transcript is modelled as its sequence of characters. A line ends at a
//! line feed; a carriage return before it belongs to the line and changes
//! nothing that is counted here.

use vstd::prelude::*;

verus! {

/// The characters of `s`, in order, as a vector that can be indexed in
/// constant time.
pub fn chars_of(s: &str) -> (v: Vec<char>)
    ensures
        v@ == s@,
{
    let mut v: Vec<char> = Vec::new();
    for c in it: s.chars()
        invariant
            v@ == it.seq().take(it.index()),
            it.seq() == s@,
    {
        v.push(c);
    }
    v
}

/// Unicode white space: what may stand before a fence marker on its line.
pub open spec fn is_space(c: char) -> bool {
    let u = c as u32;
    ||| 0x09 <= u <= 0x0D
    ||| u == 0x20
    ||| u == 0x85
    ||| u == 0xA0
    ||| u == 0x1680
    ||| 0x2000 <= u <= 0x200A
    ||| u == 0x2028
    ||| u == 0x2029
    ||| u == 0x202F
    ||| u == 0x205F
    ||| u == 0x3000
}

/// Tells whether `c` is Unicode white space.
pub(crate) fn char_is_space(c: char) -> (b: bool)
    ensures
        b == is_space(c),
{
    let u: u32 = c as u32;
    (0x09 <= u && u <= 0x0D) || u == 0x20 || u == 0x85 || u == 0xA0 || u == 0x1680 || (0x2000 <= u
        && u <= 0x200A) || u == 0x2028 || u == 0x2029 || u == 0x202F || u == 0x205F || u == 0x3000
}

/// How much of the current line has been read, as far as fences care.
#[derive(Clone, Copy, Debug, PartialEq, Eq, Structural)]
pub enum LinePhase {
    /// Only white space so far.
    Leading,
    /// White space, then one backtick.
    OneTick,
    /// White space, then two backticks.
    TwoTicks,
    /// White space, then three backticks: the line is a fence.
    Fence,
    /// Anything else: an ordinary line.
    Plain,
}

/// The state of the question scan after a prefix of the transcript.
pub struct QuestionScan {
    /// Whether an odd number of fence lines has been seen.
    pub in_block: bool,
    /// Where the scan stands in the current line.
    pub phase: LinePhase,
    /// Question marks counted so far.
    pub count: nat,
}

/// The phase after reading `c` in phase `phase`.
pub open spec fn next_phase(phase: LinePhase, c: char) -> LinePhase {
    if c == '\n' {
        LinePhase::Leading
    } else {
        match phase {
            LinePhase::Leading => if is_space(c) {
                LinePhase::Leading
            } else if c == '`' {
                LinePhase::OneTick
            } else {
                LinePhase::Plain
            },
            LinePhase::OneTick => if c == '`' {
                LinePhase::TwoTicks
            } else {
                LinePhase::Plain
            },
            LinePhase::TwoTicks => if c == '`' {
                LinePhase::Fence
            } else {
                LinePhase::Plain
            },
            LinePhase::Fence => LinePhase::Fence,
            LinePhase::Plain => LinePhase::Plain,
        }
    }
}

/// Whether reading `c` in phase `phase` completes a fence marker.
pub open spec fn completes_fence(phase: LinePhase, c: char) -> bool {
    phase == LinePhase::TwoTicks && c == '`'
}

/// Whether a `c` read in state `s` is a question mark that counts: it stands
/// on a line that is no fence, outside any fenced region.
pub open spec fn counts_as_question(s: QuestionScan, c: char) -> bool {
    c == '?' && !s.in_block && s.phase != LinePhase::Fence
}

/// One step of the question scan. A fence line flips `in_block` as soon as
/// its third backtick is read; nothing on a fence line can have been counted
/// before that, since only white space may precede the marker.
pub open spec fn scan_step(s: QuestionScan, c: char) -> QuestionScan {
    QuestionScan {
        in_block: if completes_fence(s.phase, c) {
            !s.in_block
        } else {
            s.in_block
        },
        phase: next_phase(s.phase, c),
        count: if counts_as_question(s, c) {
            s.count + 1
        } else {
            s.count
        },
    }
}

/// The scan's state after the whole of `text`.
pub open spec fn scan_questions(text: Seq<char>) -> QuestionScan
    decreases text.len(),
{
    if text.len() == 0 {
        QuestionScan { in_block: false, phase: LinePhase::Leading, count: 0 }
    } else {
        scan_step(scan_questions(text.drop_last()), text.last())
    }
}

/// The number of question marks in `text` that stand outside fenced code:
/// lines whose first non-blank characters are three backticks open and close
/// a fenced region in turn, and neither those lines nor the lines of an open
/// region are counted. An unclosed region runs to the end.
pub open spec fn question_count(text: Seq<char>) -> nat {
    scan_questions(text).count
}

/// The number of occurrences of `c` in `text`.
pub open spec fn occurrences(text: Seq<char>, c: char) -> nat
    decreases text.len(),
{
    if text.len() == 0 {
        0
    } else {
        occurrences(text.drop_last(), c) + if text.last() == c {
            1nat
        } else {
            0nat
        }
    }
}

/// The phase after reading `c` in phase `phase`.
fn advance_phase(phase: LinePhase, c: char) -> (next: LinePhase)
    ensures
        next == next_phase(phase, c),
{
    if c == '\n' {
        LinePhase::Leading
    } else {
        match phase {
            LinePhase::Leading => if char_is_space(c) {
                LinePhase::Leading
            } else if c == '`' {
                LinePhase::OneTick
            } else {
                LinePhase::Plain
            },
            LinePhase::OneTick => if c == '`' {
                LinePhase::TwoTicks
            } else {
                LinePhase::Plain
            },
            LinePhase::TwoTicks => if c == '`' {
                LinePhase::Fence
            } else {
                LinePhase::Plain
            },
            LinePhase::Fence => LinePhase::Fence,
            LinePhase::Plain => LinePhase::Plain,
        }
    }
}

/// Counts the question marks of `text` outside fenced code, in one pass.
pub fn count_questions(text: &Vec<char>) -> (n: usize)
    ensures
        n as nat == question_count(text@),
{
    let mut in_block: bool = false;
    let mut phase: LinePhase = LinePhase::Leading;
    let mut count: usize = 0;
    let mut i: usize = 0;
    while i < text.len()
        invariant
            i <= text.len(),
            count <= i,
            scan_questions(text@.take(i as int)) == (QuestionScan {
                in_block,
                phase,
                count: count as nat,
            }),
        decreases text.len() - i,
    {
        let c: char = text[i];
        proof {
            assert(text@.take(i + 1).drop_last() == text@.take(i as int));
            assert(text@.take(i + 1).last() == c);
        }
        if c == '?' && !in_block && phase != LinePhase::Fence {
            count = count + 1;
        }
        if phase == LinePhase::TwoTicks && c == '`' {
            in_block = !in_block;
        }
        phase = advance_phase(phase, c);
        i = i + 1;
    }
    proof {
        assert(text@.take(text.len() as int) == text@);
    }
    count
}

/// The marker that opens a turn of the user.
pub open spec fn human_marker() -> Seq<char> {
    seq!['H', 'u', 'm', 'a', 'n', ':']
}

/// The marker that opens a turn of the assistant.
pub open spec fn assistant_marker() -> Seq<char> {
    seq!['A', 's', 's', 'i', 's', 't', 'a', 'n', 't', ':']
}

/// Whether `marker` stands in `text` at position `at`.
pub open spec fn has_prefix_at(text: Seq<char>, at: int, marker: Seq<char>) -> bool {
    &&& 0 <= at
    &&& at + marker.len() <= text.len()
    &&& text.subrange(at, at + marker.len()) == marker
}

/// Whether a line begins at position `at` of `text`.
pub open spec fn is_line_start(text: Seq<char>, at: int) -> bool {
    0 <= at < text.len() && (at == 0 || text[at - 1] == '\n')
}

/// Whether a turn opens at position `at`: a line begins there with one of the
/// two role markers.
pub open spec fn opens_turn(text: Seq<char>, at: int) -> bool {
    is_line_start(text, at) && (has_prefix_at(text, at, human_marker()) || has_prefix_at(
        text,
        at,
        assistant_marker(),
    ))
}

/// The number of positions below `n` at which a turn opens.
pub open spec fn turns_before(text: Seq<char>, n: int) -> nat
    decreases n,
{
    if n <= 0 {
        0
    } else {
        turns_before(text, n - 1) + if opens_turn(text, n - 1) {
            1nat
        } else {
            0nat
        }
    }
}

/// The number of turn boundaries in `text`: lines that begin with a role
/// marker.
pub open spec fn exchange_count(text: Seq<char>) -> nat {
    turns_before(text, text.len() as int)
}

/// Tells whether `marker` stands in `text` at position `at`.
pub fn starts_with_at(text: &Vec<char>, at: usize, marker: &Vec<char>) -> (b: bool)
    ensures
        b == has_prefix_at(text@, at as int, marker@),
{
    if at > text.len() || marker.len() > text.len() - at {
        return false;
    }
    let mut k: usize = 0;
    while k < marker.len()
        invariant
            k <= marker.len(),
            at + marker.len() <= text.len(),
            forall|j: int| 0 <= j < k ==> text@[at + j] == marker@[j],
        decreases marker.len() - k,
    {
        if text[at + k] != marker[k] {
            proof {
                assert(text@.subrange(at as int, at + marker.len())[k as int] == text@[at + k]);
            }
            return false;
        }
        k = k + 1;
    }
    proof {
        assert(text@.subrange(at as int, at + marker.len()) =~= marker@);
    }
    true
}

/// The user's role marker as characters.
fn human_marker_chars() -> (v: Vec<char>)
    ensures
        v@ == human_marker(),
{
    let mut v: Vec<char> = Vec::new();
    v.push('H');
    v.push('u');
    v.push('m');
    v.push('a');
    v.push('n');
    v.push(':');
    proof {
        assert(v@ =~= human_marker());
    }
    v
}

/// The assistant's role marker as characters.
fn assistant_marker_chars() -> (v: Vec<char>)
    ensures
        v@ == assistant_marker(),
{
    let mut v: Vec<char> = Vec::new();
    v.push('A');
    v.push('s');
    v.push('s');
    v.push('i');
    v.push('s');
    v.push('t');
    v.push('a');
    v.push('n');
    v.push('t');
    v.push(':');
    proof {
        assert(v@ =~= assistant_marker());
    }
    v
}

/// Counts the lines of `text` that begin with a role marker.
pub fn count_exchanges(text: &Vec<char>) -> (n: usize)
    ensures
        n as nat == exchange_count(text@),
{
    let human = human_marker_chars();
    let assistant = assistant_marker_chars();
    let mut count: usize = 0;
    let mut i: usize = 0;
    while i < text.len()
        invariant
            i <= text.len(),
            count <= i,
            count as nat == turns_before(text@, i as int),
            human@ == human_marker(),
            assistant@ == assistant_marker(),
        decreases text.len() - i,
    {
        if i == 0 || text[i - 1] == '\n' {
            if starts_with_at(text, i, &human) || starts_with_at(text, i, &assistant) {
                count = count + 1;
            }
        }
        i = i + 1;
    }
    count
}

/// Every question mark counts where the transcript holds no backtick.
pub proof fn lemma_questions_without_fences(text: Seq<char>)
    requires
        occurrences(text, '`') == 0,
    ensures
        question_count(text) == occurrences(text, '?'),
        !scan_questions(text).in_block,
        scan_questions(text).phase == LinePhase::Leading || scan_questions(text).phase
            == LinePhase::Plain,
    decreases text.len(),
{
    if text.len() > 0 {
        lemma_questions_without_fences(text.drop_last());
    }
}

/// Reading on inside a fenced region, or on a fence line, counts nothing;
/// reading on anywhere never lowers the count.
pub proof fn lemma_question_count_step(text: Seq<char>, c: char)
    ensures
        question_count(text.push(c)) >= question_count(text),
        scan_questions(text).in_block || scan_questions(text).phase == LinePhase::Fence
            ==> question_count(text.push(c)) == question_count(text),
{
    assert(text.push(c).drop_last() == text);
}

/// A turn that opens in a transcript still opens there when the transcript
/// goes on.
pub proof fn lemma_turn_stays_open(text: Seq<char>, c: char, at: int)
    requires
        opens_turn(text, at),
    ensures
        opens_turn(text.push(c), at),
{
    let longer = text.push(c);
    if has_prefix_at(text, at, human_marker()) {
        assert(longer.subrange(at, at + human_marker().len()) =~= text.subrange(
            at,
            at + human_marker().len(),
        ));
    } else {
        assert(longer.subrange(at, at + assistant_marker().len()) =~= text.subrange(
            at,
            at + assistant_marker().len(),
        ));
    }
}

/// Reading on never lowers the number of turns among the first `n`
/// positions.
pub proof fn lemma_turns_grow(text: Seq<char>, c: char, n: int)
    requires
        n <= text.len(),
    ensures
        turns_before(text.push(c), n) >= turns_before(text, n),
    decreases n,
{
    if n > 0 {
        lemma_turns_grow(text, c, n - 1);
        if opens_turn(text, n - 1) {
            lemma_turn_stays_open(text, c, n - 1);
        }
    }
}

/// Reading on never lowers the exchange count.
pub proof fn lemma_exchange_count_step(text: Seq<char>, c: char)
    ensures
        exchange_count(text.push(c)) >= exchange_count(text),
{
    lemma_turns_grow(text, c, text.len() as int);
}

/// Whether `c` occurs nowhere in `text`.
pub open spec fn is_free_of(text: Seq<char>, c: char) -> bool {
    forall|i: int| 0 <= i < text.len() ==> (#[trigger] text[i]) != c
}

/// Whether `text` is white space throughout.
pub open spec fn is_all_space(text: Seq<char>) -> bool {
    forall|i: int| 0 <= i < text.len() ==> is_space(#[trigger] text[i])
}

/// Three backticks.
pub open spec fn fence_marker() -> Seq<char> {
    seq!['`', '`', '`']
}

/// Reading part of an ordinary line: where the scan stands in a line that
/// is no fence and has shown no backtick, and `part` holds neither a
/// backtick nor a line feed, the question marks of `part` are counted
/// outside a fenced region and passed over inside one, and the region stays
/// as it is.
pub proof fn lemma_plain_part(text: Seq<char>, part: Seq<char>)
    requires
        scan_questions(text).phase == LinePhase::Leading || scan_questions(text).phase
            == LinePhase::Plain,
        is_free_of(part, '`'),
        is_free_of(part, '\n'),
    ensures
        scan_questions(text + part).in_block == scan_questions(text).in_block,
        scan_questions(text + part).phase == LinePhase::Leading || scan_questions(
            text + part,
        ).phase == LinePhase::Plain,
        scan_questions(text + part).count == scan_questions(text).count + if scan_questions(
            text,
        ).in_block {
            0
        } else {
            occurrences(part, '?')
        },
    decreases part.len(),
{
    if part.len() == 0 {
        assert(text + part =~= text);
    } else {
        let shorter = part.drop_last();
        assert(is_free_of(shorter, '`')) by {
            assert forall|i: int| 0 <= i < shorter.len() implies (#[trigger] shorter[i])
                != '`' by {
                assert(shorter[i] == part[i]);
            }
        }
        assert(is_free_of(shorter, '\n')) by {
            assert forall|i: int| 0 <= i < shorter.len() implies (#[trigger] shorter[i])
                != '\n' by {
                assert(shorter[i] == part[i]);
            }
        }
        lemma_plain_part(text, shorter);
        assert((text + part).drop_last() =~= text + shorter);
        assert((text + part).last() == part.last());
        assert(part[part.len() - 1] != '`');
        assert(part[part.len() - 1] != '\n');
    }
}

/// Reading the rest of a fence line: once the line is a fence, nothing up
/// to its line feed is counted or changes the region.
pub proof fn lemma_fence_rest(text: Seq<char>, rest: Seq<char>)
    requires
        scan_questions(text).phase == LinePhase::Fence,
        is_free_of(rest, '\n'),
    ensures
        scan_questions(text + rest).in_block == scan_questions(text).in_block,
        scan_questions(text + rest).phase == LinePhase::Fence,
        scan_questions(text + rest).count == scan_questions(text).count,
    decreases rest.len(),
{
    if rest.len() == 0 {
        assert(text + rest =~= text);
    } else {
        let shorter = rest.drop_last();
        assert(is_free_of(shorter, '\n')) by {
            assert forall|i: int| 0 <= i < shorter.len() implies (#[trigger] shorter[i])
                != '\n' by {
                assert(shorter[i] == rest[i]);
            }
        }
        lemma_fence_rest(text, shorter);
        assert((text + rest).drop_last() =~= text + shorter);
        assert((text + rest).last() == rest.last());
        assert(rest[rest.len() - 1] != '\n');
    }
}

/// Reading the white space at the start of a line leaves the scan at the
/// start of the line.
pub proof fn lemma_leading_space(text: Seq<char>, lead: Seq<char>)
    requires
        scan_questions(text).phase == LinePhase::Leading,
        is_all_space(lead),
    ensures
        scan_questions(text + lead).in_block == scan_questions(text).in_block,
        scan_questions(text + lead).phase == LinePhase::Leading,
        scan_questions(text + lead).count == scan_questions(text).count,
    decreases lead.len(),
{
    if lead.len() == 0 {
        assert(text + lead =~= text);
    } else {
        let shorter = lead.drop_last();
        assert(is_all_space(shorter)) by {
            assert forall|i: int| 0 <= i < shorter.len() implies is_space(
                #[trigger] shorter[i],
            ) by {
                assert(shorter[i] == lead[i]);
            }
        }
        lemma_leading_space(text, shorter);
        assert((text + lead).drop_last() =~= text + shorter);
        assert((text + lead).last() == lead.last());
        assert(is_space(lead[lead.len() - 1]));
    }
}

/// A fence line flips the region and counts nothing: where the scan stands
/// at the start of a line, and the line is white space, three backticks and
/// a rest without a line feed, the region is open after it if and only if
/// it was closed before, and the count is as it was.
pub proof fn lemma_fence_line(text: Seq<char>, lead: Seq<char>, rest: Seq<char>)
    requires
        scan_questions(text).phase == LinePhase::Leading,
        is_all_space(lead),
        is_free_of(rest, '\n'),
    ensures
        scan_questions(text + lead + fence_marker() + rest).in_block == !scan_questions(
            text,
        ).in_block,
        scan_questions(text + lead + fence_marker() + rest).phase == LinePhase::Fence,
        scan_questions(text + lead + fence_marker() + rest).count == scan_questions(text).count,
{
    lemma_leading_space(text, lead);
    let at = text + lead;
    let one = at.push('`');
    let two = one.push('`');
    let three = two.push('`');
    assert(one.drop_last() =~= at);
    assert(two.drop_last() =~= one);
    assert(three.drop_last() =~= two);
    assert(scan_questions(one).phase == LinePhase::OneTick);
    assert(scan_questions(two).phase == LinePhase::TwoTicks);
    assert(scan_questions(three).phase == LinePhase::Fence);
    assert(three =~= at + fence_marker());
    lemma_fence_rest(three, rest);
}

/// A line feed ends the line: the scan is back at the start of a line, and
/// region and count are as they were.
pub proof fn lemma_line_feed(text: Seq<char>)
    ensures
        scan_questions(text.push('\n')).phase == LinePhase::Leading,
        scan_questions(text.push('\n')).in_block == scan_questions(text).in_block,
        scan_questions(text.push('\n')).count == scan_questions(text).count,
{
    assert(text.push('\n').drop_last() =~= text);
}

/// Whether `needle` stands somewhere in `text`.
pub open spec fn occurs_in(text: Seq<char>, needle: Seq<char>) -> bool {
    exists|at: int| has_prefix_at(text, at, needle)
}

/// Tells whether `needle` stands somewhere in `text`.
pub(crate) fn contains_text(text: &Vec<char>, needle: &Vec<char>) -> (b: bool)
    ensures
        b == occurs_in(text@, needle@),
{
    let mut i: usize = 0;
    while i < text.len()
        invariant
            i <= text.len(),
            forall|k: int| 0 <= k < i ==> !has_prefix_at(text@, k, needle@),
        decreases text.len() - i,
    {
        if starts_with_at(text, i, needle) {
            return true;
        }
        i = i + 1;
    }
    starts_with_at(text, i, needle)
}

/// The lower-case form of a text, as `str::to_lowercase` gives it.
pub uninterp spec fn lowercase_of(text: Seq<char>) -> Seq<char>;

/// `str::to_lowercase`: the lower-case form depends on the text alone.
#[verifier::external_body]
pub(crate) fn lowercase(text: &str) -> (lower: String)
    ensures
        lower@ == lowercase_of(text@),
{
    text.to_lowercase()
}

} // verus!
