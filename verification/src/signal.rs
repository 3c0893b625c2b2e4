//! Raw key signals: the text that the event source appends to the signal
//! channel, one signal per line, and the events it stands for.

use vstd::prelude::*;

verus! {

/// A key event as the event source reports it.
#[derive(Debug, Clone, Copy, PartialEq, Eq, Structural)]
pub enum RawEvent {
    /// The activation key was observed.
    Activation,
    /// A trigger character was captured.
    TriggerCandidate(char),
}

/// A signal that stands for no known event. Such signals are expected noise
/// and are dropped without further notice.
#[derive(Debug, Clone, Copy, PartialEq, Eq, Structural)]
pub struct MalformedSignal;

/// The line that reports the activation key: `CAPS_LOCK`.
pub open spec fn activation_signal() -> Seq<char> {
    seq!['C', 'A', 'P', 'S', '_', 'L', 'O', 'C', 'K']
}

/// The start of a line that reports a trigger character: `FN:`.
pub open spec fn trigger_prefix() -> Seq<char> {
    seq!['F', 'N', ':']
}

/// The event that one line of the channel stands for. The activation line must
/// match in full. A trigger line carries its character right behind the
/// prefix; whatever follows that character is ignored, and a prefix with
/// nothing behind it is malformed.
pub open spec fn classify_signal(line: Seq<char>) -> Result<RawEvent, MalformedSignal> {
    if line =~= activation_signal() {
        Ok(RawEvent::Activation)
    } else if line.len() > 3 && line.take(3) =~= trigger_prefix() {
        Ok(RawEvent::TriggerCandidate(line[3]))
    } else {
        Err(MalformedSignal)
    }
}

/// The number of characters before the first line feed of `text`, or the
/// length of `text` if it holds none.
pub open spec fn line_end(text: Seq<char>) -> nat
    decreases text.len(),
{
    if text.len() == 0 || text[0] == '\n' {
        0
    } else {
        1 + line_end(text.drop_first())
    }
}

/// `line` without one trailing carriage return, if it has one.
pub open spec fn strip_carriage_return(line: Seq<char>) -> Seq<char> {
    if line.len() > 0 && line.last() == '\r' {
        line.drop_last()
    } else {
        line
    }
}

/// The lines of the channel's content, oldest first. A line ends at a line
/// feed, and a carriage return directly before that line feed belongs to the
/// line ending. Text after the last line feed is a line of its own, kept as it
/// is; empty text after the last line feed is no line.
pub open spec fn signal_lines(text: Seq<char>) -> Seq<Seq<char>>
    decreases text.len(),
{
    if text.len() == 0 {
        Seq::empty()
    } else {
        let n = line_end(text) as int;
        if n >= text.len() {
            seq![text]
        } else {
            seq![strip_carriage_return(text.take(n))] + signal_lines(text.skip(n + 1))
        }
    }
}

/// The events that `lines` stand for, in the order of the lines. Malformed
/// lines contribute nothing.
pub open spec fn recognized(lines: Seq<Seq<char>>) -> Seq<RawEvent>
    decreases lines.len(),
{
    if lines.len() == 0 {
        Seq::empty()
    } else {
        let before = recognized(lines.drop_last());
        match classify_signal(lines.last()) {
            Ok(event) => before.push(event),
            Err(_) => before,
        }
    }
}

/// The events that the channel's content stands for, oldest first.
pub open spec fn events_in(text: Seq<char>) -> Seq<RawEvent> {
    recognized(signal_lines(text))
}

/// `line_end` is the one position that has no line feed before it and is
/// either a line feed or the end of the text.
pub proof fn lemma_line_end(text: Seq<char>, n: int)
    requires
        0 <= n <= text.len(),
        forall|k: int| 0 <= k < n ==> text[k] != '\n',
        n == text.len() || text[n] == '\n',
    ensures
        line_end(text) == n,
    decreases text.len(),
{
    if n > 0 {
        lemma_line_end(text.drop_first(), n - 1);
    }
}

/// `line_end` lies within the text, has no line feed before it, and is a
/// line feed unless it is the end of the text.
pub proof fn lemma_line_end_is_first(text: Seq<char>)
    ensures
        line_end(text) <= text.len(),
        forall|k: int| 0 <= k < line_end(text) ==> text[k] != '\n',
        line_end(text) < text.len() ==> text[line_end(text) as int] == '\n',
    decreases text.len(),
{
    if text.len() > 0 && text[0] != '\n' {
        let rest = text.drop_first();
        lemma_line_end_is_first(rest);
        assert forall|k: int| 0 <= k < line_end(text) implies text[k] != '\n' by {
            if k > 0 {
                assert(text[k] == rest[k - 1]);
            }
        }
    }
}

/// Lines are classified one by one: the events of two lists of lines, one
/// after the other, are the events of the first followed by the events of
/// the second.
pub proof fn recognized_in_order(first: Seq<Seq<char>>, second: Seq<Seq<char>>)
    ensures
        recognized(first + second) == recognized(first) + recognized(second),
    decreases second.len(),
{
    if second.len() > 0 {
        assert((first + second).drop_last() =~= first + second.drop_last());
        recognized_in_order(first, second.drop_last());
    }
}

/// Text appended behind complete lines adds its own lines behind theirs.
pub proof fn lines_of_appended_text(earlier: Seq<char>, later: Seq<char>)
    requires
        earlier.len() == 0 || earlier.last() == '\n',
    ensures
        signal_lines(earlier + later) == signal_lines(earlier) + signal_lines(later),
    decreases earlier.len(),
{
    if earlier.len() > 0 {
        let all = earlier + later;
        let n = line_end(earlier) as int;
        lemma_line_end_is_first(earlier);
        lemma_line_end(all, n);
        let rest = earlier.skip(n + 1);
        assert(all.take(n) =~= earlier.take(n));
        assert(all.skip(n + 1) =~= rest + later);
        lines_of_appended_text(rest, later);
    }
}

/// The channel is append-only: signals written behind complete lines are
/// read after the signals of those lines, and change none of them.
pub proof fn appended_signals_come_later(earlier: Seq<char>, later: Seq<char>)
    requires
        earlier.len() == 0 || earlier.last() == '\n',
    ensures
        events_in(earlier + later) == events_in(earlier) + events_in(later),
{
    lines_of_appended_text(earlier, later);
    recognized_in_order(signal_lines(earlier), signal_lines(later));
}

/// The characters of `text`, in order.
fn chars_of(text: &str) -> (chars: Vec<char>)
    ensures
        chars@ == text@,
{
    let mut chars: Vec<char> = Vec::new();
    for c in it: text.chars()
        invariant
            chars@ == it.seq().take(it.index()),
            it.seq() == text@,
    {
        chars.push(c);
    }
    chars
}

/// Classifies the line that `chars` holds from `start` up to `end`.
fn classify_range(chars: &Vec<char>, start: usize, end: usize) -> (r: Result<
    RawEvent,
    MalformedSignal,
>)
    requires
        start <= end <= chars.len(),
    ensures
        r == classify_signal(chars@.subrange(start as int, end as int)),
{
    let n: usize = end - start;
    if n == 9 && chars[start] == 'C' && chars[start + 1] == 'A' && chars[start + 2] == 'P'
        && chars[start + 3] == 'S' && chars[start + 4] == '_' && chars[start + 5] == 'L'
        && chars[start + 6] == 'O' && chars[start + 7] == 'C' && chars[start + 8] == 'K' {
        Ok(RawEvent::Activation)
    } else if n > 3 && chars[start] == 'F' && chars[start + 1] == 'N' && chars[start + 2] == ':' {
        Ok(RawEvent::TriggerCandidate(chars[start + 3]))
    } else {
        Err(MalformedSignal)
    }
}

/// Classifies one line of the signal channel, given without its line ending.
pub fn classify(line: &str) -> (r: Result<RawEvent, MalformedSignal>)
    ensures
        r == classify_signal(line@),
{
    let chars = chars_of(line);
    classify_range(&chars, 0, chars.len())
}

/// Reads the events out of the channel's content, oldest first, and drops
/// what is malformed.
pub fn pending_events(content: &str) -> (events: Vec<RawEvent>)
    ensures
        events@ == events_in(content@),
{
    let chars = chars_of(content);
    let ghost text = chars@;
    let mut events: Vec<RawEvent> = Vec::new();
    let ghost mut done: Seq<Seq<char>> = Seq::empty();
    let mut start: usize = 0;
    let mut i: usize = 0;
    assert(text.skip(0) =~= text);
    while i < chars.len()
        invariant
            chars@ == text,
            start <= i <= chars.len(),
            forall|k: int| start <= k < i ==> text[k] != '\n',
            signal_lines(text) == done + signal_lines(text.skip(start as int)),
            events@ == recognized(done),
        decreases chars.len() - i,
    {
        if chars[i] == '\n' {
            let stop: usize = if i > start && chars[i - 1] == '\r' { (i - 1) as usize } else { i };
            let r = classify_range(&chars, start, stop);
            proof {
                let rest = text.skip(start as int);
                let n = i - start;
                lemma_line_end(rest, n);
                let line = strip_carriage_return(rest.take(n));
                assert(rest.skip(n + 1) =~= text.skip(i + 1));
                assert(done.push(line).drop_last() =~= done);
                done = done.push(line);
            }
            match r {
                Ok(event) => {
                    events.push(event);
                },
                Err(_) => {},
            }
            start = i + 1;
        }
        i += 1;
    }
    if start < chars.len() {
        let r = classify_range(&chars, start, chars.len());
        proof {
            let rest = text.skip(start as int);
            lemma_line_end(rest, rest.len() as int);
            assert(done + seq![rest] =~= done.push(rest));
            assert(done.push(rest).drop_last() =~= done);
            done = done.push(rest);
        }
        match r {
            Ok(event) => {
                events.push(event);
            },
            Err(_) => {},
        }
    }
    events
}

} // verus!
