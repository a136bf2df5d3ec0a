//! Waiting for a line of a container's log. The wait reads nothing itself: it
//! is handed what the log yields, one item at a time, and says after each
//! whether it goes on or how it has ended.

use crate::text::{contains, is_substring, push_string};
use vstd::prelude::*;

verus! {

/// `std::io::Error`, the error of the standard library for a failed read or
/// write. Nothing is said of what it holds: it is carried through as it came.
#[verifier::external_type_specification]
#[verifier::external_body]
pub struct ExIoError(std::io::Error);

/// How a wait for a log line fails.
#[derive(Debug)]
pub enum WaitError {
    /// The log ended without a matching line. Holds every line that was seen,
    /// in the order of arrival.
    EOF(Vec<String>),
    /// Reading the log failed.
    Io(std::io::Error),
}

/// A wait in progress: the lines seen so far, none of which matched.
#[derive(Debug)]
pub struct LogStream {
    lines: Vec<String>,
}

/// What a wait has come to after one more item of the log.
#[derive(Debug)]
pub enum Step {
    /// No line has matched yet and the log has not ended: the wait goes on
    /// with the next item.
    Continue(LogStream),
    /// The wait is over, and nothing more is read from the log.
    Finished(Result<(), WaitError>),
}

/// How a wait fails, with every line as its text.
pub enum WaitErrorView {
    EOF(Seq<Seq<char>>),
    Io(std::io::Error),
}

/// What a wait has come to, with every line as its text.
pub enum StepView {
    Continue(Seq<Seq<char>>),
    Finished(Result<(), WaitErrorView>),
}

impl View for LogStream {
    type V = Seq<Seq<char>>;

    closed spec fn view(&self) -> Seq<Seq<char>> {
        self.lines.deep_view()
    }
}

impl View for WaitError {
    type V = WaitErrorView;

    open spec fn view(&self) -> WaitErrorView {
        match self {
            WaitError::EOF(lines) => WaitErrorView::EOF(lines.deep_view()),
            WaitError::Io(failure) => WaitErrorView::Io(*failure),
        }
    }
}

/// The outcome of a wait with the lines of its error as their texts.
pub open spec fn outcome_view(outcome: Result<(), WaitError>) -> Result<(), WaitErrorView> {
    match outcome {
        Ok(()) => Ok(()),
        Err(error) => Err(error@),
    }
}

impl View for Step {
    type V = StepView;

    open spec fn view(&self) -> StepView {
        match self {
            Step::Continue(stream) => StepView::Continue(stream@),
            Step::Finished(outcome) => StepView::Finished(outcome_view(*outcome)),
        }
    }
}

/// An item of a log with its line as text.
pub open spec fn item_view(item: Option<Result<String, std::io::Error>>) -> Option<
    Result<Seq<char>, std::io::Error>,
> {
    match item {
        Some(Ok(line)) => Some(Ok(line@)),
        Some(Err(failure)) => Some(Err(failure)),
        None => None,
    }
}

/// What a wait for `message` that has seen the lines `seen` comes to with the
/// next item of the log. A line that contains the message ends the wait with
/// success; any other line is kept, and the wait goes on. A failure to read
/// ends the wait with that failure. The end of the log ends it with every line
/// seen, in the order of arrival.
pub open spec fn next_step(
    seen: Seq<Seq<char>>,
    item: Option<Result<Seq<char>, std::io::Error>>,
    message: Seq<char>,
) -> StepView {
    match item {
        Some(Ok(line)) => if is_substring(message, line) {
            StepView::Finished(Ok(()))
        } else {
            StepView::Continue(seen.push(line))
        },
        Some(Err(failure)) => StepView::Finished(Err(WaitErrorView::Io(failure))),
        None => StepView::Finished(Err(WaitErrorView::EOF(seen))),
    }
}

/// Whether some line of `lines` contains `message`.
pub open spec fn some_line_matches(lines: Seq<Seq<char>>, message: Seq<char>) -> bool {
    exists|i: int| 0 <= i < lines.len() && is_substring(message, #[trigger] lines[i])
}

/// How a wait for `message` ends that has seen the lines `seen`, on a log that
/// yields `lines` and then ends: with success where a line contains the
/// message, else with the end of the log and every line.
pub open spec fn outcome_of(seen: Seq<Seq<char>>, lines: Seq<Seq<char>>, message: Seq<char>)
    -> Result<(), WaitErrorView> {
    if some_line_matches(lines, message) {
        Ok(())
    } else {
        Err(WaitErrorView::EOF(seen + lines))
    }
}

/// What a wait for `message` that has seen the lines `seen` comes to over
/// the items `items`, taken one after the other. Once the wait has finished,
/// the items that follow are not looked at.
pub open spec fn run(
    seen: Seq<Seq<char>>,
    items: Seq<Option<Result<Seq<char>, std::io::Error>>>,
    message: Seq<char>,
) -> StepView
    decreases items.len(),
{
    if items.len() == 0 {
        StepView::Continue(seen)
    } else {
        match next_step(seen, items[0], message) {
            StepView::Continue(more) => run(more, items.drop_first(), message),
            StepView::Finished(outcome) => StepView::Finished(outcome),
        }
    }
}

/// The items of a log that yields the lines `lines`.
pub open spec fn line_items(lines: Seq<Seq<char>>) -> Seq<
    Option<Result<Seq<char>, std::io::Error>>,
> {
    Seq::new(lines.len(), |i: int| Some(Ok(lines[i])))
}

/// Over lines of which none contains the message, the wait goes on and has
/// kept every line, in the order of arrival.
pub proof fn lemma_run_without_match(
    seen: Seq<Seq<char>>,
    lines: Seq<Seq<char>>,
    message: Seq<char>,
)
    requires
        !some_line_matches(lines, message),
    ensures
        run(seen, line_items(lines), message) == StepView::Continue(seen + lines),
    decreases lines.len(),
{
    let items = line_items(lines);
    if lines.len() == 0 {
        assert(seen + lines == seen);
    } else {
        let rest = lines.drop_first();
        assert(!is_substring(message, lines[0]));
        assert forall|i: int| 0 <= i < rest.len() implies !is_substring(
            message,
            #[trigger] rest[i],
        ) by {
            assert(rest[i] == lines[i + 1]);
        }
        assert(items.drop_first() == line_items(rest));
        lemma_run_without_match(seen.push(lines[0]), rest, message);
        assert(seen.push(lines[0]) + rest == seen + lines);
    }
}

/// Once a wait has finished, what the log yields afterwards changes nothing.
pub proof fn lemma_finished_wait_reads_no_more(
    seen: Seq<Seq<char>>,
    items: Seq<Option<Result<Seq<char>, std::io::Error>>>,
    more: Seq<Option<Result<Seq<char>, std::io::Error>>>,
    message: Seq<char>,
)
    requires
        run(seen, items, message) is Finished,
    ensures
        run(seen, items + more, message) == run(seen, items, message),
    decreases items.len(),
{
    if items.len() > 0 {
        assert((items + more)[0] == items[0]);
        assert((items + more).drop_first() == items.drop_first() + more);
        match next_step(seen, items[0], message) {
            StepView::Continue(kept) => {
                lemma_finished_wait_reads_no_more(kept, items.drop_first(), more, message);
            },
            StepView::Finished(_) => {},
        }
    }
}

/// A wait goes on over two runs of items as it goes on over the second from
/// where the first has left it.
pub proof fn lemma_run_continues(
    seen: Seq<Seq<char>>,
    items: Seq<Option<Result<Seq<char>, std::io::Error>>>,
    more: Seq<Option<Result<Seq<char>, std::io::Error>>>,
    message: Seq<char>,
)
    requires
        run(seen, items, message) is Continue,
    ensures
        run(seen, items + more, message) == run(run(seen, items, message)->Continue_0, more, message),
    decreases items.len(),
{
    if items.len() == 0 {
        assert(items + more == more);
    } else {
        assert((items + more)[0] == items[0]);
        assert((items + more).drop_first() == items.drop_first() + more);
        match next_step(seen, items[0], message) {
            StepView::Continue(kept) => {
                lemma_run_continues(kept, items.drop_first(), more, message);
            },
            StepView::Finished(_) => {},
        }
    }
}

/// The wait succeeds with the first line that contains the message, after
/// exactly the lines up to and including it: over the lines before it the
/// wait still goes on, and with it the wait has finished with success.
pub proof fn lemma_first_match_ends_wait(
    seen: Seq<Seq<char>>,
    lines: Seq<Seq<char>>,
    first: int,
    message: Seq<char>,
)
    requires
        0 <= first < lines.len(),
        is_substring(message, lines[first]),
        forall|i: int| 0 <= i < first ==> !is_substring(message, #[trigger] lines[i]),
    ensures
        run(seen, line_items(lines.take(first)), message) == StepView::Continue(
            seen + lines.take(first),
        ),
        run(seen, line_items(lines.take(first + 1)), message) == StepView::Finished(Ok(())),
        run(seen, line_items(lines), message) == StepView::Finished(Ok(())),
{
    let before = lines.take(first);
    assert forall|i: int| 0 <= i < before.len() implies !is_substring(
        message,
        #[trigger] before[i],
    ) by {
        assert(before[i] == lines[i]);
    }
    lemma_run_without_match(seen, before, message);
    let hit = seq![Some(Ok::<Seq<char>, std::io::Error>(lines[first]))];
    assert(line_items(lines.take(first + 1)) == line_items(before) + hit);
    lemma_run_continues(seen, line_items(before), hit, message);
    assert(hit.drop_first() == Seq::<Option<Result<Seq<char>, std::io::Error>>>::empty());
    assert(run(seen + before, hit, message) == StepView::Finished(Ok(())));
    assert(line_items(lines) == line_items(lines.take(first + 1)) + line_items(
        lines.skip(first + 1),
    ));
    lemma_finished_wait_reads_no_more(
        seen,
        line_items(lines.take(first + 1)),
        line_items(lines.skip(first + 1)),
        message,
    );
}

/// A log that ends without a line that contains the message fails the wait
/// with its end, which carries every line seen, in the order of arrival.
pub proof fn lemma_end_without_match(
    seen: Seq<Seq<char>>,
    lines: Seq<Seq<char>>,
    message: Seq<char>,
)
    requires
        !some_line_matches(lines, message),
    ensures
        run(seen, line_items(lines).push(None), message) == StepView::Finished(
            Err(WaitErrorView::EOF(seen + lines)),
        ),
{
    lemma_run_without_match(seen, lines, message);
    let end = seq![None::<Result<Seq<char>, std::io::Error>>];
    assert(line_items(lines).push(None) == line_items(lines) + end);
    lemma_run_continues(seen, line_items(lines), end, message);
    assert(end.drop_first() == Seq::<Option<Result<Seq<char>, std::io::Error>>>::empty());
}

/// Over a log that yields lines and then ends, a wait ends as the lines say:
/// with success where one of them contains the message, else with the end of
/// the log and every line.
pub proof fn lemma_run_to_the_end(seen: Seq<Seq<char>>, lines: Seq<Seq<char>>, message: Seq<char>)
    ensures
        run(seen, line_items(lines).push(None), message) == StepView::Finished(
            outcome_of(seen, lines, message),
        ),
    decreases lines.len(),
{
    let items = line_items(lines).push(None);
    if lines.len() == 0 {
        assert(items.drop_first() == Seq::<Option<Result<Seq<char>, std::io::Error>>>::empty());
        assert(seen + lines == seen);
    } else if is_substring(message, lines[0]) {
        assert(items[0] == Some(Ok::<Seq<char>, std::io::Error>(lines[0])));
    } else {
        let rest = lines.drop_first();
        assert(items[0] == Some(Ok::<Seq<char>, std::io::Error>(lines[0])));
        assert(items.drop_first() == line_items(rest).push(None));
        lemma_run_to_the_end(seen.push(lines[0]), rest, message);
        assert(seen.push(lines[0]) + rest == seen + lines);
        if some_line_matches(rest, message) {
            let i = choose|i: int| 0 <= i < rest.len() && is_substring(message, #[trigger] rest[i]);
            assert(lines[i + 1] == rest[i]);
        }
        if some_line_matches(lines, message) {
            let i = choose|i: int|
                0 <= i < lines.len() && is_substring(message, #[trigger] lines[i]);
            assert(rest[i - 1] == lines[i]);
        }
    }
}

impl LogStream {
    /// A wait that has seen no line yet.
    pub fn new() -> (stream: LogStream)
        ensures
            stream@ == Seq::<Seq<char>>::empty(),
    {
        let stream = LogStream { lines: Vec::new() };
        assert(stream.lines.deep_view() =~= Seq::<Seq<char>>::empty());
        stream
    }

    /// The lines seen so far.
    pub fn lines(&self) -> (lines: &Vec<String>)
        ensures
            lines.deep_view() == self@,
    {
        &self.lines
    }

    /// Takes the next item that the log yields: a line, a failure to read, or
    /// `None` at the end of the log.
    ///
    /// A line that contains `message` ends the wait with success. Any other
    /// line is kept and the wait goes on. A failure ends the wait with that
    /// failure. The end of the log ends the wait with every line seen, in the
    /// order of arrival.
    pub fn step(self, item: Option<Result<String, std::io::Error>>, message: &str) -> (next: Step)
        ensures
            next@ == next_step(self@, item_view(item), message@),
    {
        match item {
            Some(Ok(line)) => {
                if contains(line.as_str(), message) {
                    Step::Finished(Ok(()))
                } else {
                    let mut stream = self;
                    push_string(&mut stream.lines, line);
                    Step::Continue(stream)
                }
            },
            Some(Err(failure)) => Step::Finished(Err(WaitError::Io(failure))),
            None => Step::Finished(Err(WaitError::EOF(self.lines))),
        }
    }

    /// Waits for `message` on a log that yields `lines` and then ends.
    ///
    /// Succeeds exactly when some line contains `message`; the lines after the
    /// first such line are not looked at. Fails otherwise with the end of the
    /// log, which carries the lines seen before and all of `lines`, in their
    /// order.
    pub fn wait_for_message(self, lines: Vec<String>, message: &str) -> (outcome: Result<
        (),
        WaitError,
    >)
        ensures
            outcome_view(outcome) == outcome_of(self@, lines.deep_view(), message@),
    {
        let mut stream = self;
        let mut at: usize = 0;
        while at < lines.len()
            invariant
                at <= lines.len(),
                stream@ == self@ + lines.deep_view().take(at as int),
                !some_line_matches(lines.deep_view().take(at as int), message@),
            decreases lines.len() - at,
        {
            let ghost seen = lines.deep_view().take(at as int);
            let ghost more = lines.deep_view().take(at + 1);
            match stream.step(Some(Ok(lines[at].clone())), message) {
                Step::Continue(next) => {
                    stream = next;
                    proof {
                        assert(more == seen.push(lines[at as int]@));
                        assert(self@ + more == (self@ + seen).push(lines[at as int]@));
                        assert forall|i: int| 0 <= i < more.len() implies !is_substring(
                            message@,
                            #[trigger] more[i],
                        ) by {
                            if i < at {
                                assert(more[i] == seen[i]);
                            }
                        }
                    }
                },
                Step::Finished(outcome) => {
                    proof {
                        assert(is_substring(message@, lines.deep_view()[at as int]));
                    }
                    return outcome;
                },
            }
            at = at + 1;
        }
        proof {
            assert(lines.deep_view().take(at as int) == lines.deep_view());
        }
        Err(WaitError::EOF(stream.lines))
    }
}

} // verus!
