//! The shared state of one invocation of the tool, and the text that the
//! invocation hands back.
use vstd::prelude::*;
use vstd::string::StringExecFns;

verus! {

/// What `String::from_utf8_lossy` gives for a byte sequence.
pub uninterp spec fn lossy_text(bytes: Seq<u8>) -> Seq<char>;

/// Relies on String::from_utf8_lossy: the bytes decoded as UTF-8, each
/// invalid sequence replaced by U+FFFD, so that no bytes give no text and
/// some bytes give some text.
#[verifier::external_body]
fn decode_lossy(bytes: &[u8]) -> (r: String)
    ensures
        r@ == lossy_text(bytes@),
        (bytes@.len() == 0) == (r@.len() == 0),
{
    String::from_utf8_lossy(bytes).into_owned()
}

/// The result text of a run: standard output, then, when standard error is
/// not empty, a separator and standard error.
pub open spec fn combined_text(out: Seq<char>, err: Seq<char>) -> Seq<char> {
    if err.len() == 0 {
        out
    } else {
        out + "\n\nErrors:\n"@ + err
    }
}

/// The result text of a run whose output streams were captured as bytes.
pub open spec fn captured_text(stdout: Seq<u8>, stderr: Seq<u8>) -> Seq<char> {
    combined_text(lossy_text(stdout), lossy_text(stderr))
}

/// The diagnostic that stands for the result when the tool could not be
/// started.
pub open spec fn launch_failure_text(reason: Seq<char>) -> Seq<char> {
    "Error executing gia: "@ + reason
}

/// Joins decoded standard output and standard error into a result text.
pub fn combine_texts(out: &str, err: &str) -> (r: String)
    ensures
        r@ == combined_text(out@, err@),
{
    let mut r = String::from_str(out);
    if !err.is_empty() {
        r.append("\n\nErrors:\n");
        r.append(err);
    }
    r
}

/// The result text of a run from its captured output streams, decoded
/// lossily.
pub fn combine_output(stdout: &[u8], stderr: &[u8]) -> (r: String)
    ensures
        r@ == captured_text(stdout@, stderr@),
{
    let out = decode_lossy(stdout);
    let err = decode_lossy(stderr);
    combine_texts(out.as_str(), err.as_str())
}

/// The diagnostic for a launch failure, with the failure's description.
pub fn launch_failure_message(reason: &str) -> (r: String)
    ensures
        r@ == launch_failure_text(reason@),
{
    let mut r = String::from_str("Error executing gia: ");
    r.append(reason);
    r
}

/// Whether `part` stands in `whole` as a contiguous run.
pub open spec fn contains_text(whole: Seq<char>, part: Seq<char>) -> bool {
    exists|i: int|
        0 <= i <= whole.len() - part.len() && #[trigger] whole.subrange(i, i + part.len()) == part
}

/// The text of an optional string.
pub open spec fn text_opt(o: Option<String>) -> Option<Seq<char>> {
    match o {
        Some(s) => Some(s@),
        None => None,
    }
}

/// The in-flight flag and the pending-result slot, as values.
pub struct ExecutionView {
    pub in_flight: bool,
    pub pending: Option<Seq<char>>,
}

/// A submission starts only from the idle state: nothing in flight and no
/// result waiting. Otherwise it is refused and the state stays as it is.
pub open spec fn after_begin(s: ExecutionView) -> (ExecutionView, bool) {
    if !s.in_flight && s.pending is None {
        (ExecutionView { in_flight: true, pending: None }, true)
    } else {
        (s, false)
    }
}

/// Completion puts the result in the slot and clears the flag.
pub open spec fn after_finish(s: ExecutionView, result: Seq<char>) -> ExecutionView {
    ExecutionView { in_flight: false, pending: Some(result) }
}

/// Taking empties the slot and hands out what it held.
pub open spec fn after_take(s: ExecutionView) -> (ExecutionView, Option<Seq<char>>) {
    (ExecutionView { in_flight: s.in_flight, pending: None }, s.pending)
}

/// The state shared between a background run of the tool and the
/// presentation loop: whether a run is in flight, and at most one result
/// that has not been taken yet.
pub struct ExecutionState {
    in_flight: bool,
    pending: Option<String>,
}

impl View for ExecutionState {
    type V = ExecutionView;

    closed spec fn view(&self) -> ExecutionView {
        ExecutionView {
            in_flight: self.in_flight,
            pending: text_opt(self.pending),
        }
    }
}

impl ExecutionState {
    /// Idle: nothing in flight, nothing pending.
    pub fn new() -> (r: Self)
        ensures
            r@ == (ExecutionView { in_flight: false, pending: None }),
    {
        ExecutionState { in_flight: false, pending: None }
    }

    /// Whether a run is in flight.
    pub fn is_in_flight(&self) -> (r: bool)
        ensures
            r == self@.in_flight,
    {
        self.in_flight
    }

    /// Whether a result waits to be taken.
    pub fn has_pending(&self) -> (r: bool)
        ensures
            r == self@.pending is Some,
    {
        self.pending.is_some()
    }

    /// Starts a submission when the state is idle, and says whether it did.
    pub fn begin(&mut self) -> (started: bool)
        ensures
            (final(self)@, started) == after_begin(old(self)@),
    {
        if !self.in_flight && self.pending.is_none() {
            self.in_flight = true;
            true
        } else {
            false
        }
    }

    /// Delivers the result of the run and clears the in-flight flag.
    pub fn finish(&mut self, result: String)
        ensures
            final(self)@ == after_finish(old(self)@, result@),
    {
        self.pending = Some(result);
        self.in_flight = false;
    }

    /// Takes the pending result, if any, leaving the slot empty.
    pub fn take(&mut self) -> (r: Option<String>)
        ensures
            (final(self)@, text_opt(r)) == after_take(old(self)@),
    {
        self.pending.take()
    }
}

/// A delivered result is handed out by exactly one take: the first take
/// after completion gives it, a second take gives nothing, and no new
/// submission can start and overwrite it before it is taken.
pub proof fn lemma_delivered_exactly_once(s: ExecutionView, result: Seq<char>)
    ensures
        !after_finish(s, result).in_flight,
        after_take(after_finish(s, result)).1 == Some(result),
        after_take(after_take(after_finish(s, result)).0).1 is None,
        !after_begin(after_finish(s, result)).1,
        after_begin(after_finish(s, result)).0 == after_finish(s, result),
{
}

/// A run that could not be started still delivers a non-empty diagnostic
/// that holds the failure's description, and leaves nothing in flight.
pub proof fn lemma_launch_failure_delivered(s: ExecutionView, reason: Seq<char>)
    requires
        after_begin(s).1,
    ensures
        ({
            let done = after_finish(after_begin(s).0, launch_failure_text(reason));
            &&& !done.in_flight
            &&& done.pending == Some(launch_failure_text(reason))
            &&& launch_failure_text(reason).len() > 0
            &&& contains_text(launch_failure_text(reason), reason)
        }),
{
    reveal_strlit("Error executing gia: ");
    let t = launch_failure_text(reason);
    let k: int = "Error executing gia: "@.len() as int;
    assert(t.subrange(k, k + reason.len()) =~= reason);
}

} // verus!
