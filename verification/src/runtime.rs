//! Decisions of the process runtime that launches workflows: which
//! arguments a launch passes to a workflow's program, which inputs it
//! refuses, how a line from the program's error stream is read, when the
//! collected log lines are written out, the state of an execution after its
//! program exits or when the manager restarts, and which logs a request
//! returns.
use vstd::prelude::*;

use crate::text::{chars_to_string, has_prefix, occurs_at, push_str, str_to_chars, text_eq};
use crate::ui::tree::RunStatus;
use crate::ui::workflows::{lookup_value, value_of};

verus! {

// ============================================================================
// Launching a workflow
// ============================================================================

/// A field of a workflow as a launch sees it.
pub struct CliField {
    /// The name its value is entered under.
    pub name: String,
    /// The option that passes the value to the workflow's program.
    pub cli_arg: String,
    /// Whether a launch needs a value for it.
    pub required: bool,
}

/// A value was entered for `name`.
pub open spec fn has_param(params: Seq<(String, String)>, name: Seq<char>) -> bool {
    exists|i: int| 0 <= i < params.len() && #[trigger] params[i].0@ == name
}

/// The arguments of a launch: for each field in order, its option and its
/// value when a non-empty value was entered for it.
pub open spec fn command_args_spec(fields: Seq<CliField>, params: Seq<(String, String)>) -> Seq<
    Seq<char>,
>
    decreases fields.len(),
{
    if fields.len() == 0 {
        seq![]
    } else {
        let prev = command_args_spec(fields.drop_last(), params);
        let f = fields.last();
        let v = value_of(params, f.name@);
        if v.len() > 0 {
            prev + seq![f.cli_arg@, v]
        } else {
            prev
        }
    }
}

/// The views of a list of strings.
pub open spec fn string_views(v: Seq<String>) -> Seq<Seq<char>> {
    v.map_values(|s: String| s@)
}

/// The arguments passed to a workflow's program (see `command_args_spec`).
pub fn command_args(fields: &Vec<CliField>, params: &Vec<(String, String)>) -> (res: Vec<String>)
    ensures
        string_views(res@) == command_args_spec(fields@, params@),
{
    let mut res: Vec<String> = Vec::new();
    let mut i: usize = 0;
    while i < fields.len()
        invariant
            i <= fields.len(),
            string_views(res@) == command_args_spec(fields@.take(i as int), params@),
        decreases fields.len() - i,
    {
        assert(fields@.take(i + 1).drop_last() =~= fields@.take(i as int));
        let f = &fields[i];
        let v = lookup_value(params, f.name.as_str());
        if !v.as_str().is_empty() {
            let ghost before = string_views(res@);
            res.push(f.cli_arg.clone());
            res.push(v);
            assert(string_views(res@) =~= before + seq![f.cli_arg@, value_of(params@, f.name@)]);
        }
        i = i + 1;
    }
    assert(fields@.take(fields@.len() as int) =~= fields@);
    res
}

/// The first required field, in order, for which no value was entered.
pub open spec fn first_missing(fields: Seq<CliField>, params: Seq<(String, String)>) -> Option<
    Seq<char>,
>
    decreases fields.len(),
{
    if fields.len() == 0 {
        None
    } else if fields[0].required && !has_param(params, fields[0].name@) {
        Some(fields[0].name@)
    } else {
        first_missing(fields.skip(1), params)
    }
}

/// The message of a launch refused for want of the field `name`.
pub open spec fn missing_field_message(name: Seq<char>) -> Seq<char> {
    "Required field '"@ + name + "' missing"@
}

fn param_present(params: &Vec<(String, String)>, name: &str) -> (r: bool)
    ensures
        r == has_param(params@, name@),
{
    let mut i: usize = 0;
    while i < params.len()
        invariant
            i <= params.len(),
            forall|k: int| 0 <= k < i ==> #[trigger] params@[k].0@ != name@,
        decreases params.len() - i,
    {
        if text_eq(params[i].0.as_str(), name) {
            return true;
        }
        i = i + 1;
    }
    false
}

/// Check the inputs of a launch: refused with the name of the first
/// required field for which no value was entered, else accepted.
pub fn validate_inputs(fields: &Vec<CliField>, params: &Vec<(String, String)>) -> (res: Result<
    (),
    String,
>)
    ensures
        match first_missing(fields@, params@) {
            None => res is Ok,
            Some(name) => res matches Err(m) && m@ == missing_field_message(name),
        },
{
    let mut i: usize = 0;
    assert(fields@.skip(0) =~= fields@);
    while i < fields.len()
        invariant
            i <= fields.len(),
            first_missing(fields@, params@) == first_missing(fields@.skip(i as int), params@),
        decreases fields.len() - i,
    {
        let ghost rest = fields@.skip(i as int);
        assert(rest[0] == fields@[i as int]);
        assert(rest.skip(1) =~= fields@.skip(i + 1));
        let f = &fields[i];
        if f.required && !param_present(params, f.name.as_str()) {
            let mut m = String::from_str("Required field '");
            push_str(&mut m, f.name.as_str());
            push_str(&mut m, "' missing");
            return Err(m);
        }
        i = i + 1;
    }
    assert(fields@.skip(i as int) =~= Seq::<CliField>::empty());
    Ok(())
}

/// The message of a request for a workflow that was not discovered.
pub open spec fn workflow_not_found_message(id: Seq<char>) -> Seq<char> {
    "Workflow '"@ + id + "' not found"@
}

/// Finds the discovered workflow `id` among the identifiers `ids`: its
/// position, or the message of a workflow not found.
pub fn find_workflow(ids: &Vec<String>, id: &str) -> (res: Result<usize, String>)
    ensures
        match res {
            Ok(i) => i < ids.len() && ids@[i as int]@ == id@ && forall|j: int|
                0 <= j < i ==> #[trigger] ids@[j]@ != id@,
            Err(m) => (forall|j: int| 0 <= j < ids.len() ==> #[trigger] ids@[j]@ != id@) && m@
                == workflow_not_found_message(id@),
        },
{
    let mut i: usize = 0;
    while i < ids.len()
        invariant
            i <= ids.len(),
            forall|j: int| 0 <= j < i ==> #[trigger] ids@[j]@ != id@,
        decreases ids.len() - i,
    {
        if text_eq(ids[i].as_str(), id) {
            return Ok(i);
        }
        i = i + 1;
    }
    let mut m = String::from_str("Workflow '");
    push_str(&mut m, id);
    push_str(&mut m, "' not found");
    Err(m)
}

/// Check a launch of the workflow `id` among the discovered workflows
/// `catalog` (identifier and fields): refused when no workflow has that
/// identifier, else checked against the fields of the first that has it (see
/// `validate_inputs`).
pub fn validate_workflow_inputs(
    catalog: &Vec<(String, Vec<CliField>)>,
    id: &str,
    params: &Vec<(String, String)>,
) -> (res: Result<(), String>)
    ensures
        (forall|j: int| 0 <= j < catalog@.len() ==> #[trigger] catalog@[j].0@ != id@) ==> (res matches Err(
            m,
        ) && m@ == workflow_not_found_message(id@)),
        forall|i: int|
            0 <= i < catalog@.len() && (#[trigger] catalog@[i]).0@ == id@ && (forall|j: int|
                0 <= j < i ==> catalog@[j].0@ != id@) ==> match first_missing(catalog@[i].1@, params@) {
                None => res is Ok,
                Some(name) => (res matches Err(m) && m@ == missing_field_message(name)),
            },
{
    let mut ids: Vec<String> = Vec::new();
    let mut k: usize = 0;
    while k < catalog.len()
        invariant
            k <= catalog@.len(),
            ids@.len() == k,
            forall|j: int| 0 <= j < k ==> #[trigger] ids@[j]@ == catalog@[j].0@,
        decreases catalog@.len() - k,
    {
        ids.push(catalog[k].0.clone());
        k = k + 1;
    }
    match find_workflow(&ids, id) {
        Ok(i) => {
            proof {
                assert forall|i2: int|
                    0 <= i2 < catalog@.len() && (#[trigger] catalog@[i2]).0@ == id@ && (forall|j: int|
                        0 <= j < i2 ==> catalog@[j].0@ != id@) implies i2 == i by {
                    if i2 < i {
                        assert(ids@[i2]@ != id@);
                    } else if i2 > i {
                        assert(catalog@[i as int].0@ == id@);
                    }
                }
            }
            validate_inputs(&catalog[i].1, params)
        },
        Err(m) => {
            proof {
                assert forall|i2: int| 0 <= i2 < catalog@.len() implies #[trigger] catalog@[i2].0@
                    != id@ by {
                    assert(ids@[i2]@ != id@);
                }
            }
            Err(m)
        },
    }
}

// ============================================================================
// Reading what a workflow writes
// ============================================================================

/// The marker that starts a structured event on a workflow's error stream.
pub open spec fn event_marker() -> Seq<char> {
    "__WF_EVENT__:"@
}

/// A line read from a workflow's error stream.
pub enum StderrLine {
    /// A structured event: the JSON text after the marker.
    Event(String),
    /// Any other line, kept as it is.
    Raw(String),
}

/// Read a line of a workflow's error stream: after the event marker it is
/// a structured event, otherwise raw output.
pub fn classify_stderr_line(line: &str) -> (res: StderrLine)
    ensures
        has_prefix(line@, event_marker()) ==> (res matches StderrLine::Event(json) && json@
            == line@.skip(event_marker().len() as int)),
        !has_prefix(line@, event_marker()) ==> (res matches StderrLine::Raw(l) && l@ == line@),
{
    let cs = str_to_chars(line);
    let marker = str_to_chars("__WF_EVENT__:");
    if occurs_at(&cs, &marker, 0) {
        let json = chars_to_string(&cs, marker.len(), cs.len());
        assert(json@ =~= line@.skip(event_marker().len() as int));
        StderrLine::Event(json)
    } else {
        StderrLine::Raw(String::from_str(line))
    }
}

// ============================================================================
// Writing logs in batches
// ============================================================================

/// The most log lines held before they are written.
pub open spec fn batch_limit() -> nat {
    50
}

/// The longest time, in nanoseconds, between two writes while lines come.
pub open spec fn flush_interval() -> nat {
    5_000_000_000
}

/// A batch of `count` lines is written: it is full, or the last write is
/// more than five seconds ago.
pub open spec fn flush_due(count: nat, elapsed_nanos: u128) -> bool {
    count >= batch_limit() || elapsed_nanos > flush_interval()
}

/// One line recorded with `pending` lines held: the lines written now and
/// the lines held after.
pub open spec fn batch_step<T>(pending: Seq<(usize, T)>, entry: (usize, T), elapsed_nanos: u128) -> (
    Seq<(usize, T)>,
    Seq<(usize, T)>,
) {
    let all = pending.push(entry);
    if flush_due(all.len(), elapsed_nanos) {
        (all, seq![])
    } else {
        (seq![], all)
    }
}

/// Lines recorded one after the other (sequence number, line, time since
/// the last write): all the lines written, in order, and the lines held.
pub open spec fn batch_run<T>(pending: Seq<(usize, T)>, events: Seq<(usize, T, u128)>) -> (
    Seq<(usize, T)>,
    Seq<(usize, T)>,
)
    decreases events.len(),
{
    if events.len() == 0 {
        (seq![], pending)
    } else {
        let before = batch_run(pending, events.drop_last());
        let e = events.last();
        let step = batch_step(before.1, (e.0, e.1), e.2);
        (before.0 + step.0, step.1)
    }
}

/// The log lines of a running workflow not yet written, each with its
/// sequence number.
pub struct LogBatch<T> {
    pending: Vec<(usize, T)>,
}

impl<T> View for LogBatch<T> {
    type V = Seq<(usize, T)>;

    closed spec fn view(&self) -> Seq<(usize, T)> {
        self.pending@
    }
}

impl<T> LogBatch<T> {
    /// A batch holding no line.
    pub fn new() -> (b: Self)
        ensures
            b@ == Seq::<(usize, T)>::empty(),
    {
        LogBatch { pending: Vec::new() }
    }

    /// The number of lines held.
    pub fn len(&self) -> (n: usize)
        ensures
            n == self@.len(),
    {
        self.pending.len()
    }

    /// Record the line `log` numbered `seq`, `elapsed_nanos` after the last
    /// write. Hands back the lines to write, the new one last, when the batch
    /// is due (see `flush_due`); the batch is then empty.
    pub fn add(&mut self, seq: usize, log: T, elapsed_nanos: u128) -> (out: Option<Vec<(usize, T)>>)
        ensures
            final(self)@ == batch_step(old(self)@, (seq, log), elapsed_nanos).1,
            match out {
                Some(v) => v@ == batch_step(old(self)@, (seq, log), elapsed_nanos).0 && v@.len()
                    > 0,
                None => batch_step(old(self)@, (seq, log), elapsed_nanos).0.len() == 0,
            },
    {
        self.pending.push((seq, log));
        let due = self.pending.len() >= 50 || elapsed_nanos > 5_000_000_000;
        if due {
            let mut out: Vec<(usize, T)> = Vec::new();
            std::mem::swap(&mut out, &mut self.pending);
            Some(out)
        } else {
            None
        }
    }

    /// The lines still held when the stream ends, if any.
    pub fn finish(self) -> (out: Option<Vec<(usize, T)>>)
        ensures
            self@.len() == 0 ==> out is None,
            self@.len() > 0 ==> (out matches Some(v) && v@ == self@),
    {
        if self.pending.len() == 0 {
            None
        } else {
            Some(self.pending)
        }
    }
}

/// Whatever the timing, the lines written so far followed by the lines
/// still held are exactly the lines recorded, in the order they were
/// recorded; and fewer than fifty lines are ever held.
pub proof fn law_log_batch_keeps_every_line_in_order<T>(events: Seq<(usize, T, u128)>)
    ensures
        batch_run(seq![], events).0 + batch_run(seq![], events).1 == events.map_values(
            |e: (usize, T, u128)| (e.0, e.1),
        ),
        batch_run(seq![], events).1.len() < batch_limit(),
    decreases events.len(),
{
    if events.len() > 0 {
        let prev = events.drop_last();
        law_log_batch_keeps_every_line_in_order(prev);
        let before = batch_run(seq![], prev);
        let e = events.last();
        let step = batch_step(before.1, (e.0, e.1), e.2);
        let mapped = events.map_values(|e: (usize, T, u128)| (e.0, e.1));
        let mapped_prev = prev.map_values(|e: (usize, T, u128)| (e.0, e.1));
        assert(mapped =~= mapped_prev.push((e.0, e.1)));
        assert(before.0 + step.0 + step.1 =~= before.0 + before.1.push((e.0, e.1)));
    } else {
        assert(events.map_values(|e: (usize, T, u128)| (e.0, e.1)) =~= Seq::<(usize, T)>::empty());
    }
}

// ============================================================================
// The state of an execution
// ============================================================================

/// The state of an execution whose program has exited: completed when it
/// exited successfully, failed otherwise.
pub fn exit_status(success: bool) -> (s: RunStatus)
    ensures
        s == (if success {
            RunStatus::Completed
        } else {
            RunStatus::Failed
        }),
{
    if success {
        RunStatus::Completed
    } else {
        RunStatus::Failed
    }
}

/// An execution read back from the history when the manager starts: one
/// still marked running belongs to an earlier session, so it is marked
/// failed, ending when it started, and its record is to be updated (the
/// last component); any other is kept as it is.
pub fn restored_execution<T: Copy>(status: RunStatus, start: T, end: Option<T>) -> (r: (
    RunStatus,
    Option<T>,
    bool,
))
    ensures
        status == RunStatus::Running ==> r == (RunStatus::Failed, Some(start), true),
        status != RunStatus::Running ==> r == (status, end, false),
{
    match status {
        RunStatus::Running => (RunStatus::Failed, Some(start), true),
        _ => (status, end, false),
    }
}

// ============================================================================
// Returning logs
// ============================================================================

/// The logs returned of `len` logs when at most `limit` are asked for: the
/// last ones, as a range of indices.
pub fn log_window(len: usize, limit: Option<usize>) -> (r: (usize, usize))
    ensures
        r.1 == len,
        r.0 == match limit {
            Some(l) => if l < len {
                (len - l) as usize
            } else {
                0usize
            },
            None => 0usize,
        },
{
    match limit {
        Some(l) => if l < len {
            (len - l, len)
        } else {
            (0, len)
        },
        None => (0, len),
    }
}

} // verus!
