//! The per-case driver loop: parse, classify, accumulate, report.
//!
//! The driver owns everything shared across cases — the line cursor, the
//! persistent section name, and the aggregate verdict. Invoking the
//! caller's routine (and fencing off its abnormal termination) is the
//! embedding program's job; it reports each outcome back here, and this
//! module decides what the outcome means for the case and for the run.

use crate::case::spec_all_consumed;
use crate::case::AttrView;
use crate::case::TestCase;
use crate::errors::TestError;
use crate::parser::parse_test_case;
use crate::parser::spec_parse;
use crate::parser::ParseStep;
use vstd::prelude::*;
use vstd::string::StringExecFns;

verus! {

/// How one callback invocation ended, as seen from outside the call.
#[derive(Clone, Copy, Debug, PartialEq, Eq, Structural)]
pub enum CallbackOutcome {
    /// The callback returned success.
    Success,
    /// The callback returned a domain error.
    DomainError,
    /// The callback terminated abnormally.
    Panicked,
}

/// The verdict on one case: `None` passes; otherwise the failure kind.
///
/// A successful return only passes when every attribute was consumed; a
/// domain error and an abnormal termination each map to their own kind.
pub open spec fn spec_classify(attrs: Seq<AttrView>, outcome: CallbackOutcome) -> Option<
    TestError,
> {
    match outcome {
        CallbackOutcome::Success => if spec_all_consumed(attrs) {
            None
        } else {
            Some(TestError::UnconsumedAttributes)
        },
        CallbackOutcome::DomainError => Some(TestError::CallbackReturnedError),
        CallbackOutcome::Panicked => Some(TestError::CallbackPanicked),
    }
}

/// A callback that read every attribute and returned success passes its
/// case.
pub proof fn lemma_success_all_consumed_passes(attrs: Seq<AttrView>)
    requires
        spec_all_consumed(attrs),
    ensures
        spec_classify(attrs, CallbackOutcome::Success) is None,
{
}

/// A callback that returned success but left some attribute unread fails
/// its case with `UnconsumedAttributes`.
pub proof fn lemma_unread_attribute_fails(attrs: Seq<AttrView>, i: int)
    requires
        0 <= i < attrs.len(),
        !attrs[i].consumed,
    ensures
        spec_classify(attrs, CallbackOutcome::Success) == Some(TestError::UnconsumedAttributes),
{
}

/// The state of one scan over a vector file's lines.
pub struct Driver {
    lines: Vec<String>,
    pos: usize,
    section: String,
    failed: bool,
}

impl Driver {
    /// The lines being scanned.
    pub closed spec fn spec_lines(&self) -> Seq<Seq<char>> {
        self.lines.deep_view()
    }

    /// The cursor: how many lines have been consumed.
    pub closed spec fn spec_pos(&self) -> int {
        self.pos as int
    }

    /// The persistent current-section name.
    pub closed spec fn spec_section(&self) -> Seq<char> {
        self.section@
    }

    /// Whether any case has failed so far.
    pub closed spec fn spec_failed(&self) -> bool {
        self.failed
    }

    /// The cursor never passes the end of the input.
    pub closed spec fn wf(&self) -> bool {
        self.pos <= self.lines@.len()
    }

    /// A scan over `lines`, starting before the first line with an empty
    /// section name and no failures recorded.
    pub fn new(lines: Vec<String>) -> (r: Driver)
        ensures
            r.wf(),
            r.spec_lines() == lines.deep_view(),
            r.spec_pos() == 0,
            r.spec_section() == Seq::<char>::empty(),
            !r.spec_failed(),
    {
        Driver { lines, pos: 0, section: String::new(), failed: false }
    }

    /// Parse the next case out of the input. `Ok(None)` ends the scan;
    /// `SyntaxError` is fatal and leaves no case to deliver.
    pub fn next_case(&mut self) -> (r: Result<Option<TestCase>, TestError>)
        requires
            old(self).wf(),
        ensures
            final(self).wf(),
            final(self).spec_lines() == old(self).spec_lines(),
            final(self).spec_failed() == old(self).spec_failed(),
            ({
                match spec_parse(
                    old(self).spec_lines(),
                    old(self).spec_pos(),
                    old(self).spec_section(),
                    Seq::<AttrView>::empty(),
                    true,
                ) {
                    ParseStep::NoMore { section, pos } => r == Ok::<Option<TestCase>, TestError>(
                        None::<TestCase>,
                    ) && final(self).spec_section() == section && final(self).spec_pos() == pos,
                    ParseStep::Emitted { attrs, section, pos } => (r matches Ok(Some(tc)) && tc@
                        == attrs) && final(self).spec_section() == section && final(self).spec_pos()
                        == pos,
                    ParseStep::Failed => r == Err::<Option<TestCase>, TestError>(
                        TestError::SyntaxError,
                    ),
                }
            }),
    {
        parse_test_case(&self.lines, &mut self.pos, &mut self.section)
    }

    /// Record the outcome of one case. Returns the case's failure kind, or
    /// `None` when the case passes; any failure makes the whole run fail.
    pub fn finish_case(&mut self, case: &TestCase, outcome: CallbackOutcome) -> (r: Option<
        TestError,
    >)
        ensures
            r == spec_classify(case@, outcome),
            final(self).spec_failed() == (old(self).spec_failed() || r is Some),
            final(self).spec_lines() == old(self).spec_lines(),
            final(self).spec_pos() == old(self).spec_pos(),
            final(self).spec_section() == old(self).spec_section(),
            old(self).wf() ==> final(self).wf(),
    {
        let r = match outcome {
            CallbackOutcome::Success => {
                if case.all_consumed() {
                    None
                } else {
                    Some(TestError::UnconsumedAttributes)
                }
            },
            CallbackOutcome::DomainError => Some(TestError::CallbackReturnedError),
            CallbackOutcome::Panicked => Some(TestError::CallbackPanicked),
        };
        match r {
            Some(_) => {
                self.failed = true;
            },
            None => {},
        }
        r
    }

    /// The section name the most recent case was read under.
    pub fn current_section(&self) -> (r: &String)
        ensures
            r@ == self.spec_section(),
    {
        &self.section
    }

    /// Whether the run as a whole has failed.
    pub fn any_failed(&self) -> (r: bool)
        ensures
            r == self.spec_failed(),
    {
        self.failed
    }
}

/// The base directory that test-vector file paths are resolved against: the
/// current working directory, where the test harness runs.
pub fn ring_src_path() -> (r: String)
    ensures
        r@ == "."@,
{
    String::from_str(".")
}

/// The header line of a per-case failure dump: `<path>: <failure reason>`.
pub fn format_failure_header(path: &str, err: &TestError) -> (r: String)
    ensures
        r@ == path@ + ": "@ + err.spec_message(),
{
    let mut out = String::from_str(path);
    out.append(": ");
    out.append(err.message());
    out
}

/// One attribute line of a failure dump: the attribute's name, a marker if
/// it was never consumed, and its raw value — exactly what reached the
/// callback.
pub fn format_attr_line(case: &TestCase, i: usize) -> (r: String)
    requires
        i < case@.len(),
    ensures
        r@ == case@[i as int].key + (if case@[i as int].consumed {
            Seq::<char>::empty()
        } else {
            " (unconsumed)"@
        }) + " = "@ + case@[i as int].value,
{
    let mut out = String::from_str(case.attr_key(i).as_str());
    if !case.attr_consumed(i) {
        out.append(" (unconsumed)");
    }
    out.append(" = ");
    out.append(case.attr_value(i).as_str());
    out
}

} // verus!
