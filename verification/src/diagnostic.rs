//! Diagnostic records and the sink that collects them in order.

use vstd::prelude::*;
use crate::node::Span;

verus! {

/// How serious a diagnostic is.
#[derive(Clone, Copy, Debug, PartialEq, Eq, Structural)]
pub enum Severity {
    Warn,
    Error,
    Allow,
}

/// A diagnostic before the sink has numbered it: what a call of
/// [`DiagnosticSink::report`] is given.
pub struct Report {
    pub rule_id: Seq<char>,
    pub severity: Severity,
    pub message: Seq<char>,
    pub span: Span,
}

/// The mathematical value of a [`DiagnosticRecord`].
pub struct DiagnosticView {
    pub rule_id: Seq<char>,
    pub severity: Severity,
    pub message: Seq<char>,
    pub span: Span,
    pub sequence: nat,
}

/// One reported finding. The sequence number is given by the sink when the
/// record is emitted.
#[derive(Clone, Debug, PartialEq, Eq)]
pub struct DiagnosticRecord {
    pub rule_id: String,
    pub severity: Severity,
    pub message: String,
    pub span: Span,
    pub sequence: u64,
}

impl View for DiagnosticRecord {
    type V = DiagnosticView;

    open spec fn view(&self) -> DiagnosticView {
        DiagnosticView {
            rule_id: self.rule_id@,
            severity: self.severity,
            message: self.message@,
            span: self.span,
            sequence: self.sequence as nat,
        }
    }
}

impl DiagnosticRecord {
    /// A copy of the record, field by field.
    pub fn duplicate(&self) -> (copy: DiagnosticRecord)
        ensures
            copy@ == self@,
    {
        DiagnosticRecord {
            rule_id: self.rule_id.clone(),
            severity: self.severity,
            message: self.message.clone(),
            span: self.span,
            sequence: self.sequence,
        }
    }
}

/// The report numbered `sequence`.
pub open spec fn numbered(report: Report, sequence: nat) -> DiagnosticView {
    DiagnosticView {
        rule_id: report.rule_id,
        severity: report.severity,
        message: report.message,
        span: report.span,
        sequence,
    }
}

/// The records that a sink holding `before` holds after it was given
/// `reports` one by one: the old records, then one record for each report, in
/// the order given, each numbered by its place in the whole sequence.
pub open spec fn extended(before: Seq<DiagnosticView>, reports: Seq<Report>) -> Seq<DiagnosticView> {
    Seq::new(
        before.len() + reports.len(),
        |i: int|
            if i < before.len() {
                before[i]
            } else {
                numbered(reports[i - before.len()], i as nat)
            },
    )
}

/// Whether each record carries its own place in the sequence as its number.
pub open spec fn numbered_in_order(records: Seq<DiagnosticView>) -> bool {
    forall|i: int| 0 <= i < records.len() ==> (#[trigger] records[i]).sequence == i
}

/// The views of the records of a vector, in order.
pub open spec fn views_of(records: Seq<DiagnosticRecord>) -> Seq<DiagnosticView> {
    Seq::new(records.len(), |i: int| records[i]@)
}

/// The ordered collection of the diagnostics of one run.
pub struct DiagnosticSink {
    records: Vec<DiagnosticRecord>,
}

impl View for DiagnosticSink {
    type V = Seq<DiagnosticView>;

    closed spec fn view(&self) -> Seq<DiagnosticView> {
        views_of(self.records@)
    }
}

impl DiagnosticSink {
    /// The sink's invariant: the records are numbered 0, 1, 2, ... in the
    /// order in which they were emitted.
    pub open spec fn wf(&self) -> bool {
        numbered_in_order(self@)
    }

    /// An empty sink.
    pub fn new() -> (sink: DiagnosticSink)
        ensures
            sink@ == Seq::<DiagnosticView>::empty(),
            sink.wf(),
    {
        let sink = DiagnosticSink { records: Vec::new() };
        assert(sink@ =~= Seq::<DiagnosticView>::empty());
        sink
    }

    /// The number of records emitted so far.
    pub fn len(&self) -> (n: usize)
        ensures
            n == self@.len(),
    {
        self.records.len()
    }

    /// Appends one record with the next sequence number and returns a copy of
    /// it. Nothing is deduplicated, and no earlier record changes.
    pub fn report(&mut self, rule_id: String, severity: Severity, message: String, span: Span) -> (record: DiagnosticRecord)
        requires
            old(self).wf(),
        ensures
            final(self).wf(),
            final(self)@ == old(self)@.push(record@),
            record@ == numbered(
                (Report { rule_id: rule_id@, severity, message: message@, span }),
                old(self)@.len(),
            ),
    {
        let sequence: u64 = self.records.len() as u64;
        let record = DiagnosticRecord { rule_id, severity, message, span, sequence };
        let copy = record.duplicate();
        self.records.push(record);
        assert(final(self)@ =~= old(self)@.push(copy@));
        copy
    }

    /// Ends the run: hands out every record, in the order of emission.
    pub fn drain(self) -> (records: Vec<DiagnosticRecord>)
        ensures
            views_of(records@) == self@,
    {
        self.records
    }
}

/// Reporting one more diagnostic is extending by one report.
pub proof fn lemma_extended_push(before: Seq<DiagnosticView>, report: Report)
    ensures
        extended(before, seq![report]) == before.push(numbered(report, before.len())),
{
    assert(extended(before, seq![report]) =~= before.push(numbered(report, before.len())));
}

/// Extending by nothing changes nothing.
pub proof fn lemma_extended_empty(before: Seq<DiagnosticView>)
    ensures
        extended(before, Seq::<Report>::empty()) == before,
{
    assert(extended(before, Seq::<Report>::empty()) =~= before);
}

/// Extending twice is extending once by the concatenation.
pub proof fn lemma_extended_twice(before: Seq<DiagnosticView>, first: Seq<Report>, second: Seq<Report>)
    ensures
        extended(extended(before, first), second) == extended(before, first + second),
{
    assert(extended(extended(before, first), second) =~= extended(before, first + second));
}

/// Sequence numbers strictly increase in the order of emission, and no record
/// that was emitted is changed or withdrawn by what is emitted later.
pub proof fn lemma_extended_keeps_order(before: Seq<DiagnosticView>, reports: Seq<Report>)
    requires
        numbered_in_order(before),
    ensures
        numbered_in_order(extended(before, reports)),
        extended(before, reports).len() == before.len() + reports.len(),
        extended(before, reports).subrange(0, before.len() as int) == before,
        forall|i: int, j: int|
            0 <= i < j < extended(before, reports).len() ==> (#[trigger] extended(
                before,
                reports,
            )[i]).sequence < (#[trigger] extended(before, reports)[j]).sequence,
{
    assert(extended(before, reports).subrange(0, before.len() as int) =~= before);
}

} // verus!
