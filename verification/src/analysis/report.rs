use vstd::prelude::*;

use crate::syntax::Range;

verus! {

/// A finding of an analysis, as plain values.
pub struct ReportView {
    pub range: Range,
    pub secondary_ranges: Seq<Range>,
    pub kind: Seq<char>,
    pub values: Seq<(Seq<char>, Seq<char>)>,
    pub replacements: Seq<(Range, Seq<char>)>,
}

/// A finding of an analysis: the span it is about, related spans, what kind of finding
/// it is, named values that describe it, and replacement texts for spans.
#[derive(Debug, Clone)]
pub struct Report {
    pub range: Range,
    pub secondary_ranges: Vec<Range>,
    pub kind: &'static str,
    pub values: Vec<(&'static str, String)>,
    pub replacements: Vec<(Range, String)>,
}

impl View for Report {
    type V = ReportView;

    open spec fn view(&self) -> ReportView {
        ReportView {
            range: self.range,
            secondary_ranges: self.secondary_ranges@,
            kind: self.kind@,
            values: self.values@.map_values(|v: (&'static str, String)| (v.0@, v.1@)),
            replacements: self.replacements@.map_values(|v: (Range, String)| (v.0, v.1@)),
        }
    }
}

/// Where an analysis puts its findings.
pub trait AnalysisSink {
    /// The findings put here so far, in order.
    spec fn reported(&self) -> Seq<ReportView>;

    /// Adds a finding after those put here so far.
    fn report(
        &mut self,
        range: Range,
        secondary_ranges: Vec<Range>,
        kind: &'static str,
        values: Vec<(&'static str, String)>,
        replacements: Vec<(Range, String)>,
    )
        ensures
            final(self).reported() == old(self).reported().push(
                Report { range, secondary_ranges, kind, values, replacements }@,
            ),
    ;
}

/// A sink that keeps the findings in a list.
#[derive(Debug, Clone)]
pub struct SimpleSink {
    pub data: Vec<Report>,
}

impl SimpleSink {
    /// A sink without findings.
    pub fn new() -> (r: SimpleSink)
        ensures
            r.reported() == Seq::<ReportView>::empty(),
    {
        let r = SimpleSink { data: Vec::new() };
        assert(r.reported() =~= Seq::<ReportView>::empty());
        r
    }
}

impl AnalysisSink for SimpleSink {
    open spec fn reported(&self) -> Seq<ReportView> {
        self.data@.map_values(|r: Report| r@)
    }

    fn report(
        &mut self,
        range: Range,
        secondary_ranges: Vec<Range>,
        kind: &'static str,
        values: Vec<(&'static str, String)>,
        replacements: Vec<(Range, String)>,
    ) {
        let ghost before = self.reported();
        let report = Report { range, secondary_ranges, kind, values, replacements };
        let ghost view = report@;
        self.data.push(report);
        assert(self.reported() =~= before.push(view));
    }
}

} // verus!
