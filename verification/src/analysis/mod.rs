//! Checks on parsed documents: whether each determinator agrees with its noun.
pub mod determinator;
pub mod gender;
pub mod noun_constituent;
pub mod report;

use vstd::prelude::*;

pub use self::determinator::DeterminatorExtensions;
pub use self::gender::{GenderAnalysis, GenderAnalyzer};
pub use self::noun_constituent::{
    core_index, document_reports, noun_constituent_reports, nouns_are_in_catalog, nouns_in_catalog,
    sentence_reports, Analyzer, DeterminatorValidator,
};
pub use self::report::{AnalysisSink, Report, ReportView, SimpleSink};

use crate::catalog::Catalog;
use crate::syntax::Document;

verus! {

/// Runs every analysis on the document and gives all their findings, analysis by
/// analysis.
pub fn analyze(document: &Document, catalog: &Catalog) -> (r: Vec<Report>)
    requires
        nouns_in_catalog(document@, catalog@),
    ensures
        r@.map_values(|report: Report| report@) == document_reports(document@, catalog@),
{
    let mut analyzer = DeterminatorValidator {};
    let mut sink = SimpleSink::new();
    analyzer.analyze(document, catalog, &mut sink);
    assert(Seq::<ReportView>::empty() + document_reports(document@, catalog@) =~= document_reports(
        document@,
        catalog@,
    ));
    sink.data
}

} // verus!
