use crate::annotation::{extract_links, lemma_links_well_formed, links_spec, record_well_formed, views, LinkRecord, LinkView};
use crate::destination::{build_page_index, page_index_spec};
use crate::geometry::TextSpan;
use crate::object::{Document, UNITS_PER_POINT};
use crate::outline::{extract_toc, lemma_outline_walk_bounded, toc_spec, toc_views, TocEntry, TocView};
use vstd::prelude::*;

verus! {

broadcast use vstd::std_specs::hash::group_hash_axioms;

/// How far, in coordinate units, a text span may lie from a link rectangle
/// and still count as its text: ten units of page space.
pub const DEFAULT_TOLERANCE: i64 = 10 * UNITS_PER_POINT;

/// The links and the table of contents of one document.
#[derive(Debug)]
pub struct AnalysisResult {
    pub links: Vec<LinkRecord>,
    pub toc: Vec<TocEntry>,
}

pub struct AnalysisView {
    pub links: Seq<LinkView>,
    pub toc: Seq<TocView>,
}

impl View for AnalysisResult {
    type V = AnalysisView;

    open spec fn view(&self) -> AnalysisView {
        AnalysisView { links: views(self.links@), toc: toc_views(self.toc@) }
    }
}

/// What the analysis of a document yields, given the text spans of its pages.
pub open spec fn analysis_spec(doc: Document, spans: Seq<TextSpan>, tolerance: i64) -> AnalysisView {
    let index = page_index_spec(doc.pages@);
    AnalysisView {
        links: links_spec(doc.objects@, index, spans, tolerance, doc.pages@),
        toc: toc_spec(doc.objects@, index, doc.trailer),
    }
}

/// Builds the page index, walks the annotations of all pages, then the
/// outline, and packages both.
pub fn extract_pdf_data(doc: &Document, spans: &Vec<TextSpan>, tolerance: i64) -> (r: AnalysisResult)
    requires
        doc.pages@.len() <= u32::MAX,
    ensures
        r@ == analysis_spec(*doc, spans@, tolerance),
        forall|i: int| 0 <= i < r@.links.len() ==> record_well_formed(#[trigger] r@.links[i], doc.pages@.len()),
        r@.toc.len() <= doc.objects@.len(),
        forall|i: int| 0 <= i < r@.toc.len() ==> #[trigger] r@.toc[i].level >= 1,
{
    let index = build_page_index(&doc.pages);
    let links = extract_links(doc, &index, spans, tolerance);
    let toc = extract_toc(doc, &index);
    proof {
        lemma_links_well_formed(doc.objects@, index@, spans@, tolerance, doc.pages@);
        lemma_outline_walk_bounded(doc.objects@, index@, doc.trailer);
    }
    AnalysisResult { links, toc }
}

/// The analysis depends on nothing but the document's objects, pages and
/// trailer and the text spans: two runs on the same inputs agree.
pub proof fn lemma_analysis_deterministic(
    a: Document,
    b: Document,
    spans_a: Seq<TextSpan>,
    spans_b: Seq<TextSpan>,
    tolerance: i64,
)
    requires
        a.objects@ == b.objects@,
        a.pages@ == b.pages@,
        a.trailer == b.trailer,
        spans_a == spans_b,
    ensures
        analysis_spec(a, spans_a, tolerance) == analysis_spec(b, spans_b, tolerance),
{
}

} // verus!
