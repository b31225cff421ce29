use crate::text::{join_with_space, join_words, texts, trim, trim_text};
use vstd::prelude::*;

verus! {

/// A rectangle in page coordinates (see `UNITS_PER_POINT`), with
/// `min_x <= max_x` and `min_y <= max_y` when it comes from `normalize`.
#[derive(Clone, Copy, Debug, PartialEq, Eq)]
pub struct BBox {
    pub min_x: i64,
    pub min_y: i64,
    pub max_x: i64,
    pub max_y: i64,
}

impl BBox {
    pub open spec fn is_normal(self) -> bool {
        self.min_x <= self.max_x && self.min_y <= self.max_y
    }
}

/// A positioned run of text on one page (pages counted from 1). A span that
/// could not be placed has no bounding box.
#[derive(Debug)]
pub struct TextSpan {
    pub page: u32,
    pub text: String,
    pub bbox: Option<BBox>,
}

pub open spec fn min_of(a: i64, b: i64) -> i64 {
    if a <= b { a } else { b }
}

pub open spec fn max_of(a: i64, b: i64) -> i64 {
    if a <= b { b } else { a }
}

/// The rectangle spanned by the corners `(x0, y0)` and `(x1, y1)`.
pub open spec fn normalize_spec(x0: i64, y0: i64, x1: i64, y1: i64) -> BBox {
    BBox { min_x: min_of(x0, x1), min_y: min_of(y0, y1), max_x: max_of(x0, x1), max_y: max_of(y0, y1) }
}

/// Orders the two corners of a link rectangle, axis by axis.
pub fn normalize(x0: i64, y0: i64, x1: i64, y1: i64) -> (r: BBox)
    ensures
        r == normalize_spec(x0, y0, x1, y1),
        r.is_normal(),
{
    BBox {
        min_x: if x0 <= x1 { x0 } else { x1 },
        min_y: if y0 <= y1 { y0 } else { y1 },
        max_x: if x0 <= x1 { x1 } else { x0 },
        max_y: if y0 <= y1 { y1 } else { y0 },
    }
}

/// Whether `b` meets the rectangle `r` grown by `tolerance` on every side.
pub open spec fn within_tolerance(r: BBox, b: BBox, tolerance: i64) -> bool {
    &&& r.min_x - tolerance <= b.max_x
    &&& r.max_x + tolerance >= b.min_x
    &&& r.min_y - tolerance <= b.max_y
    &&& r.max_y + tolerance >= b.min_y
}

/// Whether a span takes part in the text of a link on `page` with rectangle `r`.
pub open spec fn span_selected(r: BBox, s: TextSpan, page: u32, tolerance: i64) -> bool {
    &&& s.page == page
    &&& s.bbox is Some
    &&& within_tolerance(r, s.bbox.unwrap(), tolerance)
}

pub fn bbox_within_tolerance(r: &BBox, b: &BBox, tolerance: i64) -> (m: bool)
    ensures
        m == within_tolerance(*r, *b, tolerance),
{
    let t = tolerance as i128;
    (r.min_x as i128) - t <= b.max_x as i128
        && (r.max_x as i128) + t >= b.min_x as i128
        && (r.min_y as i128) - t <= b.max_y as i128
        && (r.max_y as i128) + t >= b.min_y as i128
}

pub fn span_matches(r: &BBox, s: &TextSpan, page: u32, tolerance: i64) -> (m: bool)
    ensures
        m == span_selected(*r, *s, page, tolerance),
{
    if s.page != page {
        return false;
    }
    match &s.bbox {
        Some(b) => bbox_within_tolerance(r, b, tolerance),
        None => false,
    }
}

/// The trimmed, non-blank texts of the selected spans, in layout order.
pub open spec fn matched_parts(r: BBox, spans: Seq<TextSpan>, page: u32, tolerance: i64) -> Seq<Seq<char>>
    decreases spans.len(),
{
    if spans.len() == 0 {
        Seq::empty()
    } else {
        let prefix = matched_parts(r, spans.drop_last(), page, tolerance);
        let s = spans.last();
        if span_selected(r, s, page, tolerance) && trim(s.text@).len() > 0 {
            prefix.push(trim(s.text@))
        } else {
            prefix
        }
    }
}

/// The text of a link that covers no visible text.
pub open spec fn empty_link_text() -> Seq<char> {
    "Graphic/Empty Link"@
}

/// The text of a link with rectangle `r` on `page`.
pub open spec fn link_text_spec(r: BBox, spans: Seq<TextSpan>, page: u32, tolerance: i64) -> Seq<char> {
    let parts = matched_parts(r, spans, page, tolerance);
    if parts.len() == 0 {
        empty_link_text()
    } else {
        trim(join_words(parts))
    }
}

/// Joins the texts of the spans on `page` that meet `r` grown by `tolerance`.
pub fn link_text(r: &BBox, spans: &Vec<TextSpan>, page: u32, tolerance: i64) -> (t: String)
    ensures
        t@ == link_text_spec(*r, spans@, page, tolerance),
{
    let mut parts: Vec<String> = Vec::new();
    let mut i: usize = 0;
    while i < spans.len()
        invariant
            i <= spans@.len(),
            texts(parts@) == matched_parts(*r, spans@.subrange(0, i as int), page, tolerance),
        decreases spans@.len() - i,
    {
        let ghost before = spans@.subrange(0, i as int);
        assert(spans@.subrange(0, i + 1).drop_last() =~= before);
        let s = &spans[i];
        if span_matches(r, s, page, tolerance) {
            let word = trim_text(s.text.as_str());
            if !word.as_str().is_empty() {
                parts.push(word);
                assert(texts(parts@) =~= texts(parts@.drop_last()).push(word@));
            }
        }
        i = i + 1;
    }
    assert(spans@.subrange(0, spans@.len() as int) =~= spans@);
    if parts.len() == 0 {
        String::from_str("Graphic/Empty Link")
    } else {
        let joined = join_with_space(&parts);
        trim_text(joined.as_str())
    }
}

/// Listing the two corners of a rectangle in either order, or along either
/// diagonal, gives the same normalized rectangle.
pub proof fn lemma_normalize_corner_order(x0: i64, y0: i64, x1: i64, y1: i64)
    ensures
        normalize_spec(x0, y0, x1, y1) == normalize_spec(x1, y1, x0, y0),
        normalize_spec(x0, y0, x1, y1) == normalize_spec(x0, y1, x1, y0),
        normalize_spec(x0, y0, x1, y1) == normalize_spec(x1, y0, x0, y1),
{
}

/// A box lying exactly `tolerance` units beyond a link rectangle along one
/// axis, and overlapping it along the other, still meets it; one lying
/// farther than that does not. This holds on each of the four sides.
pub proof fn lemma_tolerance_boundary(r: BBox, b: BBox, tolerance: i64, gap: int)
    requires
        r.is_normal(),
        b.is_normal(),
        gap >= 0,
        ({
            let x_overlap = b.min_x <= r.max_x && r.min_x <= b.max_x;
            let y_overlap = b.min_y <= r.max_y && r.min_y <= b.max_y;
            ||| y_overlap && (b.min_x == r.max_x + gap || b.max_x == r.min_x - gap)
            ||| x_overlap && (b.min_y == r.max_y + gap || b.max_y == r.min_y - gap)
        }),
    ensures
        within_tolerance(r, b, tolerance) <==> gap <= tolerance,
{
}

} // verus!
