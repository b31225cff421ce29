use crate::destination::{resolve_dest, resolve_dest_spec};
use crate::geometry::{link_text, link_text_spec, normalize, normalize_spec, BBox, TextSpan};
use crate::names::{
    action, annots, dest, destination, file, go_to, go_to_remote, kind, link, name_action, name_annots,
    name_dest, name_destination, name_file, name_go_to, name_go_to_remote, name_kind, name_link,
    name_rect, name_subtype, name_uri, rect, subtype, uri,
};
use crate::object::{deref_spec, Dict, Document, ObjectId, PdfObject, UNITS_PER_POINT, bytes_eq};
use crate::text::{decimal, decimal_string, lossy_text, text_from_bytes};
use std::collections::HashMap;
use vstd::prelude::*;

verus! {

/// How a link leads on.
#[derive(Clone, Copy, Debug, PartialEq, Eq)]
pub enum LinkType {
    ExternalUri,
    RemoteGoToR,
    Internal,
    OtherAction,
}

pub open spec fn link_type_label(t: LinkType) -> Seq<char> {
    match t {
        LinkType::ExternalUri => "External (URI)"@,
        LinkType::RemoteGoToR => "Remote (GoToR)"@,
        LinkType::Internal => "Internal (GoTo/Dest)"@,
        LinkType::OtherAction => "Other Action"@,
    }
}

impl LinkType {
    /// The label under which the link type is reported.
    pub fn label(&self) -> (s: &'static str)
        ensures
            s@ == link_type_label(*self),
    {
        match self {
            LinkType::ExternalUri => "External (URI)",
            LinkType::RemoteGoToR => "Remote (GoToR)",
            LinkType::Internal => "Internal (GoTo/Dest)",
            LinkType::OtherAction => "Other Action",
        }
    }
}

/// One link annotation with its visible text and where it leads.
#[derive(Debug)]
pub struct LinkRecord {
    /// The page ordinal, from 1.
    pub page: u32,
    /// The link rectangle, corners ordered.
    pub rect: BBox,
    pub link_text: String,
    pub link_type: LinkType,
    pub target: String,
}

pub struct LinkView {
    pub page: u32,
    pub rect: BBox,
    pub link_text: Seq<char>,
    pub link_type: LinkType,
    pub target: Seq<char>,
}

impl View for LinkRecord {
    type V = LinkView;

    open spec fn view(&self) -> LinkView {
        LinkView {
            page: self.page,
            rect: self.rect,
            link_text: self.link_text@,
            link_type: self.link_type,
            target: self.target@,
        }
    }
}

pub open spec fn unknown_target() -> Seq<char> {
    "Unknown"@
}

pub open spec fn page_target(page: u32) -> Seq<char> {
    "Page "@ + decimal(page as nat)
}

pub open spec fn other_action() -> (LinkType, Seq<char>) {
    (LinkType::OtherAction, unknown_target())
}

/// What an action dictionary leads to, by its kind `S`.
pub open spec fn action_spec(action: Dict, index: Map<u64, u32>) -> (LinkType, Seq<char>) {
    match action.get_spec(name_kind()) {
        Some(PdfObject::Name(kind)) => if kind@ == name_uri() {
            match action.get_spec(name_uri()) {
                Some(PdfObject::Str(u)) => (LinkType::ExternalUri, lossy_text(u@)),
                _ => other_action(),
            }
        } else if kind@ == name_go_to_remote() {
            match action.get_spec(name_file()) {
                Some(PdfObject::Str(f)) => (LinkType::RemoteGoToR, lossy_text(f@)),
                _ => other_action(),
            }
        } else if kind@ == name_go_to() {
            match action.get_spec(name_destination()) {
                Some(d) => match resolve_dest_spec(d, index) {
                    Some(p) => (LinkType::Internal, page_target(p)),
                    None => other_action(),
                },
                None => other_action(),
            }
        } else {
            other_action()
        },
        _ => other_action(),
    }
}

/// What a link annotation leads to: its own resolved `Dest` first, else its
/// action dictionary `A`.
pub open spec fn classify_spec(objects: Map<u64, PdfObject>, index: Map<u64, u32>, annot: Dict) -> (LinkType, Seq<char>) {
    let own = match annot.get_spec(name_dest()) {
        Some(d) => resolve_dest_spec(d, index),
        None => None,
    };
    if own is Some {
        (LinkType::Internal, page_target(own.unwrap()))
    } else {
        match annot.get_spec(name_action()) {
            Some(a) => match deref_spec(objects, a) {
                Some(PdfObject::Dictionary(ad)) => action_spec(ad, index),
                _ => other_action(),
            },
            None => other_action(),
        }
    }
}

fn page_target_string(page: u32) -> (s: String)
    ensures
        s@ == page_target(page),
{
    let mut s = String::from_str("Page ");
    let digits = decimal_string(page);
    s.append(digits.as_str());
    s
}

fn other_action_pair() -> (r: (LinkType, String))
    ensures
        r.0 == other_action().0,
        r.1@ == other_action().1,
{
    (LinkType::OtherAction, String::from_str("Unknown"))
}

fn is_name(o: Option<&PdfObject>, name: &[u8]) -> (r: bool)
    ensures
        r == (o is Some && *o.unwrap() is Name && o.unwrap()->Name_0@ == name@),
{
    match o {
        Some(PdfObject::Name(n)) => bytes_eq(n.as_slice(), name),
        _ => false,
    }
}

fn classify_action(action: &Dict, index: &HashMap<u64, u32>) -> (r: (LinkType, String))
    ensures
        r.0 == action_spec(*action, index@).0,
        r.1@ == action_spec(*action, index@).1,
{
    let kind = action.get(&kind());
    if is_name(kind, &uri()) {
        match action.get(&uri()) {
            Some(PdfObject::Str(u)) => (LinkType::ExternalUri, text_from_bytes(u.as_slice())),
            _ => other_action_pair(),
        }
    } else if is_name(kind, &go_to_remote()) {
        match action.get(&file()) {
            Some(PdfObject::Str(f)) => (LinkType::RemoteGoToR, text_from_bytes(f.as_slice())),
            _ => other_action_pair(),
        }
    } else if is_name(kind, &go_to()) {
        match action.get(&destination()) {
            Some(d) => match resolve_dest(d, index) {
                Some(p) => (LinkType::Internal, page_target_string(p)),
                None => other_action_pair(),
            },
            None => other_action_pair(),
        }
    } else {
        other_action_pair()
    }
}

/// Decides the link type and target of a link annotation.
pub fn classify_link(doc: &Document, index: &HashMap<u64, u32>, annot: &Dict) -> (r: (LinkType, String))
    ensures
        r.0 == classify_spec(doc.objects@, index@, *annot).0,
        r.1@ == classify_spec(doc.objects@, index@, *annot).1,
{
    let own = match annot.get(&dest()) {
        Some(d) => resolve_dest(d, index),
        None => None,
    };
    match own {
        Some(p) => (LinkType::Internal, page_target_string(p)),
        None => match annot.get(&action()) {
            Some(a) => match doc.deref(a) {
                Some(PdfObject::Dictionary(ad)) => classify_action(ad, index),
                _ => other_action_pair(),
            },
            None => other_action_pair(),
        },
    }
}

/// A number of the object graph as a coordinate, in thousandths; `None` for
/// anything else, or for an integer too large to scale.
pub open spec fn coordinate_spec(o: PdfObject) -> Option<i64> {
    match o {
        PdfObject::Integer(i) => if i64::MIN <= i * UNITS_PER_POINT <= i64::MAX {
            Some((i * UNITS_PER_POINT) as i64)
        } else {
            None
        },
        PdfObject::Real(r) => Some(r),
        _ => None,
    }
}

/// The normalized rectangle of an annotation: its `Rect` must be an array of
/// exactly four numbers.
pub open spec fn rect_spec(annot: Dict) -> Option<BBox> {
    match annot.get_spec(name_rect()) {
        Some(PdfObject::Array(a)) => if a@.len() == 4 && coordinate_spec(a@[0]) is Some
            && coordinate_spec(a@[1]) is Some && coordinate_spec(a@[2]) is Some
            && coordinate_spec(a@[3]) is Some {
            Some(
                normalize_spec(
                    coordinate_spec(a@[0]).unwrap(),
                    coordinate_spec(a@[1]).unwrap(),
                    coordinate_spec(a@[2]).unwrap(),
                    coordinate_spec(a@[3]).unwrap(),
                ),
            )
        } else {
            None
        },
        _ => None,
    }
}

pub open spec fn is_link_spec(annot: Dict) -> bool {
    match annot.get_spec(name_subtype()) {
        Some(PdfObject::Name(n)) => n@ == name_link(),
        _ => false,
    }
}

/// The record of one entry of a page's annotation array, on page `page`;
/// `None` where the entry is no link annotation or is malformed.
pub open spec fn link_spec(
    objects: Map<u64, PdfObject>,
    index: Map<u64, u32>,
    spans: Seq<TextSpan>,
    tolerance: i64,
    page: u32,
    entry: PdfObject,
) -> Option<LinkView> {
    match deref_spec(objects, entry) {
        Some(PdfObject::Dictionary(d)) => if is_link_spec(d) && rect_spec(d) is Some {
            let r = rect_spec(d).unwrap();
            let c = classify_spec(objects, index, d);
            Some(LinkView { page, rect: r, link_text: link_text_spec(r, spans, page, tolerance), link_type: c.0, target: c.1 })
        } else {
            None
        },
        _ => None,
    }
}

/// The records of the entries of one annotation array, in order.
pub open spec fn links_in_spec(
    objects: Map<u64, PdfObject>,
    index: Map<u64, u32>,
    spans: Seq<TextSpan>,
    tolerance: i64,
    page: u32,
    entries: Seq<PdfObject>,
) -> Seq<LinkView>
    decreases entries.len(),
{
    if entries.len() == 0 {
        Seq::empty()
    } else {
        let prefix = links_in_spec(objects, index, spans, tolerance, page, entries.drop_last());
        match link_spec(objects, index, spans, tolerance, page, entries.last()) {
            Some(l) => prefix.push(l),
            None => prefix,
        }
    }
}

/// The entries of a page's annotation array; none where the page is missing,
/// is no dictionary, or has no such array.
pub open spec fn page_annots_spec(objects: Map<u64, PdfObject>, page: ObjectId) -> Seq<PdfObject> {
    match deref_spec(objects, PdfObject::Reference(page)) {
        Some(PdfObject::Dictionary(d)) => match d.get_spec(name_annots()) {
            Some(a) => match deref_spec(objects, a) {
                Some(PdfObject::Array(entries)) => entries@,
                _ => Seq::empty(),
            },
            None => Seq::empty(),
        },
        _ => Seq::empty(),
    }
}

/// The link records of the pages, page by page.
pub open spec fn links_spec(
    objects: Map<u64, PdfObject>,
    index: Map<u64, u32>,
    spans: Seq<TextSpan>,
    tolerance: i64,
    pages: Seq<ObjectId>,
) -> Seq<LinkView>
    decreases pages.len(),
{
    if pages.len() == 0 {
        Seq::empty()
    } else {
        links_spec(objects, index, spans, tolerance, pages.drop_last()) + links_in_spec(
            objects,
            index,
            spans,
            tolerance,
            pages.len() as u32,
            page_annots_spec(objects, pages.last()),
        )
    }
}

pub open spec fn views(v: Seq<LinkRecord>) -> Seq<LinkView> {
    v.map_values(|l: LinkRecord| l@)
}

fn coordinate(o: &PdfObject) -> (r: Option<i64>)
    ensures
        r == coordinate_spec(*o),
{
    match o {
        PdfObject::Integer(i) => {
            let i = *i;
            if -9223372036854775 <= i && i <= 9223372036854775 {
                assert(i64::MIN <= i * UNITS_PER_POINT <= i64::MAX) by (nonlinear_arith)
                    requires -9223372036854775 <= i <= 9223372036854775;
                Some(i * UNITS_PER_POINT)
            } else {
                assert(!(i64::MIN <= i * UNITS_PER_POINT <= i64::MAX)) by (nonlinear_arith)
                    requires !(-9223372036854775 <= i <= 9223372036854775);
                None
            }
        },
        PdfObject::Real(r) => Some(*r),
        _ => None,
    }
}

fn link_rect(annot: &Dict) -> (r: Option<BBox>)
    ensures
        r == rect_spec(*annot),
{
    match annot.get(&rect()) {
        Some(PdfObject::Array(a)) => {
            if a.len() != 4 {
                return None;
            }
            let x0 = coordinate(&a[0]);
            let y0 = coordinate(&a[1]);
            let x1 = coordinate(&a[2]);
            let y1 = coordinate(&a[3]);
            match (x0, y0, x1, y1) {
                (Some(x0), Some(y0), Some(x1), Some(y1)) => Some(normalize(x0, y0, x1, y1)),
                _ => None,
            }
        },
        _ => None,
    }
}

/// Builds the record of one entry of a page's annotation array.
pub fn link_record(
    doc: &Document,
    index: &HashMap<u64, u32>,
    spans: &Vec<TextSpan>,
    tolerance: i64,
    page: u32,
    entry: &PdfObject,
) -> (r: Option<LinkRecord>)
    ensures
        match link_spec(doc.objects@, index@, spans@, tolerance, page, *entry) {
            Some(l) => r is Some && r.unwrap()@ == l,
            None => r is None,
        },
{
    match doc.deref(entry) {
        Some(PdfObject::Dictionary(d)) => {
            if !is_name(d.get(&subtype()), &link()) {
                return None;
            }
            match link_rect(d) {
                Some(r) => {
                    let text = link_text(&r, spans, page, tolerance);
                    let (link_type, target) = classify_link(doc, index, d);
                    Some(LinkRecord { page, rect: r, link_text: text, link_type, target })
                },
                None => None,
            }
        },
        _ => None,
    }
}

fn page_annots<'a>(doc: &'a Document, page: ObjectId) -> (r: Option<&'a Vec<PdfObject>>)
    ensures
        match r {
            Some(a) => a@ == page_annots_spec(doc.objects@, page),
            None => page_annots_spec(doc.objects@, page) == Seq::<PdfObject>::empty(),
        },
{
    match doc.get_object(page) {
        Some(PdfObject::Dictionary(d)) => match d.get(&annots()) {
            Some(a) => match doc.deref(a) {
                Some(PdfObject::Array(entries)) => Some(entries),
                _ => None,
            },
            None => None,
        },
        _ => None,
    }
}

/// Walks the annotations of every page, in page order and, within a page,
/// in the order of its annotation array.
pub fn extract_links(doc: &Document, index: &HashMap<u64, u32>, spans: &Vec<TextSpan>, tolerance: i64) -> (links: Vec<LinkRecord>)
    requires
        doc.pages@.len() <= u32::MAX,
    ensures
        views(links@) == links_spec(doc.objects@, index@, spans@, tolerance, doc.pages@),
{
    let mut links: Vec<LinkRecord> = Vec::new();
    let mut i: usize = 0;
    while i < doc.pages.len()
        invariant
            i <= doc.pages@.len(),
            doc.pages@.len() <= u32::MAX,
            views(links@) == links_spec(doc.objects@, index@, spans@, tolerance, doc.pages@.subrange(0, i as int)),
        decreases doc.pages@.len() - i,
    {
        let ghost done = views(links@);
        assert(doc.pages@.subrange(0, i + 1).drop_last() =~= doc.pages@.subrange(0, i as int));
        let page = (i + 1) as u32;
        let pid = doc.pages[i];
        match page_annots(doc, pid) {
            Some(entries) => {
                let mut j: usize = 0;
                while j < entries.len()
                    invariant
                        j <= entries@.len(),
                        views(links@) == done + links_in_spec(doc.objects@, index@, spans@, tolerance, page, entries@.subrange(0, j as int)),
                    decreases entries@.len() - j,
                {
                    assert(entries@.subrange(0, j + 1).drop_last() =~= entries@.subrange(0, j as int));
                    match link_record(doc, index, spans, tolerance, page, &entries[j]) {
                        Some(l) => {
                            links.push(l);
                            assert(views(links@) =~= views(links@.drop_last()).push(l@));
                        },
                        None => {},
                    }
                    proof {
                        let pre = links_in_spec(doc.objects@, index@, spans@, tolerance, page, entries@.subrange(0, j as int));
                        match link_spec(doc.objects@, index@, spans@, tolerance, page, entries@[j as int]) {
                            Some(l) => assert(done + pre.push(l) =~= (done + pre).push(l)),
                            None => {},
                        }
                    }
                    j = j + 1;
                }
                assert(entries@.subrange(0, entries@.len() as int) =~= entries@);
            },
            None => {
                assert(done + Seq::<LinkView>::empty() =~= done);
            },
        }
        i = i + 1;
    }
    assert(doc.pages@.subrange(0, doc.pages@.len() as int) =~= doc.pages@);
    links
}

pub open spec fn record_well_formed(l: LinkView, page_count: nat) -> bool {
    &&& 1 <= l.page <= page_count
    &&& l.rect.is_normal()
    &&& l.link_type == LinkType::OtherAction ==> l.target == unknown_target()
}

proof fn lemma_links_in_well_formed(
    objects: Map<u64, PdfObject>,
    index: Map<u64, u32>,
    spans: Seq<TextSpan>,
    tolerance: i64,
    page: u32,
    entries: Seq<PdfObject>,
)
    ensures
        forall|i: int|
            0 <= i < links_in_spec(objects, index, spans, tolerance, page, entries).len() ==> {
                let l = #[trigger] links_in_spec(objects, index, spans, tolerance, page, entries)[i];
                &&& l.page == page
                &&& l.rect.is_normal()
                &&& l.link_type == LinkType::OtherAction ==> l.target == unknown_target()
            },
    decreases entries.len(),
{
    if entries.len() > 0 {
        lemma_links_in_well_formed(objects, index, spans, tolerance, page, entries.drop_last());
    }
}

/// Every link record lies on a page of the document, has its corners
/// ordered, and has the target `Unknown` when its action is of no known kind.
pub proof fn lemma_links_well_formed(
    objects: Map<u64, PdfObject>,
    index: Map<u64, u32>,
    spans: Seq<TextSpan>,
    tolerance: i64,
    pages: Seq<ObjectId>,
)
    requires
        pages.len() <= u32::MAX,
    ensures
        forall|i: int|
            0 <= i < links_spec(objects, index, spans, tolerance, pages).len() ==> record_well_formed(
                #[trigger] links_spec(objects, index, spans, tolerance, pages)[i],
                pages.len(),
            ),
    decreases pages.len(),
{
    if pages.len() > 0 {
        let before = links_spec(objects, index, spans, tolerance, pages.drop_last());
        let here = links_in_spec(objects, index, spans, tolerance, pages.len() as u32, page_annots_spec(objects, pages.last()));
        lemma_links_well_formed(objects, index, spans, tolerance, pages.drop_last());
        lemma_links_in_well_formed(objects, index, spans, tolerance, pages.len() as u32, page_annots_spec(objects, pages.last()));
        assert forall|i: int| 0 <= i < (before + here).len() implies record_well_formed((before + here)[i], pages.len()) by {
            if i < before.len() {
                assert(record_well_formed(before[i], (pages.len() - 1) as nat));
            } else {
                assert(here[i - before.len()] == (before + here)[i]);
            }
        }
    }
}

} // verus!
