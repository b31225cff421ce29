use pdflinkcheck::analysis::{extract_pdf_data, AnalysisResult, DEFAULT_TOLERANCE};
use pdflinkcheck::annotation::LinkType;
use pdflinkcheck::destination::{build_page_index, resolve_dest};
use pdflinkcheck::geometry::{bbox_within_tolerance, link_text, normalize, span_matches, BBox, TextSpan};
use pdflinkcheck::object::{Dict, Document, ObjectId, PdfObject, UNITS_PER_POINT};
use pdflinkcheck::text::{decimal_string, join_with_space};
use std::collections::HashMap;

fn id(num: u32) -> ObjectId {
    ObjectId { num, gen: 0 }
}

fn reference(num: u32) -> PdfObject {
    PdfObject::Reference(id(num))
}

fn name(s: &str) -> PdfObject {
    PdfObject::Name(s.as_bytes().to_vec())
}

fn text(s: &str) -> PdfObject {
    PdfObject::Str(s.as_bytes().to_vec())
}

fn dict(entries: Vec<(&str, PdfObject)>) -> Dict {
    Dict { entries: entries.into_iter().map(|(k, v)| (k.as_bytes().to_vec(), v)).collect() }
}

fn int_rect(x0: i64, y0: i64, x1: i64, y1: i64) -> PdfObject {
    PdfObject::Array(vec![
        PdfObject::Integer(x0),
        PdfObject::Integer(y0),
        PdfObject::Integer(x1),
        PdfObject::Integer(y1),
    ])
}

fn points(v: i64) -> i64 {
    v * UNITS_PER_POINT
}

fn span(page: u32, s: &str, min_x: i64, min_y: i64, max_x: i64, max_y: i64) -> TextSpan {
    TextSpan {
        page,
        text: s.to_string(),
        bbox: Some(BBox { min_x: points(min_x), min_y: points(min_y), max_x: points(max_x), max_y: points(max_y) }),
    }
}

/// A document whose page objects are numbered 1..=n_pages, each with the
/// annotation array given for it, plus the extra objects.
fn document(pages: Vec<Vec<PdfObject>>, extra: Vec<(u32, PdfObject)>, trailer: Dict) -> Document {
    let mut objects = HashMap::new();
    let mut page_ids = Vec::new();
    for (i, annots) in pages.into_iter().enumerate() {
        let pid = id(i as u32 + 1);
        page_ids.push(pid);
        objects.insert(
            pid.key(),
            PdfObject::Dictionary(dict(vec![("Type", name("Page")), ("Annots", PdfObject::Array(annots))])),
        );
    }
    for (num, obj) in extra {
        objects.insert(id(num).key(), obj);
    }
    Document { objects, pages: page_ids, trailer }
}

fn uri_link(rect: PdfObject, uri: &str) -> PdfObject {
    PdfObject::Dictionary(dict(vec![
        ("Type", name("Annot")),
        ("Subtype", name("Link")),
        ("Rect", rect),
        ("A", PdfObject::Dictionary(dict(vec![("S", name("URI")), ("URI", text(uri))]))),
    ]))
}

fn analyze(doc: &Document, spans: &Vec<TextSpan>) -> AnalysisResult {
    extract_pdf_data(doc, spans, DEFAULT_TOLERANCE)
}

#[test]
fn uri_link_over_text_end_to_end() {
    let doc = document(
        vec![vec![reference(100)]],
        vec![(100, uri_link(int_rect(100, 700, 180, 715), "https://example.com/docs"))],
        dict(vec![]),
    );
    let spans = vec![
        span(1, "Click here", 102, 702, 170, 712),
        span(1, "Far away text", 400, 100, 480, 110),
    ];
    let r = analyze(&doc, &spans);
    assert_eq!(r.links.len(), 1);
    let l = &r.links[0];
    assert_eq!(l.page, 1);
    assert_eq!(l.link_type, LinkType::ExternalUri);
    assert_eq!(l.link_type.label(), "External (URI)");
    assert_eq!(l.target, "https://example.com/docs");
    assert_eq!(l.link_text, "Click here");
    assert_eq!(l.rect, BBox { min_x: points(100), min_y: points(700), max_x: points(180), max_y: points(715) });
    assert!(r.toc.is_empty());
}

#[test]
fn link_over_no_text_is_graphic() {
    let doc = document(
        vec![vec![reference(100)]],
        vec![(100, uri_link(int_rect(100, 100, 150, 150), "https://example.com"))],
        dict(vec![]),
    );
    let spans = vec![span(1, "Elsewhere", 400, 400, 450, 410)];
    let r = analyze(&doc, &spans);
    assert_eq!(r.links.len(), 1);
    assert_eq!(r.links[0].link_text, "Graphic/Empty Link");
}

fn outline_node(title: &str, first: Option<u32>, next: Option<u32>, dest: Option<PdfObject>) -> PdfObject {
    let mut entries = vec![("Title", text(title))];
    if let Some(f) = first {
        entries.push(("First", reference(f)));
    }
    if let Some(n) = next {
        entries.push(("Next", reference(n)));
    }
    if let Some(d) = dest {
        entries.push(("Dest", d));
    }
    PdfObject::Dictionary(dict(entries))
}

fn outline_document(nodes: Vec<(u32, PdfObject)>, first: u32) -> Document {
    let mut extra = vec![
        (50, PdfObject::Dictionary(dict(vec![("Type", name("Catalog")), ("Outlines", reference(51))]))),
        (51, PdfObject::Dictionary(dict(vec![("Type", name("Outlines")), ("First", reference(first))]))),
    ];
    extra.extend(nodes);
    document(vec![vec![], vec![]], extra, dict(vec![("Root", reference(50))]))
}

fn toc_pairs(r: &AnalysisResult) -> Vec<(usize, String)> {
    r.toc.iter().map(|e| (e.level, e.title.clone())).collect()
}

#[test]
fn three_level_outline_in_pre_order() {
    let doc = outline_document(
        vec![
            (60, outline_node("A", Some(61), Some(62), None)),
            (61, outline_node("A.1", None, None, None)),
            (62, outline_node("B", None, None, None)),
        ],
        60,
    );
    let r = analyze(&doc, &vec![]);
    assert_eq!(
        toc_pairs(&r),
        vec![(1, "A".to_string()), (2, "A.1".to_string()), (1, "B".to_string())]
    );
}

#[test]
fn outline_destinations_resolve_to_pages() {
    let dest_array = PdfObject::Array(vec![reference(2), name("XYZ"), PdfObject::Null, PdfObject::Null, PdfObject::Null]);
    let doc = outline_document(
        vec![
            (60, outline_node("Intro", None, Some(61), Some(dest_array))),
            (61, outline_node("Named", None, None, Some(text("chapter-2")))),
        ],
        60,
    );
    let r = analyze(&doc, &vec![]);
    assert_eq!(r.toc.len(), 2);
    assert_eq!(r.toc[0].target_page, Some(2));
    assert_eq!(r.toc[1].target_page, None);
}

#[test]
fn outline_sibling_cycle_terminates() {
    let doc = outline_document(vec![(60, outline_node("Loop", None, Some(60), None))], 60);
    let r = analyze(&doc, &vec![]);
    assert_eq!(toc_pairs(&r), vec![(1, "Loop".to_string())]);
}

#[test]
fn outline_cycle_back_to_ancestor_terminates() {
    let doc = outline_document(
        vec![
            (60, outline_node("A", Some(61), Some(63), None)),
            (61, outline_node("A.1", None, Some(62), None)),
            (62, outline_node("A.2", None, Some(60), None)),
            (63, outline_node("B", None, None, None)),
        ],
        60,
    );
    let r = analyze(&doc, &vec![]);
    assert_eq!(
        toc_pairs(&r),
        vec![(1, "A".to_string()), (2, "A.1".to_string()), (2, "A.2".to_string()), (1, "B".to_string())]
    );
}

#[test]
fn outline_child_cycle_terminates() {
    let doc = outline_document(vec![(60, outline_node("Self", Some(60), None, None))], 60);
    let r = analyze(&doc, &vec![]);
    assert_eq!(toc_pairs(&r), vec![(1, "Self".to_string())]);
}

#[test]
fn outline_skips_dangling_and_untitled_nodes() {
    let doc = outline_document(
        vec![
            (60, outline_node("A", Some(99), Some(61), None)),
            (61, PdfObject::Dictionary(dict(vec![("Title", PdfObject::Integer(3))]))),
        ],
        60,
    );
    let r = analyze(&doc, &vec![]);
    assert_eq!(toc_pairs(&r), vec![(1, "A".to_string()), (1, String::new())]);
}

#[test]
fn outline_title_with_invalid_utf8_is_replaced() {
    let node = PdfObject::Dictionary(dict(vec![("Title", PdfObject::Str(vec![b'A', 0xff, b'B']))]));
    let doc = outline_document(vec![(60, node)], 60);
    let r = analyze(&doc, &vec![]);
    assert_eq!(r.toc[0].title, "A\u{fffd}B");
}

#[test]
fn analysis_is_idempotent() {
    let doc = document(
        vec![vec![reference(100), reference(101)], vec![reference(102)]],
        vec![
            (100, uri_link(int_rect(10, 10, 60, 20), "https://a.example")),
            (101, uri_link(int_rect(10, 50, 60, 60), "https://b.example")),
            (102, uri_link(int_rect(10, 10, 60, 20), "https://c.example")),
        ],
        dict(vec![]),
    );
    let spans = vec![span(1, "first", 12, 12, 40, 18), span(2, "second", 12, 12, 40, 18)];
    let a = format!("{:?}", analyze(&doc, &spans));
    let b = format!("{:?}", analyze(&doc, &spans));
    assert_eq!(a, b);
}

#[test]
fn links_ordered_by_page_then_annotation() {
    let doc = document(
        vec![vec![reference(100), reference(101)], vec![reference(102)]],
        vec![
            (100, uri_link(int_rect(10, 10, 60, 20), "https://a.example")),
            (101, uri_link(int_rect(10, 50, 60, 60), "https://b.example")),
            (102, uri_link(int_rect(10, 10, 60, 20), "https://c.example")),
        ],
        dict(vec![]),
    );
    let spans = vec![span(1, "first", 12, 12, 40, 18), span(2, "second", 12, 12, 40, 18)];
    let r = analyze(&doc, &spans);
    let seen: Vec<(u32, String, String)> =
        r.links.iter().map(|l| (l.page, l.target.clone(), l.link_text.clone())).collect();
    assert_eq!(
        seen,
        vec![
            (1, "https://a.example".to_string(), "first".to_string()),
            (1, "https://b.example".to_string(), "Graphic/Empty Link".to_string()),
            (2, "https://c.example".to_string(), "second".to_string()),
        ]
    );
}

#[test]
fn reversed_corners_normalize_alike() {
    let a = normalize(10, 20, 30, 40);
    assert_eq!(a, BBox { min_x: 10, min_y: 20, max_x: 30, max_y: 40 });
    assert_eq!(normalize(30, 40, 10, 20), a);
    assert_eq!(normalize(10, 40, 30, 20), a);
    assert_eq!(normalize(30, 20, 10, 40), a);
}

#[test]
fn reversed_rect_in_annotation_is_normalized() {
    let doc = document(
        vec![vec![reference(100)]],
        vec![(100, uri_link(int_rect(180, 715, 100, 700), "https://example.com"))],
        dict(vec![]),
    );
    let spans = vec![span(1, "Click here", 102, 702, 170, 712)];
    let r = analyze(&doc, &spans);
    assert_eq!(r.links[0].rect, BBox { min_x: points(100), min_y: points(700), max_x: points(180), max_y: points(715) });
    assert_eq!(r.links[0].link_text, "Click here");
}

#[test]
fn tolerance_boundary_is_inclusive() {
    let r = BBox { min_x: 0, min_y: 0, max_x: 100, max_y: 100 };
    for t in [0i64, 1, 10, 10_000] {
        let at = BBox { min_x: 100 + t, min_y: 10, max_x: 200 + t, max_y: 20 };
        let beyond = BBox { min_x: 101 + t, min_y: 10, max_x: 201 + t, max_y: 20 };
        assert!(bbox_within_tolerance(&r, &at, t));
        assert!(!bbox_within_tolerance(&r, &beyond, t));
        let below = BBox { min_x: 10, min_y: -50 - t, max_x: 20, max_y: -t };
        let further_below = BBox { min_x: 10, min_y: -51 - t, max_x: 20, max_y: -1 - t };
        assert!(bbox_within_tolerance(&r, &below, t));
        assert!(!bbox_within_tolerance(&r, &further_below, t));
    }
}

#[test]
fn tolerance_default_is_ten_units() {
    let rect = BBox { min_x: points(100), min_y: points(100), max_x: points(200), max_y: points(120) };
    let near = span(1, "near", 210, 105, 240, 115);
    let far = span(1, "far", 211, 105, 240, 115);
    assert!(span_matches(&rect, &near, 1, DEFAULT_TOLERANCE));
    assert!(!span_matches(&rect, &far, 1, DEFAULT_TOLERANCE));
    assert_eq!(DEFAULT_TOLERANCE, 10_000);
}

#[test]
fn extreme_coordinates_do_not_overflow() {
    let r = BBox { min_x: i64::MIN, min_y: i64::MIN, max_x: i64::MAX, max_y: i64::MAX };
    let b = BBox { min_x: i64::MAX, min_y: i64::MAX, max_x: i64::MAX, max_y: i64::MAX };
    assert!(bbox_within_tolerance(&r, &b, i64::MAX));
    assert!(bbox_within_tolerance(&r, &b, 0));
    let far = BBox { min_x: i64::MAX, min_y: 0, max_x: i64::MAX, max_y: 0 };
    let small = BBox { min_x: i64::MIN, min_y: 0, max_x: i64::MIN, max_y: 0 };
    assert!(!bbox_within_tolerance(&small, &far, i64::MAX));
}

#[test]
fn spans_without_box_or_on_other_pages_are_ignored() {
    let rect = BBox { min_x: points(0), min_y: points(0), max_x: points(100), max_y: points(20) };
    let spans = vec![
        TextSpan { page: 1, text: "unplaced".to_string(), bbox: None },
        span(2, "other page", 10, 5, 50, 15),
        span(1, "  kept  ", 10, 5, 50, 15),
        span(1, "   ", 10, 5, 50, 15),
        span(1, "also", 60, 5, 90, 15),
    ];
    assert_eq!(link_text(&rect, &spans, 1, DEFAULT_TOLERANCE), "kept also");
    assert_eq!(link_text(&rect, &spans, 3, DEFAULT_TOLERANCE), "Graphic/Empty Link");
}

#[test]
fn blank_spans_only_give_graphic_link() {
    let rect = BBox { min_x: 0, min_y: 0, max_x: points(100), max_y: points(20) };
    let spans = vec![span(1, " \t ", 10, 5, 50, 15), span(1, "", 10, 5, 50, 15)];
    assert_eq!(link_text(&rect, &spans, 1, DEFAULT_TOLERANCE), "Graphic/Empty Link");
}

#[test]
fn page_index_and_destinations() {
    let pages = vec![id(4), id(9), id(7)];
    let index = build_page_index(&pages);
    let explicit = PdfObject::Array(vec![reference(9), name("Fit")]);
    assert_eq!(resolve_dest(&explicit, &index), Some(2));
    assert_eq!(resolve_dest(&reference(7), &index), Some(3));
    assert_eq!(resolve_dest(&reference(5), &index), None);
    assert_eq!(resolve_dest(&PdfObject::Array(vec![reference(5), name("Fit")]), &index), None);
    assert_eq!(resolve_dest(&PdfObject::Array(vec![]), &index), None);
    assert_eq!(resolve_dest(&text("named"), &index), None);
    assert_eq!(resolve_dest(&PdfObject::Array(vec![PdfObject::Integer(0), name("Fit")]), &index), None);
    assert_eq!(resolve_dest(&name("named"), &index), None);
}

#[test]
fn page_index_uses_generation_in_identity() {
    let pages = vec![ObjectId { num: 4, gen: 0 }];
    let index = build_page_index(&pages);
    let other_gen = PdfObject::Reference(ObjectId { num: 4, gen: 1 });
    assert_eq!(resolve_dest(&other_gen, &index), None);
}

fn annotation(entries: Vec<(&str, PdfObject)>) -> PdfObject {
    let mut all = vec![("Subtype", name("Link")), ("Rect", int_rect(0, 0, 10, 10))];
    all.extend(entries);
    PdfObject::Dictionary(dict(all))
}

fn action(entries: Vec<(&str, PdfObject)>) -> PdfObject {
    PdfObject::Dictionary(dict(entries))
}

fn classify_one(annot: PdfObject) -> (LinkType, String) {
    let doc = document(vec![vec![reference(100)], vec![], vec![]], vec![(100, annot)], dict(vec![]));
    let r = analyze(&doc, &vec![]);
    assert_eq!(r.links.len(), 1);
    (r.links[0].link_type, r.links[0].target.clone())
}

#[test]
fn own_destination_takes_priority() {
    let got = classify_one(annotation(vec![
        ("Dest", PdfObject::Array(vec![reference(3), name("Fit")])),
        ("A", action(vec![("S", name("URI")), ("URI", text("https://ignored.example"))])),
    ]));
    assert_eq!(got, (LinkType::Internal, "Page 3".to_string()));
    assert_eq!(got.0.label(), "Internal (GoTo/Dest)");
}

#[test]
fn unresolved_own_destination_falls_back_to_action() {
    let got = classify_one(annotation(vec![
        ("Dest", text("named-destination")),
        ("A", action(vec![("S", name("URI")), ("URI", text("https://used.example"))])),
    ]));
    assert_eq!(got, (LinkType::ExternalUri, "https://used.example".to_string()));
}

#[test]
fn goto_action_resolves_page() {
    let got = classify_one(annotation(vec![(
        "A",
        action(vec![("S", name("GoTo")), ("D", PdfObject::Array(vec![reference(2), name("XYZ")]))]),
    )]));
    assert_eq!(got, (LinkType::Internal, "Page 2".to_string()));
}

#[test]
fn goto_named_destination_is_other_action() {
    let got = classify_one(annotation(vec![("A", action(vec![("S", name("GoTo")), ("D", text("chapter"))]))]));
    assert_eq!(got, (LinkType::OtherAction, "Unknown".to_string()));
    assert_eq!(got.0.label(), "Other Action");
}

#[test]
fn remote_goto_records_file() {
    let got = classify_one(annotation(vec![(
        "A",
        action(vec![("S", name("GoToR")), ("F", text("other.pdf")), ("D", PdfObject::Array(vec![reference(1)]))]),
    )]));
    assert_eq!(got, (LinkType::RemoteGoToR, "other.pdf".to_string()));
    assert_eq!(got.0.label(), "Remote (GoToR)");
}

#[test]
fn remote_goto_without_file_is_other_action() {
    let got = classify_one(annotation(vec![("A", action(vec![("S", name("GoToR"))]))]));
    assert_eq!(got, (LinkType::OtherAction, "Unknown".to_string()));
}

#[test]
fn uri_action_without_uri_is_other_action() {
    let got = classify_one(annotation(vec![("A", action(vec![("S", name("URI")), ("URI", PdfObject::Integer(1))]))]));
    assert_eq!(got, (LinkType::OtherAction, "Unknown".to_string()));
}

#[test]
fn unknown_action_kind_and_missing_action() {
    let launch = classify_one(annotation(vec![("A", action(vec![("S", name("Launch")), ("F", text("x.exe"))]))]));
    assert_eq!(launch, (LinkType::OtherAction, "Unknown".to_string()));
    let none = classify_one(annotation(vec![]));
    assert_eq!(none, (LinkType::OtherAction, "Unknown".to_string()));
}

#[test]
fn indirect_action_dictionary_is_followed() {
    let doc = document(
        vec![vec![reference(100)]],
        vec![
            (100, annotation(vec![("A", reference(101))])),
            (101, action(vec![("S", name("URI")), ("URI", text("https://indirect.example"))])),
        ],
        dict(vec![]),
    );
    let r = analyze(&doc, &vec![]);
    assert_eq!(r.links[0].target, "https://indirect.example");
}

#[test]
fn uri_bytes_decode_lossily() {
    let got = classify_one(annotation(vec![(
        "A",
        action(vec![("S", name("URI")), ("URI", PdfObject::Str(vec![b'h', b'i', 0xc3]))]),
    )]));
    assert_eq!(got, (LinkType::ExternalUri, "hi\u{fffd}".to_string()));
}

#[test]
fn malformed_annotations_are_skipped() {
    let three_numbers = PdfObject::Array(vec![PdfObject::Integer(0), PdfObject::Integer(0), PdfObject::Integer(5)]);
    let not_number = PdfObject::Array(vec![
        PdfObject::Integer(0),
        PdfObject::Integer(0),
        text("5"),
        PdfObject::Integer(5),
    ]);
    let doc = document(
        vec![vec![
            reference(100),
            reference(101),
            reference(102),
            reference(103),
            reference(999),
            PdfObject::Integer(7),
            reference(104),
        ]],
        vec![
            (100, PdfObject::Dictionary(dict(vec![("Subtype", name("Text")), ("Rect", int_rect(0, 0, 1, 1))]))),
            (101, PdfObject::Dictionary(dict(vec![("Subtype", name("Link")), ("Rect", three_numbers)]))),
            (102, PdfObject::Dictionary(dict(vec![("Subtype", name("Link")), ("Rect", not_number)]))),
            (103, PdfObject::Dictionary(dict(vec![("Subtype", name("Link"))]))),
            (104, annotation(vec![])),
        ],
        dict(vec![]),
    );
    let r = analyze(&doc, &vec![]);
    assert_eq!(r.links.len(), 1);
    assert_eq!(r.links[0].page, 1);
}

#[test]
fn real_coordinates_keep_fractions() {
    let rect = PdfObject::Array(vec![
        PdfObject::Real(10_500),
        PdfObject::Integer(20),
        PdfObject::Real(5_250),
        PdfObject::Real(-1_000),
    ]);
    let doc = document(vec![vec![reference(100)]], vec![(100, uri_link(rect, "u"))], dict(vec![]));
    let r = analyze(&doc, &vec![]);
    assert_eq!(r.links[0].rect, BBox { min_x: 5_250, min_y: -1_000, max_x: 10_500, max_y: 20_000 });
}

#[test]
fn huge_integer_coordinate_is_malformed() {
    let rect = int_rect(0, 0, i64::MAX / 10, 10);
    let doc = document(vec![vec![reference(100)]], vec![(100, uri_link(rect, "u"))], dict(vec![]));
    let r = analyze(&doc, &vec![]);
    assert!(r.links.is_empty());
}

#[test]
fn indirect_annotation_array_and_missing_pages() {
    let mut doc = document(
        vec![vec![]],
        vec![
            (100, uri_link(int_rect(0, 0, 10, 10), "https://x.example")),
            (200, PdfObject::Array(vec![reference(100)])),
        ],
        dict(vec![]),
    );
    doc.objects.insert(
        id(1).key(),
        PdfObject::Dictionary(dict(vec![("Type", name("Page")), ("Annots", reference(200))])),
    );
    doc.pages.push(id(77));
    let r = analyze(&doc, &vec![]);
    assert_eq!(r.links.len(), 1);
    assert_eq!(r.links[0].target, "https://x.example");
}

#[test]
fn empty_document_gives_empty_result() {
    let doc = Document { objects: HashMap::new(), pages: vec![], trailer: dict(vec![]) };
    let r = analyze(&doc, &vec![]);
    assert!(r.links.is_empty());
    assert!(r.toc.is_empty());
}

#[test]
fn page_numbers_in_decimal() {
    assert_eq!(decimal_string(0), "0");
    assert_eq!(decimal_string(7), "7");
    assert_eq!(decimal_string(10), "10");
    assert_eq!(decimal_string(4_294_967_295), "4294967295");
}

#[test]
fn words_join_with_single_spaces() {
    assert_eq!(join_with_space(&vec![]), "");
    assert_eq!(join_with_space(&vec!["one".to_string()]), "one");
    assert_eq!(join_with_space(&vec!["one".to_string(), "two".to_string(), "three".to_string()]), "one two three");
}

#[test]
fn dictionary_lookup_takes_first_entry() {
    let d = dict(vec![("K", PdfObject::Integer(1)), ("K", PdfObject::Integer(2))]);
    assert!(matches!(d.get(b"K"), Some(PdfObject::Integer(1))));
    assert!(d.get(b"L").is_none());
}
