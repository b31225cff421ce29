use crate::destination::{resolve_dest, resolve_dest_spec};
use crate::names::{dest, first, name_dest, name_first, name_next, name_outlines, name_root, name_title, next, outlines, root, title};
use crate::object::{deref_spec, id_key, Dict, Document, ObjectId, PdfObject};
use crate::text::{lossy_text, text_from_bytes};
use std::collections::{HashMap, HashSet};
use vstd::prelude::*;
use vstd::set_lib::lemma_len_subset;
use vstd::std_specs::hash::spec_hash_map_len;

verus! {

broadcast use vstd::std_specs::hash::group_hash_axioms;

/// One entry of the table of contents.
#[derive(Debug)]
pub struct TocEntry {
    /// The depth in the outline; the outline root's children are at 1.
    pub level: usize,
    /// The decoded title, empty where the node has none.
    pub title: String,
    /// The page that the node's destination resolves to.
    pub target_page: Option<u32>,
}

pub struct TocView {
    pub level: nat,
    pub title: Seq<char>,
    pub target_page: Option<u32>,
}

impl View for TocEntry {
    type V = TocView;

    open spec fn view(&self) -> TocView {
        TocView { level: self.level as nat, title: self.title@, target_page: self.target_page }
    }
}

pub open spec fn toc_views(v: Seq<TocEntry>) -> Seq<TocView> {
    v.map_values(|e: TocEntry| e@)
}

pub open spec fn title_spec(node: Dict) -> Seq<char> {
    match node.get_spec(name_title()) {
        Some(PdfObject::Str(b)) => lossy_text(b@),
        _ => Seq::empty(),
    }
}

pub open spec fn node_target_spec(node: Dict, index: Map<u64, u32>) -> Option<u32> {
    match node.get_spec(name_dest()) {
        Some(d) => resolve_dest_spec(d, index),
        None => None,
    }
}

/// The identity of the node that `key` links to, where it links by reference.
pub open spec fn link_of(node: Dict, key: Seq<u8>) -> Option<ObjectId> {
    match node.get_spec(key) {
        Some(PdfObject::Reference(id)) => Some(id),
        _ => None,
    }
}

/// The pending nodes after visiting `node` at depth `depth`: its next
/// sibling at the same depth, and above it its first child one deeper.
pub open spec fn push_links(rest: Seq<(ObjectId, nat)>, node: Dict, depth: nat) -> Seq<(ObjectId, nat)> {
    let with_next = match link_of(node, name_next()) {
        Some(n) => rest.push((n, depth)),
        None => rest,
    };
    match link_of(node, name_first()) {
        Some(f) => with_next.push((f, depth + 1)),
        None => with_next,
    }
}

/// The pre-order walk of the outline from the pending nodes `stack` (its
/// last element is visited first; each carries its depth counted from 0),
/// given the nodes already visited. A node seen before, missing, or not a
/// dictionary is passed over, so that a cycle ends the branch it closes.
pub open spec fn walk_spec(
    objects: Map<u64, PdfObject>,
    index: Map<u64, u32>,
    stack: Seq<(ObjectId, nat)>,
    visited: Set<u64>,
) -> Seq<TocView>
    decreases (objects.dom() - visited).len(), stack.len(),
    when objects.dom().finite()
{
    if stack.len() == 0 {
        Seq::empty()
    } else {
        let id = stack.last().0;
        let depth = stack.last().1;
        let rest = stack.drop_last();
        let k = id_key(id);
        if !visited.contains(k) && objects.contains_key(k) && objects[k] is Dictionary {
            let node = objects[k]->Dictionary_0;
            let entry = TocView { level: depth + 1, title: title_spec(node), target_page: node_target_spec(node, index) };
            proof {
                lemma_visit_shrinks(objects.dom(), visited, k);
            }
            seq![entry] + walk_spec(objects, index, push_links(rest, node, depth), visited.insert(k))
        } else {
            walk_spec(objects, index, rest, visited)
        }
    }
}

/// Visiting a node not seen before leaves fewer nodes to visit.
pub proof fn lemma_visit_shrinks(dom: Set<u64>, visited: Set<u64>, k: u64)
    requires
        dom.finite(),
        dom.contains(k),
        !visited.contains(k),
    ensures
        (dom - visited.insert(k)).len() < (dom - visited).len(),
{
    assert((dom - visited.insert(k)) =~= (dom - visited).remove(k));
}

/// The first item of the document's outline: `Root`, then `Outlines`, then
/// `First`, each dictionary found directly or through one reference.
pub open spec fn outline_start(objects: Map<u64, PdfObject>, trailer: Dict) -> Option<ObjectId> {
    match trailer.get_spec(name_root()) {
        Some(r) => match deref_spec(objects, r) {
            Some(PdfObject::Dictionary(catalog)) => match catalog.get_spec(name_outlines()) {
                Some(o) => match deref_spec(objects, o) {
                    Some(PdfObject::Dictionary(outline)) => link_of(outline, name_first()),
                    _ => None,
                },
                None => None,
            },
            _ => None,
        },
        None => None,
    }
}

/// The table of contents of a document.
pub open spec fn toc_spec(objects: Map<u64, PdfObject>, index: Map<u64, u32>, trailer: Dict) -> Seq<TocView> {
    match outline_start(objects, trailer) {
        Some(f) => walk_spec(objects, index, seq![(f, 0nat)], Set::empty()),
        None => Seq::empty(),
    }
}

pub open spec fn depths(stack: Seq<(ObjectId, usize)>) -> Seq<(ObjectId, nat)> {
    stack.map_values(|e: (ObjectId, usize)| (e.0, e.1 as nat))
}

fn reference_in(node: &Dict, key: &[u8]) -> (r: Option<ObjectId>)
    ensures
        r == link_of(*node, key@),
{
    match node.get(key) {
        Some(PdfObject::Reference(id)) => Some(*id),
        _ => None,
    }
}

fn find_outline_start(doc: &Document) -> (r: Option<ObjectId>)
    ensures
        r == outline_start(doc.objects@, doc.trailer),
{
    match doc.trailer.get(&root()) {
        Some(r) => match doc.deref(r) {
            Some(PdfObject::Dictionary(catalog)) => match catalog.get(&outlines()) {
                Some(o) => match doc.deref(o) {
                    Some(PdfObject::Dictionary(outline)) => reference_in(outline, &first()),
                    _ => None,
                },
                None => None,
            },
            _ => None,
        },
        None => None,
    }
}

fn toc_entry(node: &Dict, index: &HashMap<u64, u32>, level: usize) -> (e: TocEntry)
    ensures
        e@ == (TocView { level: level as nat, title: title_spec(*node), target_page: node_target_spec(*node, index@) }),
{
    let title = match node.get(&title()) {
        Some(PdfObject::Str(b)) => text_from_bytes(b.as_slice()),
        _ => String::new(),
    };
    let target_page = match node.get(&dest()) {
        Some(d) => resolve_dest(d, index),
        None => None,
    };
    TocEntry { level, title, target_page }
}

/// Flattens the outline into table-of-contents entries, in pre-order.
/// Every node is visited at most once, which bounds the walk on an outline
/// whose links form a cycle.
pub fn extract_toc(doc: &Document, index: &HashMap<u64, u32>) -> (toc: Vec<TocEntry>)
    ensures
        toc_views(toc@) == toc_spec(doc.objects@, index@, doc.trailer),
{
    let mut toc: Vec<TocEntry> = Vec::new();
    let start = find_outline_start(doc);
    let f = match start {
        Some(f) => f,
        None => return toc,
    };
    let ghost objects = doc.objects@;
    let ghost whole = walk_spec(objects, index@, seq![(f, 0nat)], Set::empty());
    let mut stack: Vec<(ObjectId, usize)> = Vec::new();
    stack.push((f, 0));
    let mut visited: HashSet<u64> = HashSet::new();
    proof {
        assert(depths(stack@) =~= seq![(f, 0nat)]);
        assert(toc_views(toc@) + whole =~= whole);
        assert(objects.len() == spec_hash_map_len(&doc.objects));
    }
    while stack.len() > 0
        invariant
            objects == doc.objects@,
            objects.dom().finite(),
            objects.dom().len() <= usize::MAX,
            visited@.subset_of(objects.dom()),
            whole == walk_spec(objects, index@, seq![(f, 0nat)], Set::empty()),
            forall|i: int| 0 <= i < stack@.len() ==> stack@[i].1 <= visited@.len(),
            toc_views(toc@) + walk_spec(objects, index@, depths(stack@), visited@) == whole,
        decreases (objects.dom() - visited@).len(), stack@.len(),
    {
        let ghost old_stack = stack@;
        let ghost old_visited = visited@;
        let (id, depth) = stack.pop().unwrap();
        assert(depths(stack@) =~= depths(old_stack).drop_last());
        let k = id.key();
        proof {
            lemma_len_subset(visited@, objects.dom());
        }
        if !visited.contains(&k) {
            match doc.objects.get(&k) {
                Some(PdfObject::Dictionary(node)) => {
                    proof {
                        lemma_visit_shrinks(objects.dom(), visited@, k);
                        lemma_len_subset(visited@.insert(k), objects.dom());
                    }
                    visited.insert(k);
                    let entry = toc_entry(node, index, depth + 1);
                    let ghost e = entry@;
                    toc.push(entry);
                    let ghost rest = depths(stack@);
                    match reference_in(node, &next()) {
                        Some(n) => stack.push((n, depth)),
                        None => {},
                    }
                    match reference_in(node, &first()) {
                        Some(c) => stack.push((c, depth + 1)),
                        None => {},
                    }
                    proof {
                        assert(depths(stack@) =~= push_links(rest, *node, depth as nat));
                        assert(toc_views(toc@) =~= toc_views(toc@.drop_last()).push(e));
                        assert(toc_views(toc@) + walk_spec(objects, index@, depths(stack@), visited@)
                            =~= toc_views(toc@.drop_last()) + (seq![e] + walk_spec(objects, index@, depths(stack@), visited@)));
                    }
                },
                _ => {},
            }
        }
    }
    toc
}

/// The walk emits at most one entry per node not yet visited, each at a
/// level of at least 1.
pub proof fn lemma_walk_bounded(
    objects: Map<u64, PdfObject>,
    index: Map<u64, u32>,
    stack: Seq<(ObjectId, nat)>,
    visited: Set<u64>,
)
    requires
        objects.dom().finite(),
    ensures
        walk_spec(objects, index, stack, visited).len() <= (objects.dom() - visited).len(),
        forall|i: int|
            0 <= i < walk_spec(objects, index, stack, visited).len() ==> #[trigger] walk_spec(
                objects,
                index,
                stack,
                visited,
            )[i].level >= 1,
    decreases (objects.dom() - visited).len(), stack.len(),
{
    if stack.len() > 0 {
        let id = stack.last().0;
        let depth = stack.last().1;
        let rest = stack.drop_last();
        let k = id_key(id);
        if !visited.contains(k) && objects.contains_key(k) && objects[k] is Dictionary {
            let node = objects[k]->Dictionary_0;
            lemma_visit_shrinks(objects.dom(), visited, k);
            lemma_walk_bounded(objects, index, push_links(rest, node, depth), visited.insert(k));
        } else {
            lemma_walk_bounded(objects, index, rest, visited);
        }
    }
}

/// The outline walk ends on every object graph, cyclic ones included: it
/// yields at most one entry per object, and it yields the first item, at
/// level 1, whenever that item is a dictionary. In particular a first item
/// whose next-sibling link leads back to itself, and which has no child,
/// yields exactly one entry.
pub proof fn lemma_outline_walk_bounded(objects: Map<u64, PdfObject>, index: Map<u64, u32>, trailer: Dict)
    requires
        objects.dom().finite(),
    ensures
        toc_spec(objects, index, trailer).len() <= objects.dom().len(),
        forall|i: int| 0 <= i < toc_spec(objects, index, trailer).len() ==> #[trigger] toc_spec(objects, index, trailer)[i].level >= 1,
        ({
            let start = outline_start(objects, trailer);
            start is Some && objects.contains_key(id_key(start.unwrap()))
                && objects[id_key(start.unwrap())] is Dictionary ==> {
                let node = objects[id_key(start.unwrap())]->Dictionary_0;
                &&& toc_spec(objects, index, trailer).len() >= 1
                &&& toc_spec(objects, index, trailer)[0].level == 1
                &&& toc_spec(objects, index, trailer)[0].title == title_spec(node)
                &&& link_of(node, name_next()) == start && link_of(node, name_first()) is None
                    ==> toc_spec(objects, index, trailer).len() == 1
            }
        }),
{
    let empty = Set::<u64>::empty();
    assert(objects.dom() - empty =~= objects.dom());
    match outline_start(objects, trailer) {
        Some(f) => {
            let stack = seq![(f, 0nat)];
            lemma_walk_bounded(objects, index, stack, empty);
            let k = id_key(f);
            if objects.contains_key(k) && objects[k] is Dictionary {
                let node = objects[k]->Dictionary_0;
                let rest = stack.drop_last();
                let next_stack = push_links(rest, node, 0);
                if link_of(node, name_next()) == Some(f) && link_of(node, name_first()) is None {
                    let seen = empty.insert(k);
                    lemma_visit_shrinks(objects.dom(), empty, k);
                    assert(next_stack.drop_last() =~= Seq::<(ObjectId, nat)>::empty());
                    assert(walk_spec(objects, index, next_stack.drop_last(), seen) =~= Seq::<TocView>::empty());
                    assert(walk_spec(objects, index, next_stack, seen) =~= Seq::<TocView>::empty());
                }
            }
        },
        None => {},
    }
}

} // verus!
