use crate::object::{id_key, ObjectId, PdfObject};
use std::collections::HashMap;
use vstd::prelude::*;

verus! {

broadcast use vstd::std_specs::hash::group_hash_axioms;

/// Maps the identity of each page to its ordinal (from 1) in document
/// order; where a page is listed twice, its last position counts.
pub open spec fn page_index_spec(pages: Seq<ObjectId>) -> Map<u64, u32>
    decreases pages.len(),
{
    if pages.len() == 0 {
        Map::empty()
    } else {
        page_index_spec(pages.drop_last()).insert(id_key(pages.last()), pages.len() as u32)
    }
}

/// Builds the map from page identity to page ordinal, in one pass.
pub fn build_page_index(pages: &Vec<ObjectId>) -> (index: HashMap<u64, u32>)
    requires
        pages@.len() <= u32::MAX,
    ensures
        index@ == page_index_spec(pages@),
{
    let mut index: HashMap<u64, u32> = HashMap::new();
    let mut i: usize = 0;
    while i < pages.len()
        invariant
            i <= pages@.len(),
            pages@.len() <= u32::MAX,
            index@ == page_index_spec(pages@.subrange(0, i as int)),
        decreases pages@.len() - i,
    {
        let ghost before = pages@.subrange(0, i as int);
        assert(pages@.subrange(0, i + 1).drop_last() =~= before);
        let k = pages[i].key();
        index.insert(k, (i + 1) as u32);
        i = i + 1;
    }
    assert(pages@.subrange(0, pages@.len() as int) =~= pages@);
    index
}

/// The ordinal of the page with identity `id`, if it is a page.
pub open spec fn page_of(index: Map<u64, u32>, id: ObjectId) -> Option<u32> {
    if index.contains_key(id_key(id)) {
        Some(index[id_key(id)])
    } else {
        None
    }
}

/// The page that an explicit destination names: the first element of a
/// destination array, or a bare reference. Anything else, named
/// destinations included, stays unresolved.
pub open spec fn resolve_dest_spec(dest: PdfObject, index: Map<u64, u32>) -> Option<u32> {
    match dest {
        PdfObject::Array(items) => if items@.len() > 0 {
            match items@[0] {
                PdfObject::Reference(id) => page_of(index, id),
                _ => None,
            }
        } else {
            None
        },
        PdfObject::Reference(id) => page_of(index, id),
        _ => None,
    }
}

fn lookup_page(index: &HashMap<u64, u32>, id: ObjectId) -> (r: Option<u32>)
    ensures
        r == page_of(index@, id),
{
    match index.get(&id.key()) {
        Some(p) => Some(*p),
        None => None,
    }
}

/// Resolves a destination to a page ordinal.
pub fn resolve_dest(dest: &PdfObject, index: &HashMap<u64, u32>) -> (r: Option<u32>)
    ensures
        r == resolve_dest_spec(*dest, index@),
{
    match dest {
        PdfObject::Array(items) => {
            if items.len() > 0 {
                match &items[0] {
                    PdfObject::Reference(id) => lookup_page(index, *id),
                    _ => None,
                }
            } else {
                None
            }
        },
        PdfObject::Reference(id) => lookup_page(index, *id),
        _ => None,
    }
}

/// Distinct object identities have distinct keys.
pub proof fn lemma_id_key_injective(a: ObjectId, b: ObjectId)
    ensures
        id_key(a) == id_key(b) ==> a == b,
{
    let ka = (a.num as int) * 65536 + (a.gen as int);
    let kb = (b.num as int) * 65536 + (b.gen as int);
    assert(id_key(a) == ka) by (nonlinear_arith)
        requires ka == (a.num as int) * 65536 + (a.gen as int), a.num <= u32::MAX, a.gen <= u16::MAX;
    assert(id_key(b) == kb) by (nonlinear_arith)
        requires kb == (b.num as int) * 65536 + (b.gen as int), b.num <= u32::MAX, b.gen <= u16::MAX;
    if ka == kb {
        assert(a.num == b.num && a.gen == b.gen) by (nonlinear_arith)
            requires
                (a.num as int) * 65536 + (a.gen as int) == (b.num as int) * 65536 + (b.gen as int),
                0 <= a.gen < 65536,
                0 <= b.gen < 65536,
        ;
    }
}

proof fn lemma_page_index_entry(pages: Seq<ObjectId>, i: int)
    requires
        0 <= i < pages.len(),
        pages.len() <= u32::MAX,
        forall|j: int, k: int| 0 <= j < k < pages.len() ==> pages[j] != pages[k],
    ensures
        page_of(page_index_spec(pages), pages[i]) == Some((i + 1) as u32),
    decreases pages.len(),
{
    let last = pages.len() - 1;
    if i < last {
        lemma_id_key_injective(pages[i], pages[last]);
        lemma_page_index_entry(pages.drop_last(), i);
    }
}

proof fn lemma_page_index_absent(pages: Seq<ObjectId>, id: ObjectId)
    requires
        forall|j: int| 0 <= j < pages.len() ==> pages[j] != id,
    ensures
        page_of(page_index_spec(pages), id) is None,
    decreases pages.len(),
{
    if pages.len() > 0 {
        lemma_id_key_injective(pages.last(), id);
        lemma_page_index_absent(pages.drop_last(), id);
    }
}

/// A destination array whose first element refers to a page resolves to
/// that page's ordinal; a destination that refers to an object that is no
/// page, bare or as the first element of an array, stays unresolved.
pub proof fn lemma_resolve_known_and_unknown(
    pages: Seq<ObjectId>,
    i: int,
    dest: PdfObject,
    other: ObjectId,
    dangling: PdfObject,
)
    requires
        pages.len() <= u32::MAX,
        forall|j: int, k: int| 0 <= j < k < pages.len() ==> pages[j] != pages[k],
        0 <= i < pages.len(),
        dest is Array,
        dest->Array_0@.len() > 0,
        dest->Array_0@[0] == PdfObject::Reference(pages[i]),
        forall|j: int| 0 <= j < pages.len() ==> pages[j] != other,
        dangling is Array,
        dangling->Array_0@.len() > 0,
        dangling->Array_0@[0] == PdfObject::Reference(other),
    ensures
        resolve_dest_spec(dest, page_index_spec(pages)) == Some((i + 1) as u32),
        resolve_dest_spec(PdfObject::Reference(other), page_index_spec(pages)) is None,
        resolve_dest_spec(dangling, page_index_spec(pages)) is None,
{
    lemma_page_index_entry(pages, i);
    lemma_page_index_absent(pages, other);
}

} // verus!
