use std::collections::HashMap;
use vstd::prelude::*;

verus! {

broadcast use vstd::std_specs::hash::group_hash_axioms;

/// Fixed-point scale of every coordinate in this crate: a coordinate of
/// `1000` stands for one unit of the page's native space.
pub const UNITS_PER_POINT: i64 = 1000;

/// Identity of an indirect object: its object number and generation.
#[derive(Clone, Copy, Debug, PartialEq, Eq)]
pub struct ObjectId {
    pub num: u32,
    pub gen: u16,
}

/// The map key that stands for an object identity.
pub open spec fn id_key(id: ObjectId) -> u64 {
    ((id.num as u64) * 65536 + (id.gen as u64)) as u64
}

impl ObjectId {
    pub fn key(&self) -> (k: u64)
        ensures
            k == id_key(*self),
    {
        (self.num as u64) * 65536 + (self.gen as u64)
    }
}

/// A value of the document's object graph.
///
/// Names and strings are kept as raw bytes. A `Real` holds its value in
/// thousandths (see `UNITS_PER_POINT`), an `Integer` holds it as written.
#[derive(Debug)]
pub enum PdfObject {
    Null,
    Boolean(bool),
    Integer(i64),
    Real(i64),
    Name(Vec<u8>),
    Str(Vec<u8>),
    Array(Vec<PdfObject>),
    Dictionary(Dict),
    Stream(Dict),
    Reference(ObjectId),
}

/// A dictionary, in the order its entries were written.
#[derive(Debug)]
pub struct Dict {
    pub entries: Vec<(Vec<u8>, PdfObject)>,
}

/// The value of the first entry whose key is `key`.
pub open spec fn lookup(entries: Seq<(Vec<u8>, PdfObject)>, key: Seq<u8>) -> Option<PdfObject>
    decreases entries.len(),
{
    if entries.len() == 0 {
        None
    } else if entries[0].0@ == key {
        Some(entries[0].1)
    } else {
        lookup(entries.drop_first(), key)
    }
}

pub fn bytes_eq(a: &[u8], b: &[u8]) -> (r: bool)
    ensures
        r == (a@ == b@),
{
    if a.len() != b.len() {
        return false;
    }
    let mut i: usize = 0;
    while i < a.len()
        invariant
            a@.len() == b@.len(),
            i <= a@.len(),
            forall|j: int| 0 <= j < i ==> a@[j] == b@[j],
        decreases a@.len() - i,
    {
        if a[i] != b[i] {
            return false;
        }
        i = i + 1;
    }
    proof {
        assert(a@ =~= b@);
    }
    true
}

impl Dict {
    pub open spec fn get_spec(&self, key: Seq<u8>) -> Option<PdfObject> {
        lookup(self.entries@, key)
    }

    /// The value stored under `key`, from the first entry that has it.
    pub fn get(&self, key: &[u8]) -> (r: Option<&PdfObject>)
        ensures
            match self.get_spec(key@) {
                Some(v) => r is Some && *r.unwrap() == v,
                None => r is None,
            },
    {
        let mut i: usize = 0;
        assert(self.entries@.subrange(0, self.entries@.len() as int) =~= self.entries@);
        while i < self.entries.len()
            invariant
                i <= self.entries@.len(),
                lookup(self.entries@, key@) == lookup(self.entries@.subrange(i as int, self.entries@.len() as int), key@),
            decreases self.entries@.len() - i,
        {
            let ghost rest = self.entries@.subrange(i as int, self.entries@.len() as int);
            if bytes_eq(self.entries[i].0.as_slice(), key) {
                return Some(&self.entries[i].1);
            }
            assert(rest.drop_first() =~= self.entries@.subrange(i + 1, self.entries@.len() as int));
            i = i + 1;
        }
        None
    }
}

/// The object graph of one document: its indirect objects by identity key,
/// its pages in document order, and its trailer.
#[derive(Debug)]
pub struct Document {
    pub objects: HashMap<u64, PdfObject>,
    pub pages: Vec<ObjectId>,
    pub trailer: Dict,
}

/// The object that `o` stands for: the target of a reference, or `o` itself.
pub open spec fn deref_spec(objects: Map<u64, PdfObject>, o: PdfObject) -> Option<PdfObject> {
    match o {
        PdfObject::Reference(id) => if objects.contains_key(id_key(id)) {
            Some(objects[id_key(id)])
        } else {
            None
        },
        _ => Some(o),
    }
}

impl Document {
    /// The indirect object with identity `id`, if the document holds one.
    pub fn get_object(&self, id: ObjectId) -> (r: Option<&PdfObject>)
        ensures
            self.objects@.contains_key(id_key(id)) ==> r is Some && *r.unwrap() == self.objects@[id_key(id)],
            !self.objects@.contains_key(id_key(id)) ==> r is None,
    {
        let k = id.key();
        self.objects.get(&k)
    }

    /// Follows one reference; any other object stands for itself.
    pub fn deref<'a>(&'a self, o: &'a PdfObject) -> (r: Option<&'a PdfObject>)
        ensures
            match deref_spec(self.objects@, *o) {
                Some(v) => r is Some && *r.unwrap() == v,
                None => r is None,
            },
    {
        match o {
            PdfObject::Reference(id) => self.get_object(*id),
            _ => Some(o),
        }
    }
}

} // verus!
