//! The in-memory model of an API description: paths, operations, request
//! bodies and one recursive schema record used at every nesting level.
//!
//! Every mapping of the description is held as a vector of named entries, in
//! the order of its keys.
use vstd::prelude::*;
use crate::ordered::{keys_in_order, keys_increasing, Keyed};

verus! {

/// A schema node. Any combination of the optional parts may be present; the
/// summarizer defines which one wins.
pub struct Schema {
    pub typ: Option<String>,
    pub reference: Option<String>,
    pub format: Option<String>,
    pub properties: Option<Vec<SchemaEntry>>,
    pub items: Option<Box<Schema>>,
    pub one_of: Option<Vec<Schema>>,
}

/// A named schema: an object property, or an entry of the component registry.
pub struct SchemaEntry {
    pub name: String,
    pub schema: Schema,
}

pub struct MediaType {
    pub schema: Option<Schema>,
}

/// One media type of a request body, such as `application/json`.
pub struct MediaEntry {
    pub media_type: String,
    pub media: MediaType,
}

pub struct RequestBody {
    pub content: Vec<MediaEntry>,
}

pub struct Operation {
    pub summary: Option<String>,
    pub request_body: Option<RequestBody>,
}

/// One HTTP method of a path, by its lower-case name.
pub struct MethodEntry {
    pub method: String,
    pub operation: Operation,
}

/// One path template with its operations.
pub struct PathEntry {
    pub path: String,
    pub methods: Vec<MethodEntry>,
}

/// A whole description: its paths and the registry of reusable schemas (empty
/// when the description has none).
pub struct Document {
    pub paths: Vec<PathEntry>,
    pub schemas: Vec<SchemaEntry>,
}

impl Keyed for SchemaEntry {
    open spec fn key_view(&self) -> Seq<char> {
        self.name@
    }

    fn key(&self) -> (r: &String) {
        &self.name
    }
}

impl Keyed for MediaEntry {
    open spec fn key_view(&self) -> Seq<char> {
        self.media_type@
    }

    fn key(&self) -> (r: &String) {
        &self.media_type
    }
}

impl Keyed for MethodEntry {
    open spec fn key_view(&self) -> Seq<char> {
        self.method@
    }

    fn key(&self) -> (r: &String) {
        &self.method
    }
}

impl Keyed for PathEntry {
    open spec fn key_view(&self) -> Seq<char> {
        self.path@
    }

    fn key(&self) -> (r: &String) {
        &self.path
    }
}

impl RequestBody {
    /// Media types are distinct and in order.
    pub open spec fn well_formed(&self) -> bool {
        keys_increasing(self.content@)
    }
}

impl PathEntry {
    /// Methods are distinct and in lexicographic order, the order in which
    /// they are processed.
    pub open spec fn well_formed(&self) -> bool {
        keys_increasing(self.methods@)
    }
}

impl Document {
    /// Paths and registered schemas are distinct and in order, and so are the
    /// methods of each path.
    pub open spec fn well_formed(&self) -> bool {
        &&& keys_increasing(self.paths@)
        &&& keys_increasing(self.schemas@)
        &&& forall|i: int| 0 <= i < self.paths@.len() ==> (#[trigger] self.paths@[i]).well_formed()
    }

    /// Whether the document is well formed.
    pub fn is_well_formed(&self) -> (r: bool)
        ensures
            r == self.well_formed(),
    {
        if !keys_in_order(&self.paths) || !keys_in_order(&self.schemas) {
            return false;
        }
        let mut i: usize = 0;
        while i < self.paths.len()
            invariant
                i <= self.paths@.len(),
                forall|k: int| 0 <= k < i ==> (#[trigger] self.paths@[k]).well_formed(),
            decreases self.paths@.len() - i,
        {
            if !keys_in_order(&self.paths[i].methods) {
                return false;
            }
            i += 1;
        }
        true
    }
}

/// The first schema of `entries` registered under `name`.
pub open spec fn lookup_schema(entries: Seq<SchemaEntry>, name: Seq<char>) -> Option<Schema>
    decreases entries.len(),
{
    if entries.len() == 0 {
        None
    } else if entries[0].name@ == name {
        Some(entries[0].schema)
    } else {
        lookup_schema(entries.drop_first(), name)
    }
}

/// The first media type of `entries` listed under `key`.
pub open spec fn lookup_media(entries: Seq<MediaEntry>, key: Seq<char>) -> Option<MediaType>
    decreases entries.len(),
{
    if entries.len() == 0 {
        None
    } else if entries[0].media_type@ == key {
        Some(entries[0].media)
    } else {
        lookup_media(entries.drop_first(), key)
    }
}

/// Index of the first entry named `name`, if any.
pub fn find_schema(entries: &Vec<SchemaEntry>, name: &String) -> (r: Option<usize>)
    ensures
        match r {
            Some(i) => i < entries@.len() && lookup_schema(entries@, name@) == Some(
                entries@[i as int].schema,
            ),
            None => lookup_schema(entries@, name@) is None,
        },
{
    let mut i: usize = 0;
    assert(entries@.subrange(0, entries@.len() as int) =~= entries@);
    while i < entries.len()
        invariant
            i <= entries@.len(),
            lookup_schema(entries@, name@) == lookup_schema(
                entries@.subrange(i as int, entries@.len() as int),
                name@,
            ),
        decreases entries@.len() - i,
    {
        let rest = Ghost(entries@.subrange(i as int, entries@.len() as int));
        assert(rest@.drop_first() =~= entries@.subrange(i + 1, entries@.len() as int));
        if entries[i].name == *name {
            return Some(i);
        }
        i += 1;
    }
    assert(entries@.subrange(i as int, entries@.len() as int).len() == 0);
    None
}

/// Index of the first entry listed under `key`, if any.
pub fn find_media(entries: &Vec<MediaEntry>, key: &String) -> (r: Option<usize>)
    ensures
        match r {
            Some(i) => i < entries@.len() && lookup_media(entries@, key@) == Some(
                entries@[i as int].media,
            ),
            None => lookup_media(entries@, key@) is None,
        },
{
    let mut i: usize = 0;
    assert(entries@.subrange(0, entries@.len() as int) =~= entries@);
    while i < entries.len()
        invariant
            i <= entries@.len(),
            lookup_media(entries@, key@) == lookup_media(
                entries@.subrange(i as int, entries@.len() as int),
                key@,
            ),
        decreases entries@.len() - i,
    {
        let rest = Ghost(entries@.subrange(i as int, entries@.len() as int));
        assert(rest@.drop_first() =~= entries@.subrange(i + 1, entries@.len() as int));
        if entries[i].media_type == *key {
            return Some(i);
        }
        i += 1;
    }
    assert(entries@.subrange(i as int, entries@.len() as int).len() == 0);
    None
}

} // verus!
