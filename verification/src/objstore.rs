//! Object store: "everything is a database".
//!
//! Objects are named by a hash of their content, carry tags and metadata,
//! and are found again by identifier or by tag. All access from tasks goes
//! through the capability-gated facade.

pub mod gated;
pub mod store;

use crate::text::{hex_padded, hex_padded_string};
use crate::text_map::TextMap;
use vstd::prelude::*;
use vstd::slice::slice_to_vec;
use vstd::string::StringExecFns;

verus! {

/// FNV-1a offset basis for 64-bit hashes.
pub const FNV_OFFSET_BASIS: u64 = 0xcbf29ce484222325;

/// FNV-1a prime for 64-bit hashes.
pub const FNV_PRIME: u64 = 0x100000001b3;

/// One round of FNV-1a: xor the byte in, then multiply by the prime modulo
/// 2^64.
pub open spec fn fnv1a_step(hash: u64, byte: u8) -> u64 {
    (((hash ^ (byte as u64)) as int * FNV_PRIME as int) % 0x1_0000_0000_0000_0000) as u64
}

/// The 64-bit FNV-1a hash of a byte sequence.
pub open spec fn fnv1a(data: Seq<u8>) -> u64
    decreases data.len(),
{
    if data.len() == 0 {
        FNV_OFFSET_BASIS
    } else {
        fnv1a_step(fnv1a(data.drop_last()), data.last())
    }
}

/// FNV-1a hash for content addressing.
pub fn hash_content(data: &[u8]) -> (hash: u64)
    ensures
        hash == fnv1a(data@),
{
    let mut hash: u64 = FNV_OFFSET_BASIS;
    let mut i: usize = 0;
    while i < data.len()
        invariant
            i <= data.len(),
            hash == fnv1a(data@.take(i as int)),
        decreases data.len() - i,
    {
        assert(data@.take(i + 1).drop_last() =~= data@.take(i as int));
        hash = (hash ^ (data[i] as u64)).wrapping_mul(FNV_PRIME);
        i = i + 1;
    }
    assert(data@.take(i as int) =~= data@);
    hash
}

/// Content-addressed object identifier.
#[derive(Debug, Clone, Copy, PartialEq, Eq, PartialOrd, Ord, Hash, Structural)]
pub struct ObjId(u64);

impl View for ObjId {
    type V = u64;

    closed spec fn view(&self) -> u64 {
        self.0
    }
}

impl ObjId {
    /// The identifier that stands for `raw`.
    pub(crate) fn from_raw(raw: u64) -> (id: ObjId)
        ensures
            id@ == raw,
    {
        ObjId(raw)
    }

    /// The raw numeric identifier.
    pub fn raw(&self) -> (raw: u64)
        ensures
            raw == self@,
    {
        self.0
    }

    /// The identifier of an object with the given content.
    pub fn from_content(data: &[u8]) -> (id: ObjId)
        ensures
            id@ == fnv1a(data@),
    {
        ObjId(hash_content(data))
    }

    /// How the identifier is written, in short: `Obj#` and its last four
    /// hexadecimal digits.
    pub open spec fn text(self) -> Seq<char> {
        "Obj#"@ + hex_padded(self@ as nat, 4)
    }

    /// The identifier as text.
    pub fn to_text(&self) -> (s: String)
        ensures
            s@ == self.text(),
    {
        let mut s = String::from_str("Obj#");
        s.append(hex_padded_string(self.0, 4).as_str());
        s
    }

    /// Two identifiers with the same number are the same identifier.
    pub proof fn lemma_view_injective(a: ObjId, b: ObjId)
        requires
            a@ == b@,
        ensures
            a == b,
    {
    }
}

/// What an object is, as mathematical values.
pub struct ObjectView {
    pub id: u64,
    pub content: Seq<u8>,
    pub tags: Seq<Seq<char>>,
    pub metadata: Map<Seq<char>, Seq<char>>,
}

/// An object in the store.
#[derive(Debug)]
pub struct Object {
    pub id: ObjId,
    pub content: Vec<u8>,
    pub tags: Vec<String>,
    pub metadata: TextMap<String>,
}

/// The characters of each tag, in order.
pub open spec fn tags_view(tags: Seq<String>) -> Seq<Seq<char>> {
    tags.map_values(|t: String| t@)
}

/// The characters of each metadata value, under the same keys.
pub open spec fn metadata_view(metadata: Map<Seq<char>, String>) -> Map<Seq<char>, Seq<char>> {
    metadata.map_values(|v: String| v@)
}

impl View for Object {
    type V = ObjectView;

    open spec fn view(&self) -> ObjectView {
        ObjectView {
            id: self.id@,
            content: self.content@,
            tags: tags_view(self.tags@),
            metadata: metadata_view(self.metadata@),
        }
    }
}

impl ObjectView {
    /// The identifier is the hash of the content.
    pub open spec fn content_addressed(self) -> bool {
        self.id == fnv1a(self.content)
    }
}

impl Object {
    /// Create a new object from raw content: no tags, no metadata, and the
    /// identifier that the content hashes to.
    pub fn new(content: &[u8]) -> (obj: Object)
        ensures
            obj@ == (ObjectView {
                id: fnv1a(content@),
                content: content@,
                tags: Seq::<Seq<char>>::empty(),
                metadata: Map::<Seq<char>, Seq<char>>::empty(),
            }),
            obj@.content_addressed(),
    {
        let obj = Object {
            id: ObjId::from_content(content),
            content: slice_to_vec(content),
            tags: Vec::new(),
            metadata: TextMap::new(),
        };
        assert(obj@.tags =~= Seq::<Seq<char>>::empty());
        assert(obj@.metadata =~= Map::<Seq<char>, Seq<char>>::empty());
        obj
    }

    /// Builder: add a tag at the end of the tag list.
    pub fn with_tag(self, tag: &str) -> (obj: Object)
        ensures
            obj@ == (ObjectView { tags: self@.tags.push(tag@), ..self@ }),
    {
        let mut obj = self;
        obj.tags.push(String::from_str(tag));
        assert(obj@.tags =~= self@.tags.push(tag@));
        obj
    }

    /// Builder: set the metadata value of `key`, replacing an earlier one.
    pub fn with_meta(self, key: &str, val: &str) -> (obj: Object)
        ensures
            obj@ == (ObjectView { metadata: self@.metadata.insert(key@, val@), ..self@ }),
    {
        let mut obj = self;
        obj.metadata.insert(String::from_str(key), String::from_str(val));
        assert(obj@.metadata =~= self@.metadata.insert(key@, val@));
        obj
    }
}

impl Clone for Object {
    /// A copy that is equal in every part.
    fn clone(&self) -> (obj: Object)
        ensures
            obj@ == self@,
    {
        let obj = Object {
            id: self.id,
            content: self.content.clone(),
            tags: self.tags.clone(),
            metadata: self.metadata.clone(),
        };
        assert(obj@.content =~= self@.content);
        assert(obj@.tags =~= self@.tags);
        assert(obj@.metadata =~= self@.metadata);
        obj
    }
}

/// Object store errors.
#[derive(Debug, Clone, Copy, PartialEq, Eq, Structural)]
pub enum ObjError {
    /// No object with that identifier is stored.
    NotFound,
    /// An object with the same content is already stored.
    AlreadyExists,
}

impl ObjError {
    /// The words that describe each error.
    pub open spec fn message_spec(self) -> Seq<char> {
        match self {
            ObjError::NotFound => "not found"@,
            ObjError::AlreadyExists => "already exists"@,
        }
    }

    /// Human-readable description of the error.
    pub fn message(&self) -> (s: &'static str)
        ensures
            s@ == self.message_spec(),
    {
        match self {
            ObjError::NotFound => "not found",
            ObjError::AlreadyExists => "already exists",
        }
    }
}

} // verus!
