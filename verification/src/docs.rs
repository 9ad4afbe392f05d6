//! The rows of the three document collections: meme metadata, map
//! documents, and the credit log.

use vstd::prelude::*;

use crate::id::Id;
use crate::value::{Value, ValueV};

verus! {

/// Metadata of one stored meme: a content-addressed blob.
#[derive(Clone, Copy, Debug)]
pub struct MemeMeta {
    /// The owner.
    pub uid: Id,
    /// The object store name of the blob.
    pub oid: Id,
    /// BLAKE3 hash of the blob bytes.
    pub hash: crate::ir::Hash,
    /// Blob size in bytes.
    pub size: i64,
    /// Whether anyone may read it.
    pub public: bool,
    /// The price a public reader pays the owner.
    pub tip: i64,
    /// End of life, seconds since the epoch.
    pub eol: i64,
}

/// The mathematical value of a meme metadata row.
pub struct MemeMetaV {
    pub uid: Seq<u8>,
    pub oid: Seq<u8>,
    pub hash: Seq<u8>,
    pub size: int,
    pub public: bool,
    pub tip: int,
    pub eol: int,
}

impl View for MemeMeta {
    type V = MemeMetaV;

    open spec fn view(&self) -> MemeMetaV {
        MemeMetaV {
            uid: self.uid.0@,
            oid: self.oid.0@,
            hash: self.hash@,
            size: self.size as int,
            public: self.public,
            tip: self.tip as int,
            eol: self.eol as int,
        }
    }
}

/// One record of the audit trail: every credit mutation writes one.
#[derive(Debug)]
pub struct LogEntry {
    /// Whose balance moved.
    pub uid: Id,
    /// The counterparty, when the mutation is a transfer.
    pub other: Option<Id>,
    /// The signed amount.
    pub delta: i64,
    /// What moved it.
    pub note: String,
    /// When, milliseconds since the epoch.
    pub time: i64,
}

/// The mathematical value of a credit log record.
pub struct LogEntryV {
    pub uid: Seq<u8>,
    pub other: Option<Seq<u8>>,
    pub delta: int,
    pub note: Seq<char>,
    pub time: int,
}

impl View for LogEntry {
    type V = LogEntryV;

    open spec fn view(&self) -> LogEntryV {
        LogEntryV {
            uid: self.uid.0@,
            other: match self.other {
                Some(o) => Some(o.0@),
                None => None,
            },
            delta: self.delta as int,
            note: self.note@,
            time: self.time as int,
        }
    }
}

/// One map document: reserved fields and the user fields.
#[derive(Debug)]
pub struct MapDoc {
    /// Unique document id, immutable once set.
    pub id: u64,
    /// Owner user id, immutable.
    pub uid: Id,
    /// Visibility flag, owner-writable only via the censor path.
    pub public: bool,
    /// End of life, seconds since the epoch.
    pub eol: i64,
    /// The price a reader pays the owner on a get.
    pub tip: i64,
    /// Serialized size of the document.
    pub size: i64,
    /// Namespace; values starting with `_` are reserved for internal genes.
    pub ns: String,
    /// The eight indexed keys.
    pub keys: Vec<Value>,
    /// Geospatial point, two fixed-point coordinates.
    pub geo: Option<Vec<i64>>,
    /// The user fields: names not starting with `_`.
    pub fields: Vec<(String, Value)>,
}

/// The mathematical value of a map document.
pub struct MapDocV {
    pub id: int,
    pub uid: Seq<u8>,
    pub public: bool,
    pub eol: int,
    pub tip: int,
    pub size: int,
    pub ns: Seq<char>,
    pub keys: Seq<ValueV>,
    pub geo: Option<Seq<int>>,
    pub fields: Seq<(Seq<char>, ValueV)>,
}

impl View for MapDoc {
    type V = MapDocV;

    open spec fn view(&self) -> MapDocV {
        MapDocV {
            id: self.id as int,
            uid: self.uid.0@,
            public: self.public,
            eol: self.eol as int,
            tip: self.tip as int,
            size: self.size as int,
            ns: self.ns@,
            keys: self.keys@.map_values(|v: Value| v@),
            geo: match &self.geo {
                Some(g) => Some(g@.map_values(|x: i64| x as int)),
                None => None,
            },
            fields: self.fields@.map_values(|p: (String, Value)| (p.0@, p.1@)),
        }
    }
}

/// The shape every stored map document has: eight indexed keys and a
/// two-coordinate point when one is present.
pub open spec fn wf_map_doc(d: MapDocV) -> bool {
    &&& d.keys.len() == 8
    &&& match d.geo {
        Some(g) => g.len() == 2 && -1_800_000_000 <= g[0] <= 1_800_000_000
            && -1_800_000_000 <= g[1] <= 1_800_000_000,
        None => true,
    }
    &&& d.tip >= 0
    &&& d.size >= 0
}

} // verus!
