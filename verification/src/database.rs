//! The state the gateway operates on: the key/value store, the three
//! document collections, and the object store, with the two options the
//! store layer itself needs.

use vstd::prelude::*;
use vstd::string::StringSliceAdditionalSpecFns;

use crate::config::Config;
use crate::docs::{wf_map_doc, LogEntry, MapDoc, MemeMeta};
use crate::id::Id;
use crate::kv::{KvCellV, KvStore, KvVal, KvValV, SMSSENT, UID2CREDIT};

verus! {

/// The whole persistent state, modeled in memory.
pub struct Database {
    /// The key/value store: sessions, user bindings, credit, counters.
    pub kv: KvStore,
    /// Minimum credit balance.
    pub credit_limit: i64,
    /// Seconds before an access token expires.
    pub access_ttl: i64,
    /// The map document collection.
    pub map1: Vec<MapDoc>,
    /// The next map document id to assign.
    pub next_map_id: u64,
    /// The meme metadata collection.
    pub mm: Vec<MemeMeta>,
    /// The credit log.
    pub cl: Vec<LogEntry>,
    /// The object store: blob bytes under their object id.
    pub mr: KvStore,
}

/// A key of the key/value store: a one-byte namespace tag, then the body.
pub open spec fn ns_key(n: u8, body: Seq<u8>) -> Seq<u8> {
    seq![n] + body
}

/// A key from a phone and a message id, under a namespace tag.
pub open spec fn ns_key_pm(n: u8, phone: Seq<u8>, message: Seq<u8>) -> Seq<u8> {
    ns_key(n, phone + message)
}

/// Keys under different namespace tags never collide.
pub proof fn lemma_ns_tags_distinct(n1: u8, b1: Seq<u8>, n2: u8, b2: Seq<u8>)
    requires
        n1 != n2,
    ensures
        ns_key(n1, b1) != ns_key(n2, b2),
{
    assert(ns_key(n1, b1)[0] == n1);
    assert(ns_key(n2, b2)[0] == n2);
}

/// Keys under one tag are distinct for distinct same-length bodies.
pub proof fn lemma_ns_body_distinct(n: u8, b1: Seq<u8>, b2: Seq<u8>)
    requires
        b1.len() == b2.len(),
        b1 != b2,
    ensures
        ns_key(n, b1) != ns_key(n, b2),
{
    if ns_key(n, b1) == ns_key(n, b2) {
        assert(forall|i: int|
            0 <= i < b1.len() ==> b1[i] == ns_key(n, b1)[i + 1] && b2[i] == ns_key(
                n,
                b2,
            )[i + 1]);
        assert(b1 =~= b2);
    }
}

/// Prepend the namespace tag to an id.
pub fn ns(n: u8, id: &Id) -> (r: Vec<u8>)
    ensures
        r@ == ns_key(n, id.0@),
{
    let mut v: Vec<u8> = Vec::new();
    v.push(n);
    let mut i: usize = 0;
    while i < 16
        invariant
            0 <= i <= 16,
            v@.len() == i + 1,
            v@[0] == n,
            forall|j: int| 0 <= j < i ==> v@[j + 1] == id.0@[j],
        decreases 16 - i,
    {
        v.push(id.0[i]);
        i = i + 1;
    }
    proof {
        assert(v@ =~= ns_key(n, id.0@));
    }
    v
}

/// Prepend the namespace tag to a raw key body.
pub fn nsb(n: u8, body: &[u8]) -> (r: Vec<u8>)
    ensures
        r@ == ns_key(n, body@),
{
    let mut v: Vec<u8> = Vec::new();
    v.push(n);
    let m = body.len();
    let mut i: usize = 0;
    while i < m
        invariant
            0 <= i <= m,
            m == body@.len(),
            v@.len() == i + 1,
            v@[0] == n,
            forall|j: int| 0 <= j < i ==> v@[j + 1] == body@[j],
        decreases m - i,
    {
        v.push(body[i]);
        i = i + 1;
    }
    proof {
        assert(v@ =~= ns_key(n, body@));
    }
    v
}

/// Prepend the namespace tag to a phone number.
pub fn nsp(n: u8, phone: &str) -> (r: Vec<u8>)
    ensures
        r@ == ns_key(n, phone.spec_bytes()),
{
    let mut v: Vec<u8> = Vec::new();
    v.push(n);
    let bs = phone.as_bytes();
    let m = bs.len();
    let mut i: usize = 0;
    while i < m
        invariant
            0 <= i <= m,
            m == bs@.len(),
            v@.len() == i + 1,
            v@[0] == n,
            forall|j: int| 0 <= j < i ==> v@[j + 1] == bs@[j],
        decreases m - i,
    {
        v.push(bs[i]);
        i = i + 1;
    }
    proof {
        assert(v@ =~= ns_key(n, bs@));
    }
    v
}

/// Build a key from a namespace tag, a phone and a message id.
pub fn nspm(n: u8, phone: &str, message: &Id) -> (r: Vec<u8>)
    ensures
        r@ == ns_key_pm(n, phone.spec_bytes(), message.0@),
{
    let mut v = nsp(n, phone);
    let mut i: usize = 0;
    let ghost base = v@;
    while i < 16
        invariant
            0 <= i <= 16,
            v@.len() == base.len() + i,
            v@ == base + message.0@.take(i as int),
        decreases 16 - i,
    {
        v.push(message.0[i]);
        proof {
            assert(base + message.0@.take(i + 1) =~= (base + message.0@.take(i as int)).push(
                message.0@[i as int],
            ));
        }
        i = i + 1;
    }
    proof {
        assert(message.0@.take(16) =~= message.0@);
        assert(v@ =~= ns_key_pm(n, phone.spec_bytes(), message.0@));
    }
    v
}

impl Database {
    /// What every handler preserves of the state: the stores are well
    /// formed, every meme's object exists, object names are unique, and
    /// map document ids are unique and below the allocator mark.
    pub open spec fn wf(&self) -> bool {
        &&& self.kv.wf()
        &&& self.mr.wf()
        &&& forall|k: Seq<u8>|
            self.mr@.contains_key(k) ==> ((#[trigger] self.mr@[k]).exp is None
                && self.mr@[k].val is Bytes)
        &&& forall|i: int|
            0 <= i < self.mm@.len() ==> self.mr@.contains_key(
                (#[trigger] self.mm@[i])@.oid,
            )
        &&& forall|i: int|
            0 <= i < self.mm@.len() ==> (#[trigger] self.mm@[i])@.size >= 0
                && self.mm@[i]@.tip >= 0
        &&& forall|i: int, j: int|
            0 <= i < j < self.mm@.len() ==> (#[trigger] self.mm@[i])@.oid
                != (#[trigger] self.mm@[j])@.oid
        &&& forall|i: int, j: int|
            0 <= i < j < self.mm@.len() ==> !((#[trigger] self.mm@[i])@.uid
                == (#[trigger] self.mm@[j])@.uid && self.mm@[i]@.hash == self.mm@[j]@.hash
                && !self.mm@[i]@.public && !self.mm@[j]@.public)
        &&& forall|i: int| 0 <= i < self.map1@.len() ==> wf_map_doc((#[trigger] self.map1@[i])@)
        &&& forall|i: int|
            0 <= i < self.map1@.len() ==> (#[trigger] self.map1@[i])@.id < self.next_map_id
        &&& forall|i: int, j: int|
            0 <= i < j < self.map1@.len() ==> (#[trigger] self.map1@[i])@.id
                != (#[trigger] self.map1@[j])@.id
    }

    /// The key under which a user's credit is stored.
    pub open spec fn credit_key(uid: Seq<u8>) -> Seq<u8> {
        ns_key(UID2CREDIT, uid)
    }

    /// The user's credit balance: `None` when the account is absent.
    pub open spec fn spec_credit(&self, uid: Seq<u8>, now: int) -> Option<int> {
        match self.kv.spec_get(Database::credit_key(uid), now) {
            Some(KvValV::Int(v)) => Some(v),
            _ => None,
        }
    }

    /// Fresh, empty state.
    pub fn new(config: &Config) -> (r: Database)
        ensures
            r.wf(),
            r.kv@ =~= Map::<Seq<u8>, KvCellV>::empty(),
            r.mr@ =~= Map::<Seq<u8>, KvCellV>::empty(),
            r.mm@ =~= Seq::<MemeMeta>::empty(),
            r.map1@ =~= Seq::<MapDoc>::empty(),
            r.cl@ =~= Seq::<LogEntry>::empty(),
            r.credit_limit == config.credit_limit,
            r.access_ttl == config.access_ttl,
            r.next_map_id == 0,
    {
        Database {
            kv: KvStore::new(),
            credit_limit: config.credit_limit,
            access_ttl: config.access_ttl,
            map1: Vec::new(),
            next_map_id: 0,
            mm: Vec::new(),
            cl: Vec::new(),
            mr: KvStore::new(),
        }
    }

    /// Record an SMS received out of band: the sender's phone, keyed by
    /// the receiving phone and the message id.
    pub fn sms_sent(&mut self, from: &str, to: &str, message: &Id, now_ms: i64)
        requires
            old(self).wf(),
            0 <= now_ms,
            0 <= old(self).access_ttl,
            now_ms + old(self).access_ttl * 1000 <= i64::MAX,
        ensures
            final(self).wf(),
            final(self).kv@ =~= old(self).kv@.insert(
                ns_key_pm(SMSSENT, to.spec_bytes(), message.0@),
                KvCellV {
                    val: KvValV::Bytes(from.spec_bytes()),
                    exp: Some(now_ms + old(self).access_ttl * 1000),
                },
            ),
            final(self).mm@ == old(self).mm@,
            final(self).map1@ == old(self).map1@,
            final(self).cl@ == old(self).cl@,
            final(self).mr@ == old(self).mr@,
            final(self).next_map_id == old(self).next_map_id,
            final(self).credit_limit == old(self).credit_limit,
            final(self).access_ttl == old(self).access_ttl,
    {
        let key = nspm(SMSSENT, to, message);
        let ttl = self.access_ttl;
        let val = KvVal::Bytes(crate::kv::slice_to_vec_u8(from.as_bytes()));
        self.kv.set(key.as_slice(), val, ttl, now_ms);
    }
}

} // verus!
