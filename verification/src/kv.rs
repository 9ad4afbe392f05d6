//! In-memory model of the key/value store: namespaced byte keys, byte or
//! integer values, and expiry instants. Every operation takes the current
//! time explicitly; an entry past its expiry behaves as absent.

use vstd::prelude::*;

verus! {

/// Never use the hidden namespace: it would overlap zero-padded keys.
pub const _HIDDEN: u8 = 0;

pub const ACCESS: u8 = 1;

pub const REFRESH: u8 = 2;

pub const SMSSENDTO: u8 = 3;

pub const SMSSENT: u8 = 4;

pub const PHONE2UID: u8 = 5;

pub const UID2PHONE: u8 = 6;

pub const UID2CREDIT: u8 = 7;

pub const UID2CHECKIN: u8 = 8;

/// A stored value: raw bytes or a counter.
#[derive(Debug)]
pub enum KvVal {
    Bytes(Vec<u8>),
    Int(i64),
}

/// The mathematical value of a stored value.
pub enum KvValV {
    Bytes(Seq<u8>),
    Int(int),
}

impl View for KvVal {
    type V = KvValV;

    open spec fn view(&self) -> KvValV {
        match self {
            KvVal::Bytes(b) => KvValV::Bytes(b@),
            KvVal::Int(n) => KvValV::Int(*n as int),
        }
    }
}

/// The mathematical state of one key: its value and expiry instant in
/// milliseconds, `None` for a key without expiry.
pub struct KvCellV {
    pub val: KvValV,
    pub exp: Option<int>,
}

/// The live value behind a key of a raw cell map.
pub open spec fn map_live_get(m: Map<Seq<u8>, KvCellV>, k: Seq<u8>, now: int) -> Option<
    KvValV,
> {
    if m.contains_key(k) && live_cell(m[k], now) {
        Some(m[k].val)
    } else {
        None
    }
}

/// Whether the cell is alive at `now`.
pub open spec fn live_cell(c: KvCellV, now: int) -> bool {
    match c.exp {
        Some(t) => now < t,
        None => true,
    }
}

/// One stored entry.
pub struct KvEntry {
    pub key: Vec<u8>,
    pub val: KvVal,
    pub exp: Option<i64>,
}

/// The mathematical state of an entry, key aside.
pub open spec fn cell_of(e: KvEntry) -> KvCellV {
    KvCellV {
        val: e.val@,
        exp: match e.exp {
            Some(t) => Some(t as int),
            None => None,
        },
    }
}

/// The key/value store model.
pub struct KvStore {
    entries: Vec<KvEntry>,
}

/// The map denoted by a sequence of entries; a later entry wins, though a
/// well-formed store never repeats a key.
pub open spec fn map_of(s: Seq<KvEntry>) -> Map<Seq<u8>, KvCellV>
    decreases s.len(),
{
    if s.len() == 0 {
        Map::empty()
    } else {
        map_of(s.drop_last()).insert(s.last().key@, cell_of(s.last()))
    }
}

/// No two entries share a key.
pub open spec fn distinct_keys(s: Seq<KvEntry>) -> bool {
    forall|i: int, j: int|
        0 <= i < j < s.len() ==> (#[trigger] s[i].key@) != (#[trigger] s[j].key@)
}

impl View for KvStore {
    type V = Map<Seq<u8>, KvCellV>;

    closed spec fn view(&self) -> Map<Seq<u8>, KvCellV> {
        map_of(self.entries@)
    }
}

proof fn lemma_map_of_contains(s: Seq<KvEntry>, k: Seq<u8>)
    ensures
        map_of(s).contains_key(k) <==> exists|i: int|
            0 <= i < s.len() && (#[trigger] s[i].key@) == k,
    decreases s.len(),
{
    if s.len() > 0 {
        lemma_map_of_contains(s.drop_last(), k);
        if s.last().key@ == k {
            assert(s[s.len() - 1].key@ == k);
        } else if map_of(s).contains_key(k) {
            let i = choose|i: int| 0 <= i < s.len() - 1 && (#[trigger] s.drop_last()[i].key@)
                == k;
            assert(s[i].key@ == k);
        } else {
            if exists|i: int| 0 <= i < s.len() && (#[trigger] s[i].key@) == k {
                let i = choose|i: int| 0 <= i < s.len() && (#[trigger] s[i].key@) == k;
                assert(i < s.len() - 1);
                assert(s.drop_last()[i].key@ == k);
            }
        }
    }
}

proof fn lemma_map_of_index(s: Seq<KvEntry>, i: int)
    requires
        distinct_keys(s),
        0 <= i < s.len(),
    ensures
        map_of(s).contains_key(s[i].key@),
        map_of(s)[s[i].key@] == cell_of(s[i]),
    decreases s.len(),
{
    if i == s.len() - 1 {
    } else {
        assert(distinct_keys(s.drop_last()));
        assert(s.drop_last()[i] == s[i]);
        lemma_map_of_index(s.drop_last(), i);
        assert(s[i].key@ != s.last().key@);
    }
}

proof fn lemma_map_of_update(s: Seq<KvEntry>, i: int, e: KvEntry)
    requires
        distinct_keys(s),
        0 <= i < s.len(),
        e.key@ == s[i].key@,
    ensures
        map_of(s.update(i, e)) =~= map_of(s).insert(e.key@, cell_of(e)),
        distinct_keys(s.update(i, e)),
    decreases s.len(),
{
    let t = s.update(i, e);
    assert(forall|j: int| 0 <= j < s.len() ==> t[j].key@ == s[j].key@);
    if i == s.len() - 1 {
        assert(t.drop_last() =~= s.drop_last());
        assert(t.last() == e);
    } else {
        assert(distinct_keys(s.drop_last()));
        assert(s.drop_last()[i] == s[i]);
        lemma_map_of_update(s.drop_last(), i, e);
        assert(t.drop_last() =~= s.drop_last().update(i, e));
        assert(t.last() == s.last());
        assert(e.key@ != s.last().key@);
    }
}

proof fn lemma_map_of_remove(s: Seq<KvEntry>, i: int)
    requires
        distinct_keys(s),
        0 <= i < s.len(),
    ensures
        map_of(s.remove(i)) =~= map_of(s).remove(s[i].key@),
        distinct_keys(s.remove(i)),
    decreases s.len(),
{
    let t = s.remove(i);
    let k = s[i].key@;
    assert(forall|j: int| 0 <= j < i ==> t[j] == s[j]);
    assert(forall|j: int| i <= j < t.len() ==> t[j] == s[j + 1]);
    if i == s.len() - 1 {
        assert(t =~= s.drop_last());
        lemma_map_of_contains(s.drop_last(), k);
        assert(!map_of(s.drop_last()).contains_key(k));
    } else {
        assert(distinct_keys(s.drop_last()));
        assert(s.drop_last()[i] == s[i]);
        lemma_map_of_remove(s.drop_last(), i);
        assert(t.drop_last() =~= s.drop_last().remove(i));
        assert(t.last() == s.last());
        assert(k != s.last().key@);
    }
}

proof fn lemma_map_of_push(s: Seq<KvEntry>, e: KvEntry)
    requires
        distinct_keys(s),
        forall|i: int| 0 <= i < s.len() ==> (#[trigger] s[i].key@) != e.key@,
    ensures
        map_of(s.push(e)) =~= map_of(s).insert(e.key@, cell_of(e)),
        distinct_keys(s.push(e)),
{
    let t = s.push(e);
    assert(t.drop_last() =~= s);
    assert(t.last() == e);
}

/// Compare two byte strings.
pub fn bytes_eq(a: &[u8], b: &[u8]) -> (r: bool)
    ensures
        r == (a@ == b@),
{
    if a.len() != b.len() {
        return false;
    }
    let n = a.len();
    let mut i: usize = 0;
    while i < n
        invariant
            0 <= i <= n,
            n == a@.len() == b@.len(),
            forall|j: int| 0 <= j < i ==> a@[j] == b@[j],
        decreases n - i,
    {
        if a[i] != b[i] {
            return false;
        }
        i = i + 1;
    }
    proof {
        assert(a@ =~= b@);
    }
    true
}

impl KvStore {
    /// Whether the store is well formed: no key occurs twice.
    pub closed spec fn wf(&self) -> bool {
        distinct_keys(self.entries@)
    }

    /// Whether the key is present and alive at `now`.
    pub open spec fn spec_live(&self, k: Seq<u8>, now: int) -> bool {
        self@.contains_key(k) && live_cell(self@[k], now)
    }

    /// The value behind a live key.
    pub open spec fn spec_get(&self, k: Seq<u8>, now: int) -> Option<KvValV> {
        if self.spec_live(k, now) {
            Some(self@[k].val)
        } else {
            None
        }
    }

    /// An empty store.
    pub fn new() -> (r: KvStore)
        ensures
            r.wf(),
            r@ =~= Map::<Seq<u8>, KvCellV>::empty(),
    {
        KvStore { entries: Vec::new() }
    }

    /// The index of the entry with this key, live or dead.
    fn find(&self, key: &[u8]) -> (r: Option<usize>)
        requires
            self.wf(),
        ensures
            r is Some ==> 0 <= r->Some_0 < self.entries@.len()
                && self.entries@[r->Some_0 as int].key@ == key@,
            r is None ==> !self@.contains_key(key@),
    {
        let n = self.entries.len();
        let mut i: usize = 0;
        while i < n
            invariant
                0 <= i <= n,
                n == self.entries@.len(),
                forall|j: int| 0 <= j < i ==> (#[trigger] self.entries@[j].key@) != key@,
            decreases n - i,
        {
            if bytes_eq(self.entries[i].key.as_slice(), key) {
                return Some(i);
            }
            i = i + 1;
        }
        proof {
            lemma_map_of_contains(self.entries@, key@);
        }
        None
    }

    /// Whether the entry at `i` is alive at `now`.
    fn entry_live(&self, i: usize, now_ms: i64) -> (r: bool)
        requires
            i < self.entries@.len(),
        ensures
            r == live_cell(cell_of(self.entries@[i as int]), now_ms as int),
    {
        match self.entries[i].exp {
            Some(t) => now_ms < t,
            None => true,
        }
    }

    /// Set key to value with an expiry `ttl_s` seconds from now, replacing
    /// whatever was there.
    pub fn set(&mut self, key: &[u8], val: KvVal, ttl_s: i64, now_ms: i64)
        requires
            old(self).wf(),
            0 <= ttl_s,
            0 <= now_ms,
            now_ms + ttl_s * 1000 <= i64::MAX,
        ensures
            final(self).wf(),
            final(self)@ =~= old(self)@.insert(
                key@,
                KvCellV { val: val@, exp: Some(now_ms + ttl_s * 1000) },
            ),
    {
        let exp: i64 = now_ms + ttl_s * 1000;
        let entry = KvEntry { key: slice_to_vec_u8(key), val, exp: Some(exp) };
        proof {
            assert(cell_of(entry) == (KvCellV { val: entry.val@, exp: Some(exp as int) }));
        }
        match self.find(key) {
            Some(i) => {
                proof {
                    lemma_map_of_update(self.entries@, i as int, entry);
                }
                self.entries[i] = entry;
            },
            None => {
                proof {
                    lemma_map_of_contains(self.entries@, key@);
                    assert(forall|j: int|
                        0 <= j < self.entries@.len() ==> (#[trigger] self.entries@[j].key@)
                            != key@) by {
                        lemma_map_of_contains(self.entries@, key@);
                    }
                    lemma_map_of_push(self.entries@, entry);
                }
                self.entries.push(entry);
            },
        }
    }

    /// Set key to value without an expiry, replacing whatever was there.
    pub fn set_persist(&mut self, key: &[u8], val: KvVal)
        requires
            old(self).wf(),
        ensures
            final(self).wf(),
            final(self)@ =~= old(self)@.insert(key@, KvCellV { val: val@, exp: None }),
    {
        let entry = KvEntry { key: slice_to_vec_u8(key), val, exp: None };
        match self.find(key) {
            Some(i) => {
                proof {
                    lemma_map_of_update(self.entries@, i as int, entry);
                }
                self.entries[i] = entry;
            },
            None => {
                proof {
                    assert(forall|j: int|
                        0 <= j < self.entries@.len() ==> (#[trigger] self.entries@[j].key@)
                            != key@) by {
                        lemma_map_of_contains(self.entries@, key@);
                    }
                    lemma_map_of_push(self.entries@, entry);
                }
                self.entries.push(entry);
            },
        }
    }

    /// Read a live key.
    pub fn get(&self, key: &[u8], now_ms: i64) -> (r: Option<KvVal>)
        requires
            self.wf(),
        ensures
            r is Some <==> self.spec_live(key@, now_ms as int),
            r is Some ==> r->Some_0@ == self@[key@].val,
    {
        match self.find(key) {
            Some(i) => {
                proof {
                    lemma_map_of_index(self.entries@, i as int);
                }
                if self.entry_live(i, now_ms) {
                    Some(kv_clone(&self.entries[i].val))
                } else {
                    None
                }
            },
            None => None,
        }
    }

    /// Read a live key and extend its expiry to `ttl_s` seconds from now.
    pub fn getex(&mut self, key: &[u8], ttl_s: i64, now_ms: i64) -> (r: Option<KvVal>)
        requires
            old(self).wf(),
            0 <= ttl_s,
            0 <= now_ms,
            now_ms + ttl_s * 1000 <= i64::MAX,
        ensures
            final(self).wf(),
            r is Some <==> old(self).spec_live(key@, now_ms as int),
            r is Some ==> r->Some_0@ == old(self)@[key@].val,
            r is Some ==> final(self)@ =~= old(self)@.insert(
                key@,
                KvCellV { val: old(self)@[key@].val, exp: Some(now_ms + ttl_s * 1000) },
            ),
            r is None ==> final(self)@ == old(self)@,
    {
        match self.find(key) {
            Some(i) => {
                proof {
                    lemma_map_of_index(self.entries@, i as int);
                }
                if self.entry_live(i, now_ms) {
                    let val = kv_clone(&self.entries[i].val);
                    let entry = KvEntry {
                        key: slice_to_vec_u8(key),
                        val: kv_clone(&self.entries[i].val),
                        exp: Some(now_ms + ttl_s * 1000),
                    };
                    proof {
                        lemma_map_of_update(self.entries@, i as int, entry);
                    }
                    self.entries[i] = entry;
                    Some(val)
                } else {
                    None
                }
            },
            None => None,
        }
    }

    /// Set the expiry of a live key; absent or dead keys are untouched.
    pub fn expire(&mut self, key: &[u8], ttl_s: i64, now_ms: i64)
        requires
            old(self).wf(),
            0 <= ttl_s,
            0 <= now_ms,
            now_ms + ttl_s * 1000 <= i64::MAX,
        ensures
            final(self).wf(),
            old(self).spec_live(key@, now_ms as int) ==> final(self)@ =~= old(self)@.insert(
                key@,
                KvCellV { val: old(self)@[key@].val, exp: Some(now_ms + ttl_s * 1000) },
            ),
            !old(self).spec_live(key@, now_ms as int) ==> final(self)@ == old(self)@,
    {
        let _ = self.getex(key, ttl_s, now_ms);
    }

    /// Set the expiry of a live key only when it already has one.
    pub fn expire_xx(&mut self, key: &[u8], ttl_s: i64, now_ms: i64)
        requires
            old(self).wf(),
            0 <= ttl_s,
            0 <= now_ms,
            now_ms + ttl_s * 1000 <= i64::MAX,
        ensures
            final(self).wf(),
            (old(self).spec_live(key@, now_ms as int) && old(self)@[key@].exp is Some)
                ==> final(self)@ =~= old(self)@.insert(
                key@,
                KvCellV { val: old(self)@[key@].val, exp: Some(now_ms + ttl_s * 1000) },
            ),
            !(old(self).spec_live(key@, now_ms as int) && old(self)@[key@].exp is Some)
                ==> final(self)@ == old(self)@,
    {
        match self.find(key) {
            Some(i) => {
                proof {
                    lemma_map_of_index(self.entries@, i as int);
                }
                let has_exp = match self.entries[i].exp {
                    Some(_) => true,
                    None => false,
                };
                if has_exp && self.entry_live(i, now_ms) {
                    let entry = KvEntry {
                        key: slice_to_vec_u8(key),
                        val: kv_clone(&self.entries[i].val),
                        exp: Some(now_ms + ttl_s * 1000),
                    };
                    proof {
                        lemma_map_of_update(self.entries@, i as int, entry);
                    }
                    self.entries[i] = entry;
                }
            },
            None => {},
        }
    }

    /// Add `n` to a live counter, or create one at `n` without expiry. A
    /// live byte value or a counter that would overflow is an error and
    /// leaves the store unchanged.
    pub fn incrby(&mut self, key: &[u8], n: i64, now_ms: i64) -> (r: Result<
        i64,
        crate::error::Error,
    >)
        requires
            old(self).wf(),
        ensures
            final(self).wf(),
            ({
                let prev = old(self).spec_get(key@, now_ms as int);
                match prev {
                    None => r is Ok && r->Ok_0 == n && final(self)@ =~= old(self)@.insert(
                        key@,
                        KvCellV { val: KvValV::Int(n as int), exp: None },
                    ),
                    Some(KvValV::Int(v)) => {
                        if i64::MIN <= v + n <= i64::MAX {
                            r is Ok && r->Ok_0 == v + n && final(self)@ =~= old(self)@.insert(
                                key@,
                                KvCellV { val: KvValV::Int(v + n), exp: old(self)@[key@].exp },
                            )
                        } else {
                            r is Err && r->Err_0 == crate::error::Error::NumCheck
                                && final(self)@ == old(self)@
                        }
                    },
                    Some(KvValV::Bytes(_)) => r is Err && r->Err_0
                        == crate::error::Error::Logical && final(self)@ == old(self)@,
                }
            }),
    {
        match self.find(key) {
            Some(i) => {
                proof {
                    lemma_map_of_index(self.entries@, i as int);
                }
                if self.entry_live(i, now_ms) {
                    let old_val = match &self.entries[i].val {
                        KvVal::Int(v) => Some(*v),
                        KvVal::Bytes(_) => None,
                    };
                    match old_val {
                        Some(v) => {
                            let wide: i128 = v as i128 + n as i128;
                            if wide < i64::MIN as i128 || wide > i64::MAX as i128 {
                                Err(crate::error::Error::NumCheck)
                            } else {
                                let entry = KvEntry {
                                    key: slice_to_vec_u8(key),
                                    val: KvVal::Int(wide as i64),
                                    exp: self.entries[i].exp,
                                };
                                proof {
                                    lemma_map_of_update(self.entries@, i as int, entry);
                                }
                                self.entries[i] = entry;
                                Ok(wide as i64)
                            }
                        },
                        None => Err(crate::error::Error::Logical),
                    }
                } else {
                    let entry = KvEntry {
                        key: slice_to_vec_u8(key),
                        val: KvVal::Int(n),
                        exp: None,
                    };
                    proof {
                        lemma_map_of_update(self.entries@, i as int, entry);
                    }
                    self.entries[i] = entry;
                    Ok(n)
                }
            },
            None => {
                let entry = KvEntry { key: slice_to_vec_u8(key), val: KvVal::Int(n), exp: None };
                proof {
                    lemma_map_of_contains(self.entries@, key@);
                    assert(forall|j: int|
                        0 <= j < self.entries@.len() ==> (#[trigger] self.entries@[j].key@)
                            != key@) by {
                        lemma_map_of_contains(self.entries@, key@);
                    }
                    lemma_map_of_push(self.entries@, entry);
                }
                self.entries.push(entry);
                Ok(n)
            },
        }
    }

    /// Whether a live key exists: 1 or 0, as the store counts them.
    pub fn exits(&self, key: &[u8], now_ms: i64) -> (r: i64)
        requires
            self.wf(),
        ensures
            r == if self.spec_live(key@, now_ms as int) { 1int } else { 0int },
    {
        match self.get(key, now_ms) {
            Some(_) => 1,
            None => 0,
        }
    }

    /// Remove a key.
    pub fn del(&mut self, key: &[u8])
        requires
            old(self).wf(),
        ensures
            final(self).wf(),
            final(self)@ =~= old(self)@.remove(key@),
    {
        match self.find(key) {
            Some(i) => {
                proof {
                    lemma_map_of_index(self.entries@, i as int);
                    lemma_map_of_remove(self.entries@, i as int);
                }
                let _ = self.entries.remove(i);
            },
            None => {
                proof {
                    assert(final(self)@ =~= old(self)@.remove(key@));
                }
            },
        }
    }
}

/// Copy a stored value.
pub fn kv_clone(v: &KvVal) -> (r: KvVal)
    ensures
        r@ == v@,
{
    match v {
        KvVal::Bytes(b) => KvVal::Bytes(slice_to_vec_u8(b.as_slice())),
        KvVal::Int(n) => KvVal::Int(*n),
    }
}

/// Copy a byte slice into an owned vector.
pub fn slice_to_vec_u8(s: &[u8]) -> (r: Vec<u8>)
    ensures
        r@ == s@,
{
    let n = s.len();
    let mut v: Vec<u8> = Vec::new();
    let mut i: usize = 0;
    while i < n
        invariant
            0 <= i <= n,
            n == s@.len(),
            v@.len() == i,
            forall|j: int| 0 <= j < i ==> v@[j] == s@[j],
        decreases n - i,
    {
        v.push(s[i]);
        i = i + 1;
    }
    proof {
        assert(v@ =~= s@);
    }
    v
}

} // verus!
