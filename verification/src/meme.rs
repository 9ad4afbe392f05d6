//! The meme store: content-addressed blobs with per-frame metering.

use vstd::prelude::*;

use crate::config::{valid_now, Config, MAX_TTL_S};
use crate::credit::cl_view;
use crate::database::Database;
use crate::docs::{MemeMeta, MemeMetaV};
use crate::error::Error;
use crate::id::Id;
use crate::ir::Costs;
use crate::json::{meme_meta_string, render_meme_meta};
use crate::kv::{KvCellV, KvVal, KvValV};
use crate::reply::Reply;

verus! {

broadcast use vstd::array::group_array_axioms;

/// The BLAKE3 hash of a byte sequence; the bytes alone determine it.
pub uninterp spec fn blake3_of(data: Seq<u8>) -> Seq<u8>;

/// An incremental BLAKE3 hasher with the bytes it has seen.
pub struct StreamHasher {
    inner: blake3::Hasher,
    fed: Ghost<Seq<u8>>,
}

#[verifier::external_type_specification]
#[verifier::external_body]
pub struct ExBlake3Hasher(blake3::Hasher);

impl StreamHasher {
    /// The bytes fed so far.
    pub closed spec fn bytes(&self) -> Seq<u8> {
        self.fed@
    }

    /// A hasher over no bytes yet.
    pub fn new() -> (r: StreamHasher)
        ensures
            r.bytes() == Seq::<u8>::empty(),
    {
        StreamHasher { inner: blake3_hasher_new(), fed: Ghost(Seq::empty()) }
    }

    /// Relies on `blake3::Hasher::update`: feed more bytes.
    #[verifier::external_body]
    pub fn update(&mut self, data: &[u8])
        ensures
            final(self).bytes() == old(self).bytes() + data@,
    {
        self.inner.update(data);
    }

    /// Relies on `blake3::Hasher::finalize`: the BLAKE3 hash of exactly
    /// the bytes fed so far.
    #[verifier::external_body]
    pub fn finalize(&self) -> (r: [u8; 32])
        ensures
            r@ == blake3_of(self.bytes()),
    {
        *self.inner.finalize().as_bytes()
    }
}

/// Relies on `blake3::Hasher::new`: a fresh hasher.
#[verifier::external_body]
fn blake3_hasher_new() -> blake3::Hasher {
    blake3::Hasher::new()
}

/// The body bytes: the frames in order.
pub open spec fn flatten_frames(fs: Seq<Vec<u8>>) -> Seq<u8>
    decreases fs.len(),
{
    if fs.len() == 0 {
        Seq::empty()
    } else {
        fs.first()@ + flatten_frames(fs.drop_first())
    }
}

proof fn lemma_flatten_snoc(fs: Seq<Vec<u8>>, i: int)
    requires
        0 <= i < fs.len(),
    ensures
        flatten_frames(fs.take(i + 1)) == flatten_frames(fs.take(i)) + fs[i]@,
    decreases i,
{
    if i == 0 {
        assert(fs.take(1).first() == fs[0]);
        assert(fs.take(1).drop_first() =~= fs.take(0));
        assert(flatten_frames(fs.take(1)) == fs[0]@ + flatten_frames(fs.take(0)));
        assert(fs[0]@ + Seq::<u8>::empty() =~= fs[0]@);
        assert(flatten_frames(fs.take(0)) + fs[0]@ =~= fs[0]@);
    } else {
        let t1 = fs.take(i + 1);
        let t0 = fs.take(i);
        assert(t1.first() == fs[0]);
        assert(t0.first() == fs[0]);
        assert(t1.drop_first() =~= fs.drop_first().take(i));
        assert(t0.drop_first() =~= fs.drop_first().take(i - 1));
        lemma_flatten_snoc(fs.drop_first(), i - 1);
        assert(fs.drop_first()[i - 1] == fs[i]);
        assert(flatten_frames(t1) == fs[0]@ + (flatten_frames(fs.drop_first().take(i - 1))
            + fs[i]@));
        assert(fs[0]@ + (flatten_frames(fs.drop_first().take(i - 1)) + fs[i]@) =~= (fs[0]@
            + flatten_frames(fs.drop_first().take(i - 1))) + fs[i]@);
    }
}

/// The per-frame object space price: bytes times the per-day-per-KB price
/// times the days, in thousandths.
pub open spec fn frame_price(len: int, sco: int, days: int) -> int {
    len * sco * days
}

/// What the metered upload loop leaves of the space budget: the remainder
/// on success, or the failing error and the remainder at failure.
pub open spec fn space_spend(fs: Seq<Vec<u8>>, space: int, sco: int, days: int) -> Result<
    int,
    (Error, int),
>
    decreases fs.len(),
{
    if fs.len() == 0 {
        Ok(space)
    } else {
        let w = frame_price(fs.first()@.len() as int, sco, days);
        if w > i64::MAX {
            Err((Error::CostSpaceTooLarge, space))
        } else if space < w / 1000 {
            Err((Error::CostSpace, 0))
        } else {
            space_spend(fs.drop_first(), space - w / 1000, sco, days)
        }
    }
}

/// The first metadata row with this hash.
pub open spec fn find_meta_from(mm: Seq<MemeMeta>, hash: Seq<u8>, i: int) -> Option<int>
    decreases mm.len() - i,
{
    if i < 0 || i >= mm.len() {
        None
    } else if mm[i]@.hash == hash {
        Some(i)
    } else {
        find_meta_from(mm, hash, i + 1)
    }
}

/// Whether the caller already holds a private row under this hash: the
/// store keeps at most one `pub=false` row per owner and hash.
pub open spec fn has_private_dup(mm: Seq<MemeMeta>, uid: Seq<u8>, hash: Seq<u8>) -> bool {
    exists|j: int|
        0 <= j < mm.len() && (#[trigger] mm[j])@.uid == uid && mm[j]@.hash == hash
            && !mm[j]@.public
}

/// Whether a metadata row answers a meme get: hash matches, and it is
/// public or the caller's own, by the requested visibility.
pub open spec fn matches_get(m: MemeMetaV, hash: Seq<u8>, public: bool, uid: Seq<u8>) -> bool {
    m.hash == hash && (if public {
        m.public
    } else {
        m.uid == uid
    })
}

/// The row a meme get picks: the first among the matches with the lowest
/// tip, the cheapest winner.
pub open spec fn get_winner(
    mm: Seq<MemeMeta>,
    hash: Seq<u8>,
    public: bool,
    uid: Seq<u8>,
    i: int,
) -> bool {
    &&& 0 <= i < mm.len()
    &&& matches_get(mm[i]@, hash, public, uid)
    &&& forall|j: int|
        0 <= j < mm.len() && matches_get((#[trigger] mm[j])@, hash, public, uid) ==> mm[i]@.tip
            <= mm[j]@.tip
    &&& forall|j: int|
        0 <= j < i && matches_get((#[trigger] mm[j])@, hash, public, uid) ==> mm[i]@.tip
            < mm[j]@.tip
}

/// Whether any row answers the get.
pub open spec fn some_match(mm: Seq<MemeMeta>, hash: Seq<u8>, public: bool, uid: Seq<u8>) -> bool {
    exists|j: int| 0 <= j < mm.len() && matches_get((#[trigger] mm[j])@, hash, public, uid)
}

/// The meme layer: prices of the stores it meters.
pub struct Meme {
    /// Cost per millisecond.
    pub time_cost: i64,
    /// Cost per KB per day in the object store.
    pub space_cost_obj: i64,
    /// Cost per KB per day in the document store.
    pub space_cost_doc: i64,
    /// Cost per byte outbound.
    pub traffic_cost: i64,
}

impl Meme {
    /// What the handlers assume of this layer's options.
    pub open spec fn wf(&self) -> bool {
        &&& 1 <= self.time_cost
        &&& 0 <= self.space_cost_obj
        &&& 0 <= self.space_cost_doc
        &&& 1 <= self.traffic_cost
    }

    /// Take this layer's options from the configuration.
    pub fn new(config: &Config) -> (r: Meme)
        requires
            config.wf(),
        ensures
            r.wf(),
            r.time_cost == config.time_cost,
            r.space_cost_obj == config.space_cost_obj,
            r.space_cost_doc == config.space_cost_doc,
            r.traffic_cost == config.traffic_cost,
    {
        Meme {
            time_cost: config.time_cost,
            space_cost_obj: config.space_cost_obj,
            space_cost_doc: config.space_cost_doc,
            traffic_cost: config.traffic_cost,
        }
    }

    /// Return the metadata of the first row with this hash, if it is
    /// public or the caller owns it; past the deadline the lookup is not
    /// even tried.
    pub fn get_meta(&self, db: &Database, uid: &Id, deadline: i64, hash: &crate::ir::Hash,
        now_ms: i64) -> (r: Result<String, Error>)
        requires
            db.wf(),
        ensures
            ({
                let found = find_meta_from(db.mm@, hash@, 0);
                if now_ms > deadline {
                    r is Err && r->Err_0 == Error::CostTime
                } else if found is Some && (db.mm@[found->Some_0]@.public
                    || db.mm@[found->Some_0]@.uid == uid.0@) {
                    r is Ok && r->Ok_0@ == render_meme_meta(db.mm@[found->Some_0]@)
                } else {
                    r is Err && r->Err_0 == Error::MemeNotFound
                }
            }),
    {
        if now_ms > deadline {
            return Err(Error::CostTime);
        }
        let n = db.mm.len();
        let mut i: usize = 0;
        while i < n
            invariant
                0 <= i <= n,
                n == db.mm@.len(),
                db.wf(),
                now_ms <= deadline,
                find_meta_from(db.mm@, hash@, 0) == find_meta_from(db.mm@, hash@, i as int),
            decreases n - i,
        {
            if crate::kv::bytes_eq(db.mm[i].hash.as_slice(), hash.as_slice()) {
                proof {
                    assert(find_meta_from(db.mm@, hash@, i as int) == Some(i as int));
                }
                let m = &db.mm[i];
                if m.public || crate::kv::bytes_eq(m.uid.0.as_slice(), uid.0.as_slice()) {
                    return Ok(meme_meta_string(m));
                } else {
                    return Err(Error::MemeNotFound);
                }
            }
            proof {
                assert(find_meta_from(db.mm@, hash@, i as int) == find_meta_from(
                    db.mm@,
                    hash@,
                    i + 1,
                ));
            }
            i = i + 1;
        }
        Err(Error::MemeNotFound)
    }

    /// Store a blob: meter each frame against the space budget and the
    /// deadline, hash the bytes, persist the object and its metadata, and
    /// return the hash. The unspent budget is refunded upstream.
    pub fn put_meme(
        &self,
        db: &mut Database,
        uid: &Id,
        changes: &mut Costs,
        deadline: i64,
        days: u64,
        raw: &Vec<Vec<u8>>,
        now_ms: i64,
    ) -> (r: Result<Reply, Error>)
        requires
            old(db).wf(),
            self.wf(),
            valid_now(now_ms as int),
            old(changes).non_negative(),
            now_ms <= deadline ==> (deadline - now_ms) * self.time_cost <= old(changes).time,
        ensures
            final(db).wf(),
            final(changes).non_negative(),
            final(changes).within(old(changes)),
            final(changes).traffic == old(changes).traffic,
            final(changes).tip == old(changes).tip,
            final(db).kv == old(db).kv,
            final(db).cl@ == old(db).cl@,
            final(db).map1@ == old(db).map1@,
            final(db).next_map_id == old(db).next_map_id,
            final(db).credit_limit == old(db).credit_limit,
            final(db).access_ttl == old(db).access_ttl,
            r is Err ==> final(db).mm@ == old(db).mm@ && final(db).mr == old(db).mr,
            r is Err ==> final(changes).time == old(changes).time,
            r is Err && r->Err_0 == Error::MemePut ==> exists|k: Seq<u8>|
                old(db).mr@.contains_key(k),
            raw@.len() > 0 && now_ms > deadline ==> r is Err && (r->Err_0 == Error::CostTime
                || r->Err_0 == Error::MemePut),
            now_ms <= deadline || raw@.len() == 0 ==> ((r is Err && r->Err_0
                == Error::MemePut && *final(changes) == *old(changes)) || ({
                let spent = space_spend(
                    raw@,
                    old(changes).space as int,
                    self.space_cost_obj as int,
                    days as int,
                );
                match spent {
                    Err((e, left)) => r is Err && r->Err_0 == e && final(changes).space
                        == left && final(changes).time == old(changes).time,
                    Ok(left) => {
                        let doc_price = self.space_cost_doc * days;
                        let body = flatten_frames(raw@);
                        if has_private_dup(old(db).mm@, uid.0@, blake3_of(body)) {
                            r is Err && r->Err_0 == Error::MemePut && final(changes).space
                                == left
                        } else if body.len() > i64::MAX {
                            r is Err && r->Err_0 == Error::NumCheck && final(changes).space
                                == left
                        } else if left < doc_price {
                            r is Err && r->Err_0 == Error::CostSpace && final(changes).space == 0
                        } else if now_ms / 1000 + days * 86400 > i64::MAX {
                            r is Err && r->Err_0 == Error::NumCheck && final(changes).space
                                == left - doc_price
                        } else {
                            (r is Ok && ({
                                let m = final(db).mm@.last();
                                &&& final(changes).space == left - doc_price
                                &&& final(changes).time == (if deadline > now_ms {
                                    (deadline - now_ms) * self.time_cost
                                } else {
                                    0
                                })
                                &&& final(db).mm@ == old(db).mm@.push(final(db).mm@.last())
                                &&& m@.uid == uid.0@
                                &&& m@.hash == blake3_of(body)
                                &&& m@.size == body.len()
                                &&& m@.public == false
                                &&& m@.tip == 0
                                &&& m@.eol == now_ms / 1000 + days * 86400
                                &&& !old(db).mr@.contains_key(m@.oid)
                                &&& final(db).mr@ =~= old(db).mr@.insert(
                                    m@.oid,
                                    KvCellV { val: KvValV::Bytes(body), exp: None },
                                )
                                &&& (r->Ok_0 matches Reply::MemePut { changes: ch, hash }
                                    && ch == *final(changes) && hash@ == blake3_of(body))
                            }))
                        }
                    },
                }
            })),
    {
        let ghost declared = *changes;
        // A fresh object name; a collision with a stored object is refused
        // rather than overwritten.
        let oid = Id::rand();
        match db.mr.get(oid.to_vec().as_slice(), now_ms) {
            Some(_) => {
                return Err(Error::MemePut);
            },
            None => {},
        }

        // Metered upload: per frame, the deadline, then the space price.
        let mut hasher = StreamHasher::new();
        let mut obj: Vec<u8> = Vec::new();
        let nf = raw.len();
        let mut i: usize = 0;
        proof {
            assert(raw@.take(0) =~= Seq::<Vec<u8>>::empty());
            assert(obj@ =~= flatten_frames(raw@.take(0)));
            assert(raw@.skip(0) =~= raw@);
        }
        while i < nf
            invariant
                0 <= i <= nf,
                nf == raw@.len(),
                self.wf(),
                *db == *old(db),
                old(db).wf(),
                declared == *old(changes),
                old(changes).non_negative(),
                changes.space >= 0,
                changes.space <= old(changes).space,
                changes.time == declared.time,
                changes.traffic == declared.traffic,
                changes.tip == declared.tip,
                hasher.bytes() == flatten_frames(raw@.take(i as int)),
                obj@ == flatten_frames(raw@.take(i as int)),
                now_ms <= deadline || i == 0,
                space_spend(
                    raw@,
                    declared.space as int,
                    self.space_cost_obj as int,
                    days as int,
                ) == space_spend(
                    raw@.skip(i as int),
                    changes.space as int,
                    self.space_cost_obj as int,
                    days as int,
                ),
            decreases nf - i,
        {
            proof {
                assert(raw@.skip(i as int).first() == raw@[i as int]);
                assert(raw@.skip(i as int).drop_first() =~= raw@.skip(i + 1));
            }
            if now_ms > deadline {
                return Err(Error::CostTime);
            }
            let frame = &raw[i];
            let flen = frame.len();
            let ghost flen_g = flen as int;
            let ghost sco_g = self.space_cost_obj as int;
            let ghost days_g = days as int;
            let ghost w_g = frame_price(flen_g, sco_g, days_g);
            proof {
                assert(frame@ == raw@[i as int]@);
                assert((flen as i128) * (self.space_cost_obj as i128) < 0x80000000000000000000000000000000
                    && (flen as i128) * (self.space_cost_obj as i128) >= 0) by (nonlinear_arith)
                    requires
                        0 <= (flen as i128) && (flen as i128) < 0x10000000000000000i128,
                        0 <= (self.space_cost_obj as i128) && (self.space_cost_obj as i128) < 0x8000000000000000i128,
                ;
            }
            let wide: i128 = flen as i128 * self.space_cost_obj as i128;
            let price: i64 = if days == 0 {
                proof {
                    assert(w_g == 0) by (nonlinear_arith)
                        requires
                            w_g == flen_g * sco_g * 0,
                    ;
                }
                0
            } else {
                if wide > i64::MAX as i128 {
                    proof {
                        assert(w_g >= wide) by (nonlinear_arith)
                            requires
                                w_g == (wide as int) * days_g,
                                days_g >= 1,
                                wide >= 0,
                        ;
                    }
                    return Err(Error::CostSpaceTooLarge);
                }
                proof {
                    assert(wide * (days as i128) >= 0 && wide * (days as i128)
                        < 0x80000000000000000000000000000000) by (nonlinear_arith)
                        requires
                            0 <= wide && wide <= 0x7fffffffffffffffi128,
                            0 <= (days as i128) && (days as i128) < 0x10000000000000000i128,
                    ;
                }
                let wide2: i128 = wide * days as i128;
                proof {
                    assert(wide2 == w_g) by (nonlinear_arith)
                        requires
                            wide == flen_g * sco_g,
                            wide2 == wide * days_g,
                            w_g == flen_g * sco_g * days_g,
                    ;
                }
                if wide2 > i64::MAX as i128 {
                    return Err(Error::CostSpaceTooLarge);
                }
                (wide2 / 1000) as i64
            };
            if changes.space < price {
                changes.space = 0;
                return Err(Error::CostSpace);
            }
            changes.space = changes.space - price;
            hasher.update(frame.as_slice());
            let mut k: usize = 0;
            let fl = frame.len();
            while k < fl
                invariant
                    0 <= k <= fl,
                    fl == frame@.len(),
                    obj@ == flatten_frames(raw@.take(i as int)) + frame@.take(k as int),
                decreases fl - k,
            {
                obj.push(frame[k]);
                proof {
                    assert(frame@.take(k + 1) =~= frame@.take(k as int).push(frame@[k as int]));
                    assert(flatten_frames(raw@.take(i as int)) + frame@.take(k + 1) =~= (
                    flatten_frames(raw@.take(i as int)) + frame@.take(k as int)).push(
                        frame@[k as int],
                    ));
                }
                k = k + 1;
            }
            proof {
                assert(frame@.take(fl as int) =~= frame@);
                lemma_flatten_snoc(raw@, i as int);
            }
            i = i + 1;
        }
        proof {
            assert(raw@.take(nf as int) =~= raw@);
            assert(raw@.skip(nf as int) =~= Seq::<Vec<u8>>::empty());
            assert(space_spend(
                raw@.skip(nf as int),
                changes.space as int,
                self.space_cost_obj as int,
                days as int,
            ) == Ok::<int, (Error, int)>(changes.space as int));
        }

        // One private row per owner and hash: a second put of the same
        // body is refused rather than duplicated.
        let hash = hasher.finalize();
        let nm = db.mm.len();
        let mut di: usize = 0;
        while di < nm
            invariant
                0 <= di <= nm,
                nm == db.mm@.len(),
                *db == *old(db),
                old(db).wf(),
                self.wf(),
                old(changes).non_negative(),
                changes.space >= 0,
                changes.space <= old(changes).space,
                changes.time == old(changes).time,
                changes.traffic == old(changes).traffic,
                changes.tip == old(changes).tip,
                now_ms <= deadline || raw@.len() == 0,
                hash@ == blake3_of(flatten_frames(raw@)),
                obj@ == flatten_frames(raw@),
                space_spend(
                    raw@,
                    old(changes).space as int,
                    self.space_cost_obj as int,
                    days as int,
                ) == Ok::<int, (Error, int)>(changes.space as int),
                forall|j: int|
                    0 <= j < di ==> !((#[trigger] db.mm@[j])@.uid == uid.0@ && db.mm@[j]@.hash
                        == hash@ && !db.mm@[j]@.public),
            decreases nm - di,
        {
            let row = &db.mm[di];
            let dup = !row.public && crate::kv::bytes_eq(row.uid.0.as_slice(), uid.0.as_slice())
                && crate::kv::bytes_eq(row.hash.as_slice(), hash.as_slice());
            if dup {
                proof {
                    assert(db.mm@[di as int]@.uid == uid.0@ && db.mm@[di as int]@.hash
                        == hash@ && !db.mm@[di as int]@.public);
                    assert(old(db).mr@.contains_key(db.mm@[di as int]@.oid));
                }
                return Err(Error::MemePut);
            }
            di = di + 1;
        }

        // Persist the object and its metadata row.
        let size = obj.len();
        if size as u128 > i64::MAX as u128 {
            return Err(Error::NumCheck);
        }
        proof {
            assert((self.space_cost_doc as i128) * (days as i128)
                < 0x80000000000000000000000000000000 && (self.space_cost_doc as i128)
                * (days as i128) >= 0) by (nonlinear_arith)
                requires
                    0 <= (self.space_cost_doc as i128) && (self.space_cost_doc as i128) < 0x8000000000000000i128,
                    0 <= (days as i128) && (days as i128) < 0x10000000000000000i128,
            ;
        }
        let doc_price_wide: i128 = self.space_cost_doc as i128 * days as i128;
        if (changes.space as i128) < doc_price_wide {
            changes.space = 0;
            return Err(Error::CostSpace);
        }
        changes.space = ((changes.space as i128) - doc_price_wide) as i64;
        let eol_wide: i128 = (now_ms / 1000) as i128 + days as i128 * 86400;
        if eol_wide > i64::MAX as i128 {
            return Err(Error::NumCheck);
        }
        let eol: i64 = eol_wide as i64;
        db.mr.set_persist(oid.to_vec().as_slice(), KvVal::Bytes(obj));
        let meta = MemeMeta {
            uid: *uid,
            oid,
            hash,
            size: size as i64,
            public: false,
            tip: 0,
            eol,
        };
        db.mm.push(meta);
        if deadline > now_ms {
            let remaining: i64 = deadline - now_ms;
            proof {
                assert((remaining as i128) * (self.time_cost as i128)
                    < 0x80000000000000000000000000000000 && (remaining as i128)
                    * (self.time_cost as i128) >= 0) by (nonlinear_arith)
                    requires
                        0 <= (remaining as i128) && (remaining as i128) < 0x8000000000000000i128,
                        0 < (self.time_cost as i128) && (self.time_cost as i128) < 0x8000000000000000i128,
                ;
            }
            let tw: i128 = remaining as i128 * self.time_cost as i128;
            proof {
                assert(tw == (deadline - now_ms) * self.time_cost && tw >= 0)
                    by (nonlinear_arith)
                    requires
                        tw == remaining as i128 * self.time_cost as i128,
                        remaining == deadline - now_ms,
                        remaining >= 0,
                        self.time_cost >= 1,
                ;
            }
            changes.time = tw as i64;
        } else {
            changes.time = 0;
        }
        Ok(Reply::MemePut { changes: *changes, hash })
    }
}


impl Meme {
    /// Fetch a blob by hash: the cheapest matching metadata row wins, the
    /// traffic price of its size is charged, a public read pays the tip to
    /// the owner, and the object bytes are returned.
    pub fn get_meme(
        &self,
        db: &mut Database,
        uid: &Id,
        changes: &mut Costs,
        deadline: i64,
        hash: &crate::ir::Hash,
        public: bool,
        now_ms: i64,
    ) -> (r: Result<Reply, Error>)
        requires
            old(db).wf(),
            self.wf(),
            valid_now(now_ms as int),
            old(changes).non_negative(),
            now_ms <= deadline ==> (deadline - now_ms) * self.time_cost <= old(changes).time,
        ensures
            final(db).wf(),
            final(changes).non_negative(),
            final(changes).within(old(changes)),
            final(changes).space == old(changes).space,
            final(db).mm@ == old(db).mm@,
            final(db).map1@ == old(db).map1@,
            final(db).next_map_id == old(db).next_map_id,
            final(db).mr == old(db).mr,
            final(db).credit_limit == old(db).credit_limit,
            final(db).access_ttl == old(db).access_ttl,
            crate::credit::credit_within(
                old(db).kv@,
                final(db).kv@,
                uid.0@,
                old(changes).tip - final(changes).tip,
                now_ms as int,
            ),
            r is Err ==> final(changes).time == old(changes).time,
            !some_match(old(db).mm@, hash@, public, uid.0@) ==> r is Err && r->Err_0
                == Error::MemeNotFound && final(db).kv@ == old(db).kv@ && final(db).cl@
                == old(db).cl@ && *final(changes) == *old(changes),
            some_match(old(db).mm@, hash@, public, uid.0@) ==> exists|i: int|
                #[trigger] get_winner(old(db).mm@, hash@, public, uid.0@, i) && ({
                    let m = old(db).mm@[i]@;
                    let price = self.traffic_cost * m.size;
                    if price > old(changes).traffic {
                        r is Err && r->Err_0 == Error::CostTraffic && final(db).kv@ == old(db).kv@ && final(db).cl@ == old(db).cl@ && *final(changes) == *old(changes)
                    } else {
                        final(changes).traffic == old(changes).traffic - price && (if !public {
                            final(db).kv@ == old(db).kv@ && final(db).cl@ == old(db).cl@
                                && final(changes).tip == old(changes).tip && get_ok_body(
                                r,
                                old(db),
                                i,
                                *final(changes),
                                self.time_cost as int,
                                deadline as int,
                                now_ms as int,
                            )
                        } else {
                            if m.tip > old(changes).tip {
                                r is Err && r->Err_0 == Error::CostTip && final(db).kv@
                                    == old(db).kv@ && final(db).cl@ == old(db).cl@ && final(changes).tip == old(changes).tip
                            } else {
                                final(changes).tip == old(changes).tip - m.tip && (match old(db).kv.spec_get(Database::credit_key(m.uid), now_ms as int) {
                                    Some(KvValV::Int(v)) => {
                                        if i64::MIN <= v + m.tip <= i64::MAX {
                                            final(db).kv@ =~= old(db).kv@.insert(
                                                Database::credit_key(m.uid),
                                                KvCellV {
                                                    val: KvValV::Int(v + m.tip),
                                                    exp: old(db).kv@[Database::credit_key(
                                                        m.uid,
                                                    )].exp,
                                                },
                                            ) && cl_view(final(db)) =~= cl_view(old(db)).push(
                                                crate::credit::log_rec(
                                                    m.uid,
                                                    Some(uid.0@),
                                                    m.tip,
                                                    "MemeTip"@,
                                                    now_ms as int,
                                                ),
                                            ) && get_ok_body(
                                                r,
                                                old(db),
                                                i,
                                                *final(changes),
                                                self.time_cost as int,
                                                deadline as int,
                                                now_ms as int,
                                            )
                                        } else {
                                            r is Err && r->Err_0 == Error::NumCheck && final(db).kv@ == old(db).kv@ && final(db).cl@ == old(db).cl@
                                        }
                                    },
                                    None => get_ok_body(
                                        r,
                                        old(db),
                                        i,
                                        *final(changes),
                                        self.time_cost as int,
                                        deadline as int,
                                        now_ms as int,
                                    ) && final(db).kv@ =~= old(db).kv@.insert(
                                        Database::credit_key(m.uid),
                                        KvCellV { val: KvValV::Int(m.tip), exp: None },
                                    ) && cl_view(final(db)) =~= cl_view(old(db)).push(
                                        crate::credit::log_rec(
                                            m.uid,
                                            Some(uid.0@),
                                            m.tip,
                                            "MemeTip"@,
                                            now_ms as int,
                                        ),
                                    ),
                                    Some(KvValV::Bytes(_)) => r is Err && r->Err_0
                                        == Error::Logical && final(db).kv@ == old(db).kv@
                                        && final(db).cl@ == old(db).cl@,
                                })
                            }
                        })
                    }
                }),
    {
        // Pick the cheapest matching row: lowest tip, first on a tie.
        let n = db.mm.len();
        let mut best: Option<usize> = None;
        let mut i: usize = 0;
        while i < n
            invariant
                0 <= i <= n,
                n == db.mm@.len(),
                match best {
                    Some(b) => 0 <= b < i && matches_get(db.mm@[b as int]@, hash@, public, uid.0@)
                        && (forall|j: int|
                        0 <= j < i && matches_get((#[trigger] db.mm@[j])@, hash@, public, uid.0@)
                            ==> db.mm@[b as int]@.tip <= db.mm@[j]@.tip) && (forall|j: int|
                        0 <= j < b && matches_get((#[trigger] db.mm@[j])@, hash@, public, uid.0@)
                            ==> db.mm@[b as int]@.tip < db.mm@[j]@.tip),
                    None => forall|j: int|
                        0 <= j < i ==> !matches_get((#[trigger] db.mm@[j])@, hash@, public, uid.0@),
                },
            decreases n - i,
        {
            let m = &db.mm[i];
            let hash_eq = crate::kv::bytes_eq(m.hash.as_slice(), hash.as_slice());
            let visible = if public {
                m.public
            } else {
                crate::kv::bytes_eq(m.uid.0.as_slice(), uid.0.as_slice())
            };
            if hash_eq && visible {
                match best {
                    None => {
                        best = Some(i);
                    },
                    Some(b) => {
                        if db.mm[i].tip < db.mm[b].tip {
                            best = Some(i);
                        }
                    },
                }
            }
            i = i + 1;
        }
        let bi = match best {
            Some(b) => b,
            None => {
                return Err(Error::MemeNotFound);
            },
        };
        proof {
            assert(get_winner(db.mm@, hash@, public, uid.0@, bi as int));
        }

        // Charge the traffic price of the blob.
        let m_size = db.mm[bi].size;
        let m_tip = db.mm[bi].tip;
        let m_uid = db.mm[bi].uid;
        let m_oid = db.mm[bi].oid;
        let ghost price_g = self.traffic_cost * m_size as int;
        proof {
            assert((self.traffic_cost as i128) * (m_size as i128) == price_g
                && (self.traffic_cost as i128) * (m_size as i128)
                < 0x80000000000000000000000000000000 && (self.traffic_cost as i128) * (
            m_size as i128) > -0x80000000000000000000000000000000) by (nonlinear_arith)
                requires
                    price_g == self.traffic_cost * m_size as int,
                    0 < (self.traffic_cost as i128) && (self.traffic_cost as i128)
                        < 0x8000000000000000i128,
                    -0x8000000000000000i128 <= (m_size as i128) && (m_size as i128)
                        < 0x8000000000000000i128,
            ;
        }
        let price_wide: i128 = self.traffic_cost as i128 * m_size as i128;
        if price_wide > changes.traffic as i128 {
            return Err(Error::CostTraffic);
        }
        changes.traffic = ((changes.traffic as i128) - price_wide) as i64;

        // A public read pays the tip to the owner.
        if public {
            if m_tip > changes.tip {
                return Err(Error::CostTip);
            }
            changes.tip = changes.tip - m_tip;
            proof {
                assert(m_uid.0@.len() == 16 && uid.0@.len() == 16);
                if m_uid.0@ != uid.0@ {
                    crate::database::lemma_ns_body_distinct(
                        crate::kv::UID2CREDIT,
                        m_uid.0@,
                        uid.0@,
                    );
                }
            }
            match db.incr_credit(&m_uid, Some(*uid), m_tip, "MemeTip", now_ms) {
                Ok(_) => {},
                Err(e) => {
                    return Err(e);
                },
            }
        }

        // Stream the object bytes.
        let body = match db.mr.get(m_oid.to_vec().as_slice(), now_ms) {
            Some(KvVal::Bytes(b)) => b,
            Some(KvVal::Int(_)) => vstd::pervasive::unreached(),
            None => vstd::pervasive::unreached(),
        };
        if deadline > now_ms {
            let remaining: i64 = deadline - now_ms;
            proof {
                assert((remaining as i128) * (self.time_cost as i128)
                    < 0x80000000000000000000000000000000 && (remaining as i128) * (
                self.time_cost as i128) >= 0) by (nonlinear_arith)
                    requires
                        0 <= (remaining as i128) && (remaining as i128) < 0x8000000000000000i128,
                        0 < (self.time_cost as i128) && (self.time_cost as i128)
                            < 0x8000000000000000i128,
                ;
            }
            let tw: i128 = remaining as i128 * self.time_cost as i128;
            proof {
                assert(tw == (deadline - now_ms) * self.time_cost && tw >= 0)
                    by (nonlinear_arith)
                    requires
                        tw == remaining as i128 * self.time_cost as i128,
                        remaining == deadline - now_ms,
                        remaining >= 0,
                        self.time_cost >= 1,
                ;
            }
            changes.time = tw as i64;
        } else {
            changes.time = 0;
        }
        Ok(Reply::MemeGet { changes: *changes, raw: body })
    }
}

/// What a successful meme get returns: the final remainder and the bytes
/// of the winning row's object, with the time budget recomputed from the
/// remaining headroom.
pub open spec fn get_ok_body(
    r: Result<Reply, Error>,
    db0: &Database,
    i: int,
    ch: Costs,
    time_cost: int,
    deadline: int,
    now: int,
) -> bool {
    &&& r is Ok
    &&& ch.time == (if deadline > now {
        (deadline - now) * time_cost
    } else {
        0
    })
    &&& (r->Ok_0 matches Reply::MemeGet { changes: c, raw } && c == ch && raw@
        == db0.mr@[db0.mm@[i]@.oid].val->Bytes_0)
}


/// Hash stability: in a state where the last metadata row is the one a
/// put of `body` stored, and the caller had no other row under that hash,
/// a non-public get finds exactly that row and its object holds `body`
/// unchanged; the stored hash is the BLAKE3 of `body`.
pub proof fn lemma_meme_round_trip(db: &Database, uid: Seq<u8>, body: Seq<u8>)
    requires
        db.mm@.len() > 0,
        ({
            let m = db.mm@.last()@;
            &&& m.uid == uid
            &&& m.hash == blake3_of(body)
            &&& db.mr@.contains_key(m.oid)
            &&& db.mr@[m.oid].val == KvValV::Bytes(body)
        }),
        forall|j: int|
            0 <= j < db.mm@.len() - 1 ==> !matches_get(
                (#[trigger] db.mm@[j])@,
                blake3_of(body),
                false,
                uid,
            ),
    ensures
        some_match(db.mm@, blake3_of(body), false, uid),
        forall|w: int|
            #[trigger] get_winner(db.mm@, blake3_of(body), false, uid, w)
                ==> db.mr@[db.mm@[w]@.oid].val == KvValV::Bytes(body),
{
    let last = db.mm@.len() - 1;
    assert(matches_get(db.mm@[last]@, blake3_of(body), false, uid));
    assert forall|w: int|
        #[trigger] get_winner(db.mm@, blake3_of(body), false, uid, w) implies db.mr@[
        db.mm@[w]@.oid].val == KvValV::Bytes(body) by {
        assert(matches_get(db.mm@[w]@, blake3_of(body), false, uid));
        assert(w == last);
    }
}

} // verus!
