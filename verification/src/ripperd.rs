//! The reaper: one pass deletes what has reached its end of life — meme
//! metadata with its object (the object first, so no orphaned bytes can
//! leak), expired map documents, and audit records past their retention.

use vstd::prelude::*;

use crate::config::{Config, MAX_TTL_S};
use crate::database::Database;
use crate::docs::{LogEntry, MapDoc, MemeMeta};

verus! {

/// Whether some expired metadata row names this object.
pub open spec fn ripped_oid(mm: Seq<MemeMeta>, k: Seq<u8>, now_s: int) -> bool {
    exists|i: int| 0 <= i < mm.len() && (#[trigger] mm[i])@.eol < now_s && mm[i]@.oid == k
}

/// Every element a filter keeps stands somewhere in the original.
proof fn lemma_filter_src<A>(s: Seq<A>, pred: spec_fn(A) -> bool, p: int)
    requires
        0 <= p < s.filter(pred).len(),
    ensures
        exists|si: int| 0 <= si < s.len() && s.filter(pred)[p] == #[trigger] s[si],
    decreases s.len(),
{
    reveal(Seq::filter);
    if s.len() > 0 {
        if pred(s.last()) && p == s.filter(pred).len() - 1 {
            assert(s.filter(pred)[p] == s[s.len() - 1]);
        } else {
            lemma_filter_src(s.drop_last(), pred, p);
            let si = choose|si: int|
                0 <= si < s.drop_last().len() && s.drop_last().filter(pred)[p] == #[trigger] s
                    .drop_last()[si];
            assert(s.filter(pred)[p] == s[si]);
        }
    }
}

/// Two elements a filter keeps stand at two ordered places in the
/// original.
proof fn lemma_filter_two<A>(s: Seq<A>, pred: spec_fn(A) -> bool, p: int, q: int)
    requires
        0 <= p < q < s.filter(pred).len(),
    ensures
        exists|sp: int, sq: int|
            0 <= sp < sq < s.len() && s.filter(pred)[p] == #[trigger] s[sp] && s.filter(
                pred,
            )[q] == #[trigger] s[sq],
    decreases s.len(),
{
    reveal(Seq::filter);
    if s.len() > 0 {
        if pred(s.last()) && q == s.filter(pred).len() - 1 {
            lemma_filter_src(s.drop_last(), pred, p);
            let sp = choose|si: int|
                0 <= si < s.drop_last().len() && s.drop_last().filter(pred)[p] == #[trigger] s
                    .drop_last()[si];
            assert(s.filter(pred)[p] == s[sp]);
            assert(s.filter(pred)[q] == s[s.len() - 1]);
        } else {
            lemma_filter_two(s.drop_last(), pred, p, q);
            let (sp, sq) = choose|sp: int, sq: int|
                0 <= sp < sq < s.drop_last().len() && s.drop_last().filter(pred)[p]
                    == #[trigger] s.drop_last()[sp] && s.drop_last().filter(pred)[q]
                    == #[trigger] s.drop_last()[sq];
            assert(s.filter(pred)[p] == s[sp] && s.filter(pred)[q] == s[sq]);
        }
    }
}

/// The reaper's policy: how often it runs and how long audit records live.
pub struct Ripperd {
    /// Whether the reaper is off.
    pub ripperd_disabled: bool,
    /// Seconds between passes.
    pub ripperd_interval: i64,
    /// Seconds the credit log is retained.
    pub credit_retention: i64,
}

impl Ripperd {
    /// What the passes assume of the policy.
    pub open spec fn wf(&self) -> bool {
        0 <= self.ripperd_interval && 0 <= self.credit_retention <= MAX_TTL_S
    }

    /// Take the policy from the configuration.
    pub fn new(config: &Config) -> (r: Ripperd)
        requires
            config.wf(),
        ensures
            r.wf(),
            r.ripperd_disabled == config.ripperd_disabled,
            r.ripperd_interval == config.ripperd_interval,
            r.credit_retention == config.credit_retention,
    {
        Ripperd {
            ripperd_disabled: config.ripperd_disabled,
            ripperd_interval: config.ripperd_interval,
            credit_retention: config.credit_retention,
        }
    }

    /// One pass over everything with an end of life.
    pub fn rip(&self, db: &mut Database, now_ms: i64)
        requires
            old(db).wf(),
            self.wf(),
            crate::config::valid_now(now_ms as int),
        ensures
            final(db).wf(),
            final(db).kv == old(db).kv,
            final(db).next_map_id == old(db).next_map_id,
            final(db).credit_limit == old(db).credit_limit,
            final(db).access_ttl == old(db).access_ttl,
            final(db).mm@ == old(db).mm@.filter(
                |m: MemeMeta| m@.eol >= now_ms as int / 1000,
            ),
            forall|k: Seq<u8>|
                (#[trigger] final(db).mr@.contains_key(k)) <==> (old(db).mr@.contains_key(k)
                    && !ripped_oid(old(db).mm@, k, now_ms as int / 1000)),
            forall|k: Seq<u8>|
                #[trigger] final(db).mr@.contains_key(k) ==> final(db).mr@[k] == old(
                    db,
                ).mr@[k],
            final(db).map1@ == old(db).map1@.filter(
                |d: MapDoc| d@.eol >= now_ms as int / 1000,
            ),
            final(db).cl@ == old(db).cl@.filter(
                |e: LogEntry| e@.time >= now_ms - self.credit_retention * 1000,
            ),
    {
        let now_s = now_ms / 1000;
        rip_meme(db, now_s);
        rip_map1(db, now_s);
        let cutoff: i64 = now_ms - self.credit_retention * 1000;
        rip_cl(db, cutoff);
    }
}

/// Delete every expired meme: its object first, then its metadata row.
fn rip_meme(db: &mut Database, now_s: i64)
    requires
        old(db).wf(),
    ensures
        final(db).wf(),
        final(db).kv == old(db).kv,
        final(db).cl@ == old(db).cl@,
        final(db).map1@ == old(db).map1@,
        final(db).next_map_id == old(db).next_map_id,
        final(db).credit_limit == old(db).credit_limit,
        final(db).access_ttl == old(db).access_ttl,
        final(db).mm@ == old(db).mm@.filter(|m: MemeMeta| m@.eol >= now_s as int),
        forall|k: Seq<u8>|
            (#[trigger] final(db).mr@.contains_key(k)) <==> (old(db).mr@.contains_key(k)
                && !ripped_oid(old(db).mm@, k, now_s as int)),
        forall|k: Seq<u8>|
            #[trigger] final(db).mr@.contains_key(k) ==> final(db).mr@[k] == old(db).mr@[k],
{
    let ghost pred = |m: MemeMeta| m@.eol >= now_s as int;
    let ghost mm0 = old(db).mm@;
    let ghost mut j: int = 0;
    let mut i: usize = 0;
    proof {
        reveal(Seq::filter);
        assert(mm0.take(0).filter(pred) =~= Seq::<MemeMeta>::empty());
        assert(db.mm@ =~= mm0.take(0).filter(pred) + mm0.skip(0));
    }
    while i < db.mm.len()
        invariant
            0 <= j <= mm0.len(),
            i as int == mm0.take(j).filter(pred).len(),
            db.mm@ =~= mm0.take(j).filter(pred) + mm0.skip(j),
            mm0 == old(db).mm@,
            old(db).wf(),
            pred == (|m: MemeMeta| m@.eol >= now_s as int),
            db.kv == old(db).kv,
            db.cl@ == old(db).cl@,
            db.map1@ == old(db).map1@,
            db.next_map_id == old(db).next_map_id,
            db.credit_limit == old(db).credit_limit,
            db.access_ttl == old(db).access_ttl,
            db.mr.wf(),
            forall|k: Seq<u8>|
                (#[trigger] db.mr@.contains_key(k)) <==> (old(db).mr@.contains_key(k)
                    && !ripped_oid(mm0.take(j), k, now_s as int)),
            forall|k: Seq<u8>|
                #[trigger] db.mr@.contains_key(k) ==> db.mr@[k] == old(db).mr@[k],
        decreases mm0.len() - j,
    {
        proof {
            reveal(Seq::filter);
            Seq::lemma_filter_len(mm0.take(j), pred);
            assert(j < mm0.len());
            assert(db.mm@[i as int] == mm0.skip(j)[0]);
            assert(mm0.skip(j)[0] == mm0[j]);
            assert(mm0.take(j + 1).drop_last() =~= mm0.take(j));
            assert(mm0.take(j + 1).last() == mm0[j]);
        }
        if db.mm[i].eol < now_s {
            // Remove the object before its row, so no bytes leak.
            let key = db.mm[i].oid.to_vec();
            db.mr.del(key.as_slice());
            let _ = db.mm.remove(i);
            proof {
                assert(mm0.take(j + 1).filter(pred) =~= mm0.take(j).filter(pred));
                assert(db.mm@ =~= mm0.take(j + 1).filter(pred) + mm0.skip(j + 1));
                assert forall|k: Seq<u8>| #[trigger] ripped_oid(
                    mm0.take(j + 1),
                    k,
                    now_s as int,
                ) implies (ripped_oid(mm0.take(j), k, now_s as int) || k
                    == mm0[j]@.oid) by {
                    let q = choose|q: int|
                        0 <= q < mm0.take(j + 1).len() && (#[trigger] mm0.take(j + 1)[q])@.eol
                            < now_s && mm0.take(j + 1)[q]@.oid == k;
                    if q < j {
                        assert(mm0.take(j)[q] == mm0.take(j + 1)[q]);
                    }
                }
                assert forall|k: Seq<u8>| ripped_oid(mm0.take(j), k, now_s as int) || k
                    == mm0[j]@.oid implies #[trigger] ripped_oid(
                    mm0.take(j + 1),
                    k,
                    now_s as int,
                ) by {
                    if k == mm0[j]@.oid {
                        assert(mm0.take(j + 1)[j] == mm0[j]);
                    } else {
                        let q = choose|q: int|
                            0 <= q < mm0.take(j).len() && (#[trigger] mm0.take(j)[q])@.eol
                                < now_s && mm0.take(j)[q]@.oid == k;
                        assert(mm0.take(j + 1)[q] == mm0.take(j)[q]);
                    }
                }
                j = j + 1;
            }
        } else {
            proof {
                assert(mm0.take(j + 1).filter(pred) =~= mm0.take(j).filter(pred).push(mm0[j]));
                assert(db.mm@ =~= mm0.take(j + 1).filter(pred) + mm0.skip(j + 1));
                assert forall|k: Seq<u8>| #[trigger] ripped_oid(
                    mm0.take(j + 1),
                    k,
                    now_s as int,
                ) implies ripped_oid(mm0.take(j), k, now_s as int) by {
                    let q = choose|q: int|
                        0 <= q < mm0.take(j + 1).len() && (#[trigger] mm0.take(j + 1)[q])@.eol
                            < now_s && mm0.take(j + 1)[q]@.oid == k;
                    assert(q < j);
                    assert(mm0.take(j)[q] == mm0.take(j + 1)[q]);
                }
                assert forall|k: Seq<u8>| ripped_oid(mm0.take(j), k, now_s as int)
                    implies #[trigger] ripped_oid(mm0.take(j + 1), k, now_s as int) by {
                    let q = choose|q: int|
                        0 <= q < mm0.take(j).len() && (#[trigger] mm0.take(j)[q])@.eol < now_s
                            && mm0.take(j)[q]@.oid == k;
                    assert(mm0.take(j + 1)[q] == mm0.take(j)[q]);
                }
                j = j + 1;
            }
            i = i + 1;
        }
    }
    proof {
        Seq::lemma_filter_len(mm0.take(j), pred);
        assert(j == mm0.len());
        assert(mm0.take(j) =~= mm0);
        assert(mm0.skip(j) =~= Seq::<MemeMeta>::empty());
        assert(db.mm@ =~= mm0.filter(pred));
        lemma_rip_meme_wf(old(db), db, now_s as int);
    }
}

/// What survives a reaper pass keeps the store's shape: the kept rows'
/// objects survive, object names stay unique, and at most one private row
/// per owner and hash remains.
proof fn lemma_rip_meme_wf(db0: &Database, db1: &Database, now_s: int)
    requires
        db0.wf(),
        db1.kv == db0.kv,
        db1.map1@ == db0.map1@,
        db1.next_map_id == db0.next_map_id,
        db1.mr.wf(),
        db1.mm@ == db0.mm@.filter(|m: MemeMeta| m@.eol >= now_s),
        forall|k: Seq<u8>|
            (#[trigger] db1.mr@.contains_key(k)) <==> (db0.mr@.contains_key(k) && !ripped_oid(
                db0.mm@,
                k,
                now_s,
            )),
        forall|k: Seq<u8>| #[trigger] db1.mr@.contains_key(k) ==> db1.mr@[k] == db0.mr@[k],
    ensures
        db1.wf(),
{
    let pred = |m: MemeMeta| m@.eol >= now_s;
    assert forall|p: int| 0 <= p < db1.mm@.len() implies db1.mr@.contains_key(
        (#[trigger] db1.mm@[p])@.oid,
    ) && db1.mm@[p]@.size >= 0 && db1.mm@[p]@.tip >= 0 by {
        lemma_filter_src(db0.mm@, pred, p);
        Seq::lemma_filter_pred(db0.mm@, pred, p);
        let si = choose|si: int| 0 <= si < db0.mm@.len() && db1.mm@[p] == #[trigger] db0.mm@[si];
        assert(db0.mr@.contains_key(db0.mm@[si]@.oid));
        if ripped_oid(db0.mm@, db0.mm@[si]@.oid, now_s) {
            let w = choose|w: int|
                0 <= w < db0.mm@.len() && (#[trigger] db0.mm@[w])@.eol < now_s && db0.mm@[
                w]@.oid == db0.mm@[si]@.oid;
            assert(w == si);
        }
    }
    assert forall|p: int, q: int| 0 <= p < q < db1.mm@.len() implies (
    #[trigger] db1.mm@[p])@.oid != (#[trigger] db1.mm@[q])@.oid && !(db1.mm@[p]@.uid == db1.mm@[
    q]@.uid && db1.mm@[p]@.hash == db1.mm@[q]@.hash && !db1.mm@[p]@.public && !db1.mm@[
    q]@.public) by {
        lemma_filter_two(db0.mm@, pred, p, q);
    }
}

/// Delete every expired map document.
fn rip_map1(db: &mut Database, now_s: i64)
    requires
        old(db).wf(),
    ensures
        final(db).wf(),
        final(db).kv == old(db).kv,
        final(db).cl@ == old(db).cl@,
        final(db).mm@ == old(db).mm@,
        final(db).mr == old(db).mr,
        final(db).next_map_id == old(db).next_map_id,
        final(db).credit_limit == old(db).credit_limit,
        final(db).access_ttl == old(db).access_ttl,
        final(db).map1@ == old(db).map1@.filter(|d: MapDoc| d@.eol >= now_s as int),
{
    let ghost pred = |d: MapDoc| d@.eol >= now_s as int;
    let ghost s0 = old(db).map1@;
    let ghost mut j: int = 0;
    let mut i: usize = 0;
    proof {
        reveal(Seq::filter);
        assert(s0.take(0).filter(pred) =~= Seq::<MapDoc>::empty());
        assert(db.map1@ =~= s0.take(0).filter(pred) + s0.skip(0));
    }
    while i < db.map1.len()
        invariant
            0 <= j <= s0.len(),
            i as int == s0.take(j).filter(pred).len(),
            db.map1@ =~= s0.take(j).filter(pred) + s0.skip(j),
            s0 == old(db).map1@,
            old(db).wf(),
            pred == (|d: MapDoc| d@.eol >= now_s as int),
            db.kv == old(db).kv,
            db.cl@ == old(db).cl@,
            db.mm@ == old(db).mm@,
            db.mr == old(db).mr,
            db.next_map_id == old(db).next_map_id,
            db.credit_limit == old(db).credit_limit,
            db.access_ttl == old(db).access_ttl,
        decreases s0.len() - j,
    {
        proof {
            reveal(Seq::filter);
            Seq::lemma_filter_len(s0.take(j), pred);
            assert(j < s0.len());
            assert(db.map1@[i as int] == s0.skip(j)[0]);
            assert(s0.skip(j)[0] == s0[j]);
            assert(s0.take(j + 1).drop_last() =~= s0.take(j));
            assert(s0.take(j + 1).last() == s0[j]);
        }
        if db.map1[i].eol < now_s {
            let _ = db.map1.remove(i);
            proof {
                assert(s0.take(j + 1).filter(pred) =~= s0.take(j).filter(pred));
                assert(db.map1@ =~= s0.take(j + 1).filter(pred) + s0.skip(j + 1));
                j = j + 1;
            }
        } else {
            proof {
                assert(s0.take(j + 1).filter(pred) =~= s0.take(j).filter(pred).push(s0[j]));
                assert(db.map1@ =~= s0.take(j + 1).filter(pred) + s0.skip(j + 1));
                j = j + 1;
            }
            i = i + 1;
        }
    }
    proof {
        Seq::lemma_filter_len(s0.take(j), pred);
        assert(j == s0.len());
        assert(s0.take(j) =~= s0);
        assert(s0.skip(j) =~= Seq::<MapDoc>::empty());
        assert(db.map1@ =~= s0.filter(pred));
        assert forall|p: int| 0 <= p < db.map1@.len() implies crate::docs::wf_map_doc(
            (#[trigger] db.map1@[p])@,
        ) && db.map1@[p]@.id < db.next_map_id by {
            lemma_filter_src(s0, pred, p);
        }
        assert forall|p: int, q: int| 0 <= p < q < db.map1@.len() implies (
        #[trigger] db.map1@[p])@.id != (#[trigger] db.map1@[q])@.id by {
            lemma_filter_two(s0, pred, p, q);
        }
    }
}

/// Delete every audit record older than the retention cutoff.
fn rip_cl(db: &mut Database, cutoff_ms: i64)
    requires
        old(db).wf(),
    ensures
        final(db).wf(),
        final(db).kv == old(db).kv,
        final(db).mm@ == old(db).mm@,
        final(db).map1@ == old(db).map1@,
        final(db).mr == old(db).mr,
        final(db).next_map_id == old(db).next_map_id,
        final(db).credit_limit == old(db).credit_limit,
        final(db).access_ttl == old(db).access_ttl,
        final(db).cl@ == old(db).cl@.filter(|e: LogEntry| e@.time >= cutoff_ms as int),
{
    let ghost pred = |e: LogEntry| e@.time >= cutoff_ms as int;
    let ghost s0 = old(db).cl@;
    let ghost mut j: int = 0;
    let mut i: usize = 0;
    proof {
        reveal(Seq::filter);
        assert(s0.take(0).filter(pred) =~= Seq::<LogEntry>::empty());
        assert(db.cl@ =~= s0.take(0).filter(pred) + s0.skip(0));
    }
    while i < db.cl.len()
        invariant
            0 <= j <= s0.len(),
            i as int == s0.take(j).filter(pred).len(),
            db.cl@ =~= s0.take(j).filter(pred) + s0.skip(j),
            s0 == old(db).cl@,
            old(db).wf(),
            pred == (|e: LogEntry| e@.time >= cutoff_ms as int),
            db.kv == old(db).kv,
            db.mm@ == old(db).mm@,
            db.map1@ == old(db).map1@,
            db.mr == old(db).mr,
            db.next_map_id == old(db).next_map_id,
            db.credit_limit == old(db).credit_limit,
            db.access_ttl == old(db).access_ttl,
        decreases s0.len() - j,
    {
        proof {
            reveal(Seq::filter);
            Seq::lemma_filter_len(s0.take(j), pred);
            assert(j < s0.len());
            assert(db.cl@[i as int] == s0.skip(j)[0]);
            assert(s0.skip(j)[0] == s0[j]);
            assert(s0.take(j + 1).drop_last() =~= s0.take(j));
            assert(s0.take(j + 1).last() == s0[j]);
        }
        if db.cl[i].time < cutoff_ms {
            let _ = db.cl.remove(i);
            proof {
                assert(s0.take(j + 1).filter(pred) =~= s0.take(j).filter(pred));
                assert(db.cl@ =~= s0.take(j + 1).filter(pred) + s0.skip(j + 1));
                j = j + 1;
            }
        } else {
            proof {
                assert(s0.take(j + 1).filter(pred) =~= s0.take(j).filter(pred).push(s0[j]));
                assert(db.cl@ =~= s0.take(j + 1).filter(pred) + s0.skip(j + 1));
                j = j + 1;
            }
            i = i + 1;
        }
    }
    proof {
        Seq::lemma_filter_len(s0.take(j), pred);
        assert(j == s0.len());
        assert(s0.take(j) =~= s0);
        assert(s0.skip(j) =~= Seq::<LogEntry>::empty());
        assert(db.cl@ =~= s0.filter(pred));
    }
}

} // verus!
