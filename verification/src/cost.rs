//! The cost layer: it reads and awards credit, and reserves the declared
//! budget of every billable request by a pessimistic, audit-logged debit
//! before the work runs. The unspent remainder comes back downstream, so a
//! request is charged at most once, and a crash mid-request loses at most
//! the declared budget.

use vstd::prelude::*;
use vstd::string::StringExecFns;

use crate::config::{valid_now, Config, MAX_TTL_S};
use crate::credit::{cl_view, log_rec};
use crate::database::{lemma_ns_tags_distinct, ns, ns_key, Database};
use crate::error::Error;
use crate::fed::Fed;
use crate::gene::{reply_matches, Gene};
use crate::id::Id;
use crate::ir::Costs;
use crate::kv::{KvCellV, KvVal, KvValV, UID2CHECKIN, UID2CREDIT};
use crate::meme::Meme;
use crate::query::Query;
use crate::reply::Reply;

verus! {

/// The key a user's check-in counter lives under.
pub open spec fn checkin_key(u: Seq<u8>) -> Seq<u8> {
    ns_key(UID2CHECKIN, u)
}

/// The check-in counter after one call: created at one without expiry, or
/// bumped with its cooldown reapplied when it already had one.
pub open spec fn counter_bumped(
    kv: Map<Seq<u8>, KvCellV>,
    u: Seq<u8>,
    newval: int,
    refresh_s: int,
    now: int,
) -> Map<Seq<u8>, KvCellV> {
    let ck = checkin_key(u);
    match crate::kv::map_live_get(kv, ck, now) {
        None => kv.insert(ck, KvCellV { val: KvValV::Int(newval), exp: None }),
        Some(_) => kv.insert(
            ck,
            KvCellV {
                val: KvValV::Int(newval),
                exp: match kv[ck].exp {
                    Some(_) => Some(now + refresh_s * 1000),
                    None => None,
                },
            },
        ),
    }
}


/// What a check-in returns and changes, for every state.
pub open spec fn check_in_post(
    r: Result<Reply, Error>,
    db0: &Database,
    db1: &Database,
    uid: Seq<u8>,
    award: i64,
    refresh_s: i64,
    now: int,
) -> bool {
    ({
                let ck = checkin_key(uid);
                let prev = db0.kv.spec_get(ck, now);
                if prev matches Some(KvValV::Bytes(_)) {
                    r is Err && r->Err_0 == Error::Logical && db1.kv@ == db0.kv@
                        && db1.cl@ == db0.cl@
                } else {
                    let v: int = match prev {
                        Some(KvValV::Int(n)) => n,
                        _ => 0,
                    };
                    if !(i64::MIN <= v + 1 <= i64::MAX) {
                        r is Err && r->Err_0 == Error::NumCheck && db1.kv@ == db0.kv@ && db1.cl@ == db0.cl@
                    } else {
                        let kv1 = counter_bumped(
                            db0.kv@,
                            uid,
                            v + 1,
                            refresh_s as int,
                            now,
                        );
                        if v + 1 != 1 {
                            r is Err && r->Err_0 == Error::CostCheckInTooEarly && db1.cl@ == db0.cl@ && db1.kv@ =~= kv1
                        } else {
                            match crate::kv::map_live_get(
                                kv1,
                                Database::credit_key(uid),
                                now,
                            ) {
                                Some(KvValV::Int(c)) => {
                                    if i64::MIN <= c + award <= i64::MAX {
                                        r is Ok && (r->Ok_0 matches Reply::CostCheckIn {
                                            award,
                                        } && award == award) && db1.kv@
                                            =~= kv1.insert(
                                            Database::credit_key(uid),
                                            KvCellV {
                                                val: KvValV::Int(c + award),
                                                exp: kv1[Database::credit_key(uid)].exp,
                                            },
                                        ) && cl_view(db1) =~= cl_view(db0).push(
                                            log_rec(
                                                uid,
                                                None,
                                                award as int,
                                                "CostCheckIn"@,
                                                now,
                                            ),
                                        )
                                    } else {
                                        r is Err && r->Err_0 == Error::NumCheck && db1.kv@ =~= kv1 && db1.cl@ == db0.cl@
                                    }
                                },
                                None => r is Ok && (r->Ok_0 matches Reply::CostCheckIn {
                                    award,
                                } && award == award) && db1.kv@
                                    =~= kv1.insert(
                                    Database::credit_key(uid),
                                    KvCellV {
                                        val: KvValV::Int(award as int),
                                        exp: None,
                                    },
                                ) && cl_view(db1) =~= cl_view(db0).push(
                                    log_rec(
                                        uid,
                                        None,
                                        award as int,
                                        "CostCheckIn"@,
                                        now,
                                    ),
                                ),
                                Some(KvValV::Bytes(_)) => r is Err && r->Err_0
                                    == Error::Logical && db1.kv@ =~= kv1 && db1.cl@ == db0.cl@,
                            }
                        }
                    }
                }
            })
}

/// The cost layer: the time price and the check-in policy.
pub struct Cost {
    /// Cost per millisecond.
    pub time_cost: i64,
    /// The daily check-in award.
    pub check_in_award: i64,
    /// Seconds before a check-in refresh.
    pub check_in_refresh: i64,
}

impl Cost {
    /// What the handlers assume of this layer's options.
    pub open spec fn wf(&self) -> bool {
        &&& 1 <= self.time_cost
        &&& 0 <= self.check_in_award
        &&& 0 <= self.check_in_refresh <= MAX_TTL_S
    }

    /// Take this layer's options from the configuration.
    pub fn new(config: &Config) -> (r: Cost)
        requires
            config.wf(),
        ensures
            r.wf(),
            r.time_cost == config.time_cost,
            r.check_in_award == config.check_in_award,
            r.check_in_refresh == config.check_in_refresh,
    {
        Cost {
            time_cost: config.time_cost,
            check_in_award: config.check_in_award,
            check_in_refresh: config.check_in_refresh,
        }
    }

    /// Read the caller's balance.
    pub fn handle_cost_get(&self, db: &Database, uid: &Id, now_ms: i64) -> (r: Result<
        Reply,
        Error,
    >)
        requires
            db.wf(),
        ensures
            r is Ok <==> db.spec_credit(uid.0@, now_ms as int) is Some,
            r is Ok ==> (r->Ok_0 matches Reply::CostGet { credit } && credit
                == db.spec_credit(uid.0@, now_ms as int)->Some_0),
            r is Err ==> r->Err_0 == Error::Logical,
    {
        let key = ns(UID2CREDIT, uid);
        match db.kv.get(key.as_slice(), now_ms) {
            Some(KvVal::Int(credit)) => Ok(Reply::CostGet { credit }),
            _ => Err(Error::Logical),
        }
    }

    /// Daily check-in: the first call of a cycle awards the configured
    /// credit; a second call within the cooldown is too early.
    pub fn handle_check_in(&self, db: &mut Database, uid: &Id, now_ms: i64) -> (r: Result<
        Reply,
        Error,
    >)
        requires
            old(db).wf(),
            self.wf(),
            valid_now(now_ms as int),
        ensures
            final(db).wf(),
            crate::credit::frame_docs(old(db), final(db)),
            check_in_post(
                r,
                old(db),
                final(db),
                uid.0@,
                self.check_in_award,
                self.check_in_refresh,
                now_ms as int,
            ),
    {
        let u2ci = ns(UID2CHECKIN, uid);
        let last = match db.kv.incrby(u2ci.as_slice(), 1, now_ms) {
            Ok(v) => v,
            Err(e) => {
                return Err(e);
            },
        };
        db.kv.expire_xx(u2ci.as_slice(), self.check_in_refresh, now_ms);
        proof {
            lemma_ns_tags_distinct(UID2CHECKIN, uid.0@, UID2CREDIT, uid.0@);
        }
        if last == 1 {
            match db.incr_credit(uid, None, self.check_in_award, "CostCheckIn", now_ms) {
                Ok(_) => Ok(Reply::CostCheckIn { award: self.check_in_award }),
                Err(e) => Err(e),
            }
        } else {
            Err(Error::CostCheckInTooEarly)
        }
    }

    /// Serve one request: the administrative ones directly, and every
    /// billable one behind a pessimistic reservation of its whole declared
    /// budget, so that at most that much can ever be charged.
    pub fn handle(
        &self,
        fed: &Fed,
        gene: &Gene,
        meme: &Meme,
        db: &mut Database,
        query: Query,
        uid: &Id,
        now_ms: i64,
    ) -> (r: Result<Reply, Error>)
        requires
            old(db).wf(),
            self.wf(),
            gene.wf(),
            meme.wf(),
            self.time_cost == gene.time_cost,
            meme.time_cost == gene.time_cost,
            meme.traffic_cost == gene.traffic_cost,
            meme.space_cost_doc == gene.space_cost_doc,
            valid_now(now_ms as int),
            query.has_access(),
        ensures
            final(db).wf(),
            final(db).credit_limit == old(db).credit_limit,
            final(db).access_ttl == old(db).access_ttl,
            r is Ok ==> !(r->Ok_0 is Error),
            query is CostPay ==> r is Ok && r->Ok_0 is CostPay && *final(db) == *old(db),
            query is CostGet ==> *final(db) == *old(db) && (r is Ok <==> old(db).spec_credit(
                uid.0@,
                now_ms as int,
            ) is Some) && (r is Ok ==> (r->Ok_0 matches Reply::CostGet { credit } && credit
                == old(db).spec_credit(uid.0@, now_ms as int)->Some_0)),
            query is CostCheckIn ==> crate::credit::frame_docs(old(db), final(db))
                && check_in_post(
                r,
                old(db),
                final(db),
                uid.0@,
                self.check_in_award,
                self.check_in_refresh,
                now_ms as int,
            ),
            query.is_billable() ==> ({
                let costs = query.spec_costs();
                let s = costs.spec_sum();
                if !costs.non_negative() || s > i64::MAX {
                    r is Err && r->Err_0 == Error::NumCheck && *final(db) == *old(db)
                } else {
                    match old(db).spec_credit(uid.0@, now_ms as int) {
                        None => r is Err,
                        Some(v) => {
                            // At-most-once charge: the debit is the declared
                            // total, and every refund comes out of it; a
                            // failed request never pays out more than it
                            // reserved.
                            &&& (s <= v - old(db).credit_limit ==> ({
                                let w = final(db).spec_credit(uid.0@, now_ms as int);
                                &&& w is Some
                                &&& v - s <= w->Some_0
                                &&& (r is Err ==> w->Some_0 <= v)
                                // The balance also never rises above its
                                // start on success, except through a gene
                                // call: a map replacement may reclaim space
                                // prepaid by an earlier request.
                                &&& (r is Ok && !(query is GeneCall) ==> w->Some_0 <= v)
                            }))
                            &&& (s > v - old(db).credit_limit ==> r is Err && r->Err_0
                                == Error::CostInsufficientCredit && final(db).kv@ == old(db).kv@)
                            &&& (r is Ok ==> reply_matches(&r->Ok_0, &query) || r->Ok_0
                                is Unimplemented)
                        },
                    }
                }
            }),
    {
        match query {
            Query::CostPay { access: _, vendor } => {
                let mut uri = String::new();
                uri.append("Not implemented: ");
                uri.append(vendor.to_hex().as_str());
                uri.append(", ");
                uri.append(uid.to_hex().as_str());
                Ok(Reply::CostPay { uri })
            },
            Query::CostGet { access: _ } => self.handle_cost_get(db, uid, now_ms),
            Query::CostCheckIn { access: _ } => self.handle_check_in(db, uid, now_ms),
            q => {
                // Reserve the whole declared budget up front.
                let costs = q.get_costs();
                if costs.time < 0 || costs.space < 0 || costs.traffic < 0 || costs.tip < 0 {
                    return Err(Error::NumCheck);
                }
                let sum = match costs.checked_sum() {
                    Some(s) => s,
                    None => {
                        return Err(Error::NumCheck);
                    },
                };
                let ghost v0 = old(db).spec_credit(uid.0@, now_ms as int);
                match db.decr_credit(uid, None, sum, "CostEntry", now_ms) {
                    Ok(_) => {},
                    Err(e) => {
                        return Err(e);
                    },
                }
                let ghost kv_res = db.kv@;

                // Convert the time budget to a wall-clock deadline.
                let per_ms: i64 = costs.time / self.time_cost;
                let dl_wide: i128 = now_ms as i128 + per_ms as i128;
                let deadline: i64 = if dl_wide > i64::MAX as i128 {
                    i64::MAX
                } else {
                    dl_wide as i64
                };
                proof {
                    if now_ms <= deadline {
                        vstd::arithmetic::div_mod::lemma_fundamental_div_mod(
                            costs.time as int,
                            self.time_cost as int,
                        );
                        vstd::arithmetic::div_mod::lemma_mod_bound(
                            costs.time as int,
                            self.time_cost as int,
                        );
                        assert((deadline - now_ms) * self.time_cost <= (costs.time as int
                            / self.time_cost as int) * self.time_cost) by (nonlinear_arith)
                            requires
                                deadline - now_ms <= costs.time as int / self.time_cost as int,
                                self.time_cost >= 1,
                        ;
                    }
                }
                let out = fed.handle(gene, meme, db, &q, uid, costs, deadline, now_ms);
                proof {
                    if v0 is Some {
                        let v = v0->Some_0;
                        if sum <= v - old(db).credit_limit {
                            let ck = Database::credit_key(uid.0@);
                            assert(crate::kv::map_live_get(kv_res, ck, now_ms as int)
                                == Some(KvValV::Int(v - sum)));
                        }
                    }
                }
                out
            },
        }
    }
}

} // verus!
