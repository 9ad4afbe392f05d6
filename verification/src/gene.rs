//! Genes: named, versioned server-side operations, dispatched by id and
//! wrapped in a common refund protocol. On success an operation has
//! accounted its work in the budget remainder and refunded it; on failure
//! the remainder, with the time budget recomputed, is refunded here.

use vstd::prelude::*;
use vstd::string::StringExecFns;

use crate::codec::{dec_str_i64, i64_to_dec, str_eq};
use crate::json::escape_str;
use crate::config::{valid_now, Config};
use crate::database::Database;
use crate::error::Error;
use crate::id::Id;
use crate::ir::Costs;
use crate::kv::{KvCellV, KvValV};
use crate::credit::cl_view;
use crate::meme::Meme;
use crate::query::{GeneArg, Query};
use crate::reply::Reply;

verus! {

broadcast use vstd::array::group_array_axioms;

/// What a gene is, for the registry reply.
#[derive(Debug)]
pub struct GeneMeta {
    /// Naming convention: snake case.
    pub name: String,
    /// Incremented on breaking changes.
    pub version: u64,
    /// The man page.
    pub description: String,
}

/// The rendering of one gene description.
pub open spec fn render_gene_meta(name: Seq<char>, version: int, description: Seq<char>) -> Seq<
    char,
> {
    "{\"name\":\""@ + escape_str(name) + "\",\"version\":"@ + dec_str_i64(version)
        + ",\"description\":\""@ + escape_str(description) + "\"}"@
}

impl GeneMeta {
    /// The registered genes: the server information gene, the map gene and
    /// the message gene.
    pub fn new_map() -> (r: Vec<(String, GeneMeta)>)
        ensures
            r@.len() == 3,
            r@[0].0@ == "info_1"@ && r@[0].1.name@ == "info"@ && r@[0].1.version == 1,
            r@[1].0@ == "map_1"@ && r@[1].1.name@ == "map"@ && r@[1].1.version == 1,
            r@[2].0@ == "msg_1"@ && r@[2].1.name@ == "msg"@ && r@[2].1.version == 1,
    {
        let mut v: Vec<(String, GeneMeta)> = Vec::new();
        v.push(
            (
                "info_1".to_owned(),
                GeneMeta {
                    name: "info".to_owned(),
                    version: 1,
                    description: "Information about this server.".to_owned(),
                },
            ),
        );
        v.push(
            (
                "map_1".to_owned(),
                GeneMeta {
                    name: "map".to_owned(),
                    version: 1,
                    description: "Mapping abstraction backed by the document store.".to_owned(),
                },
            ),
        );
        v.push(
            (
                "msg_1".to_owned(),
                GeneMeta {
                    name: "msg".to_owned(),
                    version: 1,
                    description: "Messaging another user.".to_owned(),
                },
            ),
        );
        v
    }

    /// Render the description.
    pub fn to_json(&self) -> (r: String)
        ensures
            r@ == render_gene_meta(self.name@, self.version as int, self.description@),
    {
        let mut out = String::new();
        out.append("{\"name\":\"");
        crate::gene_map::append_name(&mut out, self.name.as_str());
        out.append("\",\"version\":");
        out.append(crate::codec::u64_to_dec(self.version).as_str());
        out.append(",\"description\":\"");
        crate::gene_map::append_name(&mut out, self.description.as_str());
        out.append("\"}");
        proof {
            assert(out@ =~= render_gene_meta(
                self.name@,
                self.version as int,
                self.description@,
            ));
        }
        out
    }
}

/// The rendering of the server information: the credit rates and TTLs.
pub open spec fn render_config(c: &Config) -> Seq<char> {
    "{\"access_ttl\":"@ + dec_str_i64(c.access_ttl as int) + ",\"refresh_ttl\":"@ + dec_str_i64(
        c.refresh_ttl as int,
    ) + ",\"user_ttl\":"@ + dec_str_i64(c.user_ttl as int) + ",\"credit_limit\":"@ + dec_str_i64(
        c.credit_limit as int,
    ) + ",\"time_cost\":"@ + dec_str_i64(c.time_cost as int) + ",\"space_cost_doc\":"@
        + dec_str_i64(c.space_cost_doc as int) + ",\"space_cost_obj\":"@ + dec_str_i64(
        c.space_cost_obj as int,
    ) + ",\"traffic_cost\":"@ + dec_str_i64(c.traffic_cost as int) + ",\"check_in_award\":"@
        + dec_str_i64(c.check_in_award as int) + ",\"check_in_refresh\":"@ + dec_str_i64(
        c.check_in_refresh as int,
    ) + "}"@
}

/// The gene layer: the registry, the server information, and the prices
/// the refund protocol needs.
pub struct Gene {
    /// The registered genes.
    pub metas: Vec<(String, GeneMeta)>,
    /// The server information, served by the info gene.
    pub config_json: String,
    /// Cost per millisecond.
    pub time_cost: i64,
    /// Cost per KB per day in the document store.
    pub space_cost_doc: i64,
    /// Cost per byte outbound.
    pub traffic_cost: i64,
}

impl Gene {
    /// What the handlers assume of this layer's options.
    pub open spec fn wf(&self) -> bool {
        &&& 1 <= self.time_cost
        &&& 0 <= self.space_cost_doc
        &&& 1 <= self.traffic_cost
    }

    /// Take this layer's options from the configuration.
    pub fn new(config: &Config) -> (r: Gene)
        requires
            config.wf(),
        ensures
            r.wf(),
            r.time_cost == config.time_cost,
            r.space_cost_doc == config.space_cost_doc,
            r.traffic_cost == config.traffic_cost,
            r.config_json@ == render_config(config),
            r.metas@.len() == 3,
            r.metas@[0].0@ == "info_1"@,
            r.metas@[1].0@ == "map_1"@,
            r.metas@[2].0@ == "msg_1"@,
    {
        let mut out = String::new();
        out.append("{\"access_ttl\":");
        out.append(i64_to_dec(config.access_ttl).as_str());
        out.append(",\"refresh_ttl\":");
        out.append(i64_to_dec(config.refresh_ttl).as_str());
        out.append(",\"user_ttl\":");
        out.append(i64_to_dec(config.user_ttl).as_str());
        out.append(",\"credit_limit\":");
        out.append(i64_to_dec(config.credit_limit).as_str());
        out.append(",\"time_cost\":");
        out.append(i64_to_dec(config.time_cost).as_str());
        out.append(",\"space_cost_doc\":");
        out.append(i64_to_dec(config.space_cost_doc).as_str());
        out.append(",\"space_cost_obj\":");
        out.append(i64_to_dec(config.space_cost_obj).as_str());
        out.append(",\"traffic_cost\":");
        out.append(i64_to_dec(config.traffic_cost).as_str());
        out.append(",\"check_in_award\":");
        out.append(i64_to_dec(config.check_in_award).as_str());
        out.append(",\"check_in_refresh\":");
        out.append(i64_to_dec(config.check_in_refresh).as_str());
        out.append("}");
        proof {
            assert(out@ =~= render_config(config));
        }
        Gene {
            metas: GeneMeta::new_map(),
            config_json: out,
            time_cost: config.time_cost,
            space_cost_doc: config.space_cost_doc,
            traffic_cost: config.traffic_cost,
        }
    }
}

/// Charge the traffic price of `len` outbound bytes against the budget.
pub fn charge_traffic(changes: &mut Costs, len: usize, traffic_cost: i64) -> (r: Result<
    (),
    Error,
>)
    requires
        1 <= traffic_cost,
        old(changes).non_negative(),
    ensures
        final(changes).non_negative(),
        final(changes).time == old(changes).time,
        final(changes).space == old(changes).space,
        final(changes).tip == old(changes).tip,
        r is Ok <==> len * traffic_cost <= old(changes).traffic,
        r is Ok ==> final(changes).traffic == old(changes).traffic - len * traffic_cost,
        r is Err ==> r->Err_0 == Error::CostTraffic && final(changes).traffic == old(changes).traffic,
{
    proof {
        assert((len as i128) * (traffic_cost as i128) < 0x80000000000000000000000000000000
            && (len as i128) * (traffic_cost as i128) >= 0) by (nonlinear_arith)
            requires
                0 <= (len as i128) && (len as i128) < 0x10000000000000000i128,
                0 < (traffic_cost as i128) && (traffic_cost as i128) < 0x8000000000000000i128,
        ;
    }
    let price: i128 = len as i128 * traffic_cost as i128;
    if price > changes.traffic as i128 {
        return Err(Error::CostTraffic);
    }
    changes.traffic = ((changes.traffic as i128) - price) as i64;
    Ok(())
}

/// Recompute the time budget from the remaining headroom; past the
/// deadline the budget is zero and the request is late.
pub fn refresh_time(changes: &mut Costs, deadline: i64, now_ms: i64, time_cost: i64) -> (r:
    Result<(), Error>)
    requires
        1 <= time_cost,
        0 <= now_ms,
        old(changes).non_negative(),
        now_ms <= deadline ==> (deadline - now_ms) * time_cost <= old(changes).time,
    ensures
        final(changes).non_negative(),
        final(changes).space == old(changes).space,
        final(changes).traffic == old(changes).traffic,
        final(changes).tip == old(changes).tip,
        final(changes).time <= old(changes).time,
        r is Ok <==> now_ms <= deadline,
        r is Ok ==> final(changes).time == (deadline - now_ms) * time_cost,
        r is Err ==> r->Err_0 == Error::CostTime && final(changes).time == 0,
{
    if now_ms > deadline {
        changes.time = 0;
        return Err(Error::CostTime);
    }
    let remaining: i64 = deadline - now_ms;
    proof {
        assert((remaining as i128) * (time_cost as i128) < 0x80000000000000000000000000000000
            && (remaining as i128) * (time_cost as i128) >= 0 && (remaining as i128) * (
        time_cost as i128) == (deadline - now_ms) * time_cost) by (nonlinear_arith)
            requires
                0 <= (remaining as i128) && (remaining as i128) < 0x8000000000000000i128,
                0 < (time_cost as i128) && (time_cost as i128) < 0x8000000000000000i128,
                remaining == deadline - now_ms,
        ;
    }
    let tw: i128 = remaining as i128 * time_cost as i128;
    changes.time = tw as i64;
    Ok(())
}

/// Refund the current remainder to the user, noting `CostRefund`.
pub fn refund_costs(db: &mut Database, uid: &Id, changes: &Costs, now_ms: i64) -> (r: Result<
    (),
    Error,
>)
    requires
        old(db).wf(),
        changes.non_negative(),
    ensures
        final(db).wf(),
        crate::credit::frame_docs(old(db), final(db)),
        crate::credit::credit_within(
            old(db).kv@,
            final(db).kv@,
            uid.0@,
            changes.spec_sum(),
            now_ms as int,
        ),
        ({
            let ck = Database::credit_key(uid.0@);
            let sum = changes.spec_sum();
            match old(db).kv.spec_get(ck, now_ms as int) {
                None => {
                    if sum <= i64::MAX {
                        r is Ok && final(db).kv@ =~= old(db).kv@.insert(
                            ck,
                            KvCellV { val: KvValV::Int(sum), exp: None },
                        ) && cl_view(final(db)) =~= cl_view(old(db)).push(
                            crate::credit::log_rec(uid.0@, None, sum, "CostRefund"@, now_ms as int),
                        )
                    } else {
                        r is Err && r->Err_0 == Error::NumCheck && final(db).kv@ == old(db).kv@
                            && final(db).cl@ == old(db).cl@
                    }
                },
                Some(KvValV::Int(v)) => {
                    if sum <= i64::MAX && i64::MIN <= v + sum <= i64::MAX {
                        r is Ok && final(db).kv@ =~= old(db).kv@.insert(
                            ck,
                            KvCellV { val: KvValV::Int(v + sum), exp: old(db).kv@[ck].exp },
                        ) && cl_view(final(db)) =~= cl_view(old(db)).push(
                            crate::credit::log_rec(uid.0@, None, sum, "CostRefund"@, now_ms as int),
                        )
                    } else {
                        r is Err && r->Err_0 == Error::NumCheck && final(db).kv@ == old(db).kv@
                            && final(db).cl@ == old(db).cl@
                    }
                },
                Some(KvValV::Bytes(_)) => {
                    if sum <= i64::MAX {
                        r is Err && r->Err_0 == Error::Logical && final(db).kv@ == old(db).kv@
                            && final(db).cl@ == old(db).cl@
                    } else {
                        r is Err && r->Err_0 == Error::NumCheck && final(db).kv@ == old(db).kv@
                            && final(db).cl@ == old(db).cl@
                    }
                },
            }
        }),
    {
    let sum = match changes.checked_sum() {
        Some(s) => s,
        None => {
            return Err(Error::NumCheck);
        },
    };
    db.incr_credit(uid, None, sum, "CostRefund", now_ms)
}


/// The budget remainder a reply carries, where it carries one.
pub open spec fn reply_changes(rep: &Reply) -> Option<Costs> {
    match rep {
        Reply::GeneMeta { changes, .. } => Some(*changes),
        Reply::GeneCall { changes, .. } => Some(*changes),
        Reply::MemeMeta { changes, .. } => Some(*changes),
        Reply::MemePut { changes, .. } => Some(*changes),
        Reply::MemeGet { changes, .. } => Some(*changes),
        _ => None,
    }
}

/// Whether a gene id is one of the registered genes.
pub open spec fn known_gid(gid: Seq<char>) -> bool {
    gid == "info_1"@ || gid == "map_1"@ || gid == "msg_1"@
}

/// Whether a reply answers the query kind, with a well-formed remainder.
pub open spec fn reply_matches(rep: &Reply, q: &Query) -> bool {
    match q {
        Query::GeneMeta { .. } => rep matches Reply::GeneMeta { changes, .. }
            && changes.non_negative(),
        Query::GeneCall { .. } => rep matches Reply::GeneCall { changes, .. }
            && changes.non_negative(),
        Query::MemeMeta { .. } => rep matches Reply::MemeMeta { changes, .. }
            && changes.non_negative(),
        Query::MemePut { .. } => rep matches Reply::MemePut { changes, .. }
            && changes.non_negative(),
        Query::MemeGet { .. } => rep matches Reply::MemeGet { changes, .. }
            && changes.non_negative(),
        _ => true,
    }
}

impl Gene {
    /// The gene description for an id.
    fn find_meta(&self, gid: &String) -> (r: Option<&GeneMeta>)
        ensures
            r is Some <==> exists|i: int|
                0 <= i < self.metas@.len() && (#[trigger] self.metas@[i]).0@ == gid@,
            r matches Some(m) ==> exists|i: int|
                0 <= i < self.metas@.len() && (#[trigger] self.metas@[i]).0@ == gid@ && *m
                    == self.metas@[i].1,
    {
        let n = self.metas.len();
        let mut i: usize = 0;
        while i < n
            invariant
                0 <= i <= n,
                n == self.metas@.len(),
                forall|j: int| 0 <= j < i ==> (#[trigger] self.metas@[j]).0@ != gid@,
            decreases n - i,
        {
            if str_eq(self.metas[i].0.as_str(), gid.as_str()) {
                proof {
                    assert((self.metas@[i as int]).0@ == gid@ && self.metas@[i as int].1
                        == self.metas@[i as int].1);
                }
                return Some(&self.metas[i].1);
            }
            i = i + 1;
        }
        None
    }

    /// Run one gene call: dispatch by id, charge the traffic price of the
    /// result, recompute the time budget, and refund the remainder.
    fn run_gene_call(
        &self,
        db: &mut Database,
        uid: &Id,
        gid: &String,
        arg: &GeneArg,
        changes: &mut Costs,
        deadline: i64,
        now_ms: i64,
    ) -> (r: Result<Reply, Error>)
        requires
            old(db).wf(),
            self.wf(),
            valid_now(now_ms as int),
            old(changes).non_negative(),
            now_ms <= deadline ==> (deadline - now_ms) * self.time_cost <= old(changes).time,
        ensures
            final(db).wf(),
            final(db).credit_limit == old(db).credit_limit,
            final(db).access_ttl == old(db).access_ttl,
            final(changes).non_negative(),
            final(changes).traffic <= old(changes).traffic,
            final(changes).tip <= old(changes).tip,
            final(changes).time <= old(changes).time,
            r is Err ==> (now_ms <= deadline ==> (deadline - now_ms) * self.time_cost
                <= final(changes).time),
            crate::credit::credit_nondec(old(db).kv@, final(db).kv@, uid.0@, now_ms as int),
            r is Err ==> crate::credit::credit_within(
                old(db).kv@,
                final(db).kv@,
                uid.0@,
                old(changes).tip - final(changes).tip,
                now_ms as int,
            ),
            !known_gid(gid@) ==> r is Err && r->Err_0 == Error::GeneInvalidId && *final(db)
                == *old(db) && *final(changes) == *old(changes),
            r is Ok ==> (r->Ok_0 matches Reply::GeneCall { changes: c, result } && c
                == *final(changes) && c.non_negative() && c.traffic == old(changes).traffic
                - crate::codec::str_bytes(result@).len() * self.traffic_cost && (gid@
                == "info_1"@ ==> result@ == self.config_json@) && cl_view(final(db)).len()
                >= 1 && cl_view(final(db)).last() == crate::credit::log_rec(
                uid.0@,
                None,
                c.spec_sum(),
                "CostRefund"@,
                now_ms as int,
            )),
            r is Ok && now_ms <= deadline ==> final(changes).time == (deadline - now_ms)
                * self.time_cost,
    {
        let ghost kv0 = db.kv@;
        let ghost ch0 = *changes;
        let result: String = if str_eq(gid.as_str(), "info_1") {
            self.config_json.clone()
        } else if str_eq(gid.as_str(), "map_1") {
            match arg {
                GeneArg::MapArg(req) => {
                    let out = crate::gene_map::v1(
                        db,
                        uid,
                        req,
                        changes,
                        self.space_cost_doc,
                        self.traffic_cost,
                        false,
                        now_ms,
                    );
                    match out {
                        Ok(t) => t,
                        Err(e) => {
                            return Err(e);
                        },
                    }
                },
                _ => {
                    return Err(Error::Logical);
                },
            }
        } else if str_eq(gid.as_str(), "msg_1") {
            match arg {
                GeneArg::MsgArg(req) => {
                    let out = crate::gene_msg::v1(
                        db,
                        uid,
                        req,
                        changes,
                        self.space_cost_doc,
                        self.traffic_cost,
                        now_ms,
                    );
                    match out {
                        Ok(t) => t,
                        Err(e) => {
                            return Err(e);
                        },
                    }
                },
                _ => {
                    return Err(Error::Logical);
                },
            }
        } else {
            return Err(Error::GeneInvalidId);
        };
        let ghost kv_mid = db.kv@;
        let ghost ch_mid = *changes;
        charge_traffic(changes, result.as_str().as_bytes().len(), self.traffic_cost)?;
        refresh_time(changes, deadline, now_ms, self.time_cost)?;
        refund_costs(db, uid, changes, now_ms)?;
        proof {
            crate::credit::lemma_within_nondec(
                kv0,
                kv_mid,
                uid.0@,
                ch0.tip - ch_mid.tip,
                now_ms as int,
            );
            crate::credit::lemma_within_nondec(
                kv_mid,
                db.kv@,
                uid.0@,
                changes.spec_sum(),
                now_ms as int,
            );
            crate::credit::lemma_nondec_trans(kv0, kv_mid, db.kv@, uid.0@, now_ms as int);
        }
        Ok(Reply::GeneCall { changes: *changes, result })
    }

    /// Run one operation; on success the operation has accounted its work
    /// and the remainder is refunded here or inside it.
    #[verifier::rlimit(100)]
    fn run_op(
        &self,
        meme: &Meme,
        db: &mut Database,
        query: &Query,
        uid: &Id,
        changes: &mut Costs,
        deadline: i64,
        now_ms: i64,
    ) -> (r: Result<Reply, Error>)
        requires
            old(db).wf(),
            self.wf(),
            meme.wf(),
            meme.time_cost == self.time_cost,
            meme.traffic_cost == self.traffic_cost,
            meme.space_cost_doc == self.space_cost_doc,
            valid_now(now_ms as int),
            query.is_billable(),
            old(changes).non_negative(),
            now_ms <= deadline ==> (deadline - now_ms) * self.time_cost <= old(changes).time,
        ensures
            final(db).wf(),
            final(db).credit_limit == old(db).credit_limit,
            final(db).access_ttl == old(db).access_ttl,
            final(changes).non_negative(),
            final(changes).traffic <= old(changes).traffic,
            final(changes).tip <= old(changes).tip,
            final(changes).time <= old(changes).time,
            r is Err ==> (now_ms <= deadline ==> (deadline - now_ms) * self.time_cost
                <= final(changes).time),
            crate::credit::credit_nondec(old(db).kv@, final(db).kv@, uid.0@, now_ms as int),
            r is Err ==> crate::credit::credit_within(
                old(db).kv@,
                final(db).kv@,
                uid.0@,
                old(changes).tip - final(changes).tip,
                now_ms as int,
            ),
            r is Ok && !(query is GeneCall) ==> crate::credit::credit_within(
                old(db).kv@,
                final(db).kv@,
                uid.0@,
                old(changes).spec_sum(),
                now_ms as int,
            ),
            query matches Query::GeneCall { gid, .. } && !known_gid(gid@) ==> r is Err
                && r->Err_0 == Error::GeneInvalidId && *final(db) == *old(db) && *final(changes) == *old(changes),
            query matches Query::GeneMeta { gid, .. } && !(exists|i: int|
                0 <= i < self.metas@.len() && (#[trigger] self.metas@[i]).0@ == gid@)
                ==> r is Err && r->Err_0 == Error::GeneInvalidId && *final(db) == *old(db)
                && *final(changes) == *old(changes),
            // On success the operation charged the traffic price of its
            // output, recomputed the time budget from the headroom, and the
            // refund of the remainder is the last audit record.
            r is Ok ==> (reply_changes(&r->Ok_0) matches Some(c) && c == *final(changes)
                && c.non_negative() && cl_view(final(db)).len() >= 1 && cl_view(
                final(db),
            ).last() == crate::credit::log_rec(
                uid.0@,
                None,
                c.spec_sum(),
                "CostRefund"@,
                now_ms as int,
            )),
            r is Ok && now_ms <= deadline ==> final(changes).time == (deadline - now_ms)
                * self.time_cost,
            query matches Query::GeneMeta { gid, .. } ==> (r is Ok ==> (r->Ok_0 matches
                Reply::GeneMeta { changes: c, meta } && c.traffic == old(changes).traffic
                - crate::codec::str_bytes(meta@).len() * self.traffic_cost && exists|i: int|
                0 <= i < self.metas@.len() && (#[trigger] self.metas@[i]).0@ == gid@ && meta@
                    == render_gene_meta(
                    self.metas@[i].1.name@,
                    self.metas@[i].1.version as int,
                    self.metas@[i].1.description@,
                ))),
            query matches Query::GeneCall { gid, .. } ==> (r is Ok ==> (r->Ok_0 matches
                Reply::GeneCall { changes: c, result } && c.traffic == old(changes).traffic
                - crate::codec::str_bytes(result@).len() * self.traffic_cost && (gid@
                == "info_1"@ ==> result@ == self.config_json@))),
            r is Ok && query is MemeMeta ==> (r->Ok_0 matches Reply::MemeMeta {
                changes: c,
                meta,
            } && c.traffic == old(changes).traffic - crate::codec::str_bytes(meta@).len()
                * self.traffic_cost),
            r is Ok ==> reply_matches(&r->Ok_0, query),
    {
        let ghost kv0 = db.kv@;
        let ghost ch0 = *changes;
        match query {
            Query::GeneMeta { head: _, gid } => {
                let meta = match self.find_meta(gid) {
                    Some(m) => m.to_json(),
                    None => {
                        proof {
                            crate::credit::lemma_credit_refl(db.kv@, uid.0@, 0, now_ms as int);
                        }
                        return Err(Error::GeneInvalidId);
                    },
                };
                charge_traffic(changes, meta.as_str().as_bytes().len(), self.traffic_cost)?;
                refresh_time(changes, deadline, now_ms, self.time_cost)?;
                refund_costs(db, uid, changes, now_ms)?;
                proof {
                    crate::credit::lemma_within_nondec(
                        kv0,
                        db.kv@,
                        uid.0@,
                        changes.spec_sum(),
                        now_ms as int,
                    );
                }
                Ok(Reply::GeneMeta { changes: *changes, meta })
            },
            Query::GeneCall { head: _, gid, arg } => self.run_gene_call(
                db,
                uid,
                gid,
                arg,
                changes,
                deadline,
                now_ms,
            ),
            Query::MemeMeta { head: _, hash } => {
                let meta = match meme.get_meta(db, uid, deadline, hash, now_ms) {
                    Ok(m) => m,
                    Err(e) => {
                        proof {
                            crate::credit::lemma_credit_refl(db.kv@, uid.0@, 0, now_ms as int);
                        }
                        return Err(e);
                    },
                };
                charge_traffic(changes, meta.as_str().as_bytes().len(), self.traffic_cost)?;
                refresh_time(changes, deadline, now_ms, self.time_cost)?;
                refund_costs(db, uid, changes, now_ms)?;
                proof {
                    crate::credit::lemma_within_nondec(
                        kv0,
                        db.kv@,
                        uid.0@,
                        changes.spec_sum(),
                        now_ms as int,
                    );
                }
                Ok(Reply::MemeMeta { changes: *changes, meta })
            },
            Query::MemePut { head: _, days, raw } => {
                let reply = match meme.put_meme(db, uid, changes, deadline, *days, raw, now_ms)
                    {
                    Ok(rep) => rep,
                    Err(e) => {
                        proof {
                            crate::credit::lemma_credit_refl(db.kv@, uid.0@, 0, now_ms as int);
                        }
                        return Err(e);
                    },
                };
                let ghost ch_mid = *changes;
                proof {
                    if now_ms <= deadline {
                        assert((deadline - now_ms) * self.time_cost <= changes.time)
                            by (nonlinear_arith)
                            requires
                                changes.time == (if deadline > now_ms {
                                    (deadline - now_ms) * self.time_cost
                                } else {
                                    0int
                                }),
                                now_ms <= deadline,
                        ;
                    }
                }
                refund_costs(db, uid, changes, now_ms)?;
                proof {
                    crate::credit::lemma_within_nondec(
                        kv0,
                        db.kv@,
                        uid.0@,
                        ch_mid.spec_sum(),
                        now_ms as int,
                    );
                }
                Ok(reply)
            },
            Query::MemeGet { head: _, hash, public } => {
                let reply = match meme.get_meme(
                    db,
                    uid,
                    changes,
                    deadline,
                    hash,
                    *public,
                    now_ms,
                ) {
                    Ok(rep) => rep,
                    Err(e) => {
                        return Err(e);
                    },
                };
                let ghost kv_mid = db.kv@;
                let ghost ch_mid = *changes;
                proof {
                    if now_ms <= deadline {
                        assert((deadline - now_ms) * self.time_cost <= changes.time)
                            by (nonlinear_arith)
                            requires
                                changes.time == (if deadline > now_ms {
                                    (deadline - now_ms) * self.time_cost
                                } else {
                                    0int
                                }),
                                now_ms <= deadline,
                        ;
                    }
                }
                refund_costs(db, uid, changes, now_ms)?;
                proof {
                    crate::credit::lemma_within_nondec(
                        kv0,
                        kv_mid,
                        uid.0@,
                        ch0.tip - ch_mid.tip,
                        now_ms as int,
                    );
                    crate::credit::lemma_within_nondec(
                        kv_mid,
                        db.kv@,
                        uid.0@,
                        ch_mid.spec_sum(),
                        now_ms as int,
                    );
                    crate::credit::lemma_nondec_trans(
                        kv0,
                        kv_mid,
                        db.kv@,
                        uid.0@,
                        now_ms as int,
                    );
                }
                Ok(reply)
            },
            _ => Err(Error::Logical),
        }
    }

    /// Dispatch one billable request: on failure the remainder, with the
    /// time budget recomputed from the remaining headroom, is refunded.
    pub fn handle(
        &self,
        meme: &Meme,
        db: &mut Database,
        query: &Query,
        uid: &Id,
        changes: Costs,
        deadline: i64,
        now_ms: i64,
    ) -> (r: Result<Reply, Error>)
        requires
            old(db).wf(),
            self.wf(),
            meme.wf(),
            meme.time_cost == self.time_cost,
            meme.traffic_cost == self.traffic_cost,
            meme.space_cost_doc == self.space_cost_doc,
            valid_now(now_ms as int),
            query.is_billable(),
            changes.non_negative(),
            changes.spec_sum() <= i64::MAX,
            now_ms <= deadline ==> (deadline - now_ms) * self.time_cost <= changes.time,
        ensures
            final(db).wf(),
            final(db).credit_limit == old(db).credit_limit,
            final(db).access_ttl == old(db).access_ttl,
            crate::credit::credit_nondec(old(db).kv@, final(db).kv@, uid.0@, now_ms as int),
            r is Err ==> crate::credit::credit_within(
                old(db).kv@,
                final(db).kv@,
                uid.0@,
                changes.spec_sum(),
                now_ms as int,
            ),
            r is Ok && !(query is GeneCall) ==> crate::credit::credit_within(
                old(db).kv@,
                final(db).kv@,
                uid.0@,
                changes.spec_sum(),
                now_ms as int,
            ),
            query matches Query::GeneCall { gid, .. } && !known_gid(gid@) ==> r is Err && (
            r->Err_0 == Error::GeneInvalidId || r->Err_0 == Error::NumCheck || r->Err_0
                == Error::Logical),
            query matches Query::GeneMeta { gid, .. } && !(exists|i: int|
                0 <= i < self.metas@.len() && (#[trigger] self.metas@[i]).0@ == gid@)
                ==> r is Err && (r->Err_0 == Error::GeneInvalidId || r->Err_0
                == Error::NumCheck || r->Err_0 == Error::Logical),
            r is Ok ==> (reply_changes(&r->Ok_0) matches Some(c) && c.non_negative()
                && cl_view(final(db)).len() >= 1 && cl_view(final(db)).last()
                == crate::credit::log_rec(
                uid.0@,
                None,
                c.spec_sum(),
                "CostRefund"@,
                now_ms as int,
            )),
            query matches Query::GeneMeta { gid, .. } ==> (r is Ok ==> (r->Ok_0 matches
                Reply::GeneMeta { changes: c, meta } && c.traffic == changes.traffic
                - crate::codec::str_bytes(meta@).len() * self.traffic_cost && exists|i: int|
                0 <= i < self.metas@.len() && (#[trigger] self.metas@[i]).0@ == gid@ && meta@
                    == render_gene_meta(
                    self.metas@[i].1.name@,
                    self.metas@[i].1.version as int,
                    self.metas@[i].1.description@,
                ))),
            query matches Query::GeneCall { gid, .. } ==> (r is Ok ==> (r->Ok_0 matches
                Reply::GeneCall { changes: c, result } && c.traffic == changes.traffic
                - crate::codec::str_bytes(result@).len() * self.traffic_cost && (gid@
                == "info_1"@ ==> result@ == self.config_json@))),
            r is Ok && query is MemeMeta ==> (r->Ok_0 matches Reply::MemeMeta {
                changes: c,
                meta,
            } && c.traffic == changes.traffic - crate::codec::str_bytes(meta@).len()
                * self.traffic_cost),
            r is Ok && now_ms <= deadline ==> (reply_changes(&r->Ok_0) matches Some(c)
                && c.time == (deadline - now_ms) * self.time_cost),
            r is Ok ==> reply_matches(&r->Ok_0, query),
    {
        let mut ch = changes;
        let r = self.run_op(meme, db, query, uid, &mut ch, deadline, now_ms);
        match r {
            Ok(rep) => Ok(rep),
            Err(e) => {
                let ghost kv_mid = db.kv@;
                let ghost tip_diff = changes.tip - ch.tip;
                let _ = refresh_time(&mut ch, deadline, now_ms, self.time_cost);
                // A failed operation refunds at most what it has not spent:
                // the refund never exceeds the reservation less the tips it
                // already paid out.
                let s_prime = match ch.checked_sum() {
                    Some(s) => s,
                    None => {
                        proof {
                            crate::credit::lemma_credit_widen(
                                old(db).kv@,
                                db.kv@,
                                uid.0@,
                                tip_diff,
                                changes.spec_sum(),
                                now_ms as int,
                            );
                            crate::credit::lemma_within_nondec(
                                old(db).kv@,
                                db.kv@,
                                uid.0@,
                                changes.spec_sum(),
                                now_ms as int,
                            );
                        }
                        return Err(Error::NumCheck);
                    },
                };
                let cap_w: i128 = changes.sum() as i128 - (changes.tip as i128
                    - ch.tip as i128);
                let amt: i64 = if s_prime as i128 > cap_w {
                    cap_w as i64
                } else {
                    s_prime
                };
                match db.incr_credit(uid, None, amt, "CostRefund", now_ms) {
                    Ok(_) => {
                        proof {
                            crate::credit::lemma_credit_trans(
                                old(db).kv@,
                                kv_mid,
                                db.kv@,
                                uid.0@,
                                tip_diff,
                                amt as int,
                                now_ms as int,
                            );
                            crate::credit::lemma_credit_widen(
                                old(db).kv@,
                                db.kv@,
                                uid.0@,
                                tip_diff + amt,
                                changes.spec_sum(),
                                now_ms as int,
                            );
                            crate::credit::lemma_within_nondec(
                                old(db).kv@,
                                db.kv@,
                                uid.0@,
                                changes.spec_sum(),
                                now_ms as int,
                            );
                        }
                        Err(e)
                    },
                    Err(e2) => {
                        proof {
                            crate::credit::lemma_credit_widen(
                                old(db).kv@,
                                db.kv@,
                                uid.0@,
                                tip_diff,
                                changes.spec_sum(),
                                now_ms as int,
                            );
                            crate::credit::lemma_within_nondec(
                                old(db).kv@,
                                db.kv@,
                                uid.0@,
                                changes.spec_sum(),
                                now_ms as int,
                            );
                        }
                        Err(e2)
                    },
                }
            },
        }
    }
}

/// Refunding the whole remainder moves the balance within the total.
proof fn lemma_within_sum(
    kv0: Map<Seq<u8>, KvCellV>,
    kv1: Map<Seq<u8>, KvCellV>,
    u: Seq<u8>,
    ch: Costs,
    ch0: Costs,
    now: int,
)
    requires
        crate::credit::credit_within(kv0, kv1, u, ch.spec_sum(), now),
        ch.non_negative(),
        ch.time <= ch0.time,
        ch.space <= ch0.space,
        ch.traffic <= ch0.traffic,
        ch.tip <= ch0.tip,
    ensures
        crate::credit::credit_within(kv0, kv1, u, ch0.spec_sum(), now),
{
    crate::credit::lemma_credit_widen(kv0, kv1, u, ch.spec_sum(), ch0.spec_sum(), now);
}

} // verus!
