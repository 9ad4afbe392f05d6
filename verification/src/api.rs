//! The request entry: a ping for a plain read, and the layered pipeline
//! for everything else, stamped with the wall clock.

use vstd::prelude::*;

use crate::auth::Auth;
use crate::config::{Config, MAX_NOW_MS};
use crate::cost::Cost;
use crate::database::Database;
use crate::error::Error;
use crate::fed::Fed;
use crate::gene::Gene;
use crate::meme::Meme;
use crate::query::Query;
use crate::reply::Reply;

verus! {

/// The whole gateway: the layers and the state they act on.
pub struct Api {
    pub auth: Auth,
    pub cost: Cost,
    pub fed: Fed,
    pub gene: Gene,
    pub meme: Meme,
    pub db: Database,
}

impl Api {
    /// What the entry point maintains.
    pub open spec fn wf(&self) -> bool {
        &&& self.db.wf()
        &&& self.auth.wf()
        &&& self.cost.wf()
        &&& self.gene.wf()
        &&& self.meme.wf()
        &&& self.cost.time_cost == self.gene.time_cost
        &&& self.meme.time_cost == self.gene.time_cost
        &&& self.meme.traffic_cost == self.gene.traffic_cost
        &&& self.meme.space_cost_doc == self.gene.space_cost_doc
    }

    /// Build the gateway from its configuration, with empty stores.
    pub fn new(config: &Config) -> (r: Api)
        requires
            config.wf(),
        ensures
            r.wf(),
    {
        Api {
            auth: Auth::new(config),
            cost: Cost::new(config),
            fed: Fed::new(config),
            gene: Gene::new(config),
            meme: Meme::new(config),
            db: Database::new(config),
        }
    }

    /// Serve one parsed request at an instant.
    pub fn handle_at(&mut self, query: Query, now_ms: i64) -> (r: Result<Reply, Error>)
        requires
            old(self).wf(),
            crate::config::valid_now(now_ms as int),
        ensures
            final(self).wf(),
            final(self).auth == old(self).auth,
            final(self).cost == old(self).cost,
            final(self).gene == old(self).gene,
            final(self).meme == old(self).meme,
            r is Ok ==> !(r->Ok_0 is Error),
            query.has_access() && !crate::auth::resolve_ok(
                &old(self).db,
                query.spec_access().0@,
                now_ms as int,
            ) ==> r is Err && r->Err_0 == crate::auth::resolve_err(
                &old(self).db,
                query.spec_access().0@,
                now_ms as int,
            ) && final(self).db.kv@ == old(self).db.kv@ && final(self).db.cl@ == old(
                self,
            ).db.cl@,
            query.has_access() && crate::auth::resolve_ok(
                &old(self).db,
                query.spec_access().0@,
                now_ms as int,
            ) ==> ({
                let u = crate::auth::resolve(
                    &old(self).db,
                    query.spec_access().0@,
                    now_ms as int,
                )->Some_0;
                if u == crate::id::zero_id_bytes() {
                    r is Err && r->Err_0 == Error::AuthNotAuthenticated && final(self).db.kv@
                        == old(self).db.kv@ && final(self).db.cl@ == old(self).db.cl@
                } else if query.is_billable() {
                    // At-most-once charge at the library's entry: for a
                    // well-formed budget the balance drops by at most its
                    // total, and a failed request keeps every refund within
                    // the reservation.
                    let costs = query.spec_costs();
                    let s = costs.spec_sum();
                    costs.non_negative() && s <= i64::MAX ==> match old(self).db.spec_credit(
                        u,
                        now_ms as int,
                    ) {
                        None => r is Err,
                        Some(v) => {
                            &&& (s <= v - old(self).db.credit_limit ==> ({
                                let w = final(self).db.spec_credit(u, now_ms as int);
                                &&& w is Some
                                &&& v - s <= w->Some_0
                                &&& (r is Err ==> w->Some_0 <= v)
                            }))
                            &&& (s > v - old(self).db.credit_limit ==> r is Err && r->Err_0
                                == Error::CostInsufficientCredit)
                        },
                    }
                } else {
                    true
                }
            }),
    {
        let Api { auth, cost, fed, gene, meme, db } = self;
        auth.handle(cost, fed, gene, meme, db, query, now_ms)
    }

    /// Serve one transport request at an instant: a read is answered with
    /// a pong, anything else is parsed and run through the pipeline; every
    /// failure comes back as an error reply.
    pub fn handle_http_at(
        &mut self,
        is_post: bool,
        headers: &Vec<(String, String)>,
        body: Vec<Vec<u8>>,
        now_ms: i64,
    ) -> (r: Reply)
        requires
            old(self).wf(),
            crate::config::valid_now(now_ms as int),
        ensures
            final(self).wf(),
            !is_post ==> r is Pong && *final(self) == *old(self),
            is_post ==> ({
                let parsed = crate::query::header_val(headers@, "type"@);
                parsed is None ==> (r matches Reply::Error { error } && error
                    == Error::ApiMissingQueryType)
            }),
            // At-most-once charge at the transport.
            is_post ==> http_charge_bounded(
                &old(self).db,
                &final(self).db,
                headers,
                r,
                now_ms as int,
            ),
    {
        if !is_post {
            return Reply::Pong;
        }
        let ghost body0 = body;
        match Query::try_from(headers, body) {
            Ok(query) => {
                proof {
                    let hs = headers@;
                    let t = crate::query::header_val(hs, "type"@);
                    if t is Some && crate::query::billable_type(t->Some_0)
                        && crate::query::head_ok(hs) {
                        crate::query::lemma_parsed_billable(Ok(query), hs, body0);
                    }
                }
                match self.handle_at(query, now_ms) {
                    Ok(rep) => rep,
                    Err(error) => Reply::Error { error },
                }
            },
            Err(error) => Reply::Error { error },
        }
    }

    /// Serve one parsed request at the wall clock's instant.
    pub fn handle(&mut self, query: Query) -> (r: Result<Reply, Error>)
        requires
            old(self).wf(),
        ensures
            final(self).wf(),
    {
        let raw = now_millis();
        let now_ms: i64 = if raw < 0 {
            0
        } else if raw > MAX_NOW_MS {
            MAX_NOW_MS
        } else {
            raw
        };
        self.handle_at(query, now_ms)
    }

    /// Serve one transport request at the wall clock's instant.
    pub fn handle_http(
        &mut self,
        is_post: bool,
        headers: &Vec<(String, String)>,
        body: Vec<Vec<u8>>,
    ) -> (r: Reply)
        requires
            old(self).wf(),
        ensures
            final(self).wf(),
            // The instant is whatever the clock gave, clamped to the range
            // the model handles; the charge bound holds at that instant.
            is_post ==> exists|now: int|
                crate::config::valid_now(now) && #[trigger] http_charge_bounded(
                    &old(self).db,
                    &final(self).db,
                    headers,
                    r,
                    now,
                ),
    {
        let raw = now_millis();
        let now_ms: i64 = if raw < 0 {
            0
        } else if raw > MAX_NOW_MS {
            MAX_NOW_MS
        } else {
            raw
        };
        self.handle_http_at(is_post, headers, body, now_ms)
    }
}


/// At-most-once charge at the transport: for a billable request with a
/// well-formed envelope, the resolved caller's balance drops by at most
/// the declared total, and an error reply never leaves it above its start.
pub open spec fn http_charge_bounded(
    db0: &crate::database::Database,
    db1: &crate::database::Database,
    headers: &Vec<(String, String)>,
    r: Reply,
    now_ms: int,
) -> bool {
                let hs = headers@;
                let t = crate::query::header_val(hs, "type"@);
                (t is Some && crate::query::billable_type(t->Some_0)
                    && crate::query::head_ok(hs)) ==> ({
                    let acc = crate::query::id_header_of(hs, "access"@);
                    let costs = crate::query::costs_of(hs);
                    let s = costs.spec_sum();
                    crate::auth::resolve_ok(db0, acc, now_ms) ==> ({
                        let u = crate::auth::resolve(db0, acc, now_ms)->Some_0;
                        (u != crate::id::zero_id_bytes() && costs.non_negative() && s
                            <= i64::MAX) ==> match db0.spec_credit(u, now_ms) {
                            None => true,
                            Some(v) => s <= v - db0.credit_limit ==> ({
                                let w = db1.spec_credit(u, now_ms);
                                &&& w is Some
                                &&& v - s <= w->Some_0
                                &&& (r is Error ==> w->Some_0 <= v)
                            }),
                        }
                    })
                })
            }

/// Relies on `chrono::Utc::now`: the wall clock in milliseconds since the
/// epoch. Nothing is promised of the value.
#[verifier::external_body]
fn now_millis() -> i64 {
    chrono::Utc::now().timestamp_millis()
}

} // verus!
