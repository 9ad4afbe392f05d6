//! The federation hop: a request naming a federation target would go to a
//! remote instance; that path is reserved, so it answers `Unimplemented`
//! and everything else goes to the local gene layer.

use vstd::prelude::*;

use crate::config::{valid_now, Config};
use crate::database::Database;
use crate::error::Error;
use crate::gene::{reply_matches, Gene};
use crate::id::Id;
use crate::ir::Costs;
use crate::meme::Meme;
use crate::query::Query;
use crate::reply::Reply;

verus! {

/// The federation layer; it holds no options yet.
pub struct Fed {
}

impl Fed {
    /// Take this layer's options from the configuration.
    pub fn new(_config: &Config) -> Fed {
        Fed {  }
    }

    /// Forward to the local gene layer, unless a federation target stands
    /// in the envelope.
    pub fn handle(
        &self,
        gene: &Gene,
        meme: &Meme,
        db: &mut Database,
        query: &Query,
        uid: &Id,
        changes: Costs,
        deadline: i64,
        now_ms: i64,
    ) -> (r: Result<Reply, Error>)
        requires
            old(db).wf(),
            gene.wf(),
            meme.wf(),
            meme.time_cost == gene.time_cost,
            meme.traffic_cost == gene.traffic_cost,
            meme.space_cost_doc == gene.space_cost_doc,
            valid_now(now_ms as int),
            query.is_billable(),
            changes.non_negative(),
            changes.spec_sum() <= i64::MAX,
            now_ms <= deadline ==> (deadline - now_ms) * gene.time_cost <= changes.time,
        ensures
            final(db).wf(),
            final(db).credit_limit == old(db).credit_limit,
            final(db).access_ttl == old(db).access_ttl,
            crate::credit::credit_nondec(old(db).kv@, final(db).kv@, uid.0@, now_ms as int),
            r is Err ==> crate::credit::credit_within(
                old(db).kv@,
                final(db).kv@,
                uid.0@,
                changes.spec_sum(),
                now_ms as int,
            ),
            r is Ok && !(query is GeneCall) ==> crate::credit::credit_within(
                old(db).kv@,
                final(db).kv@,
                uid.0@,
                changes.spec_sum(),
                now_ms as int,
            ),
            query.spec_fed() is Some ==> r is Ok && r->Ok_0 is Unimplemented && *final(db)
                == *old(db),
            query.spec_fed() is None ==> (r is Ok ==> reply_matches(&r->Ok_0, query)),
    {
        match query.get_fed() {
            Some(_) => {
                proof {
                    crate::credit::lemma_credit_refl(
                        db.kv@,
                        uid.0@,
                        changes.spec_sum(),
                        now_ms as int,
                    );
                }
                Ok(Reply::Unimplemented)
            },
            None => gene.handle(meme, db, query, uid, changes, deadline, now_ms),
        }
    }
}

} // verus!
