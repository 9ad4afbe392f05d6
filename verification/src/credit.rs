//! The audit-logged credit primitives. Every mutation of a balance writes
//! a log record; the order is log-then-debit and credit-then-log, so in
//! any crash the log over-reports at worst, never under-reports.

use vstd::prelude::*;

use crate::database::Database;
use crate::docs::{LogEntry, LogEntryV};
use crate::error::Error;
use crate::id::Id;
use crate::kv::{KvCellV, KvVal, KvValV};

verus! {

/// The credit log as mathematical records.
pub open spec fn cl_view(db: &Database) -> Seq<LogEntryV> {
    db.cl@.map_values(|e: LogEntry| e@)
}

/// The log record a credit mutation writes.
pub open spec fn log_rec(
    uid: Seq<u8>,
    other: Option<Seq<u8>>,
    delta: int,
    note: Seq<char>,
    time: int,
) -> LogEntryV {
    LogEntryV { uid, other, delta, note, time }
}

/// Everything of the state but the key/value store and the credit log.
pub open spec fn frame_docs(a: &Database, b: &Database) -> bool {
    &&& a.mm@ == b.mm@
    &&& a.map1@ == b.map1@
    &&& a.mr == b.mr
    &&& a.next_map_id == b.next_map_id
    &&& a.credit_limit == b.credit_limit
    &&& a.access_ttl == b.access_ttl
}

impl Database {
    /// Append one record to the credit log.
    fn log_credit(&mut self, uid: &Id, other: Option<Id>, n: i64, note: &str, now_ms: i64)
        ensures
            final(self).kv == old(self).kv,
            frame_docs(old(self), final(self)),
            cl_view(final(self)) =~= cl_view(old(self)).push(
                log_rec(
                    uid.0@,
                    match other {
                        Some(o) => Some(o.0@),
                        None => None,
                    },
                    n as int,
                    note@,
                    now_ms as int,
                ),
            ),
    {
        let entry = LogEntry { uid: *uid, other, delta: n, note: note.to_owned(), time: now_ms };
        self.cl.push(entry);
    }

    /// Credit the user by `n`, then log the gain. A negative `n` is
    /// rejected; a balance that would no longer fit is rejected unlogged.
    pub fn incr_credit(
        &mut self,
        uid: &Id,
        other: Option<Id>,
        n: i64,
        note: &str,
        now_ms: i64,
    ) -> (r: Result<(), Error>)
        requires
            old(self).wf(),
        ensures
            final(self).wf(),
            frame_docs(old(self), final(self)),
            n < 0 ==> r is Err && r->Err_0 == Error::NumCheck && final(self).kv@ == old(self).kv@ && final(self).kv.wf() && final(self).cl@ == old(self).cl@,
            n >= 0 ==> match old(self).kv.spec_get(
                Database::credit_key(uid.0@),
                now_ms as int,
            ) {
                None => r is Ok && final(self).kv@ =~= old(self).kv@.insert(
                    Database::credit_key(uid.0@),
                    KvCellV { val: KvValV::Int(n as int), exp: None },
                ),
                Some(KvValV::Int(v)) => {
                    if i64::MIN <= v + n <= i64::MAX {
                        r is Ok && final(self).kv@ =~= old(self).kv@.insert(
                            Database::credit_key(uid.0@),
                            KvCellV {
                                val: KvValV::Int(v + n),
                                exp: old(self).kv@[Database::credit_key(uid.0@)].exp,
                            },
                        )
                    } else {
                        r is Err && r->Err_0 == Error::NumCheck && final(self).kv@ == old(self).kv@
                    }
                },
                Some(KvValV::Bytes(_)) => r is Err && r->Err_0 == Error::Logical
                    && final(self).kv@ == old(self).kv@,
            },
            n >= 0 ==> (r is Ok <==> cl_view(final(self)) =~= cl_view(old(self)).push(
                log_rec(
                    uid.0@,
                    match other {
                        Some(o) => Some(o.0@),
                        None => None,
                    },
                    n as int,
                    note@,
                    now_ms as int,
                ),
            )),
            r is Err ==> final(self).cl@ == old(self).cl@,
    {
        if n < 0 {
            return Err(Error::NumCheck);
        }
        let key = crate::database::ns(crate::kv::UID2CREDIT, uid);
        match self.kv.incrby(key.as_slice(), n, now_ms) {
            Ok(_) => {
                self.log_credit(uid, other, n, note, now_ms);
                Ok(())
            },
            Err(e) => Err(e),
        }
    }

    /// Log the intended loss, read the balance, and debit the user by `n`
    /// unless the balance would fall below the credit limit. A negative
    /// `n` is rejected; a user without a balance is an error.
    pub fn decr_credit(
        &mut self,
        uid: &Id,
        other: Option<Id>,
        n: i64,
        note: &str,
        now_ms: i64,
    ) -> (r: Result<(), Error>)
        requires
            old(self).wf(),
        ensures
            final(self).wf(),
            frame_docs(old(self), final(self)),
            n < 0 ==> r is Err && r->Err_0 == Error::NumCheck && final(self).kv@ == old(self).kv@ && final(self).kv.wf() && final(self).cl@ == old(self).cl@,
            n >= 0 ==> cl_view(final(self)) =~= cl_view(old(self)).push(
                log_rec(
                    uid.0@,
                    match other {
                        Some(o) => Some(o.0@),
                        None => None,
                    },
                    -(n as int),
                    note@,
                    now_ms as int,
                ),
            ),
            n >= 0 ==> match old(self).kv.spec_get(
                Database::credit_key(uid.0@),
                now_ms as int,
            ) {
                Some(KvValV::Int(v)) => {
                    if n > v - old(self).credit_limit {
                        r is Err && r->Err_0 == Error::CostInsufficientCredit
                            && final(self).kv@ == old(self).kv@
                    } else {
                        r is Ok && final(self).kv@ =~= old(self).kv@.insert(
                            Database::credit_key(uid.0@),
                            KvCellV {
                                val: KvValV::Int(v - n),
                                exp: old(self).kv@[Database::credit_key(uid.0@)].exp,
                            },
                        )
                    }
                },
                _ => r is Err && r->Err_0 == Error::Logical && final(self).kv@ == old(self).kv@,
            },
    {
        if n < 0 {
            return Err(Error::NumCheck);
        }
        self.log_credit(uid, other, -n, note, now_ms);
        let key = crate::database::ns(crate::kv::UID2CREDIT, uid);
        let balance = match self.kv.get(key.as_slice(), now_ms) {
            Some(KvVal::Int(v)) => v,
            _ => {
                return Err(Error::Logical);
            },
        };
        let headroom: i128 = balance as i128 - self.credit_limit as i128;
        if n as i128 > headroom {
            return Err(Error::CostInsufficientCredit);
        }
        match self.kv.incrby(key.as_slice(), -n, now_ms) {
            Ok(_) => Ok(()),
            Err(_) => Err(Error::Logical),
        }
    }
}


/// How a user's balance cell may move between two states: it never drops,
/// and it gains at most `bound`; an absent cell may be created with at
/// most `bound`.
pub open spec fn credit_within(
    kv0: Map<Seq<u8>, KvCellV>,
    kv1: Map<Seq<u8>, KvCellV>,
    u: Seq<u8>,
    bound: int,
    now: int,
) -> bool {
    match crate::kv::map_live_get(kv0, Database::credit_key(u), now) {
        Some(KvValV::Int(v)) => match crate::kv::map_live_get(kv1, Database::credit_key(u), now) {
            Some(KvValV::Int(w)) => v <= w && w <= v + bound,
            _ => false,
        },
        None => match crate::kv::map_live_get(kv1, Database::credit_key(u), now) {
            Some(KvValV::Int(w)) => 0 <= w && w <= bound,
            None => true,
            Some(KvValV::Bytes(_)) => false,
        },
        Some(KvValV::Bytes(_)) => crate::kv::map_live_get(kv1, Database::credit_key(u), now)
            == crate::kv::map_live_get(kv0, Database::credit_key(u), now),
    }
}

/// A user's balance cell never drops between two states.
pub open spec fn credit_nondec(
    kv0: Map<Seq<u8>, KvCellV>,
    kv1: Map<Seq<u8>, KvCellV>,
    u: Seq<u8>,
    now: int,
) -> bool {
    match crate::kv::map_live_get(kv0, Database::credit_key(u), now) {
        Some(KvValV::Int(v)) => match crate::kv::map_live_get(kv1, Database::credit_key(u), now) {
            Some(KvValV::Int(w)) => v <= w,
            _ => false,
        },
        None => match crate::kv::map_live_get(kv1, Database::credit_key(u), now) {
            Some(KvValV::Int(w)) => 0 <= w,
            None => true,
            Some(KvValV::Bytes(_)) => false,
        },
        Some(KvValV::Bytes(_)) => crate::kv::map_live_get(kv1, Database::credit_key(u), now)
            == crate::kv::map_live_get(kv0, Database::credit_key(u), now),
    }
}

/// A bounded move never drops the balance.
pub proof fn lemma_within_nondec(
    kv0: Map<Seq<u8>, KvCellV>,
    kv1: Map<Seq<u8>, KvCellV>,
    u: Seq<u8>,
    b: int,
    now: int,
)
    requires
        credit_within(kv0, kv1, u, b, now),
    ensures
        credit_nondec(kv0, kv1, u, now),
{
}

/// Non-decreasing moves compose.
pub proof fn lemma_nondec_trans(
    kv0: Map<Seq<u8>, KvCellV>,
    kv1: Map<Seq<u8>, KvCellV>,
    kv2: Map<Seq<u8>, KvCellV>,
    u: Seq<u8>,
    now: int,
)
    requires
        credit_nondec(kv0, kv1, u, now),
        credit_nondec(kv1, kv2, u, now),
    ensures
        credit_nondec(kv0, kv2, u, now),
{
}

/// A state moves within a zero bound from itself.
pub proof fn lemma_credit_refl(kv: Map<Seq<u8>, KvCellV>, u: Seq<u8>, bound: int, now: int)
    requires
        bound >= 0,
    ensures
        credit_within(kv, kv, u, bound, now),
{
}

/// Bounds on balance movement compose.
pub proof fn lemma_credit_trans(
    kv0: Map<Seq<u8>, KvCellV>,
    kv1: Map<Seq<u8>, KvCellV>,
    kv2: Map<Seq<u8>, KvCellV>,
    u: Seq<u8>,
    b1: int,
    b2: int,
    now: int,
)
    requires
        credit_within(kv0, kv1, u, b1, now),
        credit_within(kv1, kv2, u, b2, now),
        b1 >= 0,
        b2 >= 0,
    ensures
        credit_within(kv0, kv2, u, b1 + b2, now),
{
}

/// A bound may be widened.
pub proof fn lemma_credit_widen(
    kv0: Map<Seq<u8>, KvCellV>,
    kv1: Map<Seq<u8>, KvCellV>,
    u: Seq<u8>,
    b1: int,
    b2: int,
    now: int,
)
    requires
        credit_within(kv0, kv1, u, b1, now),
        b1 <= b2,
    ensures
        credit_within(kv0, kv1, u, b2, now),
{
}

} // verus!
