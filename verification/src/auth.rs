//! Authentication and session management: token lifecycle and SMS-based
//! user registration.

use vstd::prelude::*;
use vstd::string::StringSliceAdditionalSpecFns;

use crate::config::{valid_now, Config, MAX_TTL_S};
use crate::credit::frame_docs;
use crate::codec::str_bytes;
use crate::database::{ns, nsb, nspm, ns_key, ns_key_pm, Database};
use crate::error::Error;
use crate::id::{zero_id_bytes, Id};
use crate::kv::{
    KvCellV, KvVal, KvValV, ACCESS, PHONE2UID, REFRESH, SMSSENDTO, SMSSENT, UID2CREDIT,
    UID2PHONE,
};
use crate::reply::Reply;

verus! {

/// The key an access token lives under.
pub open spec fn access_key(a: Seq<u8>) -> Seq<u8> {
    ns_key(ACCESS, a)
}

/// The key a refresh token lives under.
pub open spec fn refresh_key(a: Seq<u8>) -> Seq<u8> {
    ns_key(REFRESH, a)
}

/// The key a phone-to-user binding lives under.
pub open spec fn p2u_key(p: Seq<u8>) -> Seq<u8> {
    ns_key(PHONE2UID, p)
}

/// The key a user-to-phone binding lives under.
pub open spec fn u2p_key(u: Seq<u8>) -> Seq<u8> {
    ns_key(UID2PHONE, u)
}

/// The user id an access token resolves to, raw.
pub open spec fn resolve(db: &Database, access: Seq<u8>, now: int) -> Option<Seq<u8>> {
    match db.kv.spec_get(access_key(access), now) {
        Some(KvValV::Bytes(b)) => Some(b),
        _ => None,
    }
}

/// The error resolving an access token fails with.
pub open spec fn resolve_err(db: &Database, access: Seq<u8>, now: int) -> Error {
    if db.kv.spec_get(access_key(access), now) is None {
        Error::AuthInvalidAccessToken
    } else {
        Error::Logical
    }
}

/// Whether an access token resolves to a well-formed user id.
pub open spec fn resolve_ok(db: &Database, access: Seq<u8>, now: int) -> bool {
    resolve(db, access, now) is Some && resolve(db, access, now)->Some_0.len() == 16
}

/// The auth layer: session lifecycle and user registration.
pub struct Auth {
    /// Seconds before an access token expires.
    pub access_ttl: i64,
    /// Seconds before a refresh token expires.
    pub refresh_ttl: i64,
    /// Seconds before a user account expires.
    pub user_ttl: i64,
    /// Skip the out-of-band SMS check.
    pub skip_auth: bool,
    /// SMS receivers for authentication.
    pub phones: Vec<String>,
}

impl Auth {
    /// What the handlers assume of this layer's options.
    pub open spec fn wf(&self) -> bool {
        &&& 0 <= self.access_ttl <= MAX_TTL_S
        &&& 0 <= self.refresh_ttl <= MAX_TTL_S
        &&& 0 <= self.user_ttl <= MAX_TTL_S
        &&& self.phones@.len() > 0
    }

    /// Take this layer's options from the configuration.
    pub fn new(config: &Config) -> (r: Auth)
        requires
            config.wf(),
        ensures
            r.wf(),
            r.access_ttl == config.access_ttl,
            r.refresh_ttl == config.refresh_ttl,
            r.user_ttl == config.user_ttl,
            r.skip_auth == config.skip_auth,
            r.phones@.len() == config.auth_phones@.len(),
            forall|i: int|
                0 <= i < r.phones@.len() ==> (#[trigger] r.phones@[i])@
                    == config.auth_phones@[i]@,
    {
        let mut phones: Vec<String> = Vec::new();
        let n = config.auth_phones.len();
        let mut i: usize = 0;
        while i < n
            invariant
                0 <= i <= n,
                n == config.auth_phones@.len(),
                phones@.len() == i,
                forall|j: int|
                    0 <= j < i ==> (#[trigger] phones@[j])@ == config.auth_phones@[j]@,
            decreases n - i,
        {
            phones.push(config.auth_phones[i].clone());
            i = i + 1;
        }
        Auth {
            access_ttl: config.access_ttl,
            refresh_ttl: config.refresh_ttl,
            user_ttl: config.user_ttl,
            skip_auth: config.skip_auth,
            phones,
        }
    }

    /// Resolve an access token to a user id; the all-zero id means the
    /// session is anonymous.
    pub fn authenticate(&self, db: &Database, access: &Id, now_ms: i64) -> (r: Result<
        Id,
        Error,
    >)
        requires
            db.wf(),
        ensures
            r is Ok <==> resolve_ok(db, access.0@, now_ms as int),
            r is Ok ==> r->Ok_0.0@ == resolve(db, access.0@, now_ms as int)->Some_0,
            r is Err ==> r->Err_0 == resolve_err(db, access.0@, now_ms as int),
    {
        let a = ns(ACCESS, access);
        match db.kv.get(a.as_slice(), now_ms) {
            Some(KvVal::Bytes(b)) => Id::from_vec(&b),
            Some(KvVal::Int(_)) => Err(Error::Logical),
            None => Err(Error::AuthInvalidAccessToken),
        }
    }

    /// Start a session: two fresh random tokens, bound to no user yet.
    pub fn handle_session_start(&self, db: &mut Database, now_ms: i64) -> (r: Result<
        Reply,
        Error,
    >)
        requires
            old(db).wf(),
            self.wf(),
            valid_now(now_ms as int),
        ensures
            final(db).wf(),
            frame_docs(old(db), final(db)),
            final(db).cl@ == old(db).cl@,
            r is Ok,
            r is Ok ==> (r->Ok_0 matches Reply::AuthSessionStart { access, refresh }
                && final(db).kv@ =~= old(db).kv@.insert(
                access_key(access.0@),
                KvCellV {
                    val: KvValV::Bytes(zero_id_bytes()),
                    exp: Some(now_ms + self.access_ttl * 1000),
                },
            ).insert(
                refresh_key(refresh.0@),
                KvCellV {
                    val: KvValV::Bytes(zero_id_bytes()),
                    exp: Some(now_ms + self.refresh_ttl * 1000),
                },
            )),
    {
        let access = Id::rand();
        let refresh = Id::rand();
        let uid = Id::zero();
        let zero_bytes = uid.to_vec();
        proof {
            assert(zero_bytes@ =~= zero_id_bytes());
        }
        let a = ns(ACCESS, &access);
        db.kv.set(a.as_slice(), KvVal::Bytes(zero_bytes), self.access_ttl, now_ms);
        let zero_bytes2 = uid.to_vec();
        proof {
            assert(zero_bytes2@ =~= zero_id_bytes());
        }
        let rk = ns(REFRESH, &refresh);
        db.kv.set(rk.as_slice(), KvVal::Bytes(zero_bytes2), self.refresh_ttl, now_ms);
        Ok(Reply::AuthSessionStart { access, refresh })
    }

    /// Refresh a session: a live refresh token gets its TTL extended and a
    /// fresh access token bound to the same user; anything else fails.
    pub fn handle_session_refresh(&self, db: &mut Database, refresh: &Id, now_ms: i64) -> (r:
        Result<Reply, Error>)
        requires
            old(db).wf(),
            self.wf(),
            valid_now(now_ms as int),
        ensures
            final(db).wf(),
            frame_docs(old(db), final(db)),
            final(db).cl@ == old(db).cl@,
            ({
                let prev = old(db).kv.spec_get(refresh_key(refresh.0@), now_ms as int);
                match prev {
                    None => r is Err && r->Err_0 == Error::AuthInvalidRefreshToken
                        && final(db).kv@ == old(db).kv@,
                    Some(KvValV::Bytes(b)) => r is Ok && (r->Ok_0 matches
                        Reply::AuthSessionRefresh { access } && final(db).kv@ =~= old(
                        db,
                    ).kv@.insert(
                        refresh_key(refresh.0@),
                        KvCellV { val: KvValV::Bytes(b), exp: Some(now_ms + self.refresh_ttl * 1000) },
                    ).insert(
                        access_key(access.0@),
                        KvCellV { val: KvValV::Bytes(b), exp: Some(now_ms + self.access_ttl * 1000) },
                    )),
                    Some(KvValV::Int(_)) => r is Err && r->Err_0 == Error::Logical
                        && final(db).kv@ =~= old(db).kv@.insert(
                        refresh_key(refresh.0@),
                        KvCellV {
                            val: old(db).kv@[refresh_key(refresh.0@)].val,
                            exp: Some(now_ms + self.refresh_ttl * 1000),
                        },
                    ),
                }
            }),
    {
        let rk = ns(REFRESH, refresh);
        match db.kv.getex(rk.as_slice(), self.refresh_ttl, now_ms) {
            Some(KvVal::Bytes(uid_bytes)) => {
                let access = Id::rand();
                let a = ns(ACCESS, &access);
                db.kv.set(a.as_slice(), KvVal::Bytes(uid_bytes), self.access_ttl, now_ms);
                Ok(Reply::AuthSessionRefresh { access })
            },
            Some(KvVal::Int(_)) => Err(Error::Logical),
            None => Err(Error::AuthInvalidRefreshToken),
        }
    }

    /// End a session: a live access token is required and deleted; the
    /// refresh token, when given, is deleted only if it is bound to the
    /// same user.
    pub fn handle_session_end(
        &self,
        db: &mut Database,
        access: &Id,
        option_refresh: &Option<Id>,
        now_ms: i64,
    ) -> (r: Result<Reply, Error>)
        requires
            old(db).wf(),
            self.wf(),
            valid_now(now_ms as int),
        ensures
            final(db).wf(),
            frame_docs(old(db), final(db)),
            final(db).cl@ == old(db).cl@,
            !resolve_ok(old(db), access.0@, now_ms as int) ==> r is Err && r->Err_0
                == resolve_err(old(db), access.0@, now_ms as int) && final(db).kv@ == old(
                db,
            ).kv@,
            resolve_ok(old(db), access.0@, now_ms as int) ==> ({
                let uid = resolve(old(db), access.0@, now_ms as int)->Some_0;
                match option_refresh {
                    None => r is Ok && r->Ok_0 is AuthSessionEnd && final(db).kv@ =~= old(
                        db,
                    ).kv@.remove(access_key(access.0@)),
                    Some(rf) => ({
                        let prev = old(db).kv.spec_get(refresh_key(rf.0@), now_ms as int);
                        match prev {
                            None => r is Err && r->Err_0 == Error::AuthInvalidRefreshToken
                                && final(db).kv@ =~= old(db).kv@.remove(access_key(access.0@)),
                            Some(KvValV::Int(_)) => r is Err && r->Err_0 == Error::Logical
                                && final(db).kv@ =~= old(db).kv@.remove(access_key(access.0@)),
                            Some(KvValV::Bytes(rb)) => {
                                if rb.len() != 16 {
                                    r is Err && r->Err_0 == Error::Logical && final(db).kv@
                                        =~= old(db).kv@.remove(access_key(access.0@))
                                } else if rb != uid {
                                    r is Err && r->Err_0 == Error::AuthTokensMismatch
                                        && final(db).kv@ =~= old(db).kv@.remove(
                                        access_key(access.0@),
                                    )
                                } else {
                                    r is Ok && r->Ok_0 is AuthSessionEnd && final(db).kv@
                                        =~= old(db).kv@.remove(access_key(access.0@)).remove(
                                        refresh_key(rf.0@),
                                    )
                                }
                            },
                        }
                    }),
                }
            }),
    {
        let access_uid = self.authenticate(db, access, now_ms)?;
        let a = ns(ACCESS, access);
        db.kv.del(a.as_slice());
        match option_refresh {
            Some(refresh) => {
                let rk = ns(REFRESH, refresh);
                proof {
                    crate::database::lemma_ns_tags_distinct(
                        ACCESS,
                        access.0@,
                        REFRESH,
                        refresh.0@,
                    );
                }
                match db.kv.get(rk.as_slice(), now_ms) {
                    Some(KvVal::Bytes(b)) => {
                        let refresh_uid = Id::from_vec(&b)?;
                        if !(refresh_uid == access_uid) {
                            return Err(Error::AuthTokensMismatch);
                        }
                    },
                    Some(KvVal::Int(_)) => {
                        return Err(Error::Logical);
                    },
                    None => {
                        return Err(Error::AuthInvalidRefreshToken);
                    },
                }
                db.kv.del(rk.as_slice());
                Ok(Reply::AuthSessionEnd)
            },
            None => Ok(Reply::AuthSessionEnd),
        }
    }

    /// Pick a receiver phone and a fresh message id; the caller must send
    /// the message text to that phone out of band.
    pub fn handle_sms_send_to(&self, db: &mut Database, access: &Id, now_ms: i64) -> (r:
        Result<Reply, Error>)
        requires
            old(db).wf(),
            self.wf(),
            valid_now(now_ms as int),
        ensures
            final(db).wf(),
            frame_docs(old(db), final(db)),
            final(db).cl@ == old(db).cl@,
            !resolve_ok(old(db), access.0@, now_ms as int) ==> r is Err && r->Err_0
                == resolve_err(old(db), access.0@, now_ms as int) && final(db).kv@ == old(
                db,
            ).kv@,
            resolve_ok(old(db), access.0@, now_ms as int) ==> r is Ok && (r->Ok_0 matches
                Reply::AuthSmsSendTo { phone, message } && (exists|i: int|
                0 <= i < self.phones@.len() && phone@ == (#[trigger] self.phones@[i])@)
                && final(db).kv@ =~= old(db).kv@.insert(
                ns_key_pm(SMSSENDTO, str_bytes(phone@), message.0@),
                KvCellV {
                    val: KvValV::Bytes(access.0@),
                    exp: Some(now_ms + self.access_ttl * 1000),
                },
            )),
    {
        let _ = self.authenticate(db, access, now_ms)?;
        let idx = pick_index(self.phones.len());
        let message = Id::rand();
        let key = nspm(SMSSENDTO, self.phones[idx].as_str(), &message);
        db.kv.set(key.as_slice(), KvVal::Bytes(access.to_vec()), self.access_ttl, now_ms);
        Ok(Reply::AuthSmsSendTo { phone: self.phones[idx].clone(), message })
    }

    /// Complete registration: if the SMS arrived, resolve or create the
    /// user for the sender's phone, extend the user's keys, and bind both
    /// tokens to the user.
    pub fn handle_sms_sent(
        &self,
        db: &mut Database,
        access: &Id,
        refresh: &Id,
        phone: &String,
        message: &Id,
        now_ms: i64,
    ) -> (r: Result<Reply, Error>)
        requires
            old(db).wf(),
            self.wf(),
            valid_now(now_ms as int),
        ensures
            final(db).wf(),
            frame_docs(old(db), final(db)),
            final(db).cl@ == old(db).cl@,
            !resolve_ok(old(db), access.0@, now_ms as int) ==> r is Err && r->Err_0
                == resolve_err(old(db), access.0@, now_ms as int) && final(db).kv@ == old(
                db,
            ).kv@,
            resolve_ok(old(db), access.0@, now_ms as int) ==> ({
                let sent = old(db).kv.spec_get(
                    ns_key_pm(SMSSENT, str_bytes(phone@), message.0@),
                    now_ms as int,
                );
                let user_phone_ok = self.skip_auth || sent matches Some(KvValV::Bytes(_));
                let user_phone = if self.skip_auth {
                    str_bytes(phone@)
                } else {
                    sent->Some_0->Bytes_0
                };
                if !user_phone_ok {
                    r is Err && r->Err_0 == (if sent is None {
                        Error::AuthInvalidPhone
                    } else {
                        Error::Logical
                    }) && final(db).kv@ == old(db).kv@
                } else {
                    let bound = old(db).kv.spec_get(p2u_key(user_phone), now_ms as int);
                    match bound {
                        Some(KvValV::Bytes(b)) => {
                            if b.len() == 16 {
                                r is Ok && (r->Ok_0 matches Reply::AuthSmsSent { uid }
                                    && uid.0@ == b && final(db).kv@ =~= sms_sent_kv(
                                    old(db).kv@,
                                    self,
                                    user_phone,
                                    b,
                                    false,
                                    access.0@,
                                    refresh.0@,
                                    now_ms as int,
                                ))
                            } else {
                                r is Err && r->Err_0 == Error::Logical && final(db).kv@
                                    == old(db).kv@
                            }
                        },
                        Some(KvValV::Int(_)) => r is Err && r->Err_0 == Error::Logical
                            && final(db).kv@ == old(db).kv@,
                        None => r is Ok && (r->Ok_0 matches Reply::AuthSmsSent { uid }
                            && final(db).kv@ =~= sms_sent_kv(
                            old(db).kv@,
                            self,
                            user_phone,
                            uid.0@,
                            true,
                            access.0@,
                            refresh.0@,
                            now_ms as int,
                        )),
                    }
                }
            }),
    {
        let _ = self.authenticate(db, access, now_ms)?;

        // Find the sender's phone, recorded out of band by the receiver.
        let user_phone: Vec<u8> = if self.skip_auth {
            crate::kv::slice_to_vec_u8(phone.as_str().as_bytes())
        } else {
            let key = nspm(SMSSENT, phone.as_str(), message);
            match db.kv.get(key.as_slice(), now_ms) {
                Some(KvVal::Bytes(b)) => b,
                Some(KvVal::Int(_)) => {
                    return Err(Error::Logical);
                },
                None => {
                    return Err(Error::AuthInvalidPhone);
                },
            }
        };

        // Find or mint the user id bound to that phone.
        let p2u = nsb(PHONE2UID, user_phone.as_slice());
        let mut is_new_user = false;
        let uid = match db.kv.get(p2u.as_slice(), now_ms) {
            Some(KvVal::Bytes(b)) => Id::from_vec(&b)?,
            Some(KvVal::Int(_)) => {
                return Err(Error::Logical);
            },
            None => {
                is_new_user = true;
                Id::rand()
            },
        };

        // Create or refresh the phone binding.
        let u2p = ns(UID2PHONE, &uid);
        db.kv.set(u2p.as_slice(), KvVal::Bytes(user_phone), self.user_ttl, now_ms);
        db.kv.set(p2u.as_slice(), KvVal::Bytes(uid.to_vec()), self.user_ttl, now_ms);

        // Create or extend the user's account.
        let u2c = ns(UID2CREDIT, &uid);
        if is_new_user {
            db.kv.set(u2c.as_slice(), KvVal::Int(0), self.user_ttl, now_ms);
        } else {
            db.kv.expire(u2c.as_slice(), self.user_ttl, now_ms);
        }

        // Bind both tokens to the user.
        let a = ns(ACCESS, access);
        db.kv.set(a.as_slice(), KvVal::Bytes(uid.to_vec()), self.access_ttl, now_ms);
        let rk = ns(REFRESH, refresh);
        db.kv.set(rk.as_slice(), KvVal::Bytes(uid.to_vec()), self.refresh_ttl, now_ms);

        Ok(Reply::AuthSmsSent { uid })
    }
}

/// The key/value store after a completed registration: the two phone
/// bindings rewritten, the account created or extended, and both tokens
/// bound to the user.
pub open spec fn sms_sent_kv(
    kv: Map<Seq<u8>, KvCellV>,
    auth: &Auth,
    user_phone: Seq<u8>,
    uid: Seq<u8>,
    is_new_user: bool,
    access: Seq<u8>,
    refresh: Seq<u8>,
    now: int,
) -> Map<Seq<u8>, KvCellV> {
    let user_exp = Some(now + auth.user_ttl * 1000);
    let k1 = kv.insert(
        u2p_key(uid),
        KvCellV { val: KvValV::Bytes(user_phone), exp: user_exp },
    ).insert(p2u_key(user_phone), KvCellV { val: KvValV::Bytes(uid), exp: user_exp });
    let ck = Database::credit_key(uid);
    let k2 = if is_new_user {
        k1.insert(ck, KvCellV { val: KvValV::Int(0), exp: user_exp })
    } else {
        if k1.contains_key(ck) && crate::kv::live_cell(k1[ck], now) {
            k1.insert(ck, KvCellV { val: k1[ck].val, exp: user_exp })
        } else {
            k1
        }
    };
    k2.insert(
        access_key(access),
        KvCellV { val: KvValV::Bytes(uid), exp: Some(now + auth.access_ttl * 1000) },
    ).insert(
        refresh_key(refresh),
        KvCellV { val: KvValV::Bytes(uid), exp: Some(now + auth.refresh_ttl * 1000) },
    )
}

/// Relies on `rand::random_range`: an index drawn below `n`.
#[verifier::external_body]
fn pick_index(n: usize) -> (r: usize)
    requires
        n > 0,
    ensures
        r < n,
{
    rand::random_range(0..n)
}


impl Auth {
    /// Serve one request: the session operations directly, anything else
    /// by resolving the access token and handing the request to the cost
    /// layer under the resolved user.
    pub fn handle(
        &self,
        cost: &crate::cost::Cost,
        fed: &crate::fed::Fed,
        gene: &crate::gene::Gene,
        meme: &crate::meme::Meme,
        db: &mut Database,
        query: crate::query::Query,
        now_ms: i64,
    ) -> (r: Result<Reply, Error>)
        requires
            old(db).wf(),
            self.wf(),
            cost.wf(),
            gene.wf(),
            meme.wf(),
            cost.time_cost == gene.time_cost,
            meme.time_cost == gene.time_cost,
            meme.traffic_cost == gene.traffic_cost,
            meme.space_cost_doc == gene.space_cost_doc,
            valid_now(now_ms as int),
        ensures
            final(db).wf(),
            r is Ok ==> !(r->Ok_0 is Error),
            query.has_access() && !resolve_ok(old(db), query.spec_access().0@, now_ms as int)
                ==> r is Err && r->Err_0 == resolve_err(
                old(db),
                query.spec_access().0@,
                now_ms as int,
            ) && final(db).kv@ == old(db).kv@ && final(db).cl@ == old(db).cl@,
            query.has_access() && resolve_ok(old(db), query.spec_access().0@, now_ms as int)
                ==> ({
                let u = resolve(old(db), query.spec_access().0@, now_ms as int)->Some_0;
                if u == zero_id_bytes() {
                    r is Err && r->Err_0 == Error::AuthNotAuthenticated && final(db).kv@
                        == old(db).kv@ && final(db).cl@ == old(db).cl@
                } else if query.is_billable() {
                    // At-most-once charge for every billable request: for a
                    // well-formed budget the balance drops by at most its
                    // total, and a failed request keeps every refund within
                    // the reservation.
                    let costs = query.spec_costs();
                    let s = costs.spec_sum();
                    costs.non_negative() && s <= i64::MAX ==> match old(db).spec_credit(
                        u,
                        now_ms as int,
                    ) {
                        None => r is Err,
                        Some(v) => {
                            &&& (s <= v - old(db).credit_limit ==> ({
                                let w = final(db).spec_credit(u, now_ms as int);
                                &&& w is Some
                                &&& v - s <= w->Some_0
                                &&& (r is Err ==> w->Some_0 <= v)
                            }))
                            &&& (s > v - old(db).credit_limit ==> r is Err && r->Err_0
                                == Error::CostInsufficientCredit)
                        },
                    }
                } else {
                    true
                }
            }),
    {
        match query {
            crate::query::Query::AuthSessionStart => self.handle_session_start(db, now_ms),
            crate::query::Query::AuthSessionRefresh { refresh } => self.handle_session_refresh(
                db,
                &refresh,
                now_ms,
            ),
            crate::query::Query::AuthSessionEnd { access, option_refresh } => self
                .handle_session_end(db, &access, &option_refresh, now_ms),
            crate::query::Query::AuthSmsSendTo { access } => self.handle_sms_send_to(
                db,
                &access,
                now_ms,
            ),
            crate::query::Query::AuthSmsSent { access, refresh, phone, message } => self
                .handle_sms_sent(db, &access, &refresh, &phone, &message, now_ms),
            q => {
                let access = *q.get_access();
                let uid = self.authenticate(db, &access, now_ms)?;
                if uid.is_zero() {
                    proof {
                        assert(uid.0@ =~= zero_id_bytes());
                    }
                    return Err(Error::AuthNotAuthenticated);
                }
                proof {
                    assert(uid.0@ != zero_id_bytes()) by {
                        if uid.0@ == zero_id_bytes() {
                            assert(forall|i: int| 0 <= i < 16 ==> uid.0@[i] == 0);
                        }
                    }
                }
                cost.handle(fed, gene, meme, db, q, &uid, now_ms)
            },
        }
    }
}


/// Token idempotence on end: once a session end has removed the access
/// key, resolving the same token fails, so a second end of the same
/// session returns the invalid-access error.
pub proof fn lemma_session_end_idempotent(db0: &Database, db1: &Database, access: Seq<u8>, now: int)
    requires
        db1.kv@ == db0.kv@.remove(access_key(access)),
    ensures
        !resolve_ok(db1, access, now),
        resolve_err(db1, access, now) == Error::AuthInvalidAccessToken,
{
}

} // verus!
