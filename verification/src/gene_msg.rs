//! The message gene: user-to-user messages built on the map gene under the
//! reserved `_chan` namespace. The indexed keys hold sender, receiver, sent
//! and read instants, tip and message kind.

use vstd::prelude::*;
use vstd::string::StrSliceExecFns;
use vstd::string::StringExecFns;

use crate::config::valid_now;
use crate::credit::cl_view;
use crate::database::{ns, Database};
use crate::docs::MapDocV;
use crate::error::Error;
use crate::gene_map::{
    find_doc_exec, find_doc_from, map_get, map_put, get_post, put_post, MapGet, MapPut,
    map1_view,
};
use crate::id::Id;
use crate::ir::Costs;
use crate::kv::{KvCellV, KvValV, UID2CREDIT};
use crate::value::{Value, ValueV};

verus! {

broadcast use vstd::array::group_array_axioms;

/// Send a message, paying the tip to the receiver.
#[derive(Debug)]
pub struct MsgSend {
    /// Replace this message when given.
    pub id: Option<u64>,
    /// End of life, absolute seconds.
    pub eol: i64,
    /// The receiver.
    pub to: Id,
    /// The tip transferred to the receiver.
    pub tip: i64,
    /// The message kind.
    pub kind: String,
    /// The message text.
    pub value: String,
}

/// Query the outbox.
#[derive(Debug)]
pub struct MsgSent {
    pub id: Option<u64>,
    pub eol: i64,
    pub eol_: i64,
    pub to: Option<Id>,
    pub sent: Option<i64>,
    pub sent_: Option<i64>,
    pub read: Option<i64>,
    pub read_: Option<i64>,
    pub tip: Option<i64>,
    pub tip_: Option<i64>,
    pub size: Option<i64>,
    pub size_: Option<i64>,
    pub kind: Option<String>,
    pub n: Option<u64>,
}

/// Query the inbox.
#[derive(Debug)]
pub struct MsgReceive {
    pub id: Option<u64>,
    pub eol: i64,
    pub eol_: i64,
    pub from: Option<Id>,
    pub sent: Option<i64>,
    pub sent_: Option<i64>,
    pub read: Option<i64>,
    pub read_: Option<i64>,
    pub tip: Option<i64>,
    pub tip_: Option<i64>,
    pub size: Option<i64>,
    pub size_: Option<i64>,
    pub kind: Option<String>,
    pub n: Option<u64>,
}

/// One request to the message gene.
#[derive(Debug)]
pub enum MsgRequest {
    Send(MsgSend),
    Sent(MsgSent),
    Receive(MsgReceive),
    Read { id: u64 },
    Unread { id: u64 },
    Delete { id: u64 },
    Report { id: u64 },
}


/// The document a sent message is stored as: the `_chan` namespace, the
/// sender and receiver in the first two keys, then the sent instant, the
/// read instant, the tip and the kind, and the text under `value`.
pub open spec fn msg_doc_matches(
    d: MapDocV,
    caller: Seq<u8>,
    to: Seq<u8>,
    now_s: int,
    tip: int,
    kind: Seq<char>,
    value: Seq<char>,
    eol: int,
) -> bool {
    &&& d.ns == "_chan"@
    &&& d.eol == eol
    &&& d.keys.len() == 8
    &&& d.keys[0] == ValueV::Str(crate::codec::hex_of(caller))
    &&& d.keys[1] == ValueV::Str(crate::codec::hex_of(to))
    &&& d.keys[2] == ValueV::Int(now_s)
    &&& d.keys[3] == ValueV::Null
    &&& d.keys[4] == ValueV::Int(tip)
    &&& d.keys[5] == ValueV::Str(kind)
    &&& d.fields.len() == 1
    &&& d.fields[0].0 == "value"@
    &&& d.fields[0].1 == ValueV::Str(value)
}

/// Whether a put request is the stored form of a send.
pub open spec fn send_req_matches(p: &MapPut, req: &MsgSend, caller: Seq<u8>, now_s: int) -> bool {
    &&& p.id == req.id
    &&& p.eol == req.eol
    &&& p.tip is None
    &&& p.geo is None
    &&& msg_doc_matches(
        crate::gene_map::put_doc(p, caller, 0, 0),
        caller,
        req.to.0@,
        now_s,
        req.tip as int,
        req.kind@,
        req.value@,
        req.eol as int,
    )
}

/// The message gene: dispatch one request. A send pays the tip to the
/// receiver and stores the message through the map gene under the
/// reserved `_chan` namespace; queries and the read flag run on the same
/// collection.
pub fn v1(
    db: &mut Database,
    uid: &Id,
    req: &MsgRequest,
    changes: &mut Costs,
    space_cost: i64,
    traffic_cost: i64,
    now_ms: i64,
) -> (r: Result<String, Error>)
    requires
        old(db).wf(),
        valid_now(now_ms as int),
        old(changes).non_negative(),
        0 <= space_cost,
        1 <= traffic_cost,
    ensures
        final(db).wf(),
        final(changes).time == old(changes).time,
        final(changes).traffic == old(changes).traffic,
        0 <= final(changes).tip <= old(changes).tip,
        final(changes).space >= 0,
        final(db).mm@ == old(db).mm@,
        final(db).mr == old(db).mr,
        final(db).credit_limit == old(db).credit_limit,
        final(db).access_ttl == old(db).access_ttl,
        crate::credit::credit_within(
            old(db).kv@,
            final(db).kv@,
            uid.0@,
            old(changes).tip - final(changes).tip,
            now_ms as int,
        ),
        r is Err ==> final(changes).space <= old(changes).space,
        ({
            let now_s = now_ms as int / 1000;
            let caller = uid.0@;
            match req {
                MsgRequest::Send(m) => {
                    let id_ok = match m.id {
                        Some(id) => find_doc_from(old(db).map1@, id as int, caller, 0)
                            matches Some(j) && old(db).map1@[j]@.ns == "_chan"@,
                        None => true,
                    };
                    let to_known = crate::kv::map_live_get(
                        old(db).kv@,
                        Database::credit_key(m.to.0@),
                        now_ms as int,
                    ) is Some;
                    if !id_ok {
                        r is Err && r->Err_0 == Error::GeneInvalidId && final(db).kv@ == old(db).kv@ && final(db).cl@ == old(db).cl@ && final(db).map1@ == old(db).map1@ && *final(changes) == *old(changes)
                    } else if !to_known {
                        r is Err && r->Err_0 == Error::AuthInvalidUid && final(db).kv@ == old(db).kv@ && final(db).cl@ == old(db).cl@ && final(db).map1@ == old(db).map1@ && *final(changes) == *old(changes)
                    } else if m.tip < 0 || m.tip > old(changes).tip {
                        r is Err && r->Err_0 == Error::CostTip && final(db).kv@ == old(db).kv@ && final(db).cl@ == old(db).cl@ && final(db).map1@ == old(db).map1@ && *final(changes) == *old(changes)
                    } else if (match crate::kv::map_live_get(
                        old(db).kv@,
                        Database::credit_key(m.to.0@),
                        now_ms as int,
                    ) {
                        Some(KvValV::Int(v)) => !(i64::MIN <= v + m.tip <= i64::MAX),
                        _ => true,
                    }) {
                        r is Err && (r->Err_0 == Error::NumCheck || r->Err_0
                            == Error::Logical) && final(db).kv@ == old(db).kv@ && final(db).cl@ == old(db).cl@ && final(db).map1@ == old(db).map1@ && final(changes).tip == old(changes).tip - m.tip
                    } else {
                        exists|p: MapPut, dbm: Database|
                            send_req_matches(&p, m, caller, now_s) && #[trigger] put_post(
                                r,
                                &dbm,
                                final(db),
                                Costs {
                                    time: old(changes).time,
                                    space: old(changes).space,
                                    traffic: old(changes).traffic,
                                    tip: (old(changes).tip - m.tip) as i64,
                                },
                                *final(changes),
                                caller,
                                &p,
                                space_cost as int,
                                true,
                                now_ms as int,
                            ) && dbm.map1@ == old(db).map1@ && dbm.next_map_id == old(db).next_map_id && dbm.kv@ == pay_to(
                                old(db).kv@,
                                m.to.0@,
                                m.tip as int,
                                now_ms as int,
                            ) && final(db).kv@ == dbm.kv@ && cl_view(final(db))
                                =~= cl_view(old(db)).push(
                                crate::credit::log_rec(
                                    m.to.0@,
                                    Some(caller),
                                    m.tip as int,
                                    "GeneMsg1Tip"@,
                                    now_ms as int,
                                ),
                            ) && final(changes).tip <= old(changes).tip - m.tip
                                + if r is Ok {
                                0int
                            } else {
                                0int
                            }
                    }
                },
                MsgRequest::Sent(_) | MsgRequest::Receive(_) => final(db).map1@ == old(db).map1@ && final(db).next_map_id == old(db).next_map_id && exists|g: MapGet|
                    #[trigger] get_post(
                        r,
                        old(db),
                        final(db),
                        *old(changes),
                        *final(changes),
                        caller,
                        &g,
                        traffic_cost as int,
                        now_ms as int,
                    ),
                MsgRequest::Read { id } | MsgRequest::Unread { id } => {
                    final(db).kv@ == old(db).kv@ && final(db).cl@ == old(db).cl@ && *final(changes) == *old(changes) && final(db).next_map_id == old(db).next_map_id
                        && (match find_msg_recipient(old(db).map1@, *id as int, caller, 0) {
                        None => r is Err && r->Err_0 == Error::GeneMapNotFound && final(db).map1@ == old(db).map1@,
                        Some(j) => r is Ok && r->Ok_0@ == "{}"@ && map1_view(final(db))
                            =~= map1_view(old(db)).update(
                            j,
                            read_flagged(
                                old(db).map1@[j]@,
                                if req is Read {
                                    ValueV::Int(now_s)
                                } else {
                                    ValueV::Null
                                },
                            ),
                        ),
                    })
                },
                MsgRequest::Delete { id } => {
                    final(db).kv@ == old(db).kv@ && final(db).cl@ == old(db).cl@ && *final(changes) == *old(changes) && final(db).next_map_id == old(db).next_map_id
                        && (match find_msg_party(old(db).map1@, *id as int, caller, 0) {
                        None => r is Err && r->Err_0 == Error::GeneMapNotFound && final(db).map1@ == old(db).map1@,
                        Some(j) => r is Ok && r->Ok_0@ == "{}"@ && final(db).map1@ =~= old(db).map1@.remove(j),
                    })
                },
                MsgRequest::Report { .. } => r is Err && r->Err_0 == Error::Todo && final(db).kv@ == old(db).kv@ && final(db).cl@ == old(db).cl@ && final(db).map1@
                    == old(db).map1@ && *final(changes) == *old(changes),
            }
        }),
{
    let now_s = now_ms / 1000;
    match req {
        MsgRequest::Send(m) => {
            // An id must name one of the caller's messages.
            match m.id {
                Some(id) => {
                    match find_doc_exec(&db.map1, id, uid) {
                        Some(j) => {
                            if !crate::codec::str_eq(db.map1[j].ns.as_str(), "_chan") {
                                return Err(Error::GeneInvalidId);
                            }
                        },
                        None => {
                            return Err(Error::GeneInvalidId);
                        },
                    }
                },
                None => {},
            }

            // The receiver must have an account.
            let u2c = ns(UID2CREDIT, &m.to);
            if db.kv.exits(u2c.as_slice(), now_ms) < 1 {
                return Err(Error::AuthInvalidUid);
            }

            // Transfer the tip to the receiver.
            if m.tip < 0 || m.tip > changes.tip {
                return Err(Error::CostTip);
            }
            changes.tip = changes.tip - m.tip;
            proof {
                assert(m.to.0@.len() == 16 && uid.0@.len() == 16);
                if m.to.0@ != uid.0@ {
                    crate::database::lemma_ns_body_distinct(
                        crate::kv::UID2CREDIT,
                        m.to.0@,
                        uid.0@,
                    );
                }
            }
            match db.incr_credit(&m.to, Some(*uid), m.tip, "GeneMsg1Tip", now_ms) {
                Ok(_) => {},
                Err(e) => {
                    return Err(e);
                },
            }
            let ghost dbm = *db;

            // Store the message through the map gene.
            let mut keys: Vec<Value> = Vec::new();
            keys.push(Value::Str(uid.to_hex()));
            keys.push(Value::Str(m.to.to_hex()));
            keys.push(Value::Int(now_s));
            keys.push(Value::Null);
            keys.push(Value::Int(m.tip));
            keys.push(Value::Str(m.kind.clone()));
            keys.push(Value::Null);
            keys.push(Value::Null);
            let mut fields: Vec<(String, Value)> = Vec::new();
            fields.push(("value".to_owned(), Value::Str(m.value.clone())));
            let preq = MapPut {
                id: m.id,
                eol: m.eol,
                tip: None,
                ns: Some("_chan".to_owned()),
                keys,
                geo: None,
                fields,
            };
            proof {
                reveal_strlit("_chan");
                reveal_strlit("value");
                assert(crate::gene_map::put_doc(&preq, uid.0@, 0, 0).keys
                    =~= preq.keys@.map_values(|v: Value| v@));
                assert(crate::gene_map::put_doc(&preq, uid.0@, 0, 0).fields
                    =~= preq.fields@.map_values(|pr: (String, Value)| (pr.0@, pr.1@)));
                assert(send_req_matches(&preq, m, uid.0@, now_s as int));
            }
            let out = map_put(db, uid, &preq, changes, space_cost, true, now_ms);
            proof {
                assert(put_post(
                    out,
                    &dbm,
                    db,
                    Costs {
                        time: old(changes).time,
                        space: old(changes).space,
                        traffic: old(changes).traffic,
                        tip: (old(changes).tip - m.tip) as i64,
                    },
                    *changes,
                    uid.0@,
                    &preq,
                    space_cost as int,
                    true,
                    now_ms as int,
                ));
            }
            out
        },
        MsgRequest::Sent(m) => {
            let greq = sent_to_get(uid, m, true);
            map_get(db, uid, &greq, changes, traffic_cost, now_ms)
        },
        MsgRequest::Receive(m) => {
            let greq = receive_to_get(uid, m);
            map_get(db, uid, &greq, changes, traffic_cost, now_ms)
        },
        MsgRequest::Read { id } => set_read_flag(db, uid, *id, Value::Int(now_s)),
        MsgRequest::Unread { id } => set_read_flag(db, uid, *id, Value::Null),
        MsgRequest::Delete { id } => {
            let j = match find_msg_party_exec(&db.map1, *id, uid) {
                Some(j) => j,
                None => {
                    return Err(Error::GeneMapNotFound);
                },
            };
            let _ = db.map1.remove(j);
            Ok(crate::gene_map::map_empty_obj())
        },
        MsgRequest::Report { .. } => Err(Error::Todo),
    }
}

/// The store after a tip is paid to one receiver.
pub open spec fn pay_to(
    kv: Map<Seq<u8>, KvCellV>,
    to: Seq<u8>,
    tip: int,
    now: int,
) -> Map<Seq<u8>, KvCellV> {
    let ck = Database::credit_key(to);
    match crate::kv::map_live_get(kv, ck, now) {
        Some(KvValV::Int(v)) => kv.insert(ck, KvCellV { val: KvValV::Int(v + tip), exp: kv[ck].exp }),
        None => kv.insert(ck, KvCellV { val: KvValV::Int(tip), exp: None }),
        Some(KvValV::Bytes(_)) => kv,
    }
}

/// A message with its read flag set or cleared.
pub open spec fn read_flagged(d: MapDocV, flag: ValueV) -> MapDocV {
    MapDocV { keys: d.keys.update(3, flag), ..d }
}

/// Set or clear the read flag of the message with this id whose receiver
/// is the caller: only the addressed party may mark a message read.
fn set_read_flag(db: &mut Database, uid: &Id, id: u64, flag: Value) -> (r: Result<
    String,
    Error,
>)
    requires
        old(db).wf(),
    ensures
        final(db).wf(),
        final(db).kv == old(db).kv,
        final(db).cl@ == old(db).cl@,
        final(db).mm@ == old(db).mm@,
        final(db).mr == old(db).mr,
        final(db).next_map_id == old(db).next_map_id,
        final(db).credit_limit == old(db).credit_limit,
        final(db).access_ttl == old(db).access_ttl,
        match find_msg_recipient(old(db).map1@, id as int, uid.0@, 0) {
            None => r is Err && r->Err_0 == Error::GeneMapNotFound && final(db).map1@
                == old(db).map1@,
            Some(j) => r is Ok && r->Ok_0@ == "{}"@ && map1_view(final(db)) =~= map1_view(
                old(db),
            ).update(j, read_flagged(old(db).map1@[j]@, flag@)),
        },
{
    let j = match find_msg_recipient_exec(&db.map1, id, uid) {
        Some(j) => j,
        None => {
            return Err(Error::GeneMapNotFound);
        },
    };
    let old_doc = &db.map1[j];
    let mut keys = crate::gene_map::map_clone_values(&old_doc.keys);
    keys[3] = flag;
    let newdoc = crate::docs::MapDoc {
        id: old_doc.id,
        uid: old_doc.uid,
        public: old_doc.public,
        eol: old_doc.eol,
        tip: old_doc.tip,
        size: old_doc.size,
        ns: old_doc.ns.clone(),
        keys,
        geo: crate::gene_map::map_clone_geo(&old_doc.geo),
        fields: crate::gene_map::map_clone_fields(&old_doc.fields),
    };
    proof {
        assert(newdoc@.keys =~= read_flagged(db.map1@[j as int]@, flag@).keys);
        assert(newdoc@.fields =~= db.map1@[j as int]@.fields);
        assert(newdoc@ =~= read_flagged(db.map1@[j as int]@, flag@));
    }
    db.map1[j] = newdoc;
    proof {
        assert(map1_view(db) =~= map1_view(old(db)).update(
            j as int,
            read_flagged(old(db).map1@[j as int]@, flag@),
        ));
    }
    Ok(crate::gene_map::map_empty_obj())
}

/// The first message with this id where the caller is the receiver: the
/// second indexed key holds the receiver's hex id.
pub open spec fn find_msg_recipient(
    docs: Seq<crate::docs::MapDoc>,
    id: int,
    caller: Seq<u8>,
    i: int,
) -> Option<int>
    decreases docs.len() - i,
{
    if i < 0 || i >= docs.len() {
        None
    } else if docs[i]@.id == id && docs[i]@.keys.len() == 8 && docs[i]@.keys[1]
        == ValueV::Str(crate::codec::hex_of(caller)) {
        Some(i)
    } else {
        find_msg_recipient(docs, id, caller, i + 1)
    }
}

/// Find the message this caller may mark read or unread.
fn find_msg_recipient_exec(docs: &Vec<crate::docs::MapDoc>, id: u64, uid: &Id) -> (r: Option<
    usize,
>)
    ensures
        r matches Some(j) ==> find_msg_recipient(docs@, id as int, uid.0@, 0) == Some(
            j as int,
        ) && 0 <= j < docs@.len(),
        r is None ==> find_msg_recipient(docs@, id as int, uid.0@, 0) is None,
{
    let me = uid.to_hex();
    let n = docs.len();
    let mut i: usize = 0;
    while i < n
        invariant
            0 <= i <= n,
            n == docs@.len(),
            me@ == crate::codec::hex_of(uid.0@),
            find_msg_recipient(docs@, id as int, uid.0@, 0) == find_msg_recipient(
                docs@,
                id as int,
                uid.0@,
                i as int,
            ),
        decreases n - i,
    {
        let d = &docs[i];
        let mut hit = false;
        if d.id == id && d.keys.len() == 8 {
            hit = match &d.keys[1] {
                Value::Str(sv) => crate::codec::str_eq(sv.as_str(), me.as_str()),
                _ => false,
            };
            proof {
                assert(d@.keys[1] == d.keys@[1]@);
            }
        }
        if hit {
            proof {
                assert(find_msg_recipient(docs@, id as int, uid.0@, i as int) == Some(i as int));
            }
            return Some(i);
        }
        proof {
            assert(find_msg_recipient(docs@, id as int, uid.0@, i as int)
                == find_msg_recipient(docs@, id as int, uid.0@, i + 1));
        }
        i = i + 1;
    }
    None
}

/// The first message with this id where the caller is a party: stored as
/// the sender or the receiver in the first two keys.
pub open spec fn find_msg_party(
    docs: Seq<crate::docs::MapDoc>,
    id: int,
    caller: Seq<u8>,
    i: int,
) -> Option<int>
    decreases docs.len() - i,
{
    if i < 0 || i >= docs.len() {
        None
    } else if docs[i]@.id == id && docs[i]@.keys.len() == 8 && (docs[i]@.keys[0]
        == ValueV::Str(crate::codec::hex_of(caller)) || docs[i]@.keys[1] == ValueV::Str(
        crate::codec::hex_of(caller),
    )) {
        Some(i)
    } else {
        find_msg_party(docs, id, caller, i + 1)
    }
}

/// Find a message either party may act on.
fn find_msg_party_exec(docs: &Vec<crate::docs::MapDoc>, id: u64, uid: &Id) -> (r: Option<
    usize,
>)
    ensures
        r matches Some(j) ==> find_msg_party(docs@, id as int, uid.0@, 0) == Some(j as int)
            && 0 <= j < docs@.len(),
        r is None ==> find_msg_party(docs@, id as int, uid.0@, 0) is None,
{
    let me = uid.to_hex();
    let n = docs.len();
    let mut i: usize = 0;
    while i < n
        invariant
            0 <= i <= n,
            n == docs@.len(),
            me@ == crate::codec::hex_of(uid.0@),
            find_msg_party(docs@, id as int, uid.0@, 0) == find_msg_party(
                docs@,
                id as int,
                uid.0@,
                i as int,
            ),
        decreases n - i,
    {
        let d = &docs[i];
        let mut hit = false;
        if d.id == id && d.keys.len() == 8 {
            let k0 = match &d.keys[0] {
                Value::Str(s) => crate::codec::str_eq(s.as_str(), me.as_str()),
                _ => false,
            };
            let k1 = match &d.keys[1] {
                Value::Str(s) => crate::codec::str_eq(s.as_str(), me.as_str()),
                _ => false,
            };
            hit = k0 || k1;
            proof {
                assert(d@.keys[0] == d.keys@[0]@ && d@.keys[1] == d.keys@[1]@);
            }
        }
        if hit {
            proof {
                assert(find_msg_party(docs@, id as int, uid.0@, i as int) == Some(i as int));
            }
            return Some(i);
        }
        proof {
            assert(find_msg_party(docs@, id as int, uid.0@, i as int) == find_msg_party(
                docs@,
                id as int,
                uid.0@,
                i + 1,
            ));
        }
        i = i + 1;
    }
    None
}

/// Translate an outbox query to a map get under `_chan`.
fn sent_to_get(uid: &Id, m: &MsgSent, _outbox: bool) -> (g: MapGet)
    ensures
        g.id == m.id,
        g.uid is None,
        g.public is None,
        g.eol == Some(m.eol),
        g.eol_ == Some(m.eol_),
        g.tip is None && g.tip_ is None,
        g.size == m.size && g.size_ == m.size_,
        g.ns matches Some(ns) && ns@ == "_chan"@,
        g.ns_ is None,
        g.keys@.len() == 8,
        g.keys@[0].0 matches Some(v) && v@ == ValueV::Str(crate::codec::hex_of(uid.0@)),
        g.keys@[0].1 is None,
        (match m.to {
            Some(t) => g.keys@[1].0 matches Some(v) && v@ == ValueV::Str(
                crate::codec::hex_of(t.0@),
            ),
            None => g.keys@[1].0 is None,
        }),
        g.n == m.n,
        g.geo is None,
        g.sel is None,
{
    let mut keys: Vec<(Option<Value>, Option<Value>)> = Vec::new();
    keys.push((Some(Value::Str(uid.to_hex())), None));
    keys.push((
        match &m.to {
            Some(t) => Some(Value::Str(t.to_hex())),
            None => None,
        },
        None,
    ));
    keys.push((opt_int(m.sent), opt_int(m.sent_)));
    keys.push((opt_int(m.read), opt_int(m.read_)));
    keys.push((opt_int(m.tip), opt_int(m.tip_)));
    keys.push((
        match &m.kind {
            Some(k) => Some(Value::Str(k.clone())),
            None => None,
        },
        None,
    ));
    keys.push((None, None));
    keys.push((None, None));
    MapGet {
        id: m.id,
        uid: None,
        public: None,
        eol: Some(m.eol),
        eol_: Some(m.eol_),
        tip: None,
        tip_: None,
        size: m.size,
        size_: m.size_,
        ns: Some("_chan".to_owned()),
        ns_: None,
        keys,
        n: m.n,
        geo: None,
        sel: None,
    }
}

/// Translate an inbox query to a map get under `_chan`.
fn receive_to_get(uid: &Id, m: &MsgReceive) -> (g: MapGet)
    ensures
        g.id == m.id,
        g.uid is None,
        g.public is None,
        g.ns matches Some(ns) && ns@ == "_chan"@,
        g.keys@.len() == 8,
        g.keys@[1].0 matches Some(v) && v@ == ValueV::Str(crate::codec::hex_of(uid.0@)),
        g.n == m.n,
        g.geo is None,
        g.sel is None,
{
    let mut keys: Vec<(Option<Value>, Option<Value>)> = Vec::new();
    keys.push((
        match &m.from {
            Some(f) => Some(Value::Str(f.to_hex())),
            None => None,
        },
        None,
    ));
    keys.push((Some(Value::Str(uid.to_hex())), None));
    keys.push((opt_int(m.sent), opt_int(m.sent_)));
    keys.push((opt_int(m.read), opt_int(m.read_)));
    keys.push((opt_int(m.tip), opt_int(m.tip_)));
    keys.push((
        match &m.kind {
            Some(k) => Some(Value::Str(k.clone())),
            None => None,
        },
        None,
    ));
    keys.push((None, None));
    keys.push((None, None));
    MapGet {
        id: m.id,
        uid: None,
        public: None,
        eol: Some(m.eol),
        eol_: Some(m.eol_),
        tip: None,
        tip_: None,
        size: m.size,
        size_: m.size_,
        ns: Some("_chan".to_owned()),
        ns_: None,
        keys,
        n: m.n,
        geo: None,
        sel: None,
    }
}

/// Wrap an optional instant as an optional key bound.
fn opt_int(v: Option<i64>) -> (r: Option<Value>)
    ensures
        match v {
            Some(x) => r matches Some(val) && val@ == ValueV::Int(x as int),
            None => r is None,
        },
{
    match v {
        Some(x) => Some(Value::Int(x)),
        None => None,
    }
}

} // verus!
