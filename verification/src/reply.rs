//! Replies: what each request kind returns on success.

use vstd::prelude::*;
use vstd::string::StrSliceExecFns;
use vstd::string::StringExecFns;

use crate::codec::{dec_str_i64, hex_of, i64_to_dec, str_bytes};
use crate::error::Error;
use crate::id::Id;
use crate::ir::Costs;

verus! {

/// One reply. The budget-carrying replies echo the refunded remainder:
/// subtracting it from the declared budget gives what was actually spent.
#[derive(Debug)]
pub enum Reply {
    Error { error: Error },
    AuthSessionStart { access: Id, refresh: Id },
    AuthSessionRefresh { access: Id },
    AuthSessionEnd,
    AuthSmsSendTo { phone: String, message: Id },
    AuthSmsSent { uid: Id },
    CostPay { uri: String },
    CostGet { credit: i64 },
    CostCheckIn { award: i64 },
    GeneMeta { changes: Costs, meta: String },
    GeneCall { changes: Costs, result: String },
    MemeMeta { changes: Costs, meta: String },
    MemePut { changes: Costs, hash: crate::ir::Hash },
    MemeGet { changes: Costs, raw: Vec<u8> },
    Unimplemented,
    Pong,
}


/// Whether a rendered header carries this name and value.
pub open spec fn hdr(p: (String, String), k: Seq<char>, v: Seq<char>) -> bool {
    p.0@ == k && p.1@ == v
}

/// The four budget-echo headers: the refunded remainder per dimension.
pub open spec fn echo_hdrs(hs: Seq<(String, String)>, at: int, c: Costs) -> bool {
    &&& hdr(hs[at], "time"@, dec_str_i64(c.time as int))
    &&& hdr(hs[at + 1], "space"@, dec_str_i64(c.space as int))
    &&& hdr(hs[at + 2], "traffic"@, dec_str_i64(c.traffic as int))
    &&& hdr(hs[at + 3], "tip"@, dec_str_i64(c.tip as int))
}

impl Reply {
    /// The transport form of a reply: the status, the response headers,
    /// and the body bytes. An error is a server failure; everything else
    /// is plain success, with the budget-carrying replies echoing the
    /// refunded remainder so a caller can subtract it from the declared
    /// budget to learn what was spent.
    pub fn to_response_parts(self) -> (r: (u16, Vec<(String, String)>, Vec<u8>))
        ensures
            r.0 == (if self is Error {
                500int
            } else {
                200int
            }),
            self matches Reply::Error { error } ==> r.1@.len() == 2 && hdr(
                r.1@[0],
                "type"@,
                "Error"@,
            ) && hdr(r.1@[1], "error"@, error.spec_text()) && r.2@ == Seq::<u8>::empty(),
            self matches Reply::AuthSessionStart { access, refresh } ==> r.1@.len() == 3
                && hdr(r.1@[0], "type"@, "AuthSessionStart"@) && hdr(
                r.1@[1],
                "access"@,
                hex_of(access.0@),
            ) && hdr(r.1@[2], "refresh"@, hex_of(refresh.0@)) && r.2@ == Seq::<u8>::empty(),
            self matches Reply::AuthSessionRefresh { access } ==> r.1@.len() == 2 && hdr(
                r.1@[0],
                "type"@,
                "AuthSessionRefresh"@,
            ) && hdr(r.1@[1], "access"@, hex_of(access.0@)) && r.2@ == Seq::<u8>::empty(),
            self is AuthSessionEnd ==> r.1@.len() == 1 && hdr(
                r.1@[0],
                "type"@,
                "AuthSessionEnd"@,
            ) && r.2@ == Seq::<u8>::empty(),
            self matches Reply::AuthSmsSendTo { phone, message } ==> r.1@.len() == 3 && hdr(
                r.1@[0],
                "type"@,
                "AuthSmsSendTo"@,
            ) && hdr(r.1@[1], "phone"@, phone@) && hdr(r.1@[2], "message"@, hex_of(message.0@))
                && r.2@ == Seq::<u8>::empty(),
            self matches Reply::AuthSmsSent { uid } ==> r.1@.len() == 2 && hdr(
                r.1@[0],
                "type"@,
                "AuthSmsSent"@,
            ) && hdr(r.1@[1], "uid"@, hex_of(uid.0@)) && r.2@ == Seq::<u8>::empty(),
            self matches Reply::CostPay { uri } ==> r.1@.len() == 2 && hdr(
                r.1@[0],
                "type"@,
                "CostPay"@,
            ) && hdr(r.1@[1], "uri"@, uri@) && r.2@ == Seq::<u8>::empty(),
            self matches Reply::CostGet { credit } ==> r.1@.len() == 2 && hdr(
                r.1@[0],
                "type"@,
                "CostGet"@,
            ) && hdr(r.1@[1], "credit"@, dec_str_i64(credit as int)) && r.2@
                == Seq::<u8>::empty(),
            self matches Reply::CostCheckIn { award } ==> r.1@.len() == 2 && hdr(
                r.1@[0],
                "type"@,
                "CostCheckIn"@,
            ) && hdr(r.1@[1], "award"@, dec_str_i64(award as int)) && r.2@
                == Seq::<u8>::empty(),
            self matches Reply::GeneMeta { changes, meta } ==> r.1@.len() == 5 && hdr(
                r.1@[0],
                "type"@,
                "GeneMeta"@,
            ) && echo_hdrs(r.1@, 1, changes) && r.2@ == str_bytes(meta@),
            self matches Reply::GeneCall { changes, result } ==> r.1@.len() == 5 && hdr(
                r.1@[0],
                "type"@,
                "GeneCall"@,
            ) && echo_hdrs(r.1@, 1, changes) && r.2@ == str_bytes(result@),
            self matches Reply::MemeMeta { changes, meta } ==> r.1@.len() == 5 && hdr(
                r.1@[0],
                "type"@,
                "MemeMeta"@,
            ) && echo_hdrs(r.1@, 1, changes) && r.2@ == str_bytes(meta@),
            self matches Reply::MemePut { changes, hash } ==> r.1@.len() == 6 && hdr(
                r.1@[0],
                "type"@,
                "MemePut"@,
            ) && echo_hdrs(r.1@, 1, changes) && hdr(r.1@[5], "hash"@, hex_of(hash@)) && r.2@
                == Seq::<u8>::empty(),
            self matches Reply::MemeGet { changes, raw } ==> r.1@.len() == 5 && hdr(
                r.1@[0],
                "type"@,
                "MemeGet"@,
            ) && echo_hdrs(r.1@, 1, changes) && r.2@ == raw@,
            self is Unimplemented ==> r.1@.len() == 1 && hdr(
                r.1@[0],
                "type"@,
                "Unimplemented"@,
            ) && r.2@ == Seq::<u8>::empty(),
            self is Pong ==> r.1@.len() == 0 && r.2@ == "PONG"@.map_values(|c: char| c as u8),
    {
        let mut hs: Vec<(String, String)> = Vec::new();
        match self {
            Reply::Error { error } => {
                hs.push(("type".to_owned(), "Error".to_owned()));
                hs.push(("error".to_owned(), error.as_text().to_owned()));
                (500, hs, Vec::new())
            },
            Reply::AuthSessionStart { access, refresh } => {
                hs.push(("type".to_owned(), "AuthSessionStart".to_owned()));
                hs.push(("access".to_owned(), access.to_hex()));
                hs.push(("refresh".to_owned(), refresh.to_hex()));
                (200, hs, Vec::new())
            },
            Reply::AuthSessionRefresh { access } => {
                hs.push(("type".to_owned(), "AuthSessionRefresh".to_owned()));
                hs.push(("access".to_owned(), access.to_hex()));
                (200, hs, Vec::new())
            },
            Reply::AuthSessionEnd => {
                hs.push(("type".to_owned(), "AuthSessionEnd".to_owned()));
                (200, hs, Vec::new())
            },
            Reply::AuthSmsSendTo { phone, message } => {
                hs.push(("type".to_owned(), "AuthSmsSendTo".to_owned()));
                hs.push(("phone".to_owned(), phone));
                hs.push(("message".to_owned(), message.to_hex()));
                (200, hs, Vec::new())
            },
            Reply::AuthSmsSent { uid } => {
                hs.push(("type".to_owned(), "AuthSmsSent".to_owned()));
                hs.push(("uid".to_owned(), uid.to_hex()));
                (200, hs, Vec::new())
            },
            Reply::CostPay { uri } => {
                hs.push(("type".to_owned(), "CostPay".to_owned()));
                hs.push(("uri".to_owned(), uri));
                (200, hs, Vec::new())
            },
            Reply::CostGet { credit } => {
                hs.push(("type".to_owned(), "CostGet".to_owned()));
                hs.push(("credit".to_owned(), i64_to_dec(credit)));
                (200, hs, Vec::new())
            },
            Reply::CostCheckIn { award } => {
                hs.push(("type".to_owned(), "CostCheckIn".to_owned()));
                hs.push(("award".to_owned(), i64_to_dec(award)));
                (200, hs, Vec::new())
            },
            Reply::GeneMeta { changes, meta } => {
                hs.push(("type".to_owned(), "GeneMeta".to_owned()));
                push_echo(&mut hs, &changes);
                (200, hs, crate::kv::slice_to_vec_u8(meta.as_str().as_bytes()))
            },
            Reply::GeneCall { changes, result } => {
                hs.push(("type".to_owned(), "GeneCall".to_owned()));
                push_echo(&mut hs, &changes);
                (200, hs, crate::kv::slice_to_vec_u8(result.as_str().as_bytes()))
            },
            Reply::MemeMeta { changes, meta } => {
                hs.push(("type".to_owned(), "MemeMeta".to_owned()));
                push_echo(&mut hs, &changes);
                (200, hs, crate::kv::slice_to_vec_u8(meta.as_str().as_bytes()))
            },
            Reply::MemePut { changes, hash } => {
                hs.push(("type".to_owned(), "MemePut".to_owned()));
                push_echo(&mut hs, &changes);
                hs.push(("hash".to_owned(), crate::codec::encode_hex(hash.as_slice())));
                (200, hs, Vec::new())
            },
            Reply::MemeGet { changes, raw } => {
                hs.push(("type".to_owned(), "MemeGet".to_owned()));
                push_echo(&mut hs, &changes);
                (200, hs, raw)
            },
            Reply::Unimplemented => {
                hs.push(("type".to_owned(), "Unimplemented".to_owned()));
                (200, hs, Vec::new())
            },
            Reply::Pong => (200, hs, pong_bytes()),
        }
    }
}

/// Append the four budget-echo headers.
fn push_echo(hs: &mut Vec<(String, String)>, c: &Costs)
    ensures
        final(hs)@.len() == old(hs)@.len() + 4,
        forall|i: int| 0 <= i < old(hs)@.len() ==> final(hs)@[i] == old(hs)@[i],
        echo_hdrs(final(hs)@, old(hs)@.len() as int, *c),
{
    hs.push(("time".to_owned(), i64_to_dec(c.time)));
    hs.push(("space".to_owned(), i64_to_dec(c.space)));
    hs.push(("traffic".to_owned(), i64_to_dec(c.traffic)));
    hs.push(("tip".to_owned(), i64_to_dec(c.tip)));
}

/// The ping body.
fn pong_bytes() -> (r: Vec<u8>)
    ensures
        r@ == "PONG"@.map_values(|c: char| c as u8),
{
    proof {
        reveal_strlit("PONG");
    }
    let mut v: Vec<u8> = Vec::new();
    v.push(0x50);
    v.push(0x4f);
    v.push(0x4e);
    v.push(0x47);
    proof {
        assert(v@ =~= "PONG"@.map_values(|c: char| c as u8));
    }
    v
}

} // verus!
