//! Requests, parsed from the plain header list the transport hands over.

use vstd::prelude::*;

use crate::codec::{
    hash_of_chars, i64_of_chars, id_of_chars, is_hash_chars, is_i64_chars, is_id_chars,
    is_u64_chars, parse_bool_chars, parse_i64, parse_u64, str_eq, u64_of_chars,
};
use crate::error::Error;
use crate::gene_map::MapRequest;
use crate::gene_msg::MsgRequest;
use crate::id::Id;
use crate::ir::{Costs, Head};

verus! {

/// The value of the first header with this name.
pub open spec fn header_val(hs: Seq<(String, String)>, k: Seq<char>) -> Option<Seq<char>>
    decreases hs.len(),
{
    if hs.len() == 0 {
        None
    } else if hs.first().0@ == k {
        Some(hs.first().1@)
    } else {
        header_val(hs.drop_first(), k)
    }
}

/// Whether the named header holds a well-formed id.
pub open spec fn id_header_ok(hs: Seq<(String, String)>, k: Seq<char>) -> bool {
    header_val(hs, k) is Some && is_id_chars(header_val(hs, k)->Some_0)
}

/// The id bytes the named header denotes.
pub open spec fn id_header_of(hs: Seq<(String, String)>, k: Seq<char>) -> Seq<u8> {
    id_of_chars(header_val(hs, k)->Some_0)
}

/// The error an id header fails with.
pub open spec fn id_header_err(hs: Seq<(String, String)>, k: Seq<char>) -> Error {
    if header_val(hs, k) is None {
        Error::ApiMissingEntry
    } else {
        Error::ApiParseId
    }
}

/// Whether the named header holds a signed number.
pub open spec fn i64_header_ok(hs: Seq<(String, String)>, k: Seq<char>) -> bool {
    header_val(hs, k) is Some && is_i64_chars(header_val(hs, k)->Some_0)
}

/// The signed number the named header denotes.
pub open spec fn i64_header_of(hs: Seq<(String, String)>, k: Seq<char>) -> int {
    i64_of_chars(header_val(hs, k)->Some_0)
}

/// The error a numeric header fails with.
pub open spec fn num_header_err(hs: Seq<(String, String)>, k: Seq<char>) -> Error {
    if header_val(hs, k) is None {
        Error::ApiMissingEntry
    } else {
        Error::ApiParseNum
    }
}

/// Retrieve the first header with this name.
pub fn retrieve<'a>(headers: &'a Vec<(String, String)>, key: &str) -> (r: Result<
    &'a String,
    Error,
>)
    ensures
        r is Ok <==> header_val(headers@, key@) is Some,
        r is Ok ==> r->Ok_0@ == header_val(headers@, key@)->Some_0,
        r is Err ==> r->Err_0 == Error::ApiMissingEntry,
{
    let n = headers.len();
    let mut i: usize = 0;
    proof {
        assert(headers@.skip(0) =~= headers@);
    }
    while i < n
        invariant
            0 <= i <= n,
            n == headers@.len(),
            header_val(headers@, key@) == header_val(headers@.skip(i as int), key@),
        decreases n - i,
    {
        proof {
            assert(headers@.skip(i as int).first() == headers@[i as int]);
            assert(headers@.skip(i as int).drop_first() =~= headers@.skip(i + 1));
        }
        if str_eq(headers[i].0.as_str(), key) {
            return Ok(&headers[i].1);
        }
        i = i + 1;
    }
    Err(Error::ApiMissingEntry)
}

/// Parse the named header as an id.
pub fn get_id(headers: &Vec<(String, String)>, key: &str) -> (r: Result<Id, Error>)
    ensures
        r is Ok <==> id_header_ok(headers@, key@),
        r is Ok ==> r->Ok_0.0@ == id_header_of(headers@, key@),
        r is Err ==> r->Err_0 == id_header_err(headers@, key@),
{
    match retrieve(headers, key) {
        Ok(s) => {
            match Id::from_str(s.as_str()) {
                Ok(id) => {
                    proof {
                        assert(id.0@ =~= id_header_of(headers@, key@));
                    }
                    Ok(id)
                },
                Err(e) => Err(e),
            }
        },
        Err(e) => Err(e),
    }
}

/// Parse the named header as an id, `None` on any failure.
pub fn opt_id(headers: &Vec<(String, String)>, key: &str) -> (r: Option<Id>)
    ensures
        r is Some <==> id_header_ok(headers@, key@),
        r is Some ==> r->Some_0.0@ == id_header_of(headers@, key@),
{
    match get_id(headers, key) {
        Ok(id) => Some(id),
        Err(_) => None,
    }
}

/// Parse the named header as a signed number.
pub fn get_i64(headers: &Vec<(String, String)>, key: &str) -> (r: Result<i64, Error>)
    ensures
        r is Ok <==> i64_header_ok(headers@, key@),
        r is Ok ==> r->Ok_0 == i64_header_of(headers@, key@),
        r is Err ==> r->Err_0 == num_header_err(headers@, key@),
{
    match retrieve(headers, key) {
        Ok(s) => parse_i64(s.as_str()),
        Err(e) => Err(e),
    }
}

/// Whether the four budget headers are well formed.
pub open spec fn costs_ok(hs: Seq<(String, String)>) -> bool {
    &&& i64_header_ok(hs, "time"@)
    &&& i64_header_ok(hs, "space"@)
    &&& i64_header_ok(hs, "traffic"@)
    &&& i64_header_ok(hs, "tip"@)
}

/// The declared budget the headers denote.
pub open spec fn costs_of(hs: Seq<(String, String)>) -> Costs {
    Costs {
        time: i64_header_of(hs, "time"@) as i64,
        space: i64_header_of(hs, "space"@) as i64,
        traffic: i64_header_of(hs, "traffic"@) as i64,
        tip: i64_header_of(hs, "tip"@) as i64,
    }
}

/// The error the budget headers fail with, checked in order.
pub open spec fn costs_err(hs: Seq<(String, String)>) -> Error {
    if !i64_header_ok(hs, "time"@) {
        num_header_err(hs, "time"@)
    } else if !i64_header_ok(hs, "space"@) {
        num_header_err(hs, "space"@)
    } else if !i64_header_ok(hs, "traffic"@) {
        num_header_err(hs, "traffic"@)
    } else {
        num_header_err(hs, "tip"@)
    }
}

/// Whether the envelope headers are well formed.
pub open spec fn head_ok(hs: Seq<(String, String)>) -> bool {
    id_header_ok(hs, "access"@) && costs_ok(hs)
}

/// The envelope the headers denote, fields by name.
pub open spec fn head_matches(h: Head, hs: Seq<(String, String)>) -> bool {
    &&& h.access.0@ == id_header_of(hs, "access"@)
    &&& h.costs == costs_of(hs)
    &&& match h.fed {
        Some(f) => id_header_ok(hs, "fed"@) && f.0@ == id_header_of(hs, "fed"@),
        None => !id_header_ok(hs, "fed"@),
    }
}

/// The error the envelope headers fail with, checked in order.
pub open spec fn head_err(hs: Seq<(String, String)>) -> Error {
    if !id_header_ok(hs, "access"@) {
        id_header_err(hs, "access"@)
    } else {
        costs_err(hs)
    }
}

/// Whether the named header holds an unsigned number.
pub open spec fn u64_header_ok(hs: Seq<(String, String)>, k: Seq<char>) -> bool {
    header_val(hs, k) is Some && is_u64_chars(header_val(hs, k)->Some_0)
}

/// The unsigned number the named header denotes.
pub open spec fn u64_header_of(hs: Seq<(String, String)>, k: Seq<char>) -> int {
    u64_of_chars(header_val(hs, k)->Some_0)
}

/// Whether the named header holds a boolean.
pub open spec fn bool_header_ok(hs: Seq<(String, String)>, k: Seq<char>) -> bool {
    header_val(hs, k) is Some && (header_val(hs, k)->Some_0 == "true"@ || header_val(
        hs,
        k,
    )->Some_0 == "false"@)
}

/// The boolean the named header denotes.
pub open spec fn bool_header_of(hs: Seq<(String, String)>, k: Seq<char>) -> bool {
    header_val(hs, k)->Some_0 == "true"@
}

/// Whether the named header holds a well-formed hash.
pub open spec fn hash_header_ok(hs: Seq<(String, String)>, k: Seq<char>) -> bool {
    header_val(hs, k) is Some && is_hash_chars(header_val(hs, k)->Some_0)
}

/// The hash bytes the named header denotes.
pub open spec fn hash_header_of(hs: Seq<(String, String)>, k: Seq<char>) -> Seq<u8> {
    hash_of_chars(header_val(hs, k)->Some_0)
}

/// The error a hash header fails with.
pub open spec fn hash_header_err(hs: Seq<(String, String)>, k: Seq<char>) -> Error {
    if header_val(hs, k) is None {
        Error::ApiMissingEntry
    } else {
        Error::ApiParseHash
    }
}

/// Parse the named header as an unsigned number.
pub fn get_u64(headers: &Vec<(String, String)>, key: &str) -> (r: Result<u64, Error>)
    ensures
        r is Ok <==> u64_header_ok(headers@, key@),
        r is Ok ==> r->Ok_0 == u64_header_of(headers@, key@),
        r is Err ==> r->Err_0 == num_header_err(headers@, key@),
{
    match retrieve(headers, key) {
        Ok(s) => parse_u64(s.as_str()),
        Err(e) => Err(e),
    }
}

/// Parse the named header as a boolean.
pub fn get_bool(headers: &Vec<(String, String)>, key: &str) -> (r: Result<bool, Error>)
    ensures
        r is Ok <==> bool_header_ok(headers@, key@),
        r is Ok ==> r->Ok_0 == bool_header_of(headers@, key@),
        r is Err ==> r->Err_0 == num_header_err(headers@, key@),
{
    match retrieve(headers, key) {
        Ok(s) => parse_bool_chars(s.as_str()),
        Err(e) => Err(e),
    }
}

/// Parse the `hash` header.
pub fn try_get_hash(headers: &Vec<(String, String)>) -> (r: Result<crate::ir::Hash, Error>)
    ensures
        r is Ok <==> hash_header_ok(headers@, "hash"@),
        r is Ok ==> r->Ok_0@ == hash_header_of(headers@, "hash"@),
        r is Err ==> r->Err_0 == hash_header_err(headers@, "hash"@),
{
    match retrieve(headers, "hash") {
        Ok(s) => match crate::codec::decode_hex_32(s.as_str()) {
            Some(a) => {
                proof {
                    assert(a@ =~= hash_header_of(headers@, "hash"@));
                }
                Ok(a)
            },
            None => Err(Error::ApiParseHash),
        },
        Err(e) => Err(e),
    }
}

impl Costs {
    /// Parse the four budget headers.
    pub fn try_get(headers: &Vec<(String, String)>) -> (r: Result<Costs, Error>)
        ensures
            r is Ok <==> costs_ok(headers@),
            r is Ok ==> r->Ok_0 == costs_of(headers@),
            r is Err ==> r->Err_0 == costs_err(headers@),
    {
        let time = get_i64(headers, "time")?;
        let space = get_i64(headers, "space")?;
        let traffic = get_i64(headers, "traffic")?;
        let tip = get_i64(headers, "tip")?;
        Ok(Costs { time, space, traffic, tip })
    }
}

impl Head {
    /// Parse the envelope: access token, budget, federation target.
    pub fn try_get(headers: &Vec<(String, String)>) -> (r: Result<Head, Error>)
        ensures
            r is Ok <==> head_ok(headers@),
            r is Ok ==> head_matches(r->Ok_0, headers@),
            r is Err ==> r->Err_0 == head_err(headers@),
    {
        let access = get_id(headers, "access")?;
        let costs = Costs::try_get(headers)?;
        let fed = opt_id(headers, "fed");
        Ok(Head { access, costs, fed })
    }
}

/// The argument of a gene call: raw text from the transport, or one of the
/// structured requests the process around the library parsed out of it.
#[derive(Debug)]
pub enum GeneArg {
    Text(String),
    MapArg(MapRequest),
    MsgArg(MsgRequest),
}

/// One parsed request.
#[derive(Debug)]
pub enum Query {
    AuthSessionStart,
    AuthSessionRefresh { refresh: Id },
    AuthSessionEnd { access: Id, option_refresh: Option<Id> },
    AuthSmsSendTo { access: Id },
    AuthSmsSent { access: Id, refresh: Id, phone: String, message: Id },
    CostPay { access: Id, vendor: Id },
    CostGet { access: Id },
    CostCheckIn { access: Id },
    GeneMeta { head: Head, gid: String },
    GeneCall { head: Head, gid: String, arg: GeneArg },
    MemeMeta { head: Head, hash: crate::ir::Hash },
    MemePut { head: Head, days: u64, raw: Vec<Vec<u8>> },
    MemeGet { head: Head, hash: crate::ir::Hash, public: bool },
}

impl Query {
    /// Whether this request kind carries an access token.
    pub open spec fn has_access(&self) -> bool {
        !(self is AuthSessionStart || self is AuthSessionRefresh || self is AuthSessionEnd
            || self is AuthSmsSendTo || self is AuthSmsSent)
    }

    /// The access token of the request.
    pub fn get_access(&self) -> (r: &Id)
        requires
            self.has_access(),
        ensures
            r == self.spec_access(),
    {
        match self {
            Query::CostPay { access, .. } => access,
            Query::CostGet { access, .. } => access,
            Query::CostCheckIn { access, .. } => access,
            Query::MemeMeta { head, .. } => &head.access,
            Query::MemePut { head, .. } => &head.access,
            Query::MemeGet { head, .. } => &head.access,
            Query::GeneMeta { head, .. } => &head.access,
            Query::GeneCall { head, .. } => &head.access,
            _ => vstd::pervasive::unreached(),
        }
    }

    /// The access token, as the contract sees it.
    pub open spec fn spec_access(&self) -> Id {
        match self {
            Query::CostPay { access, .. } => *access,
            Query::CostGet { access, .. } => *access,
            Query::CostCheckIn { access, .. } => *access,
            Query::MemeMeta { head, .. } => head.access,
            Query::MemePut { head, .. } => head.access,
            Query::MemeGet { head, .. } => head.access,
            Query::GeneMeta { head, .. } => head.access,
            Query::GeneCall { head, .. } => head.access,
            _ => vstd::pervasive::arbitrary(),
        }
    }

    /// Whether this request kind is billable: it carries a budget.
    pub open spec fn is_billable(&self) -> bool {
        self is GeneMeta || self is GeneCall || self is MemeMeta || self is MemePut
            || self is MemeGet
    }

    /// The declared budget of the request.
    pub fn get_costs(&self) -> (r: Costs)
        requires
            self.is_billable(),
        ensures
            r == self.spec_costs(),
    {
        match self {
            Query::MemeMeta { head, .. } => head.costs,
            Query::MemePut { head, .. } => head.costs,
            Query::MemeGet { head, .. } => head.costs,
            Query::GeneMeta { head, .. } => head.costs,
            Query::GeneCall { head, .. } => head.costs,
            _ => vstd::pervasive::unreached(),
        }
    }

    /// The declared budget, as the contract sees it.
    pub open spec fn spec_costs(&self) -> Costs {
        match self {
            Query::MemeMeta { head, .. } => head.costs,
            Query::MemePut { head, .. } => head.costs,
            Query::MemeGet { head, .. } => head.costs,
            Query::GeneMeta { head, .. } => head.costs,
            Query::GeneCall { head, .. } => head.costs,
            _ => vstd::pervasive::arbitrary(),
        }
    }

    /// The federation target of the request, where one may stand.
    pub fn get_fed(&self) -> (r: &Option<Id>)
        ensures
            r == self.spec_fed(),
    {
        match self {
            Query::MemeMeta { head, .. } => &head.fed,
            Query::GeneMeta { head, .. } => &head.fed,
            Query::GeneCall { head, .. } => &head.fed,
            _ => &None,
        }
    }

    /// The federation target, as the contract sees it.
    pub open spec fn spec_fed(&self) -> Option<Id> {
        match self {
            Query::MemeMeta { head, .. } => head.fed,
            Query::GeneMeta { head, .. } => head.fed,
            Query::GeneCall { head, .. } => head.fed,
            _ => None,
        }
    }

    /// Parse a request from the header list and the body frames. The `arg`
    /// of a gene call arrives as raw text; the process around the library
    /// turns it into the structured request where the gene wants one.
    pub fn try_from(headers: &Vec<(String, String)>, body: Vec<Vec<u8>>) -> (r: Result<
        Query,
        Error,
    >)
        ensures
            spec_try_from_ok(r, headers@, body),
    {
        let t = match retrieve(headers, "type") {
            Ok(v) => v,
            Err(_) => {
                return Err(Error::ApiMissingQueryType);
            },
        };
        if str_eq(t.as_str(), "AuthSessionStart") {
            Ok(Query::AuthSessionStart)
        } else if str_eq(t.as_str(), "AuthSessionRefresh") {
            let refresh = get_id(headers, "refresh")?;
            Ok(Query::AuthSessionRefresh { refresh })
        } else if str_eq(t.as_str(), "AuthSessionEnd") {
            let access = get_id(headers, "access")?;
            let option_refresh = opt_id(headers, "refresh");
            Ok(Query::AuthSessionEnd { access, option_refresh })
        } else if str_eq(t.as_str(), "AuthSmsSendTo") {
            let access = get_id(headers, "access")?;
            Ok(Query::AuthSmsSendTo { access })
        } else if str_eq(t.as_str(), "AuthSmsSent") {
            let access = get_id(headers, "access")?;
            let refresh = get_id(headers, "refresh")?;
            let phone = retrieve(headers, "phone")?.clone();
            let message = get_id(headers, "message")?;
            Ok(Query::AuthSmsSent { access, refresh, phone, message })
        } else if str_eq(t.as_str(), "CostPay") {
            let access = get_id(headers, "access")?;
            let vendor = get_id(headers, "vendor")?;
            Ok(Query::CostPay { access, vendor })
        } else if str_eq(t.as_str(), "CostGet") {
            let access = get_id(headers, "access")?;
            Ok(Query::CostGet { access })
        } else if str_eq(t.as_str(), "CostCheckIn") {
            let access = get_id(headers, "access")?;
            Ok(Query::CostCheckIn { access })
        } else if str_eq(t.as_str(), "GeneMeta") {
            let head = Head::try_get(headers)?;
            let gid = retrieve(headers, "gid")?.clone();
            Ok(Query::GeneMeta { head, gid })
        } else if str_eq(t.as_str(), "GeneCall") {
            let head = Head::try_get(headers)?;
            let gid = retrieve(headers, "gid")?.clone();
            let arg = GeneArg::Text(retrieve(headers, "arg")?.clone());
            Ok(Query::GeneCall { head, gid, arg })
        } else if str_eq(t.as_str(), "MemeMeta") {
            let head = Head::try_get(headers)?;
            let hash = try_get_hash(headers)?;
            Ok(Query::MemeMeta { head, hash })
        } else if str_eq(t.as_str(), "MemePut") {
            let head = Head::try_get(headers)?;
            let days = get_u64(headers, "days")?;
            Ok(Query::MemePut { head, days, raw: body })
        } else if str_eq(t.as_str(), "MemeGet") {
            let head = Head::try_get(headers)?;
            let hash = try_get_hash(headers)?;
            let public = get_bool(headers, "public")?;
            Ok(Query::MemeGet { head, hash, public })
        } else {
            Err(Error::ApiUnknownQueryType)
        }
    }
}

/// What parsing a request returns, for every header list.
pub open spec fn spec_try_from_ok(
    r: Result<Query, Error>,
    hs: Seq<(String, String)>,
    body: Vec<Vec<u8>>,
) -> bool {
    let t = header_val(hs, "type"@);
    if t is None {
        r is Err && r->Err_0 == Error::ApiMissingQueryType
    } else {
        let tv = t->Some_0;
        if tv == "AuthSessionStart"@ {
            r is Ok && r->Ok_0 is AuthSessionStart
        } else if tv == "AuthSessionRefresh"@ {
            &&& (r is Ok <==> id_header_ok(hs, "refresh"@))
            &&& (r is Ok ==> (r->Ok_0 matches Query::AuthSessionRefresh { refresh }
                && refresh.0@ == id_header_of(hs, "refresh"@)))
            &&& (r is Err ==> r->Err_0 == id_header_err(hs, "refresh"@))
        } else if tv == "AuthSessionEnd"@ {
            &&& (r is Ok <==> id_header_ok(hs, "access"@))
            &&& (r is Ok ==> (r->Ok_0 matches Query::AuthSessionEnd { access, option_refresh }
                && access.0@ == id_header_of(hs, "access"@) && (match option_refresh {
                Some(rf) => id_header_ok(hs, "refresh"@) && rf.0@ == id_header_of(
                    hs,
                    "refresh"@,
                ),
                None => !id_header_ok(hs, "refresh"@),
            })))
            &&& (r is Err ==> r->Err_0 == id_header_err(hs, "access"@))
        } else if tv == "AuthSmsSendTo"@ {
            &&& (r is Ok <==> id_header_ok(hs, "access"@))
            &&& (r is Ok ==> (r->Ok_0 matches Query::AuthSmsSendTo { access } && access.0@
                == id_header_of(hs, "access"@)))
            &&& (r is Err ==> r->Err_0 == id_header_err(hs, "access"@))
        } else if tv == "AuthSmsSent"@ {
            &&& (r is Ok <==> id_header_ok(hs, "access"@) && id_header_ok(hs, "refresh"@)
                && header_val(hs, "phone"@) is Some && id_header_ok(hs, "message"@))
            &&& (r is Ok ==> (r->Ok_0 matches Query::AuthSmsSent {
                access,
                refresh,
                phone,
                message,
            } && access.0@ == id_header_of(hs, "access"@) && refresh.0@ == id_header_of(
                hs,
                "refresh"@,
            ) && phone@ == header_val(hs, "phone"@)->Some_0 && message.0@ == id_header_of(
                hs,
                "message"@,
            )))
            &&& (r is Err ==> r->Err_0 == (if !id_header_ok(hs, "access"@) {
                id_header_err(hs, "access"@)
            } else if !id_header_ok(hs, "refresh"@) {
                id_header_err(hs, "refresh"@)
            } else if header_val(hs, "phone"@) is None {
                Error::ApiMissingEntry
            } else {
                id_header_err(hs, "message"@)
            }))
        } else if tv == "CostPay"@ {
            &&& (r is Ok <==> id_header_ok(hs, "access"@) && id_header_ok(hs, "vendor"@))
            &&& (r is Ok ==> (r->Ok_0 matches Query::CostPay { access, vendor } && access.0@
                == id_header_of(hs, "access"@) && vendor.0@ == id_header_of(hs, "vendor"@)))
            &&& (r is Err ==> r->Err_0 == (if !id_header_ok(hs, "access"@) {
                id_header_err(hs, "access"@)
            } else {
                id_header_err(hs, "vendor"@)
            }))
        } else if tv == "CostGet"@ {
            &&& (r is Ok <==> id_header_ok(hs, "access"@))
            &&& (r is Ok ==> (r->Ok_0 matches Query::CostGet { access } && access.0@
                == id_header_of(hs, "access"@)))
            &&& (r is Err ==> r->Err_0 == id_header_err(hs, "access"@))
        } else if tv == "CostCheckIn"@ {
            &&& (r is Ok <==> id_header_ok(hs, "access"@))
            &&& (r is Ok ==> (r->Ok_0 matches Query::CostCheckIn { access } && access.0@
                == id_header_of(hs, "access"@)))
            &&& (r is Err ==> r->Err_0 == id_header_err(hs, "access"@))
        } else if tv == "GeneMeta"@ {
            &&& (r is Ok <==> head_ok(hs) && header_val(hs, "gid"@) is Some)
            &&& (r is Ok ==> (r->Ok_0 matches Query::GeneMeta { head, gid } && head_matches(
                head,
                hs,
            ) && gid@ == header_val(hs, "gid"@)->Some_0))
            &&& (r is Err ==> r->Err_0 == (if !head_ok(hs) {
                head_err(hs)
            } else {
                Error::ApiMissingEntry
            }))
        } else if tv == "GeneCall"@ {
            &&& (r is Ok <==> head_ok(hs) && header_val(hs, "gid"@) is Some && header_val(
                hs,
                "arg"@,
            ) is Some)
            &&& (r is Ok ==> (r->Ok_0 matches Query::GeneCall { head, gid, arg }
                && head_matches(head, hs) && gid@ == header_val(hs, "gid"@)->Some_0
                && (arg matches GeneArg::Text(a) && a@ == header_val(hs, "arg"@)->Some_0)))
            &&& (r is Err ==> r->Err_0 == (if !head_ok(hs) {
                head_err(hs)
            } else {
                Error::ApiMissingEntry
            }))
        } else if tv == "MemeMeta"@ {
            &&& (r is Ok <==> head_ok(hs) && hash_header_ok(hs, "hash"@))
            &&& (r is Ok ==> (r->Ok_0 matches Query::MemeMeta { head, hash } && head_matches(
                head,
                hs,
            ) && hash@ == hash_header_of(hs, "hash"@)))
            &&& (r is Err ==> r->Err_0 == (if !head_ok(hs) {
                head_err(hs)
            } else {
                hash_header_err(hs, "hash"@)
            }))
        } else if tv == "MemePut"@ {
            &&& (r is Ok <==> head_ok(hs) && u64_header_ok(hs, "days"@))
            &&& (r is Ok ==> (r->Ok_0 matches Query::MemePut { head, days, raw }
                && head_matches(head, hs) && days == u64_header_of(hs, "days"@) && raw
                == body))
            &&& (r is Err ==> r->Err_0 == (if !head_ok(hs) {
                head_err(hs)
            } else {
                num_header_err(hs, "days"@)
            }))
        } else if tv == "MemeGet"@ {
            &&& (r is Ok <==> head_ok(hs) && hash_header_ok(hs, "hash"@) && bool_header_ok(
                hs,
                "public"@,
            ))
            &&& (r is Ok ==> (r->Ok_0 matches Query::MemeGet { head, hash, public }
                && head_matches(head, hs) && hash@ == hash_header_of(hs, "hash"@) && public
                == bool_header_of(hs, "public"@)))
            &&& (r is Err ==> r->Err_0 == (if !head_ok(hs) {
                head_err(hs)
            } else if !hash_header_ok(hs, "hash"@) {
                hash_header_err(hs, "hash"@)
            } else {
                num_header_err(hs, "public"@)
            }))
        } else {
            r is Err && r->Err_0 == Error::ApiUnknownQueryType
        }
    }
}


/// The request kinds that carry a budget, by their type header.
pub open spec fn billable_type(tv: Seq<char>) -> bool {
    tv == "GeneMeta"@ || tv == "GeneCall"@ || tv == "MemeMeta"@ || tv == "MemePut"@ || tv
        == "MemeGet"@
}

/// A parsed billable request carries the access token and the budget its
/// headers denote.
pub proof fn lemma_parsed_billable(
    r: Result<Query, Error>,
    hs: Seq<(String, String)>,
    body: Vec<Vec<u8>>,
)
    requires
        spec_try_from_ok(r, hs, body),
        header_val(hs, "type"@) is Some,
        billable_type(header_val(hs, "type"@)->Some_0),
        r is Ok,
    ensures
        r->Ok_0.is_billable(),
        r->Ok_0.has_access(),
        head_ok(hs),
        r->Ok_0.spec_access().0@ == id_header_of(hs, "access"@),
        r->Ok_0.spec_costs() == costs_of(hs),
{
    reveal_strlit("AuthSessionStart");
    reveal_strlit("AuthSessionRefresh");
    reveal_strlit("AuthSessionEnd");
    reveal_strlit("AuthSmsSendTo");
    reveal_strlit("AuthSmsSent");
    reveal_strlit("CostPay");
    reveal_strlit("CostGet");
    reveal_strlit("CostCheckIn");
    reveal_strlit("GeneMeta");
    reveal_strlit("GeneCall");
    reveal_strlit("MemeMeta");
    reveal_strlit("MemePut");
    reveal_strlit("MemeGet");
    assert("AuthSessionStart"@.len() == 16);
    assert("AuthSessionRefresh"@.len() == 18);
    assert("AuthSessionEnd"@.len() == 14);
    assert("AuthSmsSendTo"@.len() == 13);
    assert("AuthSmsSent"@.len() == 11);
    assert("CostPay"@.len() == 7);
    assert("CostGet"@.len() == 7);
    assert("CostCheckIn"@.len() == 11);
    assert("GeneMeta"@.len() == 8);
    assert("GeneCall"@.len() == 8);
    assert("MemeMeta"@.len() == 8);
    assert("MemePut"@.len() == 7);
    assert("MemeGet"@.len() == 7);
    assert("GeneMeta"@ != "GeneCall"@) by {
        assert("GeneMeta"@[4] != "GeneCall"@[4]);
    }
    assert("GeneMeta"@ != "MemeMeta"@) by {
        assert("GeneMeta"@[0] != "MemeMeta"@[0]);
    }
    assert("GeneCall"@ != "MemeMeta"@) by {
        assert("GeneCall"@[0] != "MemeMeta"@[0]);
    }
    assert("CostPay"@ != "MemePut"@) by {
        assert("CostPay"@[0] != "MemePut"@[0]);
    }
    assert("CostGet"@ != "MemePut"@) by {
        assert("CostGet"@[0] != "MemePut"@[0]);
    }
    assert("CostPay"@ != "MemeGet"@) by {
        assert("CostPay"@[0] != "MemeGet"@[0]);
    }
    assert("CostGet"@ != "MemeGet"@) by {
        assert("CostGet"@[0] != "MemeGet"@[0]);
    }
    assert("MemePut"@ != "MemeGet"@) by {
        assert("MemePut"@[4] != "MemeGet"@[4]);
    }
    let tv = header_val(hs, "type"@)->Some_0;
    let q = r->Ok_0;
    if tv == "GeneMeta"@ {
        assert(q matches Query::GeneMeta { head, .. } && head_matches(head, hs));
    } else if tv == "GeneCall"@ {
        assert(q matches Query::GeneCall { head, .. } && head_matches(head, hs));
    } else if tv == "MemeMeta"@ {
        assert(q matches Query::MemeMeta { head, .. } && head_matches(head, hs));
    } else if tv == "MemePut"@ {
        assert(q matches Query::MemePut { head, .. } && head_matches(head, hs));
    } else {
        assert(tv == "MemeGet"@);
        assert(q matches Query::MemeGet { head, .. } && head_matches(head, hs));
    }
}

} // verus!
