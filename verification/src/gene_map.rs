//! The map gene: a typed document store with reserved underscore-prefixed
//! fields, range filters and size/TTL/tip accounting.

use vstd::prelude::*;
use vstd::string::StrSliceExecFns;
use vstd::string::StringExecFns;

use crate::config::valid_now;
use crate::credit::cl_view;
use crate::database::Database;
use crate::docs::{MapDoc, MapDocV};
use crate::error::Error;
use crate::id::Id;
use crate::ir::Costs;
use crate::json::{escape_str, render_value};
use crate::kv::{KvCellV, KvValV};
use crate::value::{value_clone, Value, ValueV};

verus! {

broadcast use vstd::array::group_array_axioms;

/// A map put: insert a fresh document, or replace one by id.
#[derive(Debug)]
pub struct MapPut {
    /// Replace this document when given, insert otherwise.
    pub id: Option<u64>,
    /// End of life, absolute seconds; at least a day away.
    pub eol: i64,
    /// The price readers pay; within the declared tip budget.
    pub tip: Option<i64>,
    /// Namespace; reserved names start with an underscore.
    pub ns: Option<String>,
    /// The eight indexed keys, null where not given.
    pub keys: Vec<Value>,
    /// Geospatial point: two coordinates.
    pub geo: Option<Vec<i64>>,
    /// The user fields.
    pub fields: Vec<(String, Value)>,
}

/// A map get: a conjunction of filters, each optional.
#[derive(Debug)]
pub struct MapGet {
    /// Filter by document id.
    pub id: Option<u64>,
    /// Filter by owner; visibility is scoped by the caller.
    pub uid: Option<Id>,
    /// Filter by visibility, honored only for the caller's own documents.
    pub public: Option<bool>,
    /// Lower and upper bound on the end of life.
    pub eol: Option<i64>,
    pub eol_: Option<i64>,
    /// Lower and upper bound on the tip.
    pub tip: Option<i64>,
    pub tip_: Option<i64>,
    /// Lower and upper bound on the size.
    pub size: Option<i64>,
    pub size_: Option<i64>,
    /// Lower and upper bound on the namespace.
    pub ns: Option<String>,
    pub ns_: Option<String>,
    /// Lower and upper bound on each of the eight indexed keys.
    pub keys: Vec<(Option<Value>, Option<Value>)>,
    /// Stop after this many documents.
    pub n: Option<u64>,
    /// Geospatial filter: two coordinates and a radius.
    pub geo: Option<Vec<i64>>,
    /// Project the output to these fields.
    pub sel: Option<Vec<String>>,
}

/// A map drop: delete one of the caller's documents by id.
#[derive(Debug)]
pub struct MapDrop {
    pub id: Option<u64>,
}

/// One request to the map gene.
#[derive(Debug)]
pub enum MapRequest {
    Put(MapPut),
    Get(MapGet),
    Drop(MapDrop),
}

/// The billing size of one field value: nulls and booleans and numbers at
/// fixed width, strings by their escaped length.
pub open spec fn value_size(v: ValueV) -> int {
    match v {
        ValueV::Null => 4,
        ValueV::Bool(_) => 5,
        ValueV::Int(_) => 20,
        ValueV::Str(s) => 2 + escape_str(s).len() as int,
    }
}

/// The billing size of the eight indexed keys.
pub open spec fn keys_size(ks: Seq<ValueV>) -> int
    decreases ks.len(),
{
    if ks.len() == 0 {
        0
    } else {
        keys_size(ks.drop_last()) + value_size(ks.last()) + 6
    }
}

/// The billing size of the user fields.
pub open spec fn fields_size(fs: Seq<(Seq<char>, ValueV)>) -> int
    decreases fs.len(),
{
    if fs.len() == 0 {
        0
    } else {
        fields_size(fs.drop_last()) + fs.last().0.len() as int + value_size(fs.last().1) + 4
    }
}

/// The billing size of a document: a fixed envelope, the namespace, the
/// keys, the point, and the user fields. The `_size` field itself has a
/// fixed width and does not feed back into the size.
pub open spec fn doc_size_v(d: MapDocV) -> int {
    64 + d.ns.len() as int + keys_size(d.keys) + fields_size(d.fields) + (if d.geo is Some {
        24int
    } else {
        4int
    })
}

proof fn lemma_value_size_nonneg(v: ValueV)
    ensures
        value_size(v) >= 0,
{
}

proof fn lemma_keys_size_nonneg(ks: Seq<ValueV>)
    ensures
        keys_size(ks) >= 0,
    decreases ks.len(),
{
    if ks.len() > 0 {
        lemma_keys_size_nonneg(ks.drop_last());
    }
}

proof fn lemma_fields_size_nonneg(fs: Seq<(Seq<char>, ValueV)>)
    ensures
        fields_size(fs) >= 0,
    decreases fs.len(),
{
    if fs.len() > 0 {
        lemma_fields_size_nonneg(fs.drop_last());
    }
}

/// The escaped length of a string.
fn escaped_len(s: &str) -> (r: u128)
    ensures
        r == escape_str(s@).len(),
        r < 0x20000000000000000u128,
{
    let n = s.unicode_len();
    let mut acc: u128 = 0;
    let mut i: usize = 0;
    proof {
        assert(s@.take(0) =~= Seq::<char>::empty());
    }
    while i < n
        invariant
            0 <= i <= n,
            n == s@.len(),
            acc == escape_str(s@.take(i as int)).len(),
            acc <= 2 * i,
        decreases n - i,
    {
        let c = s.get_char(i);
        proof {
            crate::json::lemma_escape_snoc(s@, i as int);
        }
        if c == '"' || c == '\\' {
            acc = acc + 2;
        } else {
            acc = acc + 1;
        }
        i = i + 1;
    }
    proof {
        assert(s@.take(n as int) =~= s@);
    }
    acc
}

/// The billing size of one field value.
fn value_size_exec(v: &Value) -> (r: u128)
    ensures
        r == value_size(v@),
        r < 0x20000000000000010u128,
{
    match v {
        Value::Null => 4,
        Value::Bool(_) => 5,
        Value::Int(_) => 20,
        Value::Str(s) => {
            let e = escaped_len(s.as_str());
            2 + e
        },
    }
}

/// The billing size of a document; too large to bill is an error.
pub fn doc_size(d: &MapDoc) -> (r: Result<i64, Error>)
    ensures
        r is Ok <==> doc_size_v(d@) <= i64::MAX,
        r is Ok ==> r->Ok_0 == doc_size_v(d@) && r->Ok_0 >= 0,
        r is Err ==> r->Err_0 == Error::NumCheck,
{
    let mut acc: i128 = 64;
    acc = acc + s_len_i128(d.ns.as_str());
    if acc > i64::MAX as i128 {
        proof {
            lemma_keys_size_nonneg(d@.keys);
            lemma_fields_size_nonneg(d@.fields);
        }
        return Err(Error::NumCheck);
    }

    // The eight indexed keys.
    let nk = d.keys.len();
    let mut i: usize = 0;
    proof {
        assert(d@.keys.take(0) =~= Seq::<ValueV>::empty());
    }
    while i < nk
        invariant
            0 <= i <= nk,
            nk == d.keys@.len(),
            d@.keys.len() == d.keys@.len(),
            acc == 64 + d@.ns.len() + keys_size(d@.keys.take(i as int)),
            acc <= i64::MAX as i128,
            d@.keys == d.keys@.map_values(|v: Value| v@),
        decreases nk - i,
    {
        let vs = value_size_exec(&d.keys[i]);
        proof {
            assert(d@.keys.take(i + 1).drop_last() =~= d@.keys.take(i as int));
            assert(d@.keys.take(i + 1).last() == d@.keys[i as int]);
            assert(d@.keys[i as int] == d.keys@[i as int]@);
        }
        acc = acc + vs as i128 + 6;
        if acc > i64::MAX as i128 {
            proof {
                lemma_keys_size_mono(d@.keys, i + 1);
                lemma_fields_size_nonneg(d@.fields);
            }
            return Err(Error::NumCheck);
        }
        i = i + 1;
    }
    proof {
        assert(d@.keys.take(nk as int) =~= d@.keys);
    }

    // The user fields.
    let nf = d.fields.len();
    let mut j: usize = 0;
    proof {
        assert(d@.fields.take(0) =~= Seq::<(Seq<char>, ValueV)>::empty());
    }
    while j < nf
        invariant
            0 <= j <= nf,
            nf == d.fields@.len(),
            d@.fields.len() == d.fields@.len(),
            acc == 64 + d@.ns.len() + keys_size(d@.keys) + fields_size(
                d@.fields.take(j as int),
            ),
            acc <= i64::MAX as i128,
            d@.fields == d.fields@.map_values(|p: (String, Value)| (p.0@, p.1@)),
        decreases nf - j,
    {
        let name_len = s_len_i128(d.fields[j].0.as_str());
        let vs = value_size_exec(&d.fields[j].1);
        proof {
            assert(d@.fields.take(j + 1).drop_last() =~= d@.fields.take(j as int));
            assert(d@.fields.take(j + 1).last() == d@.fields[j as int]);
            assert(d@.fields[j as int] == (d.fields@[j as int].0@, d.fields@[j as int].1@));
        }
        acc = acc + name_len + vs as i128 + 4;
        if acc > i64::MAX as i128 {
            proof {
                lemma_fields_size_mono(d@.fields, j + 1);
            }
            return Err(Error::NumCheck);
        }
        j = j + 1;
    }
    proof {
        assert(d@.fields.take(nf as int) =~= d@.fields);
    }

    let geo_part: i128 = match &d.geo {
        Some(_) => 24,
        None => 4,
    };
    proof {
        assert(geo_part == (if d@.geo is Some { 24int } else { 4int }));
    }
    acc = acc + geo_part;
    if acc > i64::MAX as i128 {
        return Err(Error::NumCheck);
    }
    proof {
        lemma_keys_size_nonneg(d@.keys);
        lemma_fields_size_nonneg(d@.fields);
        assert(acc == doc_size_v(d@));
    }
    Ok(acc as i64)
}

/// The character count of a string, widened.
fn s_len_i128(s: &str) -> (r: i128)
    ensures
        r == s@.len(),
        r <= 0xffffffffffffffffi128,
{
    s.unicode_len() as i128
}

proof fn lemma_keys_size_mono(ks: Seq<ValueV>, i: int)
    requires
        0 <= i <= ks.len(),
    ensures
        keys_size(ks.take(i)) <= keys_size(ks),
    decreases ks.len() - i,
{
    if i < ks.len() {
        lemma_keys_size_mono(ks, i + 1);
        assert(ks.take(i + 1).drop_last() =~= ks.take(i));
        assert(ks.take(i + 1).last() == ks[i]);
        lemma_value_size_nonneg(ks[i]);
    } else {
        assert(ks.take(i) =~= ks);
    }
}

proof fn lemma_fields_size_mono(fs: Seq<(Seq<char>, ValueV)>, i: int)
    requires
        0 <= i <= fs.len(),
    ensures
        fields_size(fs.take(i)) <= fields_size(fs),
    decreases fs.len() - i,
{
    if i < fs.len() {
        lemma_fields_size_mono(fs, i + 1);
        assert(fs.take(i + 1).drop_last() =~= fs.take(i));
        assert(fs.take(i + 1).last() == fs[i]);
        lemma_value_size_nonneg(fs[i].1);
    } else {
        assert(fs.take(i) =~= fs);
    }
}


/// The namespace of a put, the empty string when none is given.
pub open spec fn put_ns(req: &MapPut) -> Seq<char> {
    match req.ns {
        Some(n) => n@,
        None => Seq::empty(),
    }
}

/// The tip of a put, zero when none is given.
pub open spec fn put_tip(req: &MapPut) -> int {
    match req.tip {
        Some(t) => t as int,
        None => 0,
    }
}

/// Whether some user field name is reserved: non-empty, starting `_`.
pub open spec fn has_reserved_field(fs: Seq<(Seq<char>, ValueV)>) -> bool {
    exists|i: int|
        0 <= i < fs.len() && (#[trigger] fs[i]).0.len() > 0 && fs[i].0[0] == '_'
}

/// Whether the point of a put is well formed: two bounded coordinates.
pub open spec fn put_geo_ok(req: &MapPut) -> bool {
    match req.geo {
        Some(g) => g@.len() == 2 && -1_800_000_000 <= g@[0] <= 1_800_000_000
            && -1_800_000_000 <= g@[1] <= 1_800_000_000,
        None => true,
    }
}

/// The document a put stores, under the given id and billing size.
pub open spec fn put_doc(req: &MapPut, uid: Seq<u8>, id: int, size: int) -> MapDocV {
    MapDocV {
        id,
        uid,
        public: false,
        eol: req.eol as int,
        tip: put_tip(req),
        size,
        ns: put_ns(req),
        keys: req.keys@.map_values(|v: Value| v@),
        geo: match req.geo {
            Some(g) => Some(g@.map_values(|x: i64| x as int)),
            None => None,
        },
        fields: req.fields@.map_values(|p: (String, Value)| (p.0@, p.1@)),
    }
}

/// The map collection as mathematical documents.
pub open spec fn map1_view(db: &Database) -> Seq<MapDocV> {
    db.map1@.map_values(|d: MapDoc| d@)
}

/// The first document with this id that the caller owns.
pub open spec fn find_doc_from(docs: Seq<MapDoc>, id: int, uid: Seq<u8>, i: int) -> Option<
    int,
>
    decreases docs.len() - i,
{
    if i < 0 || i >= docs.len() {
        None
    } else if docs[i]@.id == id && docs[i]@.uid == uid {
        Some(i)
    } else {
        find_doc_from(docs, id, uid, i + 1)
    }
}

/// The space price of a stored document: its size in whole KB, times the
/// days to its end of life, times the per-day-per-KB price.
pub open spec fn put_price(dsz: int, days: int, space_cost: int) -> int {
    ((dsz + 1023) / 1024) * days * space_cost
}

/// The space refunded for a replaced or dropped document: its size in full
/// KB, times the days it had left, times the per-day-per-KB price.
pub open spec fn drop_refund(size: int, eol: int, now_s: int, space_cost: int) -> int {
    (size / 1024) * ((eol - now_s) / 86400) * space_cost
}

/// Copy the eight keys of a put.
pub fn map_clone_values(vs: &Vec<Value>) -> (r: Vec<Value>)
    ensures
        r@.map_values(|v: Value| v@) =~= vs@.map_values(|v: Value| v@),
{
    let n = vs.len();
    let mut out: Vec<Value> = Vec::new();
    let mut i: usize = 0;
    while i < n
        invariant
            0 <= i <= n,
            n == vs@.len(),
            out@.len() == i,
            forall|j: int| 0 <= j < i ==> (#[trigger] out@[j])@ == vs@[j]@,
        decreases n - i,
    {
        out.push(value_clone(&vs[i]));
        i = i + 1;
    }
    out
}

/// Copy the user fields of a put.
pub fn map_clone_fields(fs: &Vec<(String, Value)>) -> (r: Vec<(String, Value)>)
    ensures
        r@.map_values(|p: (String, Value)| (p.0@, p.1@)) =~= fs@.map_values(
            |p: (String, Value)| (p.0@, p.1@),
        ),
{
    let n = fs.len();
    let mut out: Vec<(String, Value)> = Vec::new();
    let mut i: usize = 0;
    while i < n
        invariant
            0 <= i <= n,
            n == fs@.len(),
            out@.len() == i,
            forall|j: int|
                0 <= j < i ==> (#[trigger] out@[j]).0@ == fs@[j].0@ && out@[j].1@ == fs@[j].1@,
        decreases n - i,
    {
        out.push((fs[i].0.clone(), value_clone(&fs[i].1)));
        i = i + 1;
    }
    out
}

/// Copy the point of a put.
pub fn map_clone_geo(g: &Option<Vec<i64>>) -> (r: Option<Vec<i64>>)
    ensures
        match g {
            Some(v) => r matches Some(w) && w@ == v@,
            None => r is None,
        },
{
    match g {
        Some(v) => {
            let n = v.len();
            let mut out: Vec<i64> = Vec::new();
            let mut i: usize = 0;
            while i < n
                invariant
                    0 <= i <= n,
                    n == v@.len(),
                    out@.len() == i,
                    forall|j: int| 0 <= j < i ==> out@[j] == v@[j],
                decreases n - i,
            {
                out.push(v[i]);
                i = i + 1;
            }
            proof {
                assert(out@ =~= v@);
            }
            Some(out)
        },
        None => None,
    }
}

/// Whether some user field name is reserved.
fn has_reserved_exec(fs: &Vec<(String, Value)>) -> (r: bool)
    ensures
        r == has_reserved_field(fs@.map_values(|p: (String, Value)| (p.0@, p.1@))),
{
    let ghost fsv = fs@.map_values(|p: (String, Value)| (p.0@, p.1@));
    let n = fs.len();
    let mut i: usize = 0;
    while i < n
        invariant
            0 <= i <= n,
            n == fs@.len(),
            fsv == fs@.map_values(|p: (String, Value)| (p.0@, p.1@)),
            forall|j: int| 0 <= j < i ==> !((#[trigger] fsv[j]).0.len() > 0 && fsv[j].0[0] == '_'),
        decreases n - i,
    {
        if crate::codec::starts_with_underscore(fs[i].0.as_str()) {
            proof {
                assert(fsv[i as int].0.len() > 0 && fsv[i as int].0[0] == '_');
            }
            return true;
        }
        i = i + 1;
    }
    false
}

/// The index of the caller's document with this id.
pub fn find_doc_exec(docs: &Vec<MapDoc>, id: u64, uid: &Id) -> (r: Option<usize>)
    ensures
        r matches Some(j) ==> find_doc_from(docs@, id as int, uid.0@, 0) == Some(j as int)
            && 0 <= j < docs@.len() && docs@[j as int]@.id == id && docs@[j as int]@.uid
            == uid.0@,
        r is None ==> find_doc_from(docs@, id as int, uid.0@, 0) is None,
{
    let n = docs.len();
    let mut i: usize = 0;
    while i < n
        invariant
            0 <= i <= n,
            n == docs@.len(),
            find_doc_from(docs@, id as int, uid.0@, 0) == find_doc_from(
                docs@,
                id as int,
                uid.0@,
                i as int,
            ),
        decreases n - i,
    {
        let hit = docs[i].id == id && crate::kv::bytes_eq(
            docs[i].uid.0.as_slice(),
            uid.0.as_slice(),
        );
        if hit {
            proof {
                assert(find_doc_from(docs@, id as int, uid.0@, i as int) == Some(i as int));
            }
            return Some(i);
        }
        proof {
            assert(find_doc_from(docs@, id as int, uid.0@, i as int) == find_doc_from(
                docs@,
                id as int,
                uid.0@,
                i + 1,
            ));
        }
        i = i + 1;
    }
    None
}

/// The empty-object result of a put or a drop.
pub fn map_empty_obj() -> (r: String)
    ensures
        r@ == "{}"@,
{
    "{}".to_owned()
}


/// What a put returns and changes, for every request.
pub open spec fn put_post(
    r: Result<String, Error>,
    db0: &Database,
    db1: &Database,
    ch0: Costs,
    ch1: Costs,
    uid: Seq<u8>,
    req: &MapPut,
    space_cost: int,
    internal: bool,
    now: int,
) -> bool {
    ({
            let now_s = now / 1000;
            let ttl = req.eol - now_s;
            let tip = put_tip(req);
            let nsv = put_ns(req);
            let fs = req.fields@.map_values(|p: (String, Value)| (p.0@, p.1@));
            if ttl < 86400 {
                r is Err && r->Err_0 == Error::CostTime && unchanged_put(db1, &ch1, db0, &ch0)
            } else if tip < 0 || tip > ch0.tip {
                r is Err && r->Err_0 == Error::CostTip && unchanged_put(db1, &ch1, db0, &ch0)
            } else if !internal && nsv.len() > 0 && nsv[0] == '_' {
                r is Err && r->Err_0 == Error::Namespace && unchanged_put(db1, &ch1, db0, &ch0)
            } else if !put_geo_ok(req) {
                r is Err && r->Err_0 == Error::GeoDim && unchanged_put(db1, &ch1, db0, &ch0)
            } else if has_reserved_field(fs) {
                r is Err && r->Err_0 == Error::ReservedKey && unchanged_put(db1, &ch1, db0, &ch0)
            } else if req.keys@.len() != 8 {
                r is Err && r->Err_0 == Error::Logical && unchanged_put(db1, &ch1, db0, &ch0)
            } else {
                let dsz = doc_size_v(put_doc(req, uid, 0, 0));
                let days = ttl / 86400;
                if dsz > i64::MAX || (dsz + 1023) / 1024 * days > i64::MAX || put_price(
                    dsz,
                    days,
                    space_cost,
                ) > i64::MAX {
                    r is Err && r->Err_0 == Error::NumCheck && unchanged_put(db1, &ch1, db0, &ch0)
                } else {
                    let price = put_price(dsz, days, space_cost);
                    if ch0.space < price {
                        r is Err && r->Err_0 == Error::CostSpace && unchanged_put(db1, &ch1, db0, &ch0)
                    } else {
                        ch1.space >= ch0.space - price && (match req.id {
                            None => {
                                if db0.next_map_id == u64::MAX {
                                    r is Err && r->Err_0 == Error::Logical
                                } else {
                                    r is Ok && r->Ok_0@ == "{}"@ && ch1.space
                                        == ch0.space - price && map1_view(db1)
                                        =~= map1_view(db0).push(
                                        put_doc(req, uid, db0.next_map_id as int, dsz),
                                    ) && db1.next_map_id == db0.next_map_id + 1
                                }
                            },
                            Some(id) => {
                                match find_doc_from(db0.map1@, id as int, uid, 0) {
                                    None => r is Err && r->Err_0 == Error::GeneMapNotFound
                                        && db1.map1@ == db0.map1@ && ch1.space == ch0.space - price,
                                    Some(j) => {
                                        let old_doc = db0.map1@[j]@;
                                        map1_view(db1) =~= map1_view(db0).update(
                                            j,
                                            put_doc(req, uid, id as int, dsz),
                                        ) && db1.next_map_id == db0.next_map_id
                                            && (if now_s > old_doc.eol {
                                            r is Err && r->Err_0 == Error::GeneMapExpired
                                                && ch1.space == ch0.space - price
                                        } else {
                                            let refund = drop_refund(
                                                old_doc.size,
                                                old_doc.eol,
                                                now_s,
                                                space_cost,
                                            );
                                            if (old_doc.size / 1024) * ((old_doc.eol - now_s)
                                                / 86400) > i64::MAX || refund > i64::MAX
                                                || ch0.space - price + refund
                                                > i64::MAX {
                                                r is Err && r->Err_0 == Error::NumCheck
                                                    && ch1.space == ch0.space - price
                                            } else {
                                                r is Ok && r->Ok_0@ == "{}"@ && ch1.space == ch0.space - price + refund
                                            }
                                        })
                                    },
                                }
                            },
                        })
                    }
                }
            }
        })
}

/// Store or replace a document: validate its fields, charge its space
/// price, and refund the remaining space of a replaced document.
pub fn map_put(
    db: &mut Database,
    uid: &Id,
    req: &MapPut,
    changes: &mut Costs,
    space_cost: i64,
    internal: bool,
    now_ms: i64,
) -> (r: Result<String, Error>)
    requires
        old(db).wf(),
        valid_now(now_ms as int),
        old(changes).non_negative(),
        0 <= space_cost,
    ensures
        final(db).wf(),
        final(changes).time == old(changes).time,
        final(changes).traffic == old(changes).traffic,
        final(changes).tip == old(changes).tip,
        final(changes).space >= 0,
        final(db).kv == old(db).kv,
        final(db).cl@ == old(db).cl@,
        final(db).mm@ == old(db).mm@,
        final(db).mr == old(db).mr,
        final(db).credit_limit == old(db).credit_limit,
        final(db).access_ttl == old(db).access_ttl,
        crate::credit::credit_within(old(db).kv@, final(db).kv@, uid.0@, 0, now_ms as int),
        r is Err ==> final(changes).space <= old(changes).space,
        put_post(
            r,
            old(db),
            final(db),
            *old(changes),
            *final(changes),
            uid.0@,
            req,
            space_cost as int,
            internal,
            now_ms as int,
        ),
{
    let now_s = now_ms / 1000;
    let ttl_wide: i128 = req.eol as i128 - now_s as i128;
    if ttl_wide < 86400 {
        return Err(Error::CostTime);
    }
    let tip = match req.tip {
        Some(t) => t,
        None => 0,
    };
    if tip < 0 || tip > changes.tip {
        return Err(Error::CostTip);
    }
    match &req.ns {
        Some(n) => {
            if !internal && crate::codec::starts_with_underscore(n.as_str()) {
                return Err(Error::Namespace);
            }
        },
        None => {},
    }
    match &req.geo {
        Some(g) => {
            if g.len() != 2 {
                return Err(Error::GeoDim);
            }
            if g[0] < -1_800_000_000 || g[0] > 1_800_000_000 || g[1] < -1_800_000_000
                || g[1] > 1_800_000_000 {
                return Err(Error::GeoDim);
            }
        },
        None => {},
    }
    if has_reserved_exec(&req.fields) {
        return Err(Error::ReservedKey);
    }
    if req.keys.len() != 8 {
        return Err(Error::Logical);
    }

    // Build the document and charge its space price.
    let ns_string = match &req.ns {
        Some(n) => n.clone(),
        None => String::new(),
    };
    let mut doc = MapDoc {
        id: 0,
        uid: *uid,
        public: false,
        eol: req.eol,
        tip,
        size: 0,
        ns: ns_string,
        keys: map_clone_values(&req.keys),
        geo: map_clone_geo(&req.geo),
        fields: map_clone_fields(&req.fields),
    };
    proof {
        assert(doc@ =~= put_doc(req, uid.0@, 0, 0));
    }
    let dsz = doc_size(&doc)?;
    let days_wide: i128 = ttl_wide / 86400;
    let ghost days_g = days_wide as int;
    let kb: i128 = (dsz as i128 + 1023) / 1024;
    proof {
        assert(0 <= kb && kb < 0x800000000000000i128);
        assert(kb == (dsz as int + 1023) / 1024);
        assert(kb * days_wide < 0x80000000000000000000000000000000 && kb * days_wide >= 0)
            by (nonlinear_arith)
            requires
                0 <= kb && kb < 0x800000000000000i128,
                0 <= days_wide && days_wide < 0x10000000000000000i128,
        ;
    }
    let kbd: i128 = kb * days_wide;
    if kbd > i64::MAX as i128 {
        return Err(Error::NumCheck);
    }
    proof {
        assert(kbd * (space_cost as i128) < 0x80000000000000000000000000000000 && kbd * (
        space_cost as i128) >= 0) by (nonlinear_arith)
            requires
                0 <= kbd && kbd <= 0x7fffffffffffffffi128,
                0 <= (space_cost as i128) && (space_cost as i128) < 0x8000000000000000i128,
        ;
        assert(kbd * (space_cost as i128) == put_price(dsz as int, days_g, space_cost as int))
            by (nonlinear_arith)
            requires
                kbd == ((dsz as int + 1023) / 1024) * days_g,
                put_price(dsz as int, days_g, space_cost as int) == ((dsz as int + 1023)
                    / 1024) * days_g * (space_cost as int),
        ;
    }
    let price_wide: i128 = kbd * space_cost as i128;
    if price_wide > i64::MAX as i128 {
        return Err(Error::NumCheck);
    }
    let price: i64 = price_wide as i64;
    if changes.space < price {
        return Err(Error::CostSpace);
    }
    changes.space = changes.space - price;
    doc.size = dsz;

    match req.id {
        None => {
            if db.next_map_id == u64::MAX {
                return Err(Error::Logical);
            }
            doc.id = db.next_map_id;
            db.next_map_id = db.next_map_id + 1;
            proof {
                assert(doc@ =~= put_doc(req, uid.0@, doc.id as int, dsz as int));
            }
            proof {
                assert(crate::docs::wf_map_doc(doc@));
                assert(forall|k: int|
                    0 <= k < db.map1@.len() ==> (#[trigger] db.map1@[k])@.id != doc@.id);
            }
            db.map1.push(doc);
            proof {
                assert(map1_view(db) =~= map1_view(old(db)).push(
                    put_doc(req, uid.0@, old(db).next_map_id as int, dsz as int),
                ));
            }
            Ok(map_empty_obj())
        },
        Some(id) => {
            // Find and replace the caller's document with this id.
            let j = match find_doc_exec(&db.map1, id, uid) {
                Some(j) => j,
                None => {
                    return Err(Error::GeneMapNotFound);
                },
            };
            let old_size = db.map1[j].size;
            let old_eol = db.map1[j].eol;
            doc.id = id;
            proof {
                assert(doc@ =~= put_doc(req, uid.0@, id as int, dsz as int));
                assert(crate::docs::wf_map_doc(doc@));
            }
            db.map1[j] = doc;
            proof {
                assert(map1_view(db) =~= map1_view(old(db)).update(
                    j as int,
                    put_doc(req, uid.0@, id as int, dsz as int),
                ));
            }
            if now_s > old_eol {
                return Err(Error::GeneMapExpired);
            }
            let refund_days: i64 = (old_eol - now_s) / 86400;
            let sz_kb: i64 = old_size / 1024;
            proof {
                assert((sz_kb as i128) * (refund_days as i128)
                    < 0x80000000000000000000000000000000 && (sz_kb as i128) * (
                refund_days as i128) >= 0) by (nonlinear_arith)
                    requires
                        0 <= (sz_kb as i128) && (sz_kb as i128) < 0x8000000000000000i128,
                        0 <= (refund_days as i128) && (refund_days as i128)
                            < 0x8000000000000000i128,
                ;
            }
            let rkd: i128 = sz_kb as i128 * refund_days as i128;
            if rkd > i64::MAX as i128 {
                return Err(Error::NumCheck);
            }
            proof {
                assert(rkd * (space_cost as i128) < 0x80000000000000000000000000000000
                    && rkd * (space_cost as i128) >= 0 && rkd * (space_cost as i128)
                    == drop_refund(
                    old_size as int,
                    old_eol as int,
                    now_s as int,
                    space_cost as int,
                )) by (nonlinear_arith)
                    requires
                        0 <= rkd && rkd <= 0x7fffffffffffffffi128,
                        0 <= (space_cost as i128) && (space_cost as i128)
                            < 0x8000000000000000i128,
                        rkd == (old_size as int / 1024) * ((old_eol as int - now_s as int)
                            / 86400),
                        drop_refund(
                            old_size as int,
                            old_eol as int,
                            now_s as int,
                            space_cost as int,
                        ) == (old_size as int / 1024) * ((old_eol as int - now_s as int)
                            / 86400) * (space_cost as int),
                ;
            }
            let refund_wide: i128 = rkd * space_cost as i128;
            if refund_wide > i64::MAX as i128 || changes.space as i128 + refund_wide
                > i64::MAX as i128 {
                return Err(Error::NumCheck);
            }
            changes.space = (changes.space as i128 + refund_wide) as i64;
            Ok(map_empty_obj())
        },
    }
}

/// What a failed put leaves untouched.
pub open spec fn unchanged_put(
    db: &Database,
    changes: &Costs,
    db0: &Database,
    ch0: &Costs,
) -> bool {
    db.map1@ == db0.map1@ && db.next_map_id == db0.next_map_id && *changes == ch0
}



/// What a drop returns and changes, for every request.
pub open spec fn drop_post(
    r: Result<String, Error>,
    db0: &Database,
    db1: &Database,
    ch0: Costs,
    ch1: Costs,
    uid: Seq<u8>,
    req: &MapDrop,
    space_cost: int,
    now: int,
) -> bool {
    ({
            let now_s = now / 1000;
            match req.id {
                None => r is Err && r->Err_0 == Error::GeneMapNotFound && db1.map1@
                    == db0.map1@ && ch1 == ch0,
                Some(id) => match find_doc_from(db0.map1@, id as int, uid, 0) {
                    None => r is Err && r->Err_0 == Error::GeneMapNotFound && db1.map1@ == db0.map1@ && ch1 == ch0,
                    Some(j) => {
                        let d = db0.map1@[j]@;
                        db1.map1@ =~= db0.map1@.remove(j) && (if now_s > d.eol {
                            r is Err && r->Err_0 == Error::GeneMapExpired && ch1
                                == ch0
                        } else {
                            let refund = drop_refund(d.size, d.eol, now_s, space_cost);
                            if (d.size / 1024) * ((d.eol - now_s) / 86400) > i64::MAX
                                || refund > i64::MAX || ch0.space + refund
                                > i64::MAX {
                                r is Err && r->Err_0 == Error::NumCheck && ch1
                                    == ch0
                            } else {
                                r is Ok && r->Ok_0@ == "{}"@ && ch1.space == ch0.space + refund
                            }
                        })
                    },
                },
            }
        })
}

/// Delete one of the caller's documents by id and refund the space its
/// remaining lifetime had reserved.
pub fn map_drop(
    db: &mut Database,
    uid: &Id,
    req: &MapDrop,
    changes: &mut Costs,
    space_cost: i64,
    now_ms: i64,
) -> (r: Result<String, Error>)
    requires
        old(db).wf(),
        valid_now(now_ms as int),
        old(changes).non_negative(),
        0 <= space_cost,
    ensures
        final(db).wf(),
        final(changes).time == old(changes).time,
        final(changes).traffic == old(changes).traffic,
        final(changes).tip == old(changes).tip,
        final(changes).space >= 0,
        final(db).kv == old(db).kv,
        final(db).cl@ == old(db).cl@,
        final(db).mm@ == old(db).mm@,
        final(db).mr == old(db).mr,
        final(db).next_map_id == old(db).next_map_id,
        final(db).credit_limit == old(db).credit_limit,
        final(db).access_ttl == old(db).access_ttl,
        crate::credit::credit_within(old(db).kv@, final(db).kv@, uid.0@, 0, now_ms as int),
        r is Err ==> final(changes).space == old(changes).space,
        drop_post(
            r,
            old(db),
            final(db),
            *old(changes),
            *final(changes),
            uid.0@,
            req,
            space_cost as int,
            now_ms as int,
        ),
{
    let now_s = now_ms / 1000;
    let id = match req.id {
        Some(id) => id,
        None => {
            return Err(Error::GeneMapNotFound);
        },
    };
    let j = match find_doc_exec(&db.map1, id, uid) {
        Some(j) => j,
        None => {
            return Err(Error::GeneMapNotFound);
        },
    };
    let dropped = db.map1.remove(j);
    if now_s > dropped.eol {
        return Err(Error::GeneMapExpired);
    }
    let refund_days: i64 = (dropped.eol - now_s) / 86400;
    let sz_kb: i64 = dropped.size / 1024;
    proof {
        assert((sz_kb as i128) * (refund_days as i128) < 0x80000000000000000000000000000000
            && (sz_kb as i128) * (refund_days as i128) >= 0) by (nonlinear_arith)
            requires
                0 <= (sz_kb as i128) && (sz_kb as i128) < 0x8000000000000000i128,
                0 <= (refund_days as i128) && (refund_days as i128) < 0x8000000000000000i128,
        ;
    }
    let rkd: i128 = sz_kb as i128 * refund_days as i128;
    if rkd > i64::MAX as i128 {
        return Err(Error::NumCheck);
    }
    proof {
        assert(rkd * (space_cost as i128) < 0x80000000000000000000000000000000 && rkd * (
        space_cost as i128) >= 0 && rkd * (space_cost as i128) == drop_refund(
            dropped.size as int,
            dropped.eol as int,
            now_s as int,
            space_cost as int,
        )) by (nonlinear_arith)
            requires
                0 <= rkd && rkd <= 0x7fffffffffffffffi128,
                0 <= (space_cost as i128) && (space_cost as i128) < 0x8000000000000000i128,
                rkd == (dropped.size as int / 1024) * ((dropped.eol as int - now_s as int)
                    / 86400),
                drop_refund(
                    dropped.size as int,
                    dropped.eol as int,
                    now_s as int,
                    space_cost as int,
                ) == (dropped.size as int / 1024) * ((dropped.eol as int - now_s as int)
                    / 86400) * (space_cost as int),
        ;
    }
    let refund_wide: i128 = rkd * space_cost as i128;
    if refund_wide > i64::MAX as i128 || changes.space as i128 + refund_wide > i64::MAX as i128 {
        return Err(Error::NumCheck);
    }
    changes.space = (changes.space as i128 + refund_wide) as i64;
    Ok(map_empty_obj())
}


/// Whether an integer field passes a range filter: between strict bounds
/// when both are given, equal to the lower bound when it stands alone.
pub open spec fn int_range(f: int, lo: Option<i64>, hi: Option<i64>) -> bool {
    match lo {
        None => true,
        Some(l) => match hi {
            None => f == l,
            Some(h) => l < f && f < h,
        },
    }
}

/// The string range filter.
pub open spec fn str_range(f: Seq<char>, lo: &Option<String>, hi: &Option<String>) -> bool {
    match lo {
        None => true,
        Some(l) => match hi {
            None => f == l@,
            Some(h) => crate::value::chars_lt(l@, f) && crate::value::chars_lt(f, h@),
        },
    }
}

/// The field-value range filter.
pub open spec fn value_range(f: ValueV, lo: &Option<Value>, hi: &Option<Value>) -> bool {
    match lo {
        None => true,
        Some(l) => match hi {
            None => f == l@,
            Some(h) => crate::value::value_lt(l@, f) && crate::value::value_lt(f, h@),
        },
    }
}

/// Whether the geospatial filter of a get is well formed: two bounded
/// coordinates and a bounded radius.
pub open spec fn get_geo_ok(q: &MapGet) -> bool {
    match q.geo {
        Some(g) => g@.len() == 3 && -1_800_000_000 <= g@[0] <= 1_800_000_000
            && -1_800_000_000 <= g@[1] <= 1_800_000_000 && 0 <= g@[2] <= 4_000_000_000,
        None => true,
    }
}

/// Whether a point lies within the filter sphere, by squared planar
/// distance over the fixed-point coordinates. This models the store's
/// spherical filter on a plane: near the poles or across the antimeridian
/// the two disagree.
pub open spec fn geo_within(p: Seq<int>, g: Seq<int>) -> bool {
    (p[0] - g[0]) * (p[0] - g[0]) + (p[1] - g[1]) * (p[1] - g[1]) <= g[2] * g[2]
}

/// Whether a document matches every filter of a get. Visibility is scoped
/// by the caller: their own documents honor the requested flag, anyone
/// else's must be public.
pub open spec fn sel_match(d: MapDocV, q: &MapGet, caller: Seq<u8>) -> bool {
    &&& match q.id {
        Some(id) => d.id == id,
        None => true,
    }
    &&& match q.uid {
        Some(u) => d.uid == u.0@ && (if u.0@ == caller {
            match q.public {
                Some(p) => d.public == p,
                None => true,
            }
        } else {
            d.public
        }),
        None => true,
    }
    &&& int_range(d.eol, q.eol, q.eol_)
    &&& int_range(d.tip, q.tip, q.tip_)
    &&& int_range(d.size, q.size, q.size_)
    &&& str_range(d.ns, &q.ns, &q.ns_)
    &&& forall|k: int|
        0 <= k < 8 ==> value_range(d.keys[k], &(#[trigger] q.keys@[k]).0, &q.keys@[k].1)
    &&& match q.geo {
        Some(g) => match d.geo {
            Some(p) => geo_within(p, g@.map_values(|x: i64| x as int)),
            None => false,
        },
        None => true,
    }
}

/// Whether a document matches every filter of a get.
pub fn sel_match_exec(d: &MapDoc, q: &MapGet, uid: &Id) -> (r: bool)
    requires
        crate::docs::wf_map_doc(d@),
        get_geo_ok(q),
        q.keys@.len() == 8,
    ensures
        r == sel_match(d@, q, uid.0@),
{
    match q.id {
        Some(id) => {
            if d.id != id {
                return false;
            }
        },
        None => {},
    }
    match &q.uid {
        Some(u) => {
            if !crate::kv::bytes_eq(d.uid.0.as_slice(), u.0.as_slice()) {
                return false;
            }
            if crate::kv::bytes_eq(u.0.as_slice(), uid.0.as_slice()) {
                match q.public {
                    Some(p) => {
                        if d.public != p {
                            return false;
                        }
                    },
                    None => {},
                }
            } else {
                if !d.public {
                    return false;
                }
            }
        },
        None => {},
    }
    if !int_range_exec(d.eol, q.eol, q.eol_) {
        return false;
    }
    if !int_range_exec(d.tip, q.tip, q.tip_) {
        return false;
    }
    if !int_range_exec(d.size, q.size, q.size_) {
        return false;
    }
    let ns_ok = match &q.ns {
        None => true,
        Some(l) => match &q.ns_ {
            None => crate::codec::str_eq(d.ns.as_str(), l.as_str()),
            Some(h) => crate::value::str_lt(l.as_str(), d.ns.as_str())
                && crate::value::str_lt(d.ns.as_str(), h.as_str()),
        },
    };
    if !ns_ok {
        return false;
    }
    let mut k: usize = 0;
    while k < 8
        invariant
            0 <= k <= 8,
            crate::docs::wf_map_doc(d@),
            q.keys@.len() == 8,
            forall|m: int|
                0 <= m < k ==> value_range(d@.keys[m], &(#[trigger] q.keys@[m]).0, &q.keys@[m].1),
        decreases 8 - k,
    {
        let ok = match &q.keys[k].0 {
            None => true,
            Some(l) => match &q.keys[k].1 {
                None => crate::value::value_eq(&d.keys[k], l),
                Some(h) => crate::value::value_lt_exec(l, &d.keys[k])
                    && crate::value::value_lt_exec(&d.keys[k], h),
            },
        };
        if !ok {
            proof {
                assert(!value_range(d@.keys[k as int], &q.keys@[k as int].0, &q.keys@[k as int].1));
            }
            return false;
        }
        proof {
            assert(d@.keys[k as int] == d.keys@[k as int]@);
        }
        k = k + 1;
    }
    match &q.geo {
        Some(g) => {
            match &d.geo {
                Some(p) => {
                    let dx: i128 = p[0] as i128 - g[0] as i128;
                    let dy: i128 = p[1] as i128 - g[1] as i128;
                    let rr: i128 = g[2] as i128;
                    proof {
                        assert(dx * dx + dy * dy < 0x80000000000000000000000000000000 && dx
                            * dx >= 0 && dy * dy >= 0 && rr * rr >= 0 && rr * rr
                            < 0x80000000000000000000000000000000) by (nonlinear_arith)
                            requires
                                -4_000_000_000 <= dx && dx <= 4_000_000_000,
                                -4_000_000_000 <= dy && dy <= 4_000_000_000,
                                0 <= rr && rr <= 4_000_000_000,
                        ;
                    }
                    let within = dx * dx + dy * dy <= rr * rr;
                    proof {
                        let pv = d@.geo->Some_0;
                        let gv = q.geo->Some_0@.map_values(|x: i64| x as int);
                        assert(pv[0] == p@[0] && pv[1] == p@[1]);
                        assert(gv[0] == g@[0] && gv[1] == g@[1] && gv[2] == g@[2]);
                        assert(within == geo_within(pv, gv)) by (nonlinear_arith)
                            requires
                                within == (dx * dx + dy * dy <= rr * rr),
                                dx == pv[0] - gv[0],
                                dy == pv[1] - gv[1],
                                rr == gv[2],
                                geo_within(pv, gv) == ((pv[0] - gv[0]) * (pv[0] - gv[0]) + (
                                pv[1] - gv[1]) * (pv[1] - gv[1]) <= gv[2] * gv[2]),
                        ;
                    }
                    within
                },
                None => false,
            }
        },
        None => true,
    }
}

/// The integer range filter.
fn int_range_exec(f: i64, lo: Option<i64>, hi: Option<i64>) -> (r: bool)
    ensures
        r == int_range(f as int, lo, hi),
{
    match lo {
        None => true,
        Some(l) => match hi {
            None => f == l,
            Some(h) => l < f && f < h,
        },
    }
}

/// How the selection walk over the collection ended.
pub enum GetEnd {
    /// Every document was considered.
    Clean,
    /// The requested count was reached.
    NLimit,
    /// A document's tip exceeded the remaining tip budget.
    TipLimit(int, int),
    /// A document's size exceeded the remaining traffic allowance.
    TrafficFail,
}

/// What the selection walk picks: document indices in order, how it ended,
/// and the tip budget it leaves.
pub struct GetOut {
    pub picked: Seq<int>,
    pub end: GetEnd,
    pub tip_left: int,
}

/// Prepend one picked index.
pub open spec fn out_cons(i: int, o: GetOut) -> GetOut {
    GetOut { picked: seq![i] + o.picked, end: o.end, tip_left: o.tip_left }
}

/// The selection walk: in collection order, a matching document is taken
/// while the count, size and tip limits allow; the caller's own documents
/// cost no tip.
pub open spec fn get_scan(
    docs: Seq<MapDoc>,
    q: &MapGet,
    caller: Seq<u8>,
    i: int,
    s: int,
    tipb: int,
    cnt: int,
) -> GetOut
    decreases docs.len() - i,
{
    if i < 0 || i >= docs.len() {
        GetOut { picked: Seq::empty(), end: GetEnd::Clean, tip_left: tipb }
    } else if !sel_match(docs[i]@, q, caller) {
        get_scan(docs, q, caller, i + 1, s, tipb, cnt)
    } else if (match q.n {
        Some(n) => cnt == n,
        None => false,
    }) {
        GetOut { picked: Seq::empty(), end: GetEnd::NLimit, tip_left: tipb }
    } else {
        let dsz = doc_size_v(docs[i]@);
        if dsz > s {
            GetOut { picked: Seq::empty(), end: GetEnd::TrafficFail, tip_left: tipb }
        } else if docs[i]@.uid == caller {
            out_cons(i, get_scan(docs, q, caller, i + 1, s - dsz, tipb, cnt + 1))
        } else if docs[i]@.tip > tipb {
            GetOut {
                picked: Seq::empty(),
                end: GetEnd::TipLimit(docs[i]@.id, docs[i]@.tip),
                tip_left: tipb,
            }
        } else {
            out_cons(i, get_scan(docs, q, caller, i + 1, s - dsz, tipb - docs[i]@.tip, cnt + 1))
        }
    }
}

/// Whether every tip of the picked documents can be paid: the owners'
/// balances exist or are created, and none would overflow.
pub open spec fn pay_ok(
    kv: Map<Seq<u8>, KvCellV>,
    docs: Seq<MapDoc>,
    caller: Seq<u8>,
    picked: Seq<int>,
    now: int,
) -> bool
    decreases picked.len(),
{
    if picked.len() == 0 {
        true
    } else {
        let d = docs[picked.last()]@;
        pay_ok(kv, docs, caller, picked.drop_last(), now) && (d.uid == caller || (
        match crate::kv::map_live_get(
            pay_kv(kv, docs, caller, picked.drop_last(), now),
            Database::credit_key(d.uid),
            now,
        ) {
            Some(KvValV::Int(v)) => i64::MIN <= v + d.tip <= i64::MAX,
            None => true,
            Some(KvValV::Bytes(_)) => false,
        }))
    }
}

/// The store after one owner is paid.
pub open spec fn pay_one(kv: Map<Seq<u8>, KvCellV>, d: MapDocV, now: int) -> Map<
    Seq<u8>,
    KvCellV,
> {
    let ck = Database::credit_key(d.uid);
    match crate::kv::map_live_get(kv, ck, now) {
        Some(KvValV::Int(v)) => kv.insert(
            ck,
            KvCellV { val: KvValV::Int(v + d.tip), exp: kv[ck].exp },
        ),
        None => kv.insert(ck, KvCellV { val: KvValV::Int(d.tip), exp: None }),
        Some(KvValV::Bytes(_)) => kv,
    }
}

/// The store after every picked document's owner is paid, in order.
pub open spec fn pay_kv(
    kv: Map<Seq<u8>, KvCellV>,
    docs: Seq<MapDoc>,
    caller: Seq<u8>,
    picked: Seq<int>,
    now: int,
) -> Map<Seq<u8>, KvCellV>
    decreases picked.len(),
{
    if picked.len() == 0 {
        kv
    } else {
        let d = docs[picked.last()]@;
        let prev = pay_kv(kv, docs, caller, picked.drop_last(), now);
        if d.uid == caller {
            prev
        } else {
            pay_one(prev, d, now)
        }
    }
}

/// The audit log after every picked document's owner is paid, in order.
pub open spec fn pay_cl(
    cl: Seq<crate::docs::LogEntryV>,
    docs: Seq<MapDoc>,
    caller: Seq<u8>,
    picked: Seq<int>,
    now: int,
) -> Seq<crate::docs::LogEntryV>
    decreases picked.len(),
{
    if picked.len() == 0 {
        cl
    } else {
        let d = docs[picked.last()]@;
        let prev = pay_cl(cl, docs, caller, picked.drop_last(), now);
        if d.uid == caller {
            prev
        } else {
            prev.push(crate::credit::log_rec(d.uid, Some(caller), d.tip, "GeneMapTip"@, now))
        }
    }
}

/// Whether a projection admits this field name.
pub open spec fn sel_has(sel: &Option<Vec<String>>, name: Seq<char>) -> bool {
    sel is None || exists|i: int|
        0 <= i < sel->Some_0@.len() && (#[trigger] sel->Some_0@[i])@ == name
}

/// Whether a projection admits this field name.
fn sel_has_exec(sel: &Option<Vec<String>>, name: &str) -> (r: bool)
    ensures
        r == sel_has(sel, name@),
{
    match sel {
        None => true,
        Some(v) => {
            let n = v.len();
            let mut i: usize = 0;
            while i < n
                invariant
                    0 <= i <= n,
                    n == v@.len(),
                    sel is Some,
                    sel->Some_0@ == v@,
                    forall|j: int|
                        0 <= j < i ==> (#[trigger] sel->Some_0@[j])@ != name@,
                decreases n - i,
            {
                if crate::codec::str_eq(v[i].as_str(), name) {
                    proof {
                        assert((sel->Some_0@[i as int])@ == name@);
                    }
                    return true;
                }
                i = i + 1;
            }
            false
        },
    }
}

/// The rendering of the indexed keys from position `i` on.
pub open spec fn render_keys(ks: Seq<ValueV>, i: int) -> Seq<char>
    decreases ks.len() - i,
{
    if i < 0 || i >= ks.len() {
        Seq::empty()
    } else {
        ",\"_"@ + seq![crate::codec::digit_char(i)] + "\":"@ + render_value(ks[i])
            + render_keys(ks, i + 1)
    }
}

/// The rendering of the user fields from position `i` on, projected.
pub open spec fn render_fields(
    fs: Seq<(Seq<char>, ValueV)>,
    sel: &Option<Vec<String>>,
    i: int,
) -> Seq<char>
    decreases fs.len() - i,
{
    if i < 0 || i >= fs.len() {
        Seq::empty()
    } else {
        (if sel_has(sel, fs[i].0) {
            ",\""@ + escape_str(fs[i].0) + "\":"@ + render_value(fs[i].1)
        } else {
            Seq::empty()
        }) + render_fields(fs, sel, i + 1)
    }
}

/// The rendering of the point.
pub open spec fn render_geo(g: Option<Seq<int>>) -> Seq<char> {
    match g {
        None => ",\"_geo\":null"@,
        Some(p) => ",\"_geo\":["@ + crate::codec::dec_str_i64(p[0]) + seq![',']
            + crate::codec::dec_str_i64(p[1]) + seq![']'],
    }
}

/// The rendering of one document: the reserved fields, then the user
/// fields the projection admits.
pub open spec fn render_map_doc(d: MapDocV, sel: &Option<Vec<String>>) -> Seq<char> {
    "{\"_id\":"@ + crate::codec::dec_str_i64(d.id) + ",\"_uid\":\""@ + crate::codec::hex_of(
        d.uid,
    ) + "\",\"_pub\":"@ + (if d.public {
        "true"@
    } else {
        "false"@
    }) + ",\"_eol\":"@ + crate::codec::dec_str_i64(d.eol) + ",\"_tip\":"@
        + crate::codec::dec_str_i64(d.tip) + ",\"_size\":"@ + crate::codec::dec_str_i64(d.size)
        + ",\"_ns\":\""@ + escape_str(d.ns) + seq!['"'] + render_keys(d.keys, 0) + render_geo(
        d.geo,
    ) + render_fields(d.fields, sel, 0) + seq!['}']
}

/// Render one document into the output.
#[verifier::rlimit(60)]
fn append_map_doc(out: &mut String, d: &MapDoc, sel: &Option<Vec<String>>)
    requires
        crate::docs::wf_map_doc(d@),
    ensures
        final(out)@ == old(out)@ + render_map_doc(d@, sel),
{
    proof {
        reveal_strlit("{\"_id\":");
        reveal_strlit(",\"_uid\":\"");
        reveal_strlit("\",\"_pub\":");
        reveal_strlit("true");
        reveal_strlit("false");
        reveal_strlit(",\"_eol\":");
        reveal_strlit(",\"_tip\":");
        reveal_strlit(",\"_size\":");
        reveal_strlit(",\"_ns\":\"");
        reveal_strlit("\"");
    }
    out.append("{\"_id\":");
    out.append(crate::codec::u64_to_dec(d.id).as_str());
    out.append(",\"_uid\":\"");
    out.append(d.uid.to_hex().as_str());
    out.append("\",\"_pub\":");
    if d.public {
        out.append("true");
    } else {
        out.append("false");
    }
    out.append(",\"_eol\":");
    out.append(crate::codec::i64_to_dec(d.eol).as_str());
    out.append(",\"_tip\":");
    out.append(crate::codec::i64_to_dec(d.tip).as_str());
    out.append(",\"_size\":");
    out.append(crate::codec::i64_to_dec(d.size).as_str());
    out.append(",\"_ns\":\"");
    append_name(out, d.ns.as_str());
    out.append("\"");

    // The eight indexed keys.
    let ghost base = out@;
    let mut k: usize = 0;
    while k < 8
        invariant
            0 <= k <= 8,
            crate::docs::wf_map_doc(d@),
            d@.keys.len() == d.keys@.len(),
            d@.keys == d.keys@.map_values(|v: Value| v@),
            base + render_keys(d@.keys, 0) == out@ + render_keys(d@.keys, k as int),
        decreases 8 - k,
    {
        proof {
            reveal_strlit(",\"_");
            reveal_strlit("\":");
        }
        out.append(",\"_");
        out.append(crate::codec::digit_str(k as u8));
        out.append("\":");
        crate::json::append_value(out, &d.keys[k]);
        k = k + 1;
    }
    proof {
        assert(out@ =~= base + render_keys(d@.keys, 0));
    }

    // The point.
    proof {
        reveal_strlit(",\"_geo\":null");
        reveal_strlit(",\"_geo\":[");
        reveal_strlit(",");
        reveal_strlit("]");
    }
    match &d.geo {
        None => {
            out.append(",\"_geo\":null");
        },
        Some(p) => {
            out.append(",\"_geo\":[");
            out.append(crate::codec::i64_to_dec(p[0]).as_str());
            out.append(",");
            out.append(crate::codec::i64_to_dec(p[1]).as_str());
            out.append("]");
            proof {
                let pv = d@.geo->Some_0;
                assert(pv[0] == p@[0] && pv[1] == p@[1]);
            }
        },
    }

    // The user fields, projected.
    let ghost base2 = out@;
    let nf = d.fields.len();
    let mut j: usize = 0;
    while j < nf
        invariant
            0 <= j <= nf,
            nf == d.fields@.len(),
            d@.fields.len() == d.fields@.len(),
            d@.fields == d.fields@.map_values(|p: (String, Value)| (p.0@, p.1@)),
            base2 + render_fields(d@.fields, sel, 0) == out@ + render_fields(
                d@.fields,
                sel,
                j as int,
            ),
        decreases nf - j,
    {
        proof {
            reveal_strlit(",\"");
            reveal_strlit("\":");
        }
        if sel_has_exec(sel, d.fields[j].0.as_str()) {
            out.append(",\"");
            append_name(out, d.fields[j].0.as_str());
            out.append("\":");
            crate::json::append_value(out, &d.fields[j].1);
        }
        j = j + 1;
    }
    proof {
        assert(out@ =~= base2 + render_fields(d@.fields, sel, 0));
        reveal_strlit("}");
    }
    out.append("}");
    proof {
        assert(out@ =~= old(out)@ + render_map_doc(d@, sel));
    }
}

/// Append a string escaped, without the quotes.
pub fn append_name(out: &mut String, s: &str)
    ensures
        final(out)@ == old(out)@ + escape_str(s@),
{
    let n = s.unicode_len();
    let mut i: usize = 0;
    proof {
        assert(s@.take(0) =~= Seq::<char>::empty());
        assert(escape_str(s@.take(0)) =~= Seq::<char>::empty());
        assert(out@ =~= old(out)@ + escape_str(s@.take(0)));
    }
    while i < n
        invariant
            0 <= i <= n,
            n == s@.len(),
            out@ == old(out)@ + escape_str(s@.take(i as int)),
        decreases n - i,
    {
        proof {
            reveal_strlit("\\\"");
            reveal_strlit("\\\\");
        }
        let c = s.get_char(i);
        if c == '"' {
            out.append("\\\"");
        } else if c == '\\' {
            out.append("\\\\");
        } else {
            let piece = s.substring_char(i, i + 1);
            out.append(piece);
        }
        proof {
            crate::json::lemma_escape_snoc(s@, i as int);
            assert(s@.subrange(i as int, i + 1) =~= seq![s@[i as int]]);
            assert(out@ =~= old(out)@ + escape_str(s@.take(i + 1)));
        }
        i = i + 1;
    }
    proof {
        assert(s@.take(n as int) =~= s@);
    }
}


/// Prepend picked indices to a walk result.
pub open spec fn out_prepend(pre: Seq<int>, o: GetOut) -> GetOut {
    GetOut { picked: pre + o.picked, end: o.end, tip_left: o.tip_left }
}

/// The rendering of the picked documents, keyed by their output position.
pub open spec fn render_picked(
    docs: Seq<MapDoc>,
    picked: Seq<int>,
    sel: &Option<Vec<String>>,
    j: int,
) -> Seq<char>
    decreases picked.len(),
{
    if picked.len() == 0 {
        Seq::empty()
    } else {
        (if j > 0 {
            seq![',']
        } else {
            Seq::empty()
        }) + seq!['"'] + crate::codec::dec_str_i64(j) + "\":"@ + render_map_doc(
            docs[picked.first()]@,
            sel,
        ) + render_picked(docs, picked.drop_first(), sel, j + 1)
    }
}

/// The error marker the walk leaves in the output.
pub open spec fn render_marker(end: GetEnd, nonempty: bool) -> Seq<char> {
    match end {
        GetEnd::Clean => Seq::empty(),
        GetEnd::TrafficFail => Seq::empty(),
        GetEnd::NLimit => (if nonempty {
            seq![',']
        } else {
            Seq::empty()
        }) + "\"_error\":\"n\""@,
        GetEnd::TipLimit(id, tip) => (if nonempty {
            seq![',']
        } else {
            Seq::empty()
        }) + "\"_error\":\"tip\",\"_error_id\":"@ + crate::codec::dec_str_i64(id)
            + ",\"_error_tip\":"@ + crate::codec::dec_str_i64(tip),
    }
}

/// The whole result of a get.
pub open spec fn render_get(
    docs: Seq<MapDoc>,
    o: GetOut,
    sel: &Option<Vec<String>>,
) -> Seq<char> {
    seq!['{'] + render_picked(docs, o.picked, sel, 0) + render_marker(o.end, o.picked.len() > 0)
        + seq!['}']
}

proof fn lemma_pay_ok_take(
    kv: Map<Seq<u8>, KvCellV>,
    docs: Seq<MapDoc>,
    caller: Seq<u8>,
    picked: Seq<int>,
    now: int,
    k: int,
)
    requires
        0 <= k <= picked.len(),
        pay_ok(kv, docs, caller, picked, now),
    ensures
        pay_ok(kv, docs, caller, picked.take(k), now),
    decreases picked.len(),
{
    if k == picked.len() {
        assert(picked.take(k) =~= picked);
    } else {
        assert(picked.drop_last().take(k) =~= picked.take(k));
        lemma_pay_ok_take(kv, docs, caller, picked.drop_last(), now, k);
    }
}

/// How the walk ended, as the executable tracks it.
enum GetEndE {
    Clean,
    NLimit,
    TipLimit(u64, i64),
    Traffic,
}

/// The walk end as the specification sees it.
spec fn end_view(e: &GetEndE) -> GetEnd {
    match e {
        GetEndE::Clean => GetEnd::Clean,
        GetEndE::NLimit => GetEnd::NLimit,
        GetEndE::TipLimit(id, tip) => GetEnd::TipLimit(*id as int, *tip as int),
        GetEndE::Traffic => GetEnd::TrafficFail,
    }
}


/// What a get returns and changes, for every request.
pub open spec fn get_post(
    r: Result<String, Error>,
    db0: &Database,
    db1: &Database,
    ch0: Costs,
    ch1: Costs,
    uid: Seq<u8>,
    req: &MapGet,
    traffic_cost: int,
    now: int,
) -> bool {
    ({
            if req.keys@.len() != 8 {
                r is Err && r->Err_0 == Error::Logical && db1.kv@ == db0.kv@
                    && db1.cl@ == db0.cl@
            } else if !get_geo_ok(req) {
                r is Err && r->Err_0 == Error::GeoDim && db1.kv@ == db0.kv@
                    && db1.cl@ == db0.cl@
            } else {
                let o = get_scan(
                    db0.map1@,
                    req,
                    uid,
                    0,
                    ch0.traffic as int / traffic_cost,
                    ch0.tip as int,
                    0,
                );
                if o.end is TrafficFail {
                    r is Err && r->Err_0 == Error::CostTraffic && db1.kv@ == db0.kv@
                        && db1.cl@ == db0.cl@
                } else if pay_ok(db0.kv@, db0.map1@, uid, o.picked, now) {
                    r is Ok && r->Ok_0@ == render_get(db0.map1@, o, &req.sel) && db1.kv@ =~= pay_kv(db0.kv@, db0.map1@, uid, o.picked, now)
                        && cl_view(db1) =~= pay_cl(
                        cl_view(db0),
                        db0.map1@,
                        uid,
                        o.picked,
                        now,
                    ) && ch1.tip == o.tip_left
                } else {
                    r is Err && (r->Err_0 == Error::NumCheck || r->Err_0 == Error::Logical)
                        && exists|k: int|
                        0 <= k <= o.picked.len() && #[trigger] pay_ok(
                            db0.kv@,
                            db0.map1@,
                            uid,
                            o.picked.take(k),
                            now,
                        ) && db1.kv@ =~= pay_kv(
                            db0.kv@,
                            db0.map1@,
                            uid,
                            o.picked.take(k),
                            now,
                        ) && cl_view(db1) =~= pay_cl(
                            cl_view(db0),
                            db0.map1@,
                            uid,
                            o.picked.take(k),
                            now,
                        )
                }
            }
        })
}

/// Query documents: walk the collection under the count, size and tip
/// limits, pay each foreign document's tip to its owner, and render what
/// was picked.
#[verifier::rlimit(100)]
pub fn map_get(
    db: &mut Database,
    uid: &Id,
    req: &MapGet,
    changes: &mut Costs,
    traffic_cost: i64,
    now_ms: i64,
) -> (r: Result<String, Error>)
    requires
        old(db).wf(),
        valid_now(now_ms as int),
        old(changes).non_negative(),
        1 <= traffic_cost,
    ensures
        final(db).wf(),
        final(changes).time == old(changes).time,
        final(changes).traffic == old(changes).traffic,
        final(changes).space == old(changes).space,
        0 <= final(changes).tip <= old(changes).tip,
        final(db).map1@ == old(db).map1@,
        final(db).mm@ == old(db).mm@,
        final(db).mr == old(db).mr,
        final(db).next_map_id == old(db).next_map_id,
        final(db).credit_limit == old(db).credit_limit,
        final(db).access_ttl == old(db).access_ttl,
        crate::credit::credit_within(old(db).kv@, final(db).kv@, uid.0@, 0, now_ms as int),
        r is Err ==> *final(changes) == *old(changes),
        get_post(
            r,
            old(db),
            final(db),
            *old(changes),
            *final(changes),
            uid.0@,
            req,
            traffic_cost as int,
            now_ms as int,
        ),
{
    if req.keys.len() != 8 {
        return Err(Error::Logical);
    }
    match &req.geo {
        Some(g) => {
            if g.len() != 3 {
                return Err(Error::GeoDim);
            }
            if g[0] < -1_800_000_000 || g[0] > 1_800_000_000 || g[1] < -1_800_000_000
                || g[1] > 1_800_000_000 || g[2] < 0 || g[2] > 4_000_000_000 {
                return Err(Error::GeoDim);
            }
        },
        None => {},
    }

    // The selection walk.
    let ghost docs0 = db.map1@;
    let ghost caller = uid.0@;
    let s0: i64 = changes.traffic / traffic_cost;
    let t0: i64 = changes.tip;
    let n = db.map1.len();
    let mut picked: Vec<usize> = Vec::new();
    let mut s: i64 = s0;
    let mut tipb: i64 = t0;
    let mut cnt: u64 = 0;
    let mut i: usize = 0;
    let mut end: GetEndE = GetEndE::Clean;
    let ghost mut pickedg = Seq::<int>::empty();
    proof {
        assert(pickedg =~= picked@.map_values(|u: usize| u as int));
        assert(pickedg + get_scan(docs0, req, caller, 0, s0 as int, t0 as int, 0).picked
            =~= get_scan(docs0, req, caller, 0, s0 as int, t0 as int, 0).picked);
    }
    while i < n
        invariant_except_break
            0 <= i <= n,
            end is Clean,
        invariant
            n == db.map1@.len(),
            *db == *old(db),
            *changes == *old(changes),
            old(changes).non_negative(),
            old(db).wf(),
            valid_now(now_ms as int),
            docs0 == db.map1@,
            caller == uid.0@,
            s0 as int == old(changes).traffic as int / traffic_cost as int,
            t0 == old(changes).tip,
            req.keys@.len() == 8,
            get_geo_ok(req),
            cnt <= i <= n,
            pickedg == picked@.map_values(|u: usize| u as int),
            forall|p: int| 0 <= p < picked@.len() ==> (#[trigger] picked@[p]) < n,
            0 <= tipb <= t0,
            0 <= s,
            get_scan(docs0, req, caller, 0, s0 as int, t0 as int, 0) == out_prepend(
                pickedg,
                get_scan(docs0, req, caller, i as int, s as int, tipb as int, cnt as int),
            ),
        ensures
            get_scan(docs0, req, caller, 0, s0 as int, t0 as int, 0) == (GetOut {
                picked: pickedg,
                end: end_view(&end),
                tip_left: tipb as int,
            }),
            !(end is Traffic),
        decreases n - i,
    {
        let ghost s_in = s as int;
        let ghost tipb_in = tipb as int;
        let ghost cnt_in = cnt as int;
        let ghost picked_in = pickedg;
        let d = &db.map1[i];
        if sel_match_exec(d, req, uid) {
            let at_limit = match req.n {
                Some(nn) => cnt == nn,
                None => false,
            };
            if at_limit {
                end = GetEndE::NLimit;
                proof {
                    assert(get_scan(docs0, req, caller, i as int, s_in, tipb_in, cnt_in)
                        == GetOut {
                        picked: Seq::empty(),
                        end: GetEnd::NLimit,
                        tip_left: tipb_in,
                    });
                    assert(pickedg + Seq::<int>::empty() =~= pickedg);
                }
                break;
            }
            let dsz = match doc_size(d) {
                Ok(z) => z,
                Err(_) => {
                    proof {
                        assert(get_scan(docs0, req, caller, i as int, s_in, tipb_in, cnt_in)
                            == GetOut {
                            picked: Seq::empty(),
                            end: GetEnd::TrafficFail,
                            tip_left: tipb_in,
                        });
                    }
                    return Err(Error::CostTraffic);
                },
            };
            if dsz > s {
                proof {
                    assert(get_scan(docs0, req, caller, i as int, s_in, tipb_in, cnt_in)
                        == GetOut {
                        picked: Seq::empty(),
                        end: GetEnd::TrafficFail,
                        tip_left: tipb_in,
                    });
                }
                return Err(Error::CostTraffic);
            }
            let own = crate::kv::bytes_eq(d.uid.0.as_slice(), uid.0.as_slice());
            if own {
                s = s - dsz;
                picked.push(i);
                proof {
                    pickedg = pickedg.push(i as int);
                    assert(pickedg =~= picked@.map_values(|u: usize| u as int));
                    assert(get_scan(docs0, req, caller, i as int, s_in, tipb_in, cnt_in)
                        == out_cons(
                        i as int,
                        get_scan(
                            docs0,
                            req,
                            caller,
                            i + 1,
                            s as int,
                            tipb as int,
                            cnt_in + 1,
                        ),
                    ));
                    lemma_out_prepend_push(
                        docs0,
                        req,
                        caller,
                        picked_in,
                        i as int,
                        s as int,
                        tipb as int,
                        cnt_in + 1,
                    );
                }
                cnt = cnt + 1;
            } else {
                if d.tip > tipb {
                    end = GetEndE::TipLimit(d.id, d.tip);
                    proof {
                        assert(get_scan(docs0, req, caller, i as int, s_in, tipb_in, cnt_in)
                            == GetOut {
                            picked: Seq::empty(),
                            end: GetEnd::TipLimit(docs0[i as int]@.id, docs0[i as int]@.tip),
                            tip_left: tipb_in,
                        });
                        assert(pickedg + Seq::<int>::empty() =~= pickedg);
                    }
                    break;
                }
                tipb = tipb - d.tip;
                s = s - dsz;
                picked.push(i);
                proof {
                    pickedg = pickedg.push(i as int);
                    assert(pickedg =~= picked@.map_values(|u: usize| u as int));
                    assert(get_scan(docs0, req, caller, i as int, s_in, tipb_in, cnt_in)
                        == out_cons(
                        i as int,
                        get_scan(
                            docs0,
                            req,
                            caller,
                            i + 1,
                            s as int,
                            tipb as int,
                            cnt_in + 1,
                        ),
                    ));
                    lemma_out_prepend_push(
                        docs0,
                        req,
                        caller,
                        picked_in,
                        i as int,
                        s as int,
                        tipb as int,
                        cnt_in + 1,
                    );
                }
                cnt = cnt + 1;
            }
        } else {
            proof {
                assert(get_scan(docs0, req, caller, i as int, s_in, tipb_in, cnt_in)
                    == get_scan(docs0, req, caller, i + 1, s_in, tipb_in, cnt_in));
            }
        }
        i = i + 1;
    }
    proof {
        if i == n && end is Clean {
            assert(get_scan(docs0, req, caller, n as int, s as int, tipb as int, cnt as int)
                == GetOut { picked: Seq::empty(), end: GetEnd::Clean, tip_left: tipb as int });
            assert(pickedg + Seq::<int>::empty() =~= pickedg);
        }
    }
    let ghost o = get_scan(docs0, req, caller, 0, s0 as int, t0 as int, 0);

    // Pay each foreign document's tip to its owner.
    let np = picked.len();
    let ghost kv0 = db.kv@;
    let ghost cl0 = cl_view(db);
    let mut p: usize = 0;
    while p < np
        invariant
            0 <= p <= np,
            np == picked@.len(),
            db.wf(),
            valid_now(now_ms as int),
            db.map1@ == docs0,
            docs0 == old(db).map1@,
            db.mm@ == old(db).mm@,
            db.mr == old(db).mr,
            db.next_map_id == old(db).next_map_id,
            db.credit_limit == old(db).credit_limit,
            db.access_ttl == old(db).access_ttl,
            *changes == *old(changes),
            old(changes).non_negative(),
            caller == uid.0@,
            req.keys@.len() == 8,
            get_geo_ok(req),
            kv0 == old(db).kv@,
            cl0 == cl_view(old(db)),
            0 <= tipb <= old(changes).tip,
            !(end is Traffic),
            get_scan(
                docs0,
                req,
                caller,
                0,
                old(changes).traffic as int / traffic_cost as int,
                old(changes).tip as int,
                0,
            ) == (GetOut { picked: pickedg, end: end_view(&end), tip_left: tipb as int }),
            pickedg == picked@.map_values(|u: usize| u as int),
            forall|q: int| 0 <= q < picked@.len() ==> (#[trigger] picked@[q]) < docs0.len(),
            pay_ok(kv0, db.map1@, caller, pickedg.take(p as int), now_ms as int),
            db.kv@ == pay_kv(kv0, db.map1@, caller, pickedg.take(p as int), now_ms as int),
            cl_view(db) == pay_cl(cl0, db.map1@, caller, pickedg.take(p as int), now_ms as int),
            crate::credit::credit_within(kv0, db.kv@, caller, 0, now_ms as int),
        decreases np - p,
    {
        let idx = picked[p];
        let own = crate::kv::bytes_eq(db.map1[idx].uid.0.as_slice(), uid.0.as_slice());
        proof {
            assert(pickedg.take(p + 1).drop_last() =~= pickedg.take(p as int));
            assert(pickedg.take(p + 1).last() == idx as int);
        }
        if !own {
            let owner = db.map1[idx].uid;
            let tip = db.map1[idx].tip;
            proof {
                assert(owner.0@.len() == 16 && uid.0@.len() == 16);
                crate::database::lemma_ns_body_distinct(
                    crate::kv::UID2CREDIT,
                    owner.0@,
                    uid.0@,
                );
            }
            let pay = db.incr_credit(&owner, Some(*uid), tip, "GeneMapTip", now_ms);
            match pay {
                Ok(_) => {},
                Err(e) => {
                    proof {
                        let og = get_scan(
                            docs0,
                            req,
                            caller,
                            0,
                            old(changes).traffic as int / traffic_cost as int,
                            old(changes).tip as int,
                            0,
                        );
                        assert(!pay_ok(kv0, docs0, caller, pickedg.take(p + 1), now_ms as int));
                        if pay_ok(kv0, docs0, caller, og.picked, now_ms as int) {
                            lemma_pay_ok_take(
                                kv0,
                                docs0,
                                caller,
                                pickedg,
                                now_ms as int,
                                p + 1,
                            );
                        }
                        assert(pay_ok(kv0, docs0, caller, pickedg.take(p as int), now_ms as int)
                            && db.kv@ =~= pay_kv(
                            kv0,
                            docs0,
                            caller,
                            pickedg.take(p as int),
                            now_ms as int,
                        ) && cl_view(db) =~= pay_cl(
                            cl0,
                            docs0,
                            caller,
                            pickedg.take(p as int),
                            now_ms as int,
                        ));
                    }
                    return Err(e);
                },
            }
        }
        p = p + 1;
    }
    proof {
        assert(pickedg.take(np as int) =~= pickedg);
    }
    changes.tip = tipb;

    // Render the picked documents and the marker.
    let mut out = String::new();
    proof {
        reveal_strlit("{");
        reveal_strlit("}");
    }
    out.append("{");
    let ghost base = out@;
    let mut j: usize = 0;
    while j < np
        invariant
            0 <= j <= np,
            np == picked@.len(),
            db.map1@ == docs0,
            docs0 == old(db).map1@,
            db.wf(),
            db.mm@ == old(db).mm@,
            db.mr == old(db).mr,
            db.next_map_id == old(db).next_map_id,
            changes.time == old(changes).time,
            changes.traffic == old(changes).traffic,
            changes.space == old(changes).space,
            changes.tip == tipb,
            0 <= tipb <= old(changes).tip,
            req.keys@.len() == 8,
            get_geo_ok(req),
            !(end is Traffic),
            get_scan(
                docs0,
                req,
                caller,
                0,
                old(changes).traffic as int / traffic_cost as int,
                old(changes).tip as int,
                0,
            ) == (GetOut { picked: pickedg, end: end_view(&end), tip_left: tipb as int }),
            caller == uid.0@,
            pay_ok(old(db).kv@, docs0, caller, pickedg, now_ms as int),
            db.kv@ == pay_kv(old(db).kv@, docs0, caller, pickedg, now_ms as int),
            cl_view(db) == pay_cl(cl_view(old(db)), docs0, caller, pickedg, now_ms as int),
            pickedg == picked@.map_values(|u: usize| u as int),
            forall|q: int| 0 <= q < picked@.len() ==> (#[trigger] picked@[q]) < docs0.len(),
            base + render_picked(docs0, pickedg, &req.sel, 0) == out@ + render_picked(
                docs0,
                pickedg.skip(j as int),
                &req.sel,
                j as int,
            ),
        decreases np - j,
    {
        proof {
            reveal_strlit(",");
            reveal_strlit("\"");
            reveal_strlit("\":");
            assert(pickedg.skip(j as int).first() == pickedg[j as int]);
            assert(pickedg.skip(j as int).drop_first() =~= pickedg.skip(j + 1));
        }
        if j > 0 {
            out.append(",");
        }
        out.append("\"");
        out.append(crate::codec::u64_to_dec(j as u64).as_str());
        out.append("\":");
        append_map_doc(&mut out, &db.map1[picked[j]], &req.sel);
        j = j + 1;
    }
    proof {
        assert(pickedg.skip(np as int) =~= Seq::<int>::empty());
        assert(out@ =~= base + render_picked(docs0, pickedg, &req.sel, 0));
    }
    match end {
        GetEndE::Clean => {},
        GetEndE::Traffic => {},
        GetEndE::NLimit => {
            proof {
                reveal_strlit(",");
                reveal_strlit("\"_error\":\"n\"");
            }
            if picked.len() > 0 {
                out.append(",");
            }
            out.append("\"_error\":\"n\"");
        },
        GetEndE::TipLimit(id, tip) => {
            proof {
                reveal_strlit(",");
                reveal_strlit("\"_error\":\"tip\",\"_error_id\":");
                reveal_strlit(",\"_error_tip\":");
            }
            if picked.len() > 0 {
                out.append(",");
            }
            out.append("\"_error\":\"tip\",\"_error_id\":");
            out.append(crate::codec::u64_to_dec(id).as_str());
            out.append(",\"_error_tip\":");
            out.append(crate::codec::i64_to_dec(tip).as_str());
        },
    }
    out.append("}");
    proof {
        assert(out@ =~= render_get(docs0, o, &req.sel));
    }
    Ok(out)
}

proof fn lemma_out_prepend_push(
    docs: Seq<MapDoc>,
    q: &MapGet,
    caller: Seq<u8>,
    pre: Seq<int>,
    x: int,
    s: int,
    tipb: int,
    cnt: int,
)
    ensures
        out_prepend(pre.push(x), get_scan(docs, q, caller, x + 1, s, tipb, cnt))
            == out_prepend(
            pre,
            out_cons(x, get_scan(docs, q, caller, x + 1, s, tipb, cnt)),
        ),
{
    let o = get_scan(docs, q, caller, x + 1, s, tipb, cnt);
    assert(pre.push(x) + o.picked =~= pre + (seq![x] + o.picked));
}


/// The map gene: dispatch one request.
pub fn v1(
    db: &mut Database,
    uid: &Id,
    req: &MapRequest,
    changes: &mut Costs,
    space_cost: i64,
    traffic_cost: i64,
    internal: bool,
    now_ms: i64,
) -> (r: Result<String, Error>)
    requires
        old(db).wf(),
        valid_now(now_ms as int),
        old(changes).non_negative(),
        0 <= space_cost,
        1 <= traffic_cost,
    ensures
        final(db).wf(),
        final(changes).time == old(changes).time,
        final(changes).traffic == old(changes).traffic,
        0 <= final(changes).tip <= old(changes).tip,
        final(changes).space >= 0,
        final(db).mm@ == old(db).mm@,
        final(db).mr == old(db).mr,
        final(db).credit_limit == old(db).credit_limit,
        final(db).access_ttl == old(db).access_ttl,
        crate::credit::credit_within(old(db).kv@, final(db).kv@, uid.0@, 0, now_ms as int),
        r is Err ==> final(changes).space <= old(changes).space,
        match req {
            MapRequest::Put(p) => get_frames_fixed(old(db), final(db)) && final(changes).tip
                == old(changes).tip && put_post(
                r,
                old(db),
                final(db),
                *old(changes),
                *final(changes),
                uid.0@,
                p,
                space_cost as int,
                internal,
                now_ms as int,
            ),
            MapRequest::Get(g) => final(changes).space == old(changes).space && final(db).map1@ == old(db).map1@ && final(db).next_map_id == old(db).next_map_id
                && get_post(
                r,
                old(db),
                final(db),
                *old(changes),
                *final(changes),
                uid.0@,
                g,
                traffic_cost as int,
                now_ms as int,
            ),
            MapRequest::Drop(d) => get_frames_fixed(old(db), final(db)) && final(changes).tip
                == old(changes).tip && drop_post(
                r,
                old(db),
                final(db),
                *old(changes),
                *final(changes),
                uid.0@,
                d,
                space_cost as int,
                now_ms as int,
            ),
        },
{
    match req {
        MapRequest::Put(p) => map_put(db, uid, p, changes, space_cost, internal, now_ms),
        MapRequest::Get(g) => map_get(db, uid, g, changes, traffic_cost, now_ms),
        MapRequest::Drop(d) => map_drop(db, uid, d, changes, space_cost, now_ms),
    }
}

/// What a put or drop never touches.
pub open spec fn get_frames_fixed(db0: &Database, db1: &Database) -> bool {
    db1.kv == db0.kv && db1.cl@ == db0.cl@
}


/// Map round-trip, the matching half: the document a put stores answers a
/// get that filters by the same owner and the same indexed keys, with the
/// user fields it was given and its billing size in `_size`.
pub proof fn lemma_put_matches_get(req: &MapPut, get: &MapGet, caller: Seq<u8>, id: int, dsz: int)
    requires
        get.id is None,
        get.uid matches Some(u) && u.0@ == caller,
        get.public is None,
        get.eol is None,
        get.tip is None,
        get.size is None,
        get.ns is None,
        get.geo is None,
        get.keys@.len() == 8,
        req.keys@.len() == 8,
        forall|k: int|
            0 <= k < 8 ==> ((#[trigger] get.keys@[k]).1 is None && (match get.keys@[k].0 {
                Some(lo) => lo@ == req.keys@[k]@,
                None => true,
            })),
    ensures
        sel_match(put_doc(req, caller, id, dsz), get, caller),
        put_doc(req, caller, id, dsz).fields == req.fields@.map_values(
            |p: (String, Value)| (p.0@, p.1@),
        ),
        put_doc(req, caller, id, dsz).size == dsz,
{
    let d = put_doc(req, caller, id, dsz);
    assert forall|k: int| 0 <= k < 8 implies value_range(
        d.keys[k],
        &(#[trigger] get.keys@[k]).0,
        &get.keys@[k].1,
    ) by {
        assert(d.keys[k] == req.keys@[k]@);
    }
}


/// The total billing size of the matching documents from position `i` on.
pub open spec fn match_sizes(docs: Seq<MapDoc>, q: &MapGet, caller: Seq<u8>, i: int) -> int
    decreases docs.len() - i,
{
    if i < 0 || i >= docs.len() {
        0
    } else {
        (if sel_match(docs[i]@, q, caller) {
            doc_size_v(docs[i]@)
        } else {
            0
        }) + match_sizes(docs, q, caller, i + 1)
    }
}

/// The total tip of the matching documents of other owners from position
/// `i` on.
pub open spec fn match_tips(docs: Seq<MapDoc>, q: &MapGet, caller: Seq<u8>, i: int) -> int
    decreases docs.len() - i,
{
    if i < 0 || i >= docs.len() {
        0
    } else {
        (if sel_match(docs[i]@, q, caller) && docs[i]@.uid != caller {
            docs[i]@.tip
        } else {
            0
        }) + match_tips(docs, q, caller, i + 1)
    }
}

proof fn lemma_doc_size_nonneg(d: MapDocV)
    ensures
        doc_size_v(d) >= 0,
{
    lemma_keys_size_nonneg(d.keys);
    lemma_fields_size_nonneg(d.fields);
}

proof fn lemma_match_bounds_nonneg(docs: Seq<MapDoc>, q: &MapGet, caller: Seq<u8>, i: int, wf: bool)
    requires
        wf ==> forall|p: int|
            0 <= p < docs.len() ==> crate::docs::wf_map_doc((#[trigger] docs[p])@),
    ensures
        match_sizes(docs, q, caller, i) >= 0,
        wf ==> match_tips(docs, q, caller, i) >= 0,
    decreases docs.len() - i,
{
    if 0 <= i < docs.len() {
        lemma_doc_size_nonneg(docs[i]@);
        lemma_match_bounds_nonneg(docs, q, caller, i + 1, wf);
    }
}

/// Map round-trip, the completeness half: with no count limit and budgets
/// covering every matching document's size and tip, the walk picks every
/// matching document.
pub proof fn lemma_scan_complete(
    docs: Seq<MapDoc>,
    q: &MapGet,
    caller: Seq<u8>,
    i: int,
    s: int,
    tipb: int,
    cnt: int,
    target: int,
)
    requires
        q.n is None,
        forall|p: int| 0 <= p < docs.len() ==> crate::docs::wf_map_doc((#[trigger] docs[p])@),
        0 <= i <= target < docs.len(),
        sel_match(docs[target]@, q, caller),
        s >= match_sizes(docs, q, caller, i),
        tipb >= match_tips(docs, q, caller, i),
    ensures
        get_scan(docs, q, caller, i, s, tipb, cnt).picked.contains(target),
    decreases docs.len() - i,
{
    lemma_match_bounds_nonneg(docs, q, caller, i + 1, true);
    lemma_doc_size_nonneg(docs[i as int]@);
    let o = get_scan(docs, q, caller, i, s, tipb, cnt);
    if sel_match(docs[i]@, q, caller) {
        let dsz = doc_size_v(docs[i]@);
        assert(dsz <= s);
        if docs[i]@.uid == caller {
            let rest = get_scan(docs, q, caller, i + 1, s - dsz, tipb, cnt + 1);
            if i == target {
                assert(o.picked[0] == i);
            } else {
                lemma_scan_complete(docs, q, caller, i + 1, s - dsz, tipb, cnt + 1, target);
                let at = choose|at: int| 0 <= at < rest.picked.len() && rest.picked[at] == target;
                assert(o.picked[at + 1] == target);
            }
        } else {
            assert(docs[i]@.tip <= tipb);
            let rest = get_scan(docs, q, caller, i + 1, s - dsz, tipb - docs[i]@.tip, cnt + 1);
            if i == target {
                assert(o.picked[0] == i);
            } else {
                lemma_scan_complete(
                    docs,
                    q,
                    caller,
                    i + 1,
                    s - dsz,
                    tipb - docs[i]@.tip,
                    cnt + 1,
                    target,
                );
                let at = choose|at: int| 0 <= at < rest.picked.len() && rest.picked[at] == target;
                assert(o.picked[at + 1] == target);
            }
        }
    } else {
        lemma_scan_complete(docs, q, caller, i + 1, s, tipb, cnt, target);
    }
}


/// Map round-trip: the document a put has just stored — the last of the
/// collection — is picked by a get that filters by the same owner and the
/// same indexed keys, when no count limit stands and the size and tip
/// allowances cover every match; its user fields are the ones given and
/// `_size` is its billing size.
pub proof fn lemma_map_round_trip(
    db: &Database,
    req: &MapPut,
    get: &MapGet,
    caller: Seq<u8>,
    s: int,
    tipb: int,
)
    requires
        db.wf(),
        db.map1@.len() > 0,
        ({
            let d = db.map1@.last()@;
            d == put_doc(req, caller, d.id, d.size)
        }),
        req.keys@.len() == 8,
        get.id is None,
        get.uid matches Some(u) && u.0@ == caller,
        get.public is None,
        get.eol is None,
        get.tip is None,
        get.size is None,
        get.ns is None,
        get.geo is None,
        get.n is None,
        get.keys@.len() == 8,
        forall|k: int|
            0 <= k < 8 ==> ((#[trigger] get.keys@[k]).1 is None && (match get.keys@[k].0 {
                Some(lo) => lo@ == req.keys@[k]@,
                None => true,
            })),
        s >= match_sizes(db.map1@, get, caller, 0),
        tipb >= match_tips(db.map1@, get, caller, 0),
    ensures
        get_scan(db.map1@, get, caller, 0, s, tipb, 0).picked.contains(db.map1@.len() - 1),
        db.map1@.last()@.fields == req.fields@.map_values(|p: (String, Value)| (p.0@, p.1@)),
{
    let d = db.map1@.last()@;
    lemma_put_matches_get(req, get, caller, d.id, d.size);
    lemma_scan_complete(db.map1@, get, caller, 0, s, tipb, 0, db.map1@.len() - 1);
}

} // verus!






