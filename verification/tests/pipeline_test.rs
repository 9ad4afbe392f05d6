use voxov::api::Api;
use voxov::config::Config;
use voxov::database::{ns, Database};
use voxov::error::Error;
use voxov::gene_map::{MapDrop, MapGet, MapPut, MapRequest};
use voxov::id::Id;
use voxov::ir::Costs;
use voxov::kv::{KvVal, ACCESS, REFRESH, UID2CREDIT};
use voxov::query::{GeneArg, Query};
use voxov::reply::Reply;
use voxov::value::Value;
use voxov::gene_msg::{MsgRequest, MsgSend};
use voxov::ripperd::Ripperd;

const NOW: i64 = 1_700_000_000_000;

fn new_api() -> Api {
    Api::new(&Config::new())
}

fn start(api: &mut Api) -> (Id, Id) {
    match api.auth.handle_session_start(&mut api.db, NOW).unwrap() {
        Reply::AuthSessionStart { access, refresh } => (access, refresh),
        _ => panic!(),
    }
}

fn register(api: &mut Api) -> (Id, Id, Id) {
    register_phone(api, "+15551234567")
}

fn register_phone(api: &mut Api, sender: &str) -> (Id, Id, Id) {
    let (access, refresh) = start(api);
    let (phone, message) = match api
        .auth
        .handle_sms_send_to(&mut api.db, &access, NOW)
        .unwrap()
    {
        Reply::AuthSmsSendTo { phone, message } => (phone, message),
        _ => panic!(),
    };
    api.db.sms_sent(sender, phone.as_str(), &message, NOW);
    let uid = match api
        .auth
        .handle_sms_sent(&mut api.db, &access, &refresh, &phone, &message, NOW)
        .unwrap()
    {
        Reply::AuthSmsSent { uid } => uid,
        _ => panic!(),
    };
    (access, refresh, uid)
}

fn seed_credit(api: &mut Api, uid: &Id, amount: i64) {
    let key = ns(UID2CREDIT, uid);
    api.db
        .kv
        .set(key.as_slice(), KvVal::Int(amount), 3600 * 24, NOW);
}

fn credit_of(db: &Database, uid: &Id) -> i64 {
    let key = ns(UID2CREDIT, uid);
    match db.kv.get(key.as_slice(), NOW) {
        Some(KvVal::Int(v)) => v,
        _ => panic!("no credit cell"),
    }
}

fn budget() -> Costs {
    Costs { time: 1_000_000, space: 1_000_000, traffic: 1_000_000, tip: 0 }
}

fn head(access: Id) -> voxov::ir::Head {
    voxov::ir::Head { access, costs: budget(), fed: None }
}

#[test]
fn session_start() {
    let mut api = new_api();
    let (access, refresh) = start(&mut api);
    let a = ns(ACCESS, &access);
    let r = ns(REFRESH, &refresh);
    assert_eq!(api.db.kv.exits(a.as_slice(), NOW), 1);
    assert_eq!(api.db.kv.exits(r.as_slice(), NOW), 1);
}

#[test]
fn session_refresh() {
    let mut api = new_api();
    let (access, refresh) = start(&mut api);
    let a2 = match api
        .auth
        .handle_session_refresh(&mut api.db, &refresh, NOW)
        .unwrap()
    {
        Reply::AuthSessionRefresh { access } => access,
        _ => panic!(),
    };
    assert!(!(a2 == access));
    let a1 = ns(ACCESS, &access);
    let a2k = ns(ACCESS, &a2);
    assert_eq!(api.db.kv.exits(a1.as_slice(), NOW), 1);
    assert_eq!(api.db.kv.exits(a2k.as_slice(), NOW), 1);
}

#[test]
fn session_end() {
    let mut api = new_api();
    let (access, refresh) = start(&mut api);
    api.auth
        .handle_session_end(&mut api.db, &access, &Some(refresh), NOW)
        .unwrap();
    let a = ns(ACCESS, &access);
    let r = ns(REFRESH, &refresh);
    assert_eq!(api.db.kv.exits(a.as_slice(), NOW), 0);
    assert_eq!(api.db.kv.exits(r.as_slice(), NOW), 0);
}

#[test]
fn session_end_twice_errors() {
    let mut api = new_api();
    let (access, _refresh) = start(&mut api);
    api.auth
        .handle_session_end(&mut api.db, &access, &None, NOW)
        .unwrap();
    let again = api.auth.handle_session_end(&mut api.db, &access, &None, NOW);
    assert_eq!(again.unwrap_err(), Error::AuthInvalidAccessToken);
}

#[test]
fn session_refresh_expired() {
    let mut api = new_api();
    let (_access, refresh) = start(&mut api);
    let later = NOW + 2_592_000 * 1000 + 1;
    let out = api.auth.handle_session_refresh(&mut api.db, &refresh, later);
    assert_eq!(out.unwrap_err(), Error::AuthInvalidRefreshToken);
}

#[test]
fn session_sms() {
    let mut api = new_api();
    let (access, refresh, uid) = register(&mut api);
    // Both tokens are bound to the new user and an account exists.
    let a = ns(ACCESS, &access);
    let r = ns(REFRESH, &refresh);
    match api.db.kv.get(a.as_slice(), NOW) {
        Some(KvVal::Bytes(b)) => assert_eq!(b, uid.to_vec()),
        _ => panic!(),
    }
    match api.db.kv.get(r.as_slice(), NOW) {
        Some(KvVal::Bytes(b)) => assert_eq!(b, uid.to_vec()),
        _ => panic!(),
    }
    assert_eq!(credit_of(&api.db, &uid), 0);
}

#[test]
fn cost_pay() {
    let mut api = new_api();
    let (access, _refresh, _uid) = register(&mut api);
    let q = Query::CostPay { access, vendor: Id::zero() };
    match api.handle_at(q, NOW).unwrap() {
        Reply::CostPay { uri } => assert!(uri.starts_with("Not implemented: ")),
        _ => panic!(),
    }
}

#[test]
fn cost_get() {
    let mut api = new_api();
    let (access, _refresh, uid) = register(&mut api);
    seed_credit(&mut api, &uid, 12345);
    let q = Query::CostGet { access };
    match api.handle_at(q, NOW).unwrap() {
        Reply::CostGet { credit } => assert_eq!(credit, 12345),
        _ => panic!(),
    }
}

#[test]
fn cost_check_in() {
    let mut api = new_api();
    let (access, _refresh, uid) = register(&mut api);
    let before = credit_of(&api.db, &uid);
    let award = match api.handle_at(Query::CostCheckIn { access }, NOW).unwrap() {
        Reply::CostCheckIn { award } => award,
        _ => panic!(),
    };
    assert_eq!(award, 10_000_000);
    assert_eq!(credit_of(&api.db, &uid), before + award);
    // A second check-in within the cooldown is too early, and the balance
    // moved by exactly one award.
    let second = api.handle_at(Query::CostCheckIn { access }, NOW + 1000);
    assert_eq!(second.unwrap_err(), Error::CostCheckInTooEarly);
    assert_eq!(credit_of(&api.db, &uid), before + award);
}

#[test]
fn gene_meta() {
    let mut api = new_api();
    let (access, _refresh, uid) = register(&mut api);
    seed_credit(&mut api, &uid, 10_000_000_000);
    let q = Query::GeneMeta { head: head(access), gid: "info_1".to_string() };
    match api.handle_at(q, NOW).unwrap() {
        Reply::GeneMeta { meta, .. } => {
            assert!(meta.contains("\"name\":\"info\""));
            assert!(meta.contains("\"version\":1"));
        },
        _ => panic!(),
    }
}

#[test]
fn gene_call() {
    let mut api = new_api();
    let (access, _refresh, uid) = register(&mut api);
    seed_credit(&mut api, &uid, 10_000_000_000);
    let q = Query::GeneCall {
        head: head(access),
        gid: "info_1".to_string(),
        arg: GeneArg::Text(String::new()),
    };
    match api.handle_at(q, NOW).unwrap() {
        Reply::GeneCall { result, .. } => assert!(result.contains("\"time_cost\":1000")),
        _ => panic!(),
    }
}

#[test]
fn meme_put() {
    let mut api = new_api();
    let (access, _refresh, uid) = register(&mut api);
    seed_credit(&mut api, &uid, 10_000_000_000);
    let body = b"hello".to_vec();
    let q = Query::MemePut { head: head(access), days: 1, raw: vec![body.clone()] };
    match api.handle_at(q, NOW).unwrap() {
        Reply::MemePut { hash, .. } => {
            assert_eq!(&hash, blake3::hash(b"hello").as_bytes());
        },
        _ => panic!(),
    }
}

#[test]
fn meme_get() {
    let mut api = new_api();
    let (access, _refresh, uid) = register(&mut api);
    seed_credit(&mut api, &uid, 10_000_000_000);
    let q = Query::MemePut { head: head(access), days: 1, raw: vec![b"hello".to_vec()] };
    let hash = match api.handle_at(q, NOW).unwrap() {
        Reply::MemePut { hash, .. } => hash,
        _ => panic!(),
    };
    let q2 = Query::MemeGet { head: head(access), hash, public: false };
    match api.handle_at(q2, NOW).unwrap() {
        Reply::MemeGet { raw, .. } => assert_eq!(raw, b"hello".to_vec()),
        _ => panic!(),
    }
}

#[test]
fn meme_meta() {
    let mut api = new_api();
    let (access, _refresh, uid) = register(&mut api);
    seed_credit(&mut api, &uid, 10_000_000_000);
    let q = Query::MemePut { head: head(access), days: 1, raw: vec![b"hello".to_vec()] };
    let hash = match api.handle_at(q, NOW).unwrap() {
        Reply::MemePut { hash, .. } => hash,
        _ => panic!(),
    };
    let q2 = Query::MemeMeta { head: head(access), hash };
    match api.handle_at(q2, NOW).unwrap() {
        Reply::MemeMeta { meta, .. } => {
            assert!(meta.contains(&format!("\"uid\":\"{}\"", uid.to_hex())));
            assert!(meta.contains(&format!("\"hash\":\"{}\"", hex::encode(hash))));
            assert!(meta.contains("\"size\":5"));
            assert!(meta.contains("\"pub\":false"));
            assert!(meta.contains("\"tip\":0"));
            assert!(meta.contains(&format!("\"eol\":{}", NOW / 1000 + 86400)));
        },
        _ => panic!(),
    }
}

#[test]
fn over_budget_put_fails_cost_space() {
    let mut api = new_api();
    let (access, _refresh, uid) = register(&mut api);
    seed_credit(&mut api, &uid, 10_000_000_000);
    let before = credit_of(&api.db, &uid);
    let mut costs = budget();
    costs.space = 1000;
    let head = voxov::ir::Head { access, costs, fed: None };
    let big = vec![0u8; 1_000_000];
    let q = Query::MemePut { head, days: 365, raw: vec![big] };
    let out = api.handle_at(q, NOW);
    assert_eq!(out.unwrap_err(), Error::CostSpace);
    // The budget was reserved and the unspent rest came back: only the
    // consumed part is gone, never more than the declared total.
    let after = credit_of(&api.db, &uid);
    assert!(before - after <= costs.time + costs.space + costs.traffic + costs.tip);
    assert!(after <= before);
}

#[test]
fn tip_transfer_on_public_get() {
    let mut api = new_api();
    let (o_access, _r1, owner) = register(&mut api);
    seed_credit(&mut api, &owner, 10_000_000_000);
    let q = Query::MemePut { head: head(o_access), days: 1, raw: vec![b"tipme".to_vec()] };
    let hash = match api.handle_at(q, NOW).unwrap() {
        Reply::MemePut { hash, .. } => hash,
        _ => panic!(),
    };
    // Publish with a tip by editing the stored row, as the censor path
    // would.
    api.db.mm[0].public = true;
    api.db.mm[0].tip = 500;

    let (r_access, _r2, reader) = register_phone(&mut api, "+15559876543");
    seed_credit(&mut api, &reader, 10_000_000_000);
    let owner_before = credit_of(&api.db, &owner);
    let reader_before = credit_of(&api.db, &reader);
    let mut costs = budget();
    costs.tip = 500;
    let head = voxov::ir::Head { access: r_access, costs, fed: None };
    let q2 = Query::MemeGet { head, hash, public: true };
    match api.handle_at(q2, NOW).unwrap() {
        Reply::MemeGet { raw, .. } => assert_eq!(raw, b"tipme".to_vec()),
        _ => panic!(),
    }
    let owner_after = credit_of(&api.db, &owner);
    let reader_after = credit_of(&api.db, &reader);
    assert_eq!(owner_after - owner_before, 500);
    // The reader paid the traffic price of five bytes and the tip.
    assert_eq!(reader_before - reader_after, 5 + 500);
}

#[test]
fn map_put_get_drop_round_trip() {
    let mut api = new_api();
    let (access, _refresh, uid) = register(&mut api);
    seed_credit(&mut api, &uid, 10_000_000_000);
    let mut keys = vec![Value::Str("todo".to_string())];
    while keys.len() < 8 {
        keys.push(Value::Null);
    }
    let put = MapRequest::Put(MapPut {
        id: None,
        eol: NOW / 1000 + 86400,
        tip: None,
        ns: Some("notes".to_string()),
        keys,
        geo: None,
        fields: vec![("text".to_string(), Value::Str("buy milk".to_string()))],
    });
    let q = Query::GeneCall {
        head: head(access),
        gid: "map_1".to_string(),
        arg: GeneArg::MapArg(put),
    };
    match api.handle_at(q, NOW).unwrap() {
        Reply::GeneCall { result, .. } => assert_eq!(result, "{}"),
        _ => panic!(),
    }

    let mut kranges = vec![(Some(Value::Str("todo".to_string())), None)];
    while kranges.len() < 8 {
        kranges.push((None, None));
    }
    let get = MapRequest::Get(MapGet {
        id: None,
        uid: Some(uid),
        public: None,
        eol: None,
        eol_: None,
        tip: None,
        tip_: None,
        size: None,
        size_: None,
        ns: Some("notes".to_string()),
        ns_: None,
        keys: kranges,
        n: None,
        geo: None,
        sel: None,
    });
    let q2 = Query::GeneCall {
        head: head(access),
        gid: "map_1".to_string(),
        arg: GeneArg::MapArg(get),
    };
    let doc_id = api.db.map1[0].id;
    match api.handle_at(q2, NOW).unwrap() {
        Reply::GeneCall { result, .. } => {
            assert!(result.contains("\"text\":\"buy milk\""));
            assert!(result.contains("\"_ns\":\"notes\""));
            assert!(result.contains(&format!("\"_size\":{}", api.db.map1[0].size)));
        },
        _ => panic!(),
    }

    let drop = MapRequest::Drop(MapDrop { id: Some(doc_id) });
    let q3 = Query::GeneCall {
        head: head(access),
        gid: "map_1".to_string(),
        arg: GeneArg::MapArg(drop),
    };
    match api.handle_at(q3, NOW).unwrap() {
        Reply::GeneCall { result, .. } => assert_eq!(result, "{}"),
        _ => panic!(),
    }
    let drop2 = MapRequest::Drop(MapDrop { id: Some(doc_id) });
    let q4 = Query::GeneCall {
        head: head(access),
        gid: "map_1".to_string(),
        arg: GeneArg::MapArg(drop2),
    };
    assert_eq!(api.handle_at(q4, NOW).unwrap_err(), Error::GeneMapNotFound);
}

#[test]
fn map_put_reserved_field_rejected() {
    let mut api = new_api();
    let (access, _refresh, uid) = register(&mut api);
    seed_credit(&mut api, &uid, 10_000_000_000);
    let put = MapRequest::Put(MapPut {
        id: None,
        eol: NOW / 1000 + 86400,
        tip: None,
        ns: None,
        keys: vec![
            Value::Null,
            Value::Null,
            Value::Null,
            Value::Null,
            Value::Null,
            Value::Null,
            Value::Null,
            Value::Null,
        ],
        geo: None,
        fields: vec![("_sneaky".to_string(), Value::Int(1))],
    });
    let q = Query::GeneCall {
        head: head(access),
        gid: "map_1".to_string(),
        arg: GeneArg::MapArg(put),
    };
    assert_eq!(api.handle_at(q, NOW).unwrap_err(), Error::ReservedKey);
}

#[test]
fn map_put_reserved_namespace_rejected() {
    let mut api = new_api();
    let (access, _refresh, uid) = register(&mut api);
    seed_credit(&mut api, &uid, 10_000_000_000);
    let put = MapRequest::Put(MapPut {
        id: None,
        eol: NOW / 1000 + 86400,
        tip: None,
        ns: Some("_chan".to_string()),
        keys: vec![
            Value::Null,
            Value::Null,
            Value::Null,
            Value::Null,
            Value::Null,
            Value::Null,
            Value::Null,
            Value::Null,
        ],
        geo: None,
        fields: vec![],
    });
    let q = Query::GeneCall {
        head: head(access),
        gid: "map_1".to_string(),
        arg: GeneArg::MapArg(put),
    };
    assert_eq!(api.handle_at(q, NOW).unwrap_err(), Error::Namespace);
}

#[test]
fn ping() {
    let mut api = new_api();
    let out = api.handle_http_at(false, &vec![], vec![], NOW);
    assert!(matches!(out, Reply::Pong));
}

#[test]
fn http_session_start_parses() {
    let mut api = new_api();
    let headers = vec![("type".to_string(), "AuthSessionStart".to_string())];
    match api.handle_http_at(true, &headers, vec![], NOW) {
        Reply::AuthSessionStart { access, refresh } => {
            assert_eq!(access.to_hex().len(), 32);
            assert_eq!(refresh.to_hex().len(), 32);
        },
        other => panic!("unexpected reply: {:?}", other),
    }
}

#[test]
fn http_unknown_type_errors() {
    let mut api = new_api();
    let headers = vec![("type".to_string(), "Bogus".to_string())];
    match api.handle_http_at(true, &headers, vec![], NOW) {
        Reply::Error { error } => assert_eq!(error, Error::ApiUnknownQueryType),
        _ => panic!(),
    }
}

#[test]
fn id_hex_round_trip() {
    let id = Id::rand();
    let hexed = id.to_hex();
    assert_eq!(hexed.len(), 32);
    assert_eq!(hexed, hex::encode(id.0));
    let back = Id::from_str(hexed.as_str()).unwrap();
    assert!(back == id);
}

#[test]
fn header_numbers_parse() {
    assert_eq!(voxov::codec::parse_i64("-42").unwrap(), -42);
    assert_eq!(voxov::codec::parse_u64("42").unwrap(), 42);
    assert_eq!(
        voxov::codec::parse_i64("9223372036854775807").unwrap(),
        i64::MAX
    );
    assert!(voxov::codec::parse_u64("18446744073709551616").is_err());
    assert!(voxov::codec::parse_i64("4x2").is_err());
    assert_eq!(voxov::codec::i64_to_dec(-42), "-42");
    assert_eq!(voxov::codec::u64_to_dec(0), "0");
}

#[test]
fn insufficient_credit_rejected() {
    let mut api = new_api();
    let (access, _refresh, uid) = register(&mut api);
    // A fresh user has zero credit and a negative floor; a budget beyond
    // the floor is rejected before any work runs.
    let mut costs = budget();
    costs.time = i64::MAX / 2;
    let before = credit_of(&api.db, &uid);
    let head = voxov::ir::Head { access, costs, fed: None };
    let q = Query::MemeMeta { head, hash: [0u8; 32] };
    assert_eq!(
        api.handle_at(q, NOW).unwrap_err(),
        Error::CostInsufficientCredit
    );
    assert_eq!(credit_of(&api.db, &uid), before);
}

#[test]
fn duplicate_private_put_refused() {
    let mut api = new_api();
    let (access, _refresh, uid) = register(&mut api);
    seed_credit(&mut api, &uid, 10_000_000_000);
    let q = Query::MemePut { head: head(access), days: 1, raw: vec![b"once".to_vec()] };
    api.handle_at(q, NOW).unwrap();
    // A second private put of the same body by the same owner is refused:
    // at most one private row per owner and hash.
    let q2 = Query::MemePut { head: head(access), days: 1, raw: vec![b"once".to_vec()] };
    assert_eq!(api.handle_at(q2, NOW).unwrap_err(), Error::MemePut);
    assert_eq!(api.db.mm.len(), 1);
}

#[test]
fn msg_read_is_for_the_recipient() {
    let mut api = new_api();
    let (s_access, _r1, _sender) = register(&mut api);
    seed_credit(&mut api, &_sender, 10_000_000_000);
    let (r_access, _r2, receiver) = register_phone(&mut api, "+15559876543");
    seed_credit(&mut api, &receiver, 10_000_000_000);
    let send = MsgRequest::Send(MsgSend {
        id: None,
        eol: NOW / 1000 + 86400,
        to: receiver,
        tip: 0,
        kind: "text".to_string(),
        value: "hi".to_string(),
    });
    let q = Query::GeneCall {
        head: head(s_access),
        gid: "msg_1".to_string(),
        arg: GeneArg::MsgArg(send),
    };
    match api.handle_at(q, NOW).unwrap() {
        Reply::GeneCall { result, .. } => assert_eq!(result, "{}"),
        _ => panic!(),
    }
    let msg_id = api.db.map1[0].id;

    // The sender may not mark the message read; the receiver may.
    let q_sender = Query::GeneCall {
        head: head(s_access),
        gid: "msg_1".to_string(),
        arg: GeneArg::MsgArg(MsgRequest::Read { id: msg_id }),
    };
    assert_eq!(api.handle_at(q_sender, NOW).unwrap_err(), Error::GeneMapNotFound);
    let q_receiver = Query::GeneCall {
        head: head(r_access),
        gid: "msg_1".to_string(),
        arg: GeneArg::MsgArg(MsgRequest::Read { id: msg_id }),
    };
    match api.handle_at(q_receiver, NOW).unwrap() {
        Reply::GeneCall { result, .. } => assert_eq!(result, "{}"),
        _ => panic!(),
    }
    assert!(matches!(api.db.map1[0].keys[3], Value::Int(_)));
}

#[test]
fn unknown_gene_id_rejected() {
    let mut api = new_api();
    let (access, _refresh, uid) = register(&mut api);
    seed_credit(&mut api, &uid, 10_000_000_000);
    let q = Query::GeneCall {
        head: head(access),
        gid: "file_1".to_string(),
        arg: GeneArg::Text(String::new()),
    };
    assert_eq!(api.handle_at(q, NOW).unwrap_err(), Error::GeneInvalidId);
}

#[test]
fn response_parts_render_the_reply() {
    let mut api = new_api();
    let (access, refresh) = start(&mut api);
    let rep = Reply::AuthSessionStart { access, refresh };
    let (status, hs, body) = rep.to_response_parts();
    assert_eq!(status, 200);
    assert_eq!(hs[0], ("type".to_string(), "AuthSessionStart".to_string()));
    assert_eq!(hs[1], ("access".to_string(), access.to_hex()));
    assert_eq!(hs[2], ("refresh".to_string(), refresh.to_hex()));
    assert!(body.is_empty());

    let (status, hs, body) = (Reply::Error { error: Error::CostTime }).to_response_parts();
    assert_eq!(status, 500);
    assert_eq!(hs[1], ("error".to_string(), "CostTime".to_string()));
    assert!(body.is_empty());

    let (status, _hs, body) = Reply::Pong.to_response_parts();
    assert_eq!(status, 200);
    assert_eq!(body, b"PONG".to_vec());

    let echo = Costs { time: 7, space: 8, traffic: 9, tip: 10 };
    let (_status, hs, body) =
        (Reply::MemeGet { changes: echo, raw: b"xyz".to_vec() }).to_response_parts();
    assert_eq!(hs[1], ("time".to_string(), "7".to_string()));
    assert_eq!(hs[4], ("tip".to_string(), "10".to_string()));
    assert_eq!(body, b"xyz".to_vec());
}

#[test]
fn ripper_removes_expired_memes_and_objects() {
    let mut api = new_api();
    let (access, _refresh, uid) = register(&mut api);
    seed_credit(&mut api, &uid, 10_000_000_000);
    let q = Query::MemePut { head: head(access), days: 1, raw: vec![b"fresh".to_vec()] };
    api.handle_at(q, NOW).unwrap();
    let q2 = Query::MemePut { head: head(access), days: 3, raw: vec![b"durable".to_vec()] };
    api.handle_at(q2, NOW).unwrap();
    assert_eq!(api.db.mm.len(), 2);

    let ripper = Ripperd::new(&Config::new());
    let two_days_on = NOW + 2 * 86400 * 1000;
    ripper.rip(&mut api.db, two_days_on);
    // The one-day meme and its object are gone; the three-day one stays.
    assert_eq!(api.db.mm.len(), 1);
    let survivor = api.db.mm[0].oid;
    assert_eq!(api.db.mr.exits(survivor.to_vec().as_slice(), two_days_on), 1);
}
