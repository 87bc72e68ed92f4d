use peer_registry::database::{
    is_peer_id_unique_violation, Database, DbError, DbPool, RenamePeerResult, RenameReply,
    RenameStage,
};
use peer_registry::peer::{
    data_dir, db_url, DataDir, Lookup, Peer, PeerInfo, PeerMap, PeerRenameAction, PeerRenameReply,
    PeerRenameStage, PkUpdate, RegisterPkResult, SocketAddress, DAY_SECONDS, IP_BLOCK_DUR,
    IP_CHANGE_DUR, IP_CHANGE_DUR_X2,
};
use peer_registry::query::{Param, Query};
use peer_registry::text::{contains, parse_count};
use std::sync::Arc;

fn database() -> Database {
    Database::new("peers.sqlite3", None)
}

fn peers() -> PeerMap<u32> {
    PeerMap::new(None, DataDir::Working, None)
}

fn refused(code: Option<&str>, message: &str) -> DbError {
    DbError::Database {
        code: code.map(|c| c.to_owned()),
        message: message.to_owned(),
    }
}

fn offline() -> DbError {
    DbError::Other {
        message: "offline".to_owned(),
    }
}

fn text(param: &Param) -> String {
    match param {
        Param::Text(text) => text.clone(),
        Param::Blob(_) => panic!("a blob"),
    }
}

fn blob(param: &Param) -> Vec<u8> {
    match param {
        Param::Blob(bytes) => bytes.clone(),
        Param::Text(_) => panic!("a text"),
    }
}

#[test]
fn substring_search() {
    assert!(contains("abc", ""));
    assert!(contains("", ""));
    assert!(contains("abc", "abc"));
    assert!(contains("xabc", "abc"));
    assert!(contains("aab", "ab"));
    assert!(contains("näher", "äh"));
    assert!(!contains("abc", "abcd"));
    assert!(!contains("abc", "ac"));
    assert!(!contains("", "a"));
}

#[test]
fn counts_agree_with_std() {
    let samples = [
        "", "0", "1", "7", "007", "+5", "+", "-1", "-0", "++1", " 1", "1 ", "1_000", "1.0", "ten",
        "0x10", "18446744073709551615", "18446744073709551616", "99999999999999999999999",
        "00000000000000000000000000000001", "4294967296", "１",
    ];
    for sample in samples {
        assert_eq!(parse_count(sample), sample.parse::<usize>().ok(), "{sample}");
    }
    assert_eq!(parse_count("007"), Some(7));
    assert_eq!(parse_count("+5"), Some(5));
    assert_eq!(parse_count("+"), None);
}

#[test]
fn database_configuration() {
    let db = Database::new("./db.sqlite3", Some("8"));
    assert_eq!(db.pool.url, "./db.sqlite3");
    assert_eq!(db.max_connections, 8);
    assert_eq!(Database::new("x", None).max_connections, 1);
    assert_eq!(Database::new("x", Some("many")).max_connections, 1);
    assert_eq!(Database::new("x", Some("")).max_connections, 1);
    assert_eq!(Database::new("x", Some("0")).max_connections, 0);
    let pool = DbPool {
        url: "y".to_owned(),
    };
    assert_eq!(pool.url, "y");
}

#[test]
fn places_of_the_database() {
    assert_eq!(
        db_url(Some("/data/peers".to_owned()), DataDir::Working),
        "/data/peers"
    );
    assert_eq!(db_url(Some("".to_owned()), DataDir::Unnamed), "");
    assert_eq!(db_url(None, DataDir::Working), "./db_v2.sqlite3");
    assert_eq!(db_url(None, DataDir::Unnamed), "db_v2.sqlite3");
    assert_eq!(
        db_url(None, DataDir::Folder(Some("C:\\hbbs".to_owned()))),
        "C:\\hbbs\\db_v2.sqlite3"
    );
    assert_eq!(db_url(None, DataDir::Folder(None)), ".\\db_v2.sqlite3");
    let map: PeerMap<u32> = PeerMap::new(None, DataDir::Working, Some("3"));
    assert_eq!(map.db.pool.url, "./db_v2.sqlite3");
    assert_eq!(map.db.max_connections, 3);
    assert!(!map.is_in_memory("123456789"));
}

#[test]
fn unique_violations() {
    assert!(is_peer_id_unique_violation(&refused(Some("2067"), "")));
    assert!(is_peer_id_unique_violation(&refused(
        None,
        "error: UNIQUE constraint failed: peer.id (1)"
    )));
    assert!(is_peer_id_unique_violation(&refused(
        Some("19"),
        "UNIQUE constraint failed: peer.id"
    )));
    assert!(!is_peer_id_unique_violation(&refused(
        Some("1555"),
        "UNIQUE constraint failed: peer.guid"
    )));
    assert!(!is_peer_id_unique_violation(&refused(Some("12067"), "")));
    assert!(!is_peer_id_unique_violation(&refused(None, "")));
    assert!(!is_peer_id_unique_violation(&DbError::Other {
        message: "UNIQUE constraint failed: peer.id".to_owned(),
    }));
}

#[test]
fn statements_and_their_values() {
    let db = database();
    assert!(db.create_tables().sql().contains("create unique index if not exists index_peer_id on peer (id);"));
    assert!(db.create_tables().params().is_empty());

    let get = db.get_peer("farm-pc01");
    assert_eq!(
        get.sql(),
        "select guid, id, uuid, pk, user, status, info from peer where id = ?"
    );
    let params = get.params();
    assert_eq!(params.len(), 1);
    assert_eq!(text(&params[0]), "farm-pc01");

    let insert = db.insert_peer_as(b"guid", "id", b"uuid", b"pk", "info");
    assert_eq!(
        insert.sql(),
        "insert into peer(guid, id, uuid, pk, info) values(?, ?, ?, ?, ?)"
    );
    let params = insert.params();
    assert_eq!(params.len(), 5);
    assert_eq!(blob(&params[0]), b"guid");
    assert_eq!(text(&params[1]), "id");
    assert_eq!(blob(&params[2]), b"uuid");
    assert_eq!(blob(&params[3]), b"pk");
    assert_eq!(text(&params[4]), "info");

    let update = db.update_pk(&b"guid".to_vec(), "id", b"pk", "info");
    assert_eq!(update.sql(), "update peer set id=?, pk=?, info=? where guid=?");
    let params = update.params();
    assert_eq!(params.len(), 4);
    assert_eq!(text(&params[0]), "id");
    assert_eq!(blob(&params[1]), b"pk");
    assert_eq!(text(&params[2]), "info");
    assert_eq!(blob(&params[3]), b"guid");

    let rename = db.rename_peer("old", "new", b"uuid").query();
    assert_eq!(rename.sql(), "update peer set id=? where id=? and uuid=?");
    let params = rename.params();
    assert_eq!(params.len(), 3);
    assert_eq!(text(&params[0]), "new");
    assert_eq!(text(&params[1]), "old");
    assert_eq!(blob(&params[2]), b"uuid");
}

#[test]
fn fresh_guids() {
    let db = database();
    let (first, query) = db.insert_peer("id", b"uuid", b"pk", "info");
    let (second, _) = db.insert_peer("id", b"uuid", b"pk", "info");
    assert_eq!(first.len(), 16);
    assert_eq!(first[6] >> 4, 4);
    assert_eq!(first[8] >> 6, 2);
    assert_ne!(first, second);
    assert!(matches!(query, Query::InsertPeer { guid, .. } if guid == first));
}

#[test]
fn rename_takes_three_questions_at_most() {
    let db = database();

    let mut rename = db.rename_peer("old", "new", b"uuid");
    assert!(matches!(rename.query(), Query::RenamePeer { .. }));
    assert!(matches!(
        rename.resume(RenameReply::Updated(Ok(1))),
        Some(Ok(RenamePeerResult::Renamed))
    ));

    let mut rename = db.rename_peer("old", "new", b"uuid");
    assert!(matches!(
        rename.resume(RenameReply::Updated(Err(refused(Some("2067"), "")))),
        Some(Ok(RenamePeerResult::IdExists))
    ));

    let mut rename = db.rename_peer("old", "new", b"uuid");
    assert!(matches!(
        rename.resume(RenameReply::Updated(Err(offline()))),
        Some(Err(DbError::Other { message })) if message == "offline"
    ));

    let mut rename = db.rename_peer("old", "new", b"uuid");
    assert!(rename.resume(RenameReply::Updated(Ok(0))).is_none());
    assert_eq!(rename.stage, RenameStage::CheckOld);
    assert!(matches!(rename.query(), Query::SelectUuid { id } if id == "old"));
    assert!(matches!(
        rename.resume(RenameReply::Uuid(Ok(Some(b"other".to_vec())))),
        Some(Ok(RenamePeerResult::UuidMismatch))
    ));

    for (stored, expected) in [
        (Some(b"uuid".to_vec()), RenamePeerResult::Renamed),
        (Some(b"other".to_vec()), RenamePeerResult::IdExists),
        (None, RenamePeerResult::OldIdNotFound),
    ] {
        let mut rename = db.rename_peer("old", "new", b"uuid");
        assert!(rename.resume(RenameReply::Updated(Ok(0))).is_none());
        assert!(rename.resume(RenameReply::Uuid(Ok(None))).is_none());
        assert_eq!(rename.stage, RenameStage::CheckNew);
        assert!(matches!(rename.query(), Query::SelectUuid { id } if id == "new"));
        match rename.resume(RenameReply::Uuid(Ok(stored))) {
            Some(Ok(result)) => assert_eq!(result, expected),
            _ => panic!("no answer"),
        }
    }

    let mut rename = db.rename_peer("old", "new", b"uuid");
    assert!(rename.resume(RenameReply::Updated(Ok(0))).is_none());
    assert!(matches!(
        rename.resume(RenameReply::Uuid(Err(refused(Some("2067"), "busy")))),
        Some(Err(DbError::Database { message, .. })) if message == "busy"
    ));
}

#[test]
fn info_as_json() {
    let json = |ip: &str| PeerInfo { ip: ip.to_owned() }.to_json();
    assert_eq!(json("10.0.0.1"), r#"{"ip":"10.0.0.1"}"#);
    assert_eq!(PeerInfo::default().to_json(), r#"{"ip":""}"#);
    assert_eq!(json("a\"b\\c/d"), "{\"ip\":\"a\\\"b\\\\c/d\"}");
    assert_eq!(
        json("\u{8}\t\n\u{c}\r\u{0}\u{1f}\u{7f}é"),
        "{\"ip\":\"\\b\\t\\n\\f\\r\\u0000\\u001f\u{7f}é\"}"
    );
    assert_ne!(json("\\n"), json("\n"));
    assert_ne!(json("\\u0001"), json("\u{1}"));
    let mut object = serde_json::Map::new();
    object.insert(
        "ip".to_owned(),
        serde_json::Value::String("fe80::1%\u{1}\"".to_owned()),
    );
    assert_eq!(
        json("fe80::1%\u{1}\""),
        serde_json::to_string(&object).unwrap()
    );
}

fn address(ip: [u8; 4], port: u16) -> SocketAddress {
    SocketAddress::V4 { ip: u32::from_be_bytes(ip), port }
}

#[test]
fn default_peer() {
    let peer = Peer::default(10u64, 20u64);
    assert_eq!(peer.socket_addr, address([0, 0, 0, 0], 0));
    assert_eq!(peer.socket_addr, SocketAddress::unspecified());
    assert_eq!(peer.last_reg_time, 10);
    assert!(peer.guid.is_empty() && peer.uuid.is_empty() && peer.pk.is_empty());
    assert_eq!(peer.info.ip, "");
    assert_eq!(peer.reg_pk, (0, 20));
}

#[test]
fn peer_of_a_row() {
    let row = || peer_registry::database::Peer {
        guid: b"guid".to_vec(),
        id: "farm-pc01".to_owned(),
        uuid: b"device-uuid".to_vec(),
        pk: b"peer-public-key".to_vec(),
        user: None,
        info: r#"{"ip":"10.0.0.1"}"#.to_owned(),
        status: None,
    };
    let info = PeerInfo {
        ip: "10.0.0.1".to_owned(),
    };
    let peer = Peer::from(row(), Some(info), 1u64, 2u64);
    assert_eq!(peer.guid, b"guid");
    assert_eq!(peer.uuid, b"device-uuid");
    assert_eq!(peer.pk, b"peer-public-key");
    assert_eq!(peer.info.ip, "10.0.0.1");
    assert_eq!(peer.socket_addr, address([0, 0, 0, 0], 0));
    assert_eq!(peer.last_reg_time, 1);
    assert_eq!(peer.reg_pk, (0, 2));
    let peer = Peer::from(row(), None, 1u64, 2u64);
    assert_eq!(peer.info.ip, "");

    let empty = peer_registry::database::Peer::default();
    assert!(empty.guid.is_empty() && empty.id.is_empty() && empty.uuid.is_empty());
    assert!(empty.pk.is_empty() && empty.user.is_none());
    assert!(empty.info.is_empty() && empty.status.is_none());
}

#[test]
fn first_registration_inserts_and_the_next_updates() {
    let db = database();
    let mut peer = Peer::default(0u64, 7u64);
    let update = PeerMap::<u32>::update_pk(
        &db,
        "farm-pc01",
        &mut peer,
        address([10, 0, 0, 1], 21116),
        b"uuid".to_vec(),
        b"pk".to_vec(),
        "10.0.0.1".to_owned(),
        100,
    );
    assert_eq!(peer.socket_addr, address([10, 0, 0, 1], 21116));
    assert_eq!(peer.last_reg_time, 100);
    assert_eq!(peer.uuid, b"uuid");
    assert_eq!(peer.pk, b"pk");
    assert_eq!(peer.info.ip, "10.0.0.1");
    assert_eq!(peer.reg_pk, (0, 7));
    assert!(peer.guid.is_empty());
    let guid = match &update {
        PkUpdate::Insert { guid, query: Query::InsertPeer { guid: sent, id, uuid, pk, info } } => {
            assert_eq!(guid, sent);
            assert_eq!(id, "farm-pc01");
            assert_eq!(uuid, b"uuid");
            assert_eq!(pk, b"pk");
            assert_eq!(info, r#"{"ip":"10.0.0.1"}"#);
            guid.clone()
        }
        _ => panic!("not inserted"),
    };
    assert_eq!(update.finish(&mut peer, Ok(())), RegisterPkResult::OK);
    assert_eq!(peer.guid, guid);

    let update = PeerMap::<u32>::update_pk(
        &db,
        "farm-pc01",
        &mut peer,
        address([10, 0, 0, 2], 21116),
        b"uuid".to_vec(),
        b"pk2".to_vec(),
        "10.0.0.2".to_owned(),
        200,
    );
    match &update {
        PkUpdate::Update { query: Query::UpdatePk { guid: sent, id, pk, info } } => {
            assert_eq!(sent, &guid);
            assert_eq!(id, "farm-pc01");
            assert_eq!(pk, b"pk2");
            assert_eq!(info, r#"{"ip":"10.0.0.2"}"#);
        }
        _ => panic!("not updated"),
    }
    assert_eq!(update.finish(&mut peer, Ok(())), RegisterPkResult::OK);
    assert_eq!(peer.guid, guid);
}

#[test]
fn failed_registration_leaves_the_guid_empty() {
    let db = database();
    let mut peer = Peer::default(0u64, 7u64);
    let register = |peer: &mut Peer<u64>| {
        PeerMap::<u32>::update_pk(
            &db,
            "farm-pc01",
            peer,
            address([10, 0, 0, 1], 21116),
            b"uuid".to_vec(),
            b"pk".to_vec(),
            "10.0.0.1".to_owned(),
            100,
        )
    };
    let update = register(&mut peer);
    assert_eq!(
        update.finish(&mut peer, Err(offline())),
        RegisterPkResult::SERVER_ERROR
    );
    assert!(peer.guid.is_empty());
    assert_eq!(peer.pk, b"pk");

    peer.guid = b"guid".to_vec();
    let update = register(&mut peer);
    assert_eq!(
        update.finish(&mut peer, Err(offline())),
        RegisterPkResult::SERVER_ERROR
    );
    assert_eq!(peer.guid, b"guid");
}

#[test]
fn look_ups() {
    let mut map = peers();
    assert!(matches!(
        map.get("123456789"),
        Lookup::Ask(Query::GetPeer { id }) if id == "123456789"
    ));
    assert!(map.get_loaded("123456789", Ok(None)).is_none());
    assert!(map.get_loaded("123456789", Err(offline())).is_none());
    assert!(!map.is_in_memory("123456789"));

    let peer = Arc::new(1);
    let found = map.get_loaded("123456789", Ok(Some(peer.clone()))).unwrap();
    assert!(Arc::ptr_eq(&peer, &found));
    match map.get("123456789") {
        Lookup::Found(found) => assert!(Arc::ptr_eq(&peer, &found)),
        Lookup::Ask(_) => panic!("not in memory"),
    }
    assert!(map.is_in_memory("123456789"));
    assert!(map.get_in_memory("farm-pc01").is_none());
}

#[test]
fn fresh_peer_is_entered_once() {
    let mut map = peers();
    let first = Arc::new(1);
    let second = Arc::new(2);
    assert!(Arc::ptr_eq(&first, &map.get_or("id", Ok(None), first.clone())));
    assert!(Arc::ptr_eq(&first, &map.get_or("id", Ok(None), second.clone())));
    assert!(Arc::ptr_eq(&first, &map.get_in_memory("id").unwrap()));
}

#[test]
fn fresh_peer_gives_way_to_a_known_one() {
    let fresh = Arc::new(0);
    let known = Arc::new(1);

    let mut map = peers();
    let peer = map.get_or("id", Ok(Some(known.clone())), fresh.clone());
    assert!(Arc::ptr_eq(&known, &peer));
    assert!(Arc::ptr_eq(&known, &map.get_in_memory("id").unwrap()));

    let mut map = peers();
    let other = map.get_or("other", Ok(None), Arc::new(7));
    let peer = map.get_or("id", Err(offline()), fresh.clone());
    assert!(Arc::ptr_eq(&fresh, &peer));
    assert!(Arc::ptr_eq(&fresh, &map.get_in_memory("id").unwrap()));
    assert!(Arc::ptr_eq(&other, &map.get_in_memory("other").unwrap()));
}

#[test]
fn default_directories() {
    let folder = || Some(Some("C:\\hbbs".to_owned()));
    assert!(matches!(data_dir(false, false, folder()), DataDir::Working));
    assert!(matches!(data_dir(false, true, None), DataDir::Working));
    assert!(matches!(
        data_dir(true, false, folder()),
        DataDir::Folder(Some(path)) if path == "C:\\hbbs"
    ));
    assert!(matches!(data_dir(true, false, Some(None)), DataDir::Folder(None)));
    assert!(matches!(data_dir(true, false, None), DataDir::Unnamed));
    assert!(matches!(data_dir(true, true, folder()), DataDir::Unnamed));
}

#[test]
fn copies() {
    let db = Database::new("peers.sqlite3", Some("4"));
    let copy = db.clone();
    assert_eq!(copy.pool.url, "peers.sqlite3");
    assert_eq!(copy.max_connections, 4);
    let info = PeerInfo { ip: "10.0.0.1".to_owned() };
    assert_eq!(info.clone().ip, "10.0.0.1");
}

#[test]
fn rename_answers_for_each_reply() {
    for (reply, expected) in [
        (Ok(RenamePeerResult::IdExists), RegisterPkResult::ID_EXISTS),
        (Ok(RenamePeerResult::OldIdNotFound), RegisterPkResult::UUID_MISMATCH),
        (Ok(RenamePeerResult::UuidMismatch), RegisterPkResult::UUID_MISMATCH),
        (Err(offline()), RegisterPkResult::SERVER_ERROR),
    ] {
        let mut map = peers();
        let peer = map.get_or("old", Ok(None), Arc::new(1));
        let mut rename = map.rename_peer("old", "new", b"uuid");
        assert!(matches!(rename.action(), PeerRenameAction::Rename(r) if r.old_id == "old"
            && r.new_id == "new" && r.uuid == b"uuid" && r.stage == RenameStage::Update));
        assert_eq!(
            map.resume_rename(&mut rename, PeerRenameReply::Renamed(reply)),
            Some(expected)
        );
        assert!(Arc::ptr_eq(&peer, &map.get_in_memory("old").unwrap()));
        assert!(!map.is_in_memory("new"));
    }
}

#[test]
fn rename_reads_the_uuid_of_a_peer_in_the_way() {
    for (existing, expected) in [
        (b"".to_vec(), Some(RegisterPkResult::ID_EXISTS)),
        (b"other".to_vec(), Some(RegisterPkResult::ID_EXISTS)),
        (b"uuid".to_vec(), None),
    ] {
        let mut map = peers();
        map.get_or("new", Ok(None), Arc::new(1));
        let mut rename = map.rename_peer("old", "new", b"uuid");
        assert_eq!(rename.stage, PeerRenameStage::ReadUuid);
        assert!(matches!(rename.action(), PeerRenameAction::ReadUuid { id } if id == "new"));
        assert_eq!(
            map.resume_rename(&mut rename, PeerRenameReply::Uuid(existing)),
            expected
        );
        if expected.is_none() {
            assert_eq!(rename.stage, PeerRenameStage::Rename);
        }
    }
    let mut map = peers();
    map.get_or("same", Ok(None), Arc::new(1));
    let rename = map.rename_peer("same", "same", b"uuid");
    assert_eq!(rename.stage, PeerRenameStage::Rename);
}

#[test]
fn rename_to_the_same_id_keeps_the_peer() {
    let mut map = peers();
    let peer = map.get_or("same", Ok(None), Arc::new(1));
    let mut rename = map.rename_peer("same", "same", b"uuid");
    assert_eq!(
        map.resume_rename(
            &mut rename,
            PeerRenameReply::Renamed(Ok(RenamePeerResult::Renamed))
        ),
        Some(RegisterPkResult::OK)
    );
    assert!(Arc::ptr_eq(&peer, &map.get_in_memory("same").unwrap()));
}

#[test]
fn rename_of_a_peer_out_of_memory_loads_it() {
    let begin = || {
        let mut map = peers();
        let mut rename = map.rename_peer("old", "new", b"uuid");
        assert_eq!(
            map.resume_rename(
                &mut rename,
                PeerRenameReply::Renamed(Ok(RenamePeerResult::Renamed))
            ),
            None
        );
        assert!(matches!(
            rename.action(),
            PeerRenameAction::Load(Query::GetPeer { id }) if id == "new"
        ));
        (map, rename)
    };
    let (mut map, mut rename) = begin();
    let peer = Arc::new(1);
    assert_eq!(
        map.resume_rename(&mut rename, PeerRenameReply::Loaded(Ok(Some(peer.clone())))),
        Some(RegisterPkResult::OK)
    );
    assert!(Arc::ptr_eq(&peer, &map.get_in_memory("new").unwrap()));

    let (mut map, mut rename) = begin();
    assert_eq!(
        map.resume_rename(&mut rename, PeerRenameReply::Loaded(Ok(None))),
        Some(RegisterPkResult::SERVER_ERROR)
    );
    assert!(!map.is_in_memory("new"));

    let (mut map, mut rename) = begin();
    assert_eq!(
        map.resume_rename(&mut rename, PeerRenameReply::Loaded(Err(offline()))),
        Some(RegisterPkResult::SERVER_ERROR)
    );
    assert!(!map.is_in_memory("new"));
}

#[test]
fn durations() {
    assert_eq!(IP_CHANGE_DUR, 180);
    assert_eq!(IP_CHANGE_DUR_X2, 360);
    assert_eq!(DAY_SECONDS, 86400);
    assert_eq!(IP_BLOCK_DUR, 60);
}
