//! The library at work with a SQLite database in memory.

use peer_registry::database::{
    Database, DbError, Peer as PeerRow, Rename, RenamePeerResult, RenameReply, RenameStage,
};
use peer_registry::peer::{
    DataDir, Lookup, Peer, PeerInfo, PeerMap, PeerRename, PeerRenameAction, PeerRenameReply, PkUpdate,
    RegisterPkResult, SocketAddress,
};
use peer_registry::query::{Param, Query};
use sqlx::{Connection, Row, SqliteConnection};
use std::future::Future;
use std::sync::Arc;
use tokio::sync::{Mutex, RwLock};

type LivePeer = Peer<u64>;
type LockPeer = Arc<RwLock<LivePeer>>;

fn run<F: Future>(work: F) -> F::Output {
    tokio::runtime::Builder::new_multi_thread()
        .enable_all()
        .build()
        .unwrap()
        .block_on(work)
}

fn db_error(err: sqlx::Error) -> DbError {
    match err {
        sqlx::Error::Database(err) => DbError::Database {
            code: err.code().map(|code| code.into_owned()),
            message: err.message().to_owned(),
        },
        err => DbError::Other {
            message: err.to_string(),
        },
    }
}

type Bound = sqlx::query::Query<'static, sqlx::Sqlite, sqlx::sqlite::SqliteArguments<'static>>;

fn bound(query: &Query) -> Bound {
    let mut bound = sqlx::query(query.sql());
    for param in query.params() {
        bound = match param {
            Param::Text(text) => bound.bind(text),
            Param::Blob(bytes) => bound.bind(bytes),
        };
    }
    bound
}

struct Store {
    conn: Mutex<SqliteConnection>,
    plan: Database,
}

impl Store {
    async fn open() -> Store {
        let store = Store {
            conn: Mutex::new(SqliteConnection::connect("sqlite::memory:").await.unwrap()),
            plan: Database::new("sqlite::memory:", None),
        };
        store.execute(&store.plan.create_tables()).await.unwrap();
        store
    }

    async fn execute(&self, query: &Query) -> Result<u64, DbError> {
        let mut conn = self.conn.lock().await;
        let done = bound(query).execute(&mut *conn).await;
        done.map(|done| done.rows_affected()).map_err(db_error)
    }

    async fn uuid(&self, query: &Query) -> Result<Option<Vec<u8>>, DbError> {
        let mut conn = self.conn.lock().await;
        let row = bound(query).fetch_optional(&mut *conn).await;
        row.map(|row| row.map(|row| row.get(0))).map_err(db_error)
    }

    async fn peer(&self, query: &Query) -> Result<Option<PeerRow>, DbError> {
        let mut conn = self.conn.lock().await;
        let row = bound(query).fetch_optional(&mut *conn).await;
        row.map_err(db_error).map(|row| {
            row.map(|row| PeerRow {
                guid: row.get("guid"),
                id: row.get("id"),
                uuid: row.get("uuid"),
                pk: row.get("pk"),
                user: row.get("user"),
                info: row.get("info"),
                status: row.get("status"),
            })
        })
    }

    async fn get_peer(&self, id: &str) -> Option<PeerRow> {
        self.peer(&self.plan.get_peer(id)).await.unwrap()
    }

    async fn insert_peer(&self, id: &str, uuid: &[u8], pk: &[u8], info: &str) -> Vec<u8> {
        let (guid, query) = self.plan.insert_peer(id, uuid, pk, info);
        assert_eq!(self.execute(&query).await.unwrap(), 1);
        guid
    }

    async fn insert_test_peer(&self, id: &str, uuid: &[u8]) {
        self.insert_peer(id, uuid, b"peer-public-key", r#"{"ip":"10.0.0.1"}"#)
            .await;
    }

    async fn resume(&self, mut rename: Rename) -> Result<RenamePeerResult, DbError> {
        loop {
            let reply = match rename.stage {
                RenameStage::Update => RenameReply::Updated(self.execute(&rename.query()).await),
                RenameStage::CheckOld | RenameStage::CheckNew => {
                    RenameReply::Uuid(self.uuid(&rename.query()).await)
                }
            };
            if let Some(answer) = rename.resume(reply) {
                return answer;
            }
        }
    }

    async fn rename_peer(&self, old_id: &str, new_id: &str, uuid: &[u8]) -> RenamePeerResult {
        self.resume(self.plan.rename_peer(old_id, new_id, uuid))
            .await
            .unwrap()
    }
}

struct Peers {
    map: RwLock<PeerMap<RwLock<LivePeer>>>,
    store: Store,
}

fn fresh() -> LivePeer {
    Peer::default(0, 0)
}

fn live(row: PeerRow) -> LockPeer {
    let info = serde_json::from_str::<serde_json::Value>(&row.info)
        .ok()
        .and_then(|value| value.get("ip")?.as_str().map(|ip| ip.to_owned()))
        .map(|ip| PeerInfo { ip });
    Arc::new(RwLock::new(Peer::from(row, info, 0, 0)))
}

impl Peers {
    async fn with_peer(id: &str, uuid: &[u8]) -> Peers {
        let store = Store::open().await;
        store.insert_test_peer(id, uuid).await;
        Peers {
            map: RwLock::new(PeerMap::new(None, DataDir::Working, None)),
            store,
        }
    }

    async fn get(&self, id: &str) -> Option<LockPeer> {
        let query = match self.map.read().await.get(id) {
            Lookup::Found(peer) => return Some(peer),
            Lookup::Ask(query) => query,
        };
        let reply = self.store.peer(&query).await.map(|row| row.map(live));
        self.map.write().await.get_loaded(id, reply)
    }

    async fn get_or(&self, id: &str) -> LockPeer {
        let query = match self.map.read().await.get(id) {
            Lookup::Found(peer) => return peer,
            Lookup::Ask(query) => query,
        };
        let reply = self.store.peer(&query).await.map(|row| row.map(live));
        let placeholder = Arc::new(RwLock::new(fresh()));
        self.map.write().await.get_or(id, reply, placeholder)
    }

    fn restart(self) -> Peers {
        Peers {
            map: RwLock::new(PeerMap::new(None, DataDir::Working, None)),
            store: self.store,
        }
    }

    async fn get_in_memory(&self, id: &str) -> Option<LockPeer> {
        self.map.read().await.get_in_memory(id)
    }

    async fn step_on(
        &self,
        peers: &mut PeerMap<RwLock<LivePeer>>,
        rename: &mut PeerRename,
    ) -> Option<RegisterPkResult> {
        let reply = match rename.action() {
            PeerRenameAction::ReadUuid { id } => {
                let existing = peers.get_in_memory(&id).unwrap();
                let uuid = existing.read().await.uuid.clone();
                PeerRenameReply::Uuid(uuid)
            }
            PeerRenameAction::Rename(rename) => {
                PeerRenameReply::Renamed(self.store.resume(rename).await)
            }
            PeerRenameAction::Load(query) => {
                PeerRenameReply::Loaded(self.store.peer(&query).await.map(|row| row.map(live)))
            }
        };
        peers.resume_rename(rename, reply)
    }

    async fn step(&self, rename: &mut PeerRename) -> Option<RegisterPkResult> {
        self.step_on(&mut *self.map.write().await, rename).await
    }

    async fn rename_peer(&self, old_id: &str, new_id: &str, uuid: &[u8]) -> RegisterPkResult {
        let mut peers = self.map.write().await;
        let mut rename = peers.rename_peer(old_id, new_id, uuid);
        loop {
            if let Some(answer) = self.step_on(&mut peers, &mut rename).await {
                return answer;
            }
        }
    }

    async fn update_pk(
        &self,
        id: &str,
        peer: &LockPeer,
        uuid: &[u8],
        pk: &[u8],
        ip: &str,
    ) -> RegisterPkResult {
        let update = PeerMap::<RwLock<LivePeer>>::update_pk(
            &self.store.plan,
            id,
            &mut *peer.write().await,
            SocketAddress::V4 { ip: 0x0a00_0009, port: 21116 },
            uuid.to_vec(),
            pk.to_vec(),
            ip.to_owned(),
            1,
        );
        let query = match &update {
            PkUpdate::Insert { query, .. } => query,
            PkUpdate::Update { query } => query,
        };
        let reply = self.store.execute(query).await.map(|_| ());
        update.finish(&mut *peer.write().await, reply)
    }
}

#[test]
fn test_insert() {
    run(async {
        let db = Arc::new(Store::open().await);
        let mut jobs = vec![];
        for i in 0..10000 {
            let cloned = db.clone();
            let id = i.to_string();
            jobs.push(tokio::spawn(async move {
                let empty_vec = Vec::new();
                cloned.insert_peer(&id, &empty_vec, &empty_vec, "").await;
            }));
        }
        for job in jobs {
            job.await.unwrap();
        }
        let mut jobs = vec![];
        for i in 0..10000 {
            let cloned = db.clone();
            let id = i.to_string();
            jobs.push(tokio::spawn(async move {
                assert_eq!(cloned.get_peer(&id).await.unwrap().id, id);
            }));
        }
        for job in jobs {
            job.await.unwrap();
        }
    });
}

#[test]
fn test_rename_peer_preserves_peer_fields() {
    run(async {
        let db = Store::open().await;
        let old_id = "123456789";
        let new_id = "farm-pc01";
        let uuid = b"device-uuid";
        db.insert_test_peer(old_id, uuid).await;
        let guid = db.get_peer(old_id).await.unwrap().guid;

        let mut conn = db.conn.lock().await;
        sqlx::query("update peer set user=?, status=?, note=? where id=?")
            .bind(b"workshop".as_slice())
            .bind(0_i64)
            .bind("primary farm computer")
            .bind(old_id)
            .execute(&mut *conn)
            .await
            .unwrap();
        let created_at: String = sqlx::query_scalar("select created_at from peer where id=?")
            .bind(old_id)
            .fetch_one(&mut *conn)
            .await
            .unwrap();
        drop(conn);

        let result = db.rename_peer(old_id, new_id, uuid).await;

        assert_eq!(result, RenamePeerResult::Renamed);
        assert!(db.get_peer(old_id).await.is_none());
        let peer = db.get_peer(new_id).await.unwrap();
        assert_eq!(peer.guid, guid);
        assert_eq!(peer.uuid, uuid);
        assert_eq!(peer.pk, b"peer-public-key");
        assert_eq!(peer.user, Some(b"workshop".to_vec()));
        assert_eq!(peer.status, Some(0));
        assert_eq!(peer.info, r#"{"ip":"10.0.0.1"}"#);

        let mut conn = db.conn.lock().await;
        let row = sqlx::query("select created_at, note from peer where id=?")
            .bind(new_id)
            .fetch_one(&mut *conn)
            .await
            .unwrap();
        assert_eq!(row.get::<String, _>("created_at"), created_at);
        assert_eq!(row.get::<String, _>("note"), "primary farm computer");
    });
}

#[test]
fn test_rename_peer_rejects_uuid_mismatch() {
    run(async {
        let db = Store::open().await;
        db.insert_test_peer("123456789", b"owner-uuid").await;

        let result = db
            .rename_peer("123456789", "farm-pc01", b"different-uuid")
            .await;

        assert_eq!(result, RenamePeerResult::UuidMismatch);
        assert!(db.get_peer("123456789").await.is_some());
        assert!(db.get_peer("farm-pc01").await.is_none());
    });
}

#[test]
fn test_rename_peer_rejects_duplicate_id() {
    run(async {
        let db = Store::open().await;
        db.insert_test_peer("123456789", b"source-uuid").await;
        db.insert_test_peer("farm-pc01", b"target-uuid").await;

        let result = db
            .rename_peer("123456789", "farm-pc01", b"source-uuid")
            .await;

        assert_eq!(result, RenamePeerResult::IdExists);
        assert!(db.get_peer("123456789").await.is_some());
        let target = db.get_peer("farm-pc01").await.unwrap();
        assert_eq!(target.uuid, b"target-uuid");
    });
}

#[test]
fn test_rename_peer_is_idempotent_after_success() {
    run(async {
        let db = Store::open().await;
        let uuid = b"device-uuid";
        db.insert_test_peer("123456789", uuid).await;

        assert_eq!(
            db.rename_peer("123456789", "farm-pc01", uuid).await,
            RenamePeerResult::Renamed
        );
        assert_eq!(
            db.rename_peer("123456789", "farm-pc01", uuid).await,
            RenamePeerResult::Renamed
        );
    });
}

#[test]
fn test_rename_peer_reports_missing_old_id() {
    run(async {
        let db = Store::open().await;

        let result = db
            .rename_peer("123456789", "farm-pc01", b"device-uuid")
            .await;

        assert_eq!(result, RenamePeerResult::OldIdNotFound);
    });
}

#[test]
fn test_rename_peer_moves_same_live_peer_to_new_id() {
    run(async {
        let pm = Peers::with_peer("123456789", b"device-uuid").await;
        let old_peer = pm.get("123456789").await.unwrap();

        let result = pm
            .rename_peer("123456789", "farm-pc01", b"device-uuid")
            .await;

        assert_eq!(result, RegisterPkResult::OK);
        assert!(pm.get_in_memory("123456789").await.is_none());
        let new_peer = pm.get_in_memory("farm-pc01").await.unwrap();
        assert!(Arc::ptr_eq(&old_peer, &new_peer));
        assert!(pm.store.get_peer("123456789").await.is_none());
        assert!(pm.store.get_peer("farm-pc01").await.is_some());
    });
}

#[test]
fn test_rename_peer_rejects_in_memory_id_conflict() {
    run(async {
        let pm = Peers::with_peer("123456789", b"source-uuid").await;
        let conflicting_peer = Arc::new(RwLock::new(fresh()));
        conflicting_peer.write().await.uuid = b"target-uuid".to_vec();
        pm.map
            .write()
            .await
            .get_or("farm-pc01", Ok(None), conflicting_peer);

        let result = pm
            .rename_peer("123456789", "farm-pc01", b"source-uuid")
            .await;

        assert_eq!(result, RegisterPkResult::ID_EXISTS);
        assert!(pm.get_in_memory("123456789").await.is_none());
        assert!(pm.store.get_peer("123456789").await.is_some());
        assert!(pm.store.get_peer("farm-pc01").await.is_none());
    });
}

#[test]
fn test_rename_peer_maps_uuid_mismatch() {
    run(async {
        let pm = Peers::with_peer("123456789", b"owner-uuid").await;

        let result = pm
            .rename_peer("123456789", "farm-pc01", b"different-uuid")
            .await;

        assert_eq!(result, RegisterPkResult::UUID_MISMATCH);
        assert!(pm.store.get_peer("123456789").await.is_some());
    });
}

#[test]
fn test_rename_peer_retry_is_idempotent() {
    run(async {
        let pm = Peers::with_peer("123456789", b"device-uuid").await;
        let uuid = b"device-uuid";

        assert_eq!(
            pm.rename_peer("123456789", "farm-pc01", uuid).await,
            RegisterPkResult::OK
        );
        assert_eq!(
            pm.rename_peer("123456789", "farm-pc01", uuid).await,
            RegisterPkResult::OK
        );
        assert!(pm.get_in_memory("123456789").await.is_none());
        assert!(pm.get_in_memory("farm-pc01").await.is_some());
    });
}

#[test]
fn test_concurrent_renames_allow_only_one_owner() {
    run(async {
        let pm = Arc::new(Peers::with_peer("123456789", b"first-uuid").await);
        pm.store
            .insert_peer(
                "987654321",
                b"second-uuid",
                b"second-public-key",
                r#"{"ip":"10.0.0.2"}"#,
            )
            .await;

        let (one, other) = (pm.clone(), pm.clone());
        let first = tokio::spawn(async move {
            one.rename_peer("123456789", "farm-pc01", b"first-uuid").await
        });
        let second = tokio::spawn(async move {
            other.rename_peer("987654321", "farm-pc01", b"second-uuid").await
        });
        let first = first.await.unwrap();
        let second = second.await.unwrap();

        assert!(
            (first == RegisterPkResult::OK && second == RegisterPkResult::ID_EXISTS)
                || (first == RegisterPkResult::ID_EXISTS && second == RegisterPkResult::OK)
        );
        let winner = pm.store.get_peer("farm-pc01").await.unwrap();
        assert!(winner.uuid == b"first-uuid" || winner.uuid == b"second-uuid");
        let remaining_sources = pm.store.get_peer("123456789").await.is_some() as u8
            + pm.store.get_peer("987654321").await.is_some() as u8;
        assert_eq!(remaining_sources, 1);
    });
}

#[test]
fn old_id_stops_resolving() {
    run(async {
        let pm = Peers::with_peer("123456789", b"device-uuid").await;
        assert!(pm.get("123456789").await.is_some());
        assert_eq!(
            pm.rename_peer("123456789", "farm-pc01", b"device-uuid").await,
            RegisterPkResult::OK
        );
        assert!(pm.get("123456789").await.is_none());
        let peer = pm.get("farm-pc01").await.unwrap();
        assert_eq!(peer.read().await.uuid, b"device-uuid");
        assert_eq!(peer.read().await.info.ip, "10.0.0.1");
    });
}

#[test]
fn rename_out_of_memory_loads_the_peer() {
    run(async {
        let pm = Peers::with_peer("123456789", b"device-uuid").await;
        assert_eq!(
            pm.rename_peer("123456789", "farm-pc01", b"device-uuid").await,
            RegisterPkResult::OK
        );
        let peer = pm.get_in_memory("farm-pc01").await.unwrap();
        assert_eq!(peer.read().await.uuid, b"device-uuid");
        assert_eq!(peer.read().await.pk, b"peer-public-key");
        assert_eq!(peer.read().await.info.ip, "10.0.0.1");
    });
}

#[test]
fn an_unregistered_entry_under_the_old_id_is_moved_too() {
    run(async {
        let pm = Peers::with_peer("123456789", b"device-uuid").await;
        let rename = || pm.rename_peer("123456789", "farm-pc01", b"device-uuid");
        assert_eq!(rename().await, RegisterPkResult::OK);
        let empty = Arc::new(RwLock::new(fresh()));
        pm.map.write().await.get_or("123456789", Ok(None), empty.clone());
        assert_eq!(rename().await, RegisterPkResult::OK);
        assert!(Arc::ptr_eq(&empty, &pm.get_in_memory("farm-pc01").await.unwrap()));
        assert_eq!(rename().await, RegisterPkResult::ID_EXISTS);
    });
}

#[test]
fn questions_of_a_rename_change_nothing() {
    run(async {
        let db = Store::open().await;
        db.insert_test_peer("farm-pc01", b"device-uuid").await;
        let mut rename = db.plan.rename_peer("123456789", "farm-pc01", b"device-uuid");
        assert!(rename.resume(RenameReply::Updated(Ok(0))).is_none());
        let reply = db.uuid(&rename.query()).await;
        assert!(rename.resume(RenameReply::Uuid(reply)).is_none());
        assert_eq!(
            db.uuid(&rename.query()).await.unwrap(),
            Some(b"device-uuid".to_vec())
        );
        let peer = db.get_peer("farm-pc01").await.unwrap();
        assert_eq!(peer.uuid, b"device-uuid");
        assert_eq!(peer.pk, b"peer-public-key");
    });
}

#[test]
fn rename_to_its_own_id_is_accepted() {
    run(async {
        let pm = Peers::with_peer("123456789", b"device-uuid").await;
        assert_eq!(
            pm.rename_peer("123456789", "123456789", b"device-uuid").await,
            RegisterPkResult::OK
        );
        assert!(pm.store.get_peer("123456789").await.is_some());
    });
}

#[test]
fn unknown_peers_cannot_be_renamed() {
    run(async {
        let pm = Peers::with_peer("123456789", b"device-uuid").await;
        assert_eq!(
            pm.rename_peer("987654321", "farm-pc01", b"device-uuid").await,
            RegisterPkResult::UUID_MISMATCH
        );
        assert_eq!(
            pm.rename_peer("987654321", "123456789", b"other-uuid").await,
            RegisterPkResult::ID_EXISTS
        );
    });
}

#[test]
fn registrations_share_one_row() {
    run(async {
        let pm = Peers::with_peer("123456789", b"device-uuid").await;
        let peer = Arc::new(RwLock::new(fresh()));
        let uuid = b"new-uuid";
        assert_eq!(
            pm.update_pk("farm-pc01", &peer, uuid, b"first-key", "10.0.0.3").await,
            RegisterPkResult::OK
        );
        let row = pm.store.get_peer("farm-pc01").await.unwrap();
        assert_eq!(row.guid, peer.read().await.guid);
        assert_eq!(row.uuid, uuid);
        assert_eq!(row.pk, b"first-key");
        assert_eq!(row.info, r#"{"ip":"10.0.0.3"}"#);
        assert!(row.user.is_none() && row.status.is_none());

        assert_eq!(
            pm.update_pk("farm-pc02", &peer, uuid, b"second-key", "10.0.0.4").await,
            RegisterPkResult::OK
        );
        assert!(pm.store.get_peer("farm-pc01").await.is_none());
        let again = pm.store.get_peer("farm-pc02").await.unwrap();
        assert_eq!(again.guid, row.guid);
        assert_eq!(again.uuid, uuid);
        assert_eq!(again.pk, b"second-key");
        assert_eq!(again.info, r#"{"ip":"10.0.0.4"}"#);

        assert_eq!(
            pm.update_pk("123456789", &peer, uuid, b"third-key", "10.0.0.5").await,
            RegisterPkResult::SERVER_ERROR
        );
        let newcomer = Arc::new(RwLock::new(fresh()));
        assert_eq!(
            pm.update_pk("farm-pc02", &newcomer, b"x", b"y", "z").await,
            RegisterPkResult::SERVER_ERROR
        );
        assert!(newcomer.read().await.guid.is_empty());
        assert_eq!(pm.store.get_peer("farm-pc02").await.unwrap().pk, b"second-key");
    });
}

#[test]
fn registration_outlives_a_restart() {
    run(async {
        let pm = Peers::with_peer("123456789", b"device-uuid").await;
        let peer = pm.get_or("farm-pc01").await;
        assert_eq!(
            pm.update_pk("farm-pc01", &peer, b"new-uuid", b"key", "fe80::\"1\n").await,
            RegisterPkResult::OK
        );
        peer.write().await.reg_pk.0 = 3;
        let pm = pm.restart();
        assert!(pm.get_in_memory("farm-pc01").await.is_none());
        let again = pm.get("farm-pc01").await.unwrap();
        let (again, peer) = (again.read().await, peer.read().await);
        assert_eq!(again.guid, peer.guid);
        assert_eq!(again.uuid, b"new-uuid");
        assert_eq!(again.pk, b"key");
        assert_eq!(again.info.ip, "fe80::\"1\n");
        assert_eq!(again.socket_addr, SocketAddress::V4 { ip: 0, port: 0 });
        assert_eq!(again.reg_pk.0, 0);
    });
}

#[test]
fn rename_outlives_a_restart() {
    run(async {
        let pm = Peers::with_peer("123456789", b"device-uuid").await;
        let guid = pm.store.get_peer("123456789").await.unwrap().guid;
        assert_eq!(
            pm.rename_peer("123456789", "farm-pc01", b"device-uuid").await,
            RegisterPkResult::OK
        );
        let pm = pm.restart();
        assert!(pm.get_in_memory("farm-pc01").await.is_none());
        let peer = pm.get("farm-pc01").await.unwrap();
        assert_eq!(peer.read().await.uuid, b"device-uuid");
        assert_eq!(peer.read().await.guid, guid);
        assert_eq!(peer.read().await.pk, b"peer-public-key");
        assert!(pm.get("123456789").await.is_none());
    });
}

#[test]
fn different_peers_have_rows_of_their_own() {
    run(async {
        let pm = Peers::with_peer("123456789", b"device-uuid").await;
        let ids = ["farm-pc01", "farm-pc02", "farm-pc03"];
        let mut guids = vec![];
        for id in ids {
            guids.push(pm.store.insert_peer(id, id.as_bytes(), b"key", "{}").await);
        }
        for (id, guid) in ids.iter().zip(&guids) {
            let row = pm.store.get_peer(id).await.unwrap();
            assert_eq!(row.id, *id);
            assert_eq!(&row.guid, guid);
            assert_eq!(row.uuid, id.as_bytes());
            assert_eq!(row.pk, b"key");
            assert_eq!(row.info, "{}");
        }
        let kept = pm.store.get_peer("123456789").await.unwrap();
        assert_eq!(kept.uuid, b"device-uuid");
    });
}

#[test]
fn interleaved_renames_have_one_winner() {
    run(async {
        let pm = Peers::with_peer("123456789", b"first-uuid").await;
        pm.store.insert_test_peer("987654321", b"second-uuid").await;
        let mut first = pm.map.read().await.rename_peer("123456789", "farm-pc01", b"first-uuid");
        let mut second = pm.map.read().await.rename_peer("987654321", "farm-pc01", b"second-uuid");
        assert_eq!(pm.step(&mut second).await, None);
        assert_eq!(pm.step(&mut first).await, Some(RegisterPkResult::ID_EXISTS));
        assert_eq!(pm.step(&mut second).await, Some(RegisterPkResult::OK));
        let winner = pm.store.get_peer("farm-pc01").await.unwrap();
        assert_eq!(winner.uuid, b"second-uuid");
        assert!(pm.store.get_peer("987654321").await.is_none());
        let loser = pm.store.get_peer("123456789").await.unwrap();
        assert_eq!(loser.uuid, b"first-uuid");
    });
}

#[test]
fn placeholder_only_for_unknown_peers() {
    run(async {
        let pm = Peers::with_peer("123456789", b"device-uuid").await;
        let known = pm.get_or("123456789").await;
        assert_eq!(known.read().await.uuid, b"device-uuid");
        assert!(Arc::ptr_eq(&known, &pm.get_or("123456789").await));
        let unknown = pm.get_or("farm-pc01").await;
        assert!(unknown.read().await.uuid.is_empty());
        assert!(Arc::ptr_eq(&unknown, &pm.get_or("farm-pc01").await));
        assert!(pm.store.get_peer("farm-pc01").await.is_none());
    });
}
