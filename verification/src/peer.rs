//! The peers that the server knows, in memory and in the database.

use crate::database::{
    connections, is_random_guid, same_bytes, Database, DbError, Rename, RenamePeerResult,
    RenameStage, RenameView,
};
use crate::json::{json_string, law_json_string_keeps_the_text, to_json_string};
use crate::query::{Query, QueryView};
use crate::table::PeerColumns;
use crate::database;
use std::sync::Arc;
use vstd::hash_map::StringHashMap;
use vstd::prelude::*;
use vstd::slice::slice_to_vec;
use vstd::string::StringExecFns;

verus! {

/// For how many seconds the addresses of a peer are watched for changes.
pub const IP_CHANGE_DUR: u64 = 180;

/// Twice [`IP_CHANGE_DUR`].
pub const IP_CHANGE_DUR_X2: u64 = IP_CHANGE_DUR * 2;

/// The seconds of a day.
pub const DAY_SECONDS: u64 = 3600 * 24;

/// For how many seconds an address is blocked.
pub const IP_BLOCK_DUR: u64 = 60;

/// What else is known of a peer.
#[derive(Debug)]
pub struct PeerInfo {
    pub ip: String,
}

impl Clone for PeerInfo {
    fn clone(&self) -> (copy: PeerInfo)
        ensures
            copy == *self,
    {
        PeerInfo { ip: self.ip.clone() }
    }
}

impl Default for PeerInfo {
    fn default() -> (info: PeerInfo)
        ensures
            info.ip@.len() == 0,
    {
        PeerInfo { ip: String::new() }
    }
}

/// The JSON text of the info of a peer at `ip`.
pub open spec fn info_json(ip: Seq<char>) -> Seq<char> {
    "{\"ip\":"@ + json_string(ip) + "}"@
}

/// The info text of a peer loses nothing: peers at different addresses have different texts.
pub proof fn law_info_json_keeps_the_ip(a: Seq<char>, b: Seq<char>)
    requires
        info_json(a) == info_json(b),
    ensures
        a == b,
{
    let start = "{\"ip\":"@.len() as int;
    let end = info_json(a).len() - "}"@.len();
    assert(info_json(a).subrange(start, end) =~= json_string(a));
    assert(info_json(b).subrange(start, end) =~= json_string(b));
    law_json_string_keeps_the_text(a, b);
}

impl PeerInfo {
    /// The info as JSON text, as the database holds it.
    pub fn to_json(&self) -> (json: String)
        ensures
            json@ == info_json(self.ip@),
    {
        match to_json_string(self.ip.as_str()) {
            Some(ip) => "{\"ip\":".to_owned().concat(ip.as_str()).concat("}"),
            None => String::new(),
        }
    }
}

/// The address of a socket: the number of the IP address, as its bytes write it in network order,
/// the port, and what else an IPv6 address carries.
#[derive(Debug, Clone, Copy, PartialEq, Eq, Structural)]
pub enum SocketAddress {
    V4 { ip: u32, port: u16 },
    V6 { ip: u128, port: u16, flowinfo: u32, scope_id: u32 },
}

impl SocketAddress {
    /// The address 0.0.0.0 with the port 0, which stands for none.
    pub fn unspecified() -> (addr: SocketAddress)
        ensures
            addr == (SocketAddress::V4 { ip: 0, port: 0 }),
    {
        SocketAddress::V4 { ip: 0, port: 0 }
    }
}

/// A peer as the server holds it. `T` is the type of a time.
#[derive(Debug)]
pub struct Peer<T> {
    pub socket_addr: SocketAddress,
    pub last_reg_time: T,
    pub guid: Vec<u8>,
    pub uuid: Vec<u8>,
    pub pk: Vec<u8>,
    pub info: PeerInfo,
    /// How often the public key was registered, and since when.
    pub reg_pk: (u32, T),
}

impl<T> Peer<T> {
    /// Whether this is the peer of a row: `ip` is what the row's info text says, where that can
    /// be read. What the database does not hold is as in a peer of which nothing is known.
    pub open spec fn is_of_row(
        self,
        row: PeerColumns,
        ip: Option<Seq<char>>,
        last_reg_time: T,
        reg_pk_time: T,
    ) -> bool {
        &&& self.guid@ == row.guid
        &&& self.uuid@ == row.uuid
        &&& self.pk@ == row.pk
        &&& self.info.ip@ == (match ip {
            Some(ip) => ip,
            None => Seq::empty(),
        })
        &&& self.socket_addr == (SocketAddress::V4 { ip: 0, port: 0 })
        &&& self.last_reg_time == last_reg_time
        &&& self.reg_pk == (0u32, reg_pk_time)
    }

    /// A peer of which nothing is known. The two times are so long ago that nothing counts from
    /// them.
    pub fn default(last_reg_time: T, reg_pk_time: T) -> (peer: Peer<T>)
        ensures
            peer.socket_addr == (SocketAddress::V4 { ip: 0, port: 0 }),
            peer.last_reg_time == last_reg_time,
            peer.guid@.len() == 0,
            peer.uuid@.len() == 0,
            peer.pk@.len() == 0,
            peer.info.ip@.len() == 0,
            peer.reg_pk == (0u32, reg_pk_time),
    {
        Peer {
            socket_addr: SocketAddress::unspecified(),
            last_reg_time,
            guid: Vec::new(),
            uuid: Vec::new(),
            pk: Vec::new(),
            info: PeerInfo::default(),
            reg_pk: (0, reg_pk_time),
        }
    }

    /// The peer of a row of the database. `info` is what the row's info text says, where that
    /// can be read; all that the database does not hold is as in [`Peer::default`].
    pub fn from(
        row: database::Peer,
        info: Option<PeerInfo>,
        last_reg_time: T,
        reg_pk_time: T,
    ) -> (peer: Peer<T>)
        ensures
            peer.is_of_row(
                row@,
                match info {
                    Some(info) => Some(info.ip@),
                    None => None,
                },
                last_reg_time,
                reg_pk_time,
            ),
    {
        let mut peer = Peer::default(last_reg_time, reg_pk_time);
        assert(peer.info.ip@ =~= Seq::empty());
        peer.guid = row.guid;
        peer.uuid = row.uuid;
        peer.pk = row.pk;
        if let Some(info) = info {
            peer.info = info;
        }
        peer
    }
}

/// The answer to a registration of a public key or to a rename.
#[allow(non_camel_case_types)]
#[derive(Debug, Clone, Copy, PartialEq, Eq, Structural)]
pub enum RegisterPkResult {
    OK,
    UUID_MISMATCH,
    ID_EXISTS,
    SERVER_ERROR,
}

/// The file that holds the database where no other is configured.
pub const DB_FILE: &'static str = "db_v2.sqlite3";

/// The directory of the database where none is configured.
#[derive(Debug)]
pub enum DataDir {
    /// The working directory, named by a dot.
    Working,
    /// The working directory, left unnamed.
    Unnamed,
    /// A Windows folder: its path, where that is text.
    Folder(Option<String>),
}

/// The directory of the database where none is configured. Only a Windows release keeps it in
/// the folder of the configuration, where there is one: `folder` is the path of that folder, where
/// the path is text.
pub fn data_dir(windows: bool, debug: bool, folder: Option<Option<String>>) -> (dir: DataDir)
    ensures
        dir == (if !windows {
            DataDir::Working
        } else if !debug && folder is Some {
            DataDir::Folder(folder->0)
        } else {
            DataDir::Unnamed
        }),
{
    if !windows {
        return DataDir::Working;
    }
    match folder {
        Some(path) if !debug => DataDir::Folder(path),
        _ => DataDir::Unnamed,
    }
}

/// The place of the database in `dir`.
pub open spec fn default_db_url(dir: DataDir) -> Seq<char> {
    match dir {
        DataDir::Working => "./"@ + DB_FILE@,
        DataDir::Unnamed => DB_FILE@,
        DataDir::Folder(Some(path)) => path@ + "\\"@ + DB_FILE@,
        DataDir::Folder(None) => "."@ + "\\"@ + DB_FILE@,
    }
}

/// The place of the database: the configured one, or else [`DB_FILE`] in `dir`.
pub fn db_url(configured: Option<String>, dir: DataDir) -> (url: String)
    ensures
        url@ == (match configured {
            Some(url) => url@,
            None => default_db_url(dir),
        }),
{
    match configured {
        Some(url) => url,
        None => match dir {
            DataDir::Working => "./".to_owned().concat(DB_FILE),
            DataDir::Unnamed => DB_FILE.to_owned(),
            DataDir::Folder(Some(path)) => path.concat("\\").concat(DB_FILE),
            DataDir::Folder(None) => ".".to_owned().concat("\\").concat(DB_FILE),
        },
    }
}

/// The peers in memory, by id, and the database of all peers. `L` is the type of a locked peer;
/// an entry shares its peer with whoever looked it up.
#[verifier::reject_recursive_types(L)]
pub struct PeerMap<L> {
    pub map: StringHashMap<Arc<L>>,
    pub db: Database,
}

impl<L> View for PeerMap<L> {
    type V = Map<Seq<char>, Arc<L>>;

    open spec fn view(&self) -> Map<Seq<char>, Arc<L>> {
        self.map@
    }
}

/// The peer that has `id` among the peers in memory.
pub open spec fn in_memory<L>(memory: Map<Seq<char>, Arc<L>>, id: Seq<char>) -> Option<Arc<L>> {
    if memory.contains_key(id) {
        Some(memory[id])
    } else {
        None
    }
}

/// The peer that the database replied with: none where it has none or failed.
pub open spec fn loaded<L>(reply: Result<Option<Arc<L>>, DbError>) -> Option<Arc<L>> {
    match reply {
        Ok(found) => found,
        Err(_) => None,
    }
}

/// The peers in memory after the database was asked for the peer that has `id`.
pub open spec fn with_loaded<L>(
    memory: Map<Seq<char>, Arc<L>>,
    id: Seq<char>,
    loaded: Option<Arc<L>>,
) -> Map<Seq<char>, Arc<L>> {
    match loaded {
        Some(peer) => memory.insert(id, peer),
        None => memory,
    }
}

/// The peers in memory with `fresh` under `id`, unless a peer is there already.
pub open spec fn with_fresh<L>(memory: Map<Seq<char>, Arc<L>>, id: Seq<char>, fresh: Arc<L>) -> Map<
    Seq<char>,
    Arc<L>,
> {
    if memory.contains_key(id) {
        memory
    } else {
        memory.insert(id, fresh)
    }
}

/// Where a peer is found.
pub enum Lookup<L> {
    /// In memory.
    Found(Arc<L>),
    /// In the database, if anywhere: this is to be asked.
    Ask(Query),
}

/// How the registration of a public key goes to the database.
#[derive(Debug)]
pub enum PkUpdate {
    /// As a new peer under a fresh guid.
    Insert { guid: Vec<u8>, query: Query },
    /// As a change to a peer that the database holds.
    Update { query: Query },
}

/// What a [`PkUpdate`] says.
pub enum PkUpdateView {
    Insert { guid: Seq<u8>, query: QueryView },
    Update { query: QueryView },
}

impl View for PkUpdate {
    type V = PkUpdateView;

    open spec fn view(&self) -> PkUpdateView {
        match self {
            PkUpdate::Insert { guid, query } => PkUpdateView::Insert { guid: guid@, query: query@ },
            PkUpdate::Update { query } => PkUpdateView::Update { query: query@ },
        }
    }
}

impl PkUpdateView {
    /// How the registration of a peer goes to the database: a peer without a guid is added under
    /// the guid `drawn`, any other is changed by its guid.
    pub open spec fn of(
        guid: Seq<u8>,
        drawn: Seq<u8>,
        id: Seq<char>,
        uuid: Seq<u8>,
        pk: Seq<u8>,
        ip: Seq<char>,
    ) -> PkUpdateView {
        let info = info_json(ip);
        if guid.len() == 0 {
            PkUpdateView::Insert {
                guid: drawn,
                query: QueryView::InsertPeer { guid: drawn, id, uuid, pk, info },
            }
        } else {
            PkUpdateView::Update { query: QueryView::UpdatePk { guid, id, pk, info } }
        }
    }

    /// The query that is sent.
    pub open spec fn query(self) -> QueryView {
        match self {
            PkUpdateView::Insert { query, .. } => query,
            PkUpdateView::Update { query } => query,
        }
    }

    /// The guid of the peer afterwards. `done` tells whether the database carried the query out.
    pub open spec fn guid_after(self, guid: Seq<u8>, done: bool) -> Seq<u8> {
        match self {
            PkUpdateView::Insert { guid: drawn, .. } if done => drawn,
            _ => guid,
        }
    }

    /// The answer to the registration.
    pub open spec fn answer(self, done: bool) -> RegisterPkResult {
        if done {
            RegisterPkResult::OK
        } else {
            RegisterPkResult::SERVER_ERROR
        }
    }
}

/// What a rename of a peer waits for.
#[derive(Debug, Clone, Copy, PartialEq, Eq, Structural)]
pub enum PeerRenameStage {
    /// The machine uuid of the peer that has the new id in memory.
    ReadUuid,
    /// The rename in the database.
    Rename,
    /// The renamed peer, from the database.
    Load,
}

/// What is to be done next for a rename of a peer.
#[derive(Debug)]
pub enum PeerRenameAction {
    /// Read the machine uuid of the peer that has `id` in memory.
    ReadUuid { id: String },
    /// Rename the peer in the database.
    Rename(Rename),
    /// Ask the database for the renamed peer.
    Load(Query),
}

/// What was found by doing so.
pub enum PeerRenameReply<L> {
    Uuid(Vec<u8>),
    Renamed(Result<RenamePeerResult, DbError>),
    Loaded(Result<Option<Arc<L>>, DbError>),
}

/// What a [`PeerRenameReply`] says.
pub enum PeerReplyView<L> {
    Uuid(Seq<u8>),
    /// The answer of the database, unless it failed.
    Renamed(Option<RenamePeerResult>),
    /// The renamed peer, unless there is none or the database failed.
    Loaded(Option<Arc<L>>),
}

impl<L> View for PeerRenameReply<L> {
    type V = PeerReplyView<L>;

    open spec fn view(&self) -> PeerReplyView<L> {
        match self {
            PeerRenameReply::Uuid(uuid) => PeerReplyView::Uuid(uuid@),
            PeerRenameReply::Renamed(Ok(result)) => PeerReplyView::Renamed(Some(*result)),
            PeerRenameReply::Renamed(Err(_)) => PeerReplyView::Renamed(None),
            PeerRenameReply::Loaded(Ok(peer)) => PeerReplyView::Loaded(*peer),
            PeerRenameReply::Loaded(Err(_)) => PeerReplyView::Loaded(None),
        }
    }
}

impl<L> PeerRenameReply<L> {
    /// Whether this is a reply to what is done at `stage`.
    pub open spec fn answers(self, stage: PeerRenameStage) -> bool {
        match stage {
            PeerRenameStage::ReadUuid => self is Uuid,
            PeerRenameStage::Rename => self is Renamed,
            PeerRenameStage::Load => self is Loaded,
        }
    }
}

/// A rename of a peer, up to what it waits for.
#[derive(Debug)]
pub struct PeerRename {
    pub old_id: String,
    pub new_id: String,
    pub uuid: Vec<u8>,
    pub stage: PeerRenameStage,
}

/// What a [`PeerRename`] holds.
pub struct PeerRenameView {
    pub old_id: Seq<char>,
    pub new_id: Seq<char>,
    pub uuid: Seq<u8>,
    pub stage: PeerRenameStage,
}

/// How a rename of a peer goes on.
pub enum PeerRenameNext {
    /// The next thing is done.
    Wait(PeerRenameStage),
    /// The rename is over, with this answer.
    Answer(RegisterPkResult),
}

/// What a [`PeerRenameAction`] says.
pub enum PeerRenameActionView {
    ReadUuid { id: Seq<char> },
    Rename(RenameView),
    Load(QueryView),
}

impl View for PeerRename {
    type V = PeerRenameView;

    open spec fn view(&self) -> PeerRenameView {
        PeerRenameView {
            old_id: self.old_id@,
            new_id: self.new_id@,
            uuid: self.uuid@,
            stage: self.stage,
        }
    }
}

impl View for PeerRenameAction {
    type V = PeerRenameActionView;

    open spec fn view(&self) -> PeerRenameActionView {
        match self {
            PeerRenameAction::ReadUuid { id } => PeerRenameActionView::ReadUuid { id: id@ },
            PeerRenameAction::Rename(rename) => PeerRenameActionView::Rename(rename@),
            PeerRenameAction::Load(query) => PeerRenameActionView::Load(query@),
        }
    }
}

impl PeerRenameView {
    /// The rename at its beginning: a peer in memory that already has the new id is looked at
    /// first.
    pub open spec fn start<L>(
        memory: Map<Seq<char>, Arc<L>>,
        old_id: Seq<char>,
        new_id: Seq<char>,
        uuid: Seq<u8>,
    ) -> PeerRenameView {
        let stage = if old_id != new_id && memory.contains_key(new_id) {
            PeerRenameStage::ReadUuid
        } else {
            PeerRenameStage::Rename
        };
        PeerRenameView { old_id, new_id, uuid, stage }
    }

    /// What is to be done now.
    pub open spec fn action(self) -> PeerRenameActionView {
        match self.stage {
            PeerRenameStage::ReadUuid => PeerRenameActionView::ReadUuid { id: self.new_id },
            PeerRenameStage::Rename => PeerRenameActionView::Rename(
                RenameView::start(self.old_id, self.new_id, self.uuid),
            ),
            PeerRenameStage::Load => PeerRenameActionView::Load(
                QueryView::GetPeer { id: self.new_id },
            ),
        }
    }

    /// How the rename goes on after a reply.
    pub open spec fn next<L>(
        self,
        memory: Map<Seq<char>, Arc<L>>,
        reply: PeerReplyView<L>,
    ) -> PeerRenameNext {
        match reply {
            PeerReplyView::Uuid(uuid) => if uuid.len() == 0 || uuid != self.uuid {
                PeerRenameNext::Answer(RegisterPkResult::ID_EXISTS)
            } else {
                PeerRenameNext::Wait(PeerRenameStage::Rename)
            },
            PeerReplyView::Renamed(None) => PeerRenameNext::Answer(RegisterPkResult::SERVER_ERROR),
            PeerReplyView::Renamed(Some(result)) => match result {
                RenamePeerResult::Renamed => if self.old_id != self.new_id && !memory.contains_key(
                    self.old_id,
                ) && !memory.contains_key(self.new_id) {
                    PeerRenameNext::Wait(PeerRenameStage::Load)
                } else {
                    PeerRenameNext::Answer(RegisterPkResult::OK)
                },
                RenamePeerResult::IdExists => PeerRenameNext::Answer(RegisterPkResult::ID_EXISTS),
                RenamePeerResult::OldIdNotFound
                | RenamePeerResult::UuidMismatch => PeerRenameNext::Answer(
                    RegisterPkResult::UUID_MISMATCH,
                ),
            },
            PeerReplyView::Loaded(Some(_)) => PeerRenameNext::Answer(RegisterPkResult::OK),
            PeerReplyView::Loaded(None) => PeerRenameNext::Answer(RegisterPkResult::SERVER_ERROR),
        }
    }

    /// The peers in memory after a reply: once the database has renamed the peer, its entry moves
    /// from the old id to the new one, or the peer that was loaded is entered under the new id.
    pub open spec fn memory_after<L>(
        self,
        memory: Map<Seq<char>, Arc<L>>,
        reply: PeerReplyView<L>,
    ) -> Map<Seq<char>, Arc<L>> {
        match reply {
            PeerReplyView::Renamed(Some(RenamePeerResult::Renamed)) => if self.old_id
                != self.new_id && memory.contains_key(self.old_id) {
                memory.remove(self.old_id).insert(self.new_id, memory[self.old_id])
            } else {
                memory
            },
            PeerReplyView::Loaded(Some(peer)) => memory.insert(self.new_id, peer),
            _ => memory,
        }
    }
}

impl PeerRename {
    /// What is to be done now.
    pub fn action(&self) -> (action: PeerRenameAction)
        ensures
            action@ == self@.action(),
    {
        match self.stage {
            PeerRenameStage::ReadUuid => PeerRenameAction::ReadUuid { id: self.new_id.clone() },
            PeerRenameStage::Rename => PeerRenameAction::Rename(
                Rename {
                    old_id: self.old_id.clone(),
                    new_id: self.new_id.clone(),
                    uuid: slice_to_vec(self.uuid.as_slice()),
                    stage: RenameStage::Update,
                },
            ),
            PeerRenameStage::Load => PeerRenameAction::Load(
                Query::GetPeer { id: self.new_id.clone() },
            ),
        }
    }
}

impl PkUpdate {
    /// Ends the registration with what the database replied, and gives the answer to it.
    pub fn finish<T>(self, peer: &mut Peer<T>, reply: Result<(), DbError>) -> (answer:
        RegisterPkResult)
        ensures
            answer == self@.answer(reply is Ok),
            final(peer).guid@ == self@.guid_after(old(peer).guid@, reply is Ok),
            *final(peer) == (Peer { guid: final(peer).guid, ..*old(peer) }),
    {
        match reply {
            Ok(()) => {
                if let PkUpdate::Insert { guid, .. } = self {
                    peer.guid = guid;
                }
                RegisterPkResult::OK
            },
            Err(_) => RegisterPkResult::SERVER_ERROR,
        }
    }
}

impl<L> PeerMap<L> {
    /// No peers in memory, and the database that the configuration names: its place, the
    /// directory where no place is configured, and the number of connections.
    pub fn new(configured_url: Option<String>, dir: DataDir, max_connections: Option<&str>) -> (peers:
        PeerMap<L>)
        ensures
            peers@ == Map::<Seq<char>, Arc<L>>::empty(),
            peers.db.pool.url@ == (match configured_url {
                Some(url) => url@,
                None => default_db_url(dir),
            }),
            peers.db.max_connections == connections(
                match max_connections {
                    Some(text) => Some(text@),
                    None => None,
                },
            ),
    {
        let url = db_url(configured_url, dir);
        PeerMap { map: StringHashMap::new(), db: Database::new(url.as_str(), max_connections) }
    }

    /// Registers a public key: notes in `peer` what came with it, and tells how it goes to the
    /// database, as a new peer where the database has none for `peer` yet. The peers in memory
    /// are not looked at.
    pub fn update_pk<T>(
        db: &Database,
        id: &str,
        peer: &mut Peer<T>,
        addr: SocketAddress,
        uuid: Vec<u8>,
        pk: Vec<u8>,
        ip: String,
        now: T,
    ) -> (update: PkUpdate)
        ensures
            final(peer).socket_addr == addr,
            final(peer).last_reg_time == now,
            final(peer).guid == old(peer).guid,
            final(peer).uuid == uuid,
            final(peer).pk == pk,
            final(peer).info.ip == ip,
            final(peer).reg_pk == old(peer).reg_pk,
            match update {
                PkUpdate::Insert { guid, .. } => {
                    &&& is_random_guid(guid@)
                    &&& update@ == PkUpdateView::of(old(peer).guid@, guid@, id@, uuid@, pk@, ip@)
                },
                PkUpdate::Update { .. } => forall|drawn: Seq<u8>|
                    update@ == #[trigger] PkUpdateView::of(
                        old(peer).guid@,
                        drawn,
                        id@,
                        uuid@,
                        pk@,
                        ip@,
                    ),
            },
    {
        peer.socket_addr = addr;
        peer.uuid = uuid;
        peer.pk = pk;
        peer.last_reg_time = now;
        peer.info.ip = ip;
        let info = peer.info.to_json();
        if peer.guid.len() == 0 {
            let (guid, query) = db.insert_peer(
                id,
                peer.uuid.as_slice(),
                peer.pk.as_slice(),
                info.as_str(),
            );
            PkUpdate::Insert { guid, query }
        } else {
            let query = db.update_pk(&peer.guid, id, peer.pk.as_slice(), info.as_str());
            PkUpdate::Update { query }
        }
    }

    /// Starts to give the peer that has `old_id` and the machine uuid `uuid` the id `new_id`.
    pub fn rename_peer(&self, old_id: &str, new_id: &str, uuid: &[u8]) -> (rename: PeerRename)
        ensures
            rename@ == PeerRenameView::start(self@, old_id@, new_id@, uuid@),
    {
        let old_id = old_id.to_owned();
        let new_id = new_id.to_owned();
        let stage = if old_id != new_id && self.map.contains_key(new_id.as_str()) {
            PeerRenameStage::ReadUuid
        } else {
            PeerRenameStage::Rename
        };
        PeerRename { old_id, new_id, uuid: slice_to_vec(uuid), stage }
    }

    /// Takes what was found for `rename`. Gives the answer once there is one; until then, the
    /// next action is to be done.
    pub fn resume_rename(&mut self, rename: &mut PeerRename, reply: PeerRenameReply<L>) -> (answer:
        Option<RegisterPkResult>)
        requires
            reply.answers(old(rename).stage),
        ensures
            final(self).db == old(self).db,
            final(self)@ == old(rename)@.memory_after(old(self)@, reply@),
            match old(rename)@.next(old(self)@, reply@) {
                PeerRenameNext::Wait(stage) => {
                    &&& answer is None
                    &&& final(rename)@ == (PeerRenameView { stage, ..old(rename)@ })
                },
                PeerRenameNext::Answer(result) => {
                    &&& answer == Some(result)
                    &&& final(rename)@ == old(rename)@
                },
            },
    {
        match reply {
            PeerRenameReply::Uuid(existing) => {
                if existing.len() == 0 || !same_bytes(&existing, &rename.uuid) {
                    return Some(RegisterPkResult::ID_EXISTS);
                }
                rename.stage = PeerRenameStage::Rename;
                None
            },
            PeerRenameReply::Renamed(Ok(RenamePeerResult::Renamed)) => {
                if rename.old_id == rename.new_id {
                    return Some(RegisterPkResult::OK);
                }
                match self.get_in_memory(rename.old_id.as_str()) {
                    Some(peer) => {
                        self.map.remove(rename.old_id.as_str());
                        self.map.insert(rename.new_id.clone(), peer);
                    },
                    None => {
                        if !self.map.contains_key(rename.new_id.as_str()) {
                            rename.stage = PeerRenameStage::Load;
                            return None;
                        }
                    },
                }
                Some(RegisterPkResult::OK)
            },
            PeerRenameReply::Renamed(Ok(RenamePeerResult::IdExists)) => Some(
                RegisterPkResult::ID_EXISTS,
            ),
            PeerRenameReply::Renamed(Ok(RenamePeerResult::OldIdNotFound)) => Some(
                RegisterPkResult::UUID_MISMATCH,
            ),
            PeerRenameReply::Renamed(Ok(RenamePeerResult::UuidMismatch)) => Some(
                RegisterPkResult::UUID_MISMATCH,
            ),
            PeerRenameReply::Renamed(Err(_)) => Some(RegisterPkResult::SERVER_ERROR),
            PeerRenameReply::Loaded(Ok(Some(peer))) => {
                self.map.insert(rename.new_id.clone(), peer);
                Some(RegisterPkResult::OK)
            },
            PeerRenameReply::Loaded(Ok(None)) => Some(RegisterPkResult::SERVER_ERROR),
            PeerRenameReply::Loaded(Err(_)) => Some(RegisterPkResult::SERVER_ERROR),
        }
    }

    /// Looks up the peer that has `id`: in memory, and if it is not there, in the database.
    pub fn get(&self, id: &str) -> (lookup: Lookup<L>)
        ensures
            match lookup {
                Lookup::Found(peer) => in_memory(self@, id@) == Some(peer),
                Lookup::Ask(query) => {
                    &&& in_memory(self@, id@) is None
                    &&& query@ == (QueryView::GetPeer { id: id@ })
                },
            },
    {
        match self.get_in_memory(id) {
            Some(peer) => Lookup::Found(peer),
            None => Lookup::Ask(self.db.get_peer(id)),
        }
    }

    /// Ends a look-up with what the database replied: a peer that it has is entered in memory
    /// and given back.
    pub fn get_loaded(&mut self, id: &str, reply: Result<Option<Arc<L>>, DbError>) -> (found: Option<
        Arc<L>,
    >)
        ensures
            final(self).db == old(self).db,
            found == loaded(reply),
            final(self)@ == with_loaded(old(self)@, id@, found),
    {
        if let Ok(Some(peer)) = reply {
            self.map.insert(id.to_owned(), peer.clone());
            return Some(peer);
        }
        None
    }

    /// Ends a look-up that must find a peer, with what the database replied: a peer that it has is
    /// entered in memory and given back; where it has none, the peer that has `id` in memory by
    /// now is given back, which is `fresh` from now on if there is none.
    pub fn get_or(
        &mut self,
        id: &str,
        reply: Result<Option<Arc<L>>, DbError>,
        fresh: Arc<L>,
    ) -> (peer: Arc<L>)
        ensures
            final(self).db == old(self).db,
            final(self)@ == with_fresh(
                with_loaded(old(self)@, id@, loaded(reply)),
                id@,
                fresh,
            ),
            in_memory(final(self)@, id@) == Some(peer),
    {
        if let Some(peer) = self.get_loaded(id, reply) {
            return peer;
        }
        if let Some(peer) = self.get_in_memory(id) {
            return peer;
        }
        self.map.insert(id.to_owned(), fresh.clone());
        fresh
    }

    /// The peer that has `id` in memory.
    pub fn get_in_memory(&self, id: &str) -> (found: Option<Arc<L>>)
        ensures
            found == in_memory(self@, id@),
    {
        match self.map.get(id) {
            Some(peer) => Some(peer.clone()),
            None => None,
        }
    }

    /// Tells whether a peer has `id` in memory.
    pub fn is_in_memory(&self, id: &str) -> (known: bool)
        ensures
            known == self@.contains_key(id@),
    {
        self.map.contains_key(id)
    }
}

} // verus!
