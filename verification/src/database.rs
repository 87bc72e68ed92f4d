//! The peer database: how it is opened, what is asked of it, and what its replies mean.

use crate::query::{Query, QueryView};
use crate::table::{PeerColumns, Row};
use crate::text::{contains, count_written, occurs_in, parse_count};
use vstd::prelude::*;
use vstd::slice::slice_to_vec;

verus! {

/// The extended result code of SQLite for a broken unique index.
pub const UNIQUE_INDEX_CODE: &'static str = "2067";

/// What SQLite says when a second peer would get the same id.
pub const PEER_ID_TAKEN: &'static str = "UNIQUE constraint failed: peer.id";

/// The number of connections when none is configured.
pub const DEFAULT_CONNECTIONS: usize = 1;

/// Where the connections of a pool lead.
#[derive(Debug)]
pub struct DbPool {
    pub url: String,
}

impl Clone for DbPool {
    fn clone(&self) -> (copy: DbPool)
        ensures
            copy == *self,
    {
        DbPool { url: self.url.clone() }
    }
}

/// A peer database: the pool of its connections and how many of them there may be.
#[derive(Debug)]
pub struct Database {
    pub pool: DbPool,
    pub max_connections: usize,
}

impl Clone for Database {
    fn clone(&self) -> (copy: Database)
        ensures
            copy == *self,
    {
        Database { pool: self.pool.clone(), max_connections: self.max_connections }
    }
}

/// A peer as the database holds it.
#[derive(Debug)]
pub struct Peer {
    pub guid: Vec<u8>,
    pub id: String,
    pub uuid: Vec<u8>,
    pub pk: Vec<u8>,
    pub user: Option<Vec<u8>>,
    pub info: String,
    pub status: Option<i64>,
}

impl View for Peer {
    type V = PeerColumns;

    open spec fn view(&self) -> PeerColumns {
        PeerColumns {
            guid: self.guid@,
            id: self.id@,
            uuid: self.uuid@,
            pk: self.pk@,
            user: match self.user {
                Some(user) => Some(user@),
                None => None,
            },
            info: self.info@,
            status: match self.status {
                Some(status) => Some(status as int),
                None => None,
            },
        }
    }
}

impl Default for Peer {
    fn default() -> (peer: Peer)
        ensures
            peer.guid@.len() == 0,
            peer.id@.len() == 0,
            peer.uuid@.len() == 0,
            peer.pk@.len() == 0,
            peer.user is None,
            peer.info@.len() == 0,
            peer.status is None,
    {
        Peer {
            guid: Vec::new(),
            id: String::new(),
            uuid: Vec::new(),
            pk: Vec::new(),
            user: None,
            info: String::new(),
            status: None,
        }
    }
}

/// Why a statement failed.
#[derive(Debug)]
pub enum DbError {
    /// The database refused the statement.
    Database { code: Option<String>, message: String },
    /// The statement did not reach the database, or its reply could not be read.
    Other { message: String },
}

impl DbError {
    /// Whether the error says that an id is already in use.
    pub open spec fn says_id_taken(self) -> bool {
        match self {
            DbError::Database { code, message } => {
                ||| code matches Some(code) && code@ == UNIQUE_INDEX_CODE@
                ||| occurs_in(PEER_ID_TAKEN@, message@)
            },
            DbError::Other { .. } => false,
        }
    }
}

/// Tells whether `err` reports that the id of a peer is already in use.
pub fn is_peer_id_unique_violation(err: &DbError) -> (taken: bool)
    ensures
        taken == err.says_id_taken(),
{
    match err {
        DbError::Database { code, message } => {
            let by_code = match code {
                Some(code) => *code == UNIQUE_INDEX_CODE.to_owned(),
                None => false,
            };
            by_code || contains(message.as_str(), PEER_ID_TAKEN)
        },
        DbError::Other { .. } => false,
    }
}

/// How the database answers a request to rename a peer.
#[derive(Debug, Clone, Copy, PartialEq, Eq, Structural)]
pub enum RenamePeerResult {
    Renamed,
    OldIdNotFound,
    UuidMismatch,
    IdExists,
}

/// What a rename has asked the database and not yet been told.
#[derive(Debug, Clone, Copy, PartialEq, Eq, Structural)]
pub enum RenameStage {
    /// To change the id of the peer that has the old id and the machine uuid.
    Update,
    /// The machine uuid of the peer that has the old id.
    CheckOld,
    /// The machine uuid of the peer that has the new id.
    CheckNew,
}

/// The database's reply to the query of a rename.
#[derive(Debug)]
pub enum RenameReply {
    /// How many rows the update changed.
    Updated(Result<u64, DbError>),
    /// The machine uuid that was asked for, where there is such a peer.
    Uuid(Result<Option<Vec<u8>>, DbError>),
}

/// What a reply of the database says.
pub enum ReplyView {
    /// So many rows were changed.
    Rows(nat),
    /// Nothing was changed: the id belongs to another peer.
    IdTaken,
    /// The machine uuid that was asked for.
    Uuid(Option<Seq<u8>>),
    /// The peer that was asked for.
    Peer(Option<Row>),
    /// The statement failed for another reason.
    Failed,
}

impl View for RenameReply {
    type V = ReplyView;

    open spec fn view(&self) -> ReplyView {
        match self {
            RenameReply::Updated(Ok(rows)) => ReplyView::Rows(*rows as nat),
            RenameReply::Updated(Err(err)) => if err.says_id_taken() {
                ReplyView::IdTaken
            } else {
                ReplyView::Failed
            },
            RenameReply::Uuid(Ok(Some(uuid))) => ReplyView::Uuid(Some(uuid@)),
            RenameReply::Uuid(Ok(None)) => ReplyView::Uuid(None),
            RenameReply::Uuid(Err(_)) => ReplyView::Failed,
        }
    }
}

impl RenameReply {
    /// Whether this is a reply to what is asked at `stage`.
    pub open spec fn answers(self, stage: RenameStage) -> bool {
        match stage {
            RenameStage::Update => self is Updated,
            RenameStage::CheckOld => self is Uuid,
            RenameStage::CheckNew => self is Uuid,
        }
    }

    /// The error of a failed statement.
    pub open spec fn error(self) -> DbError {
        match self {
            RenameReply::Updated(updated) => updated->Err_0,
            RenameReply::Uuid(uuid) => uuid->Err_0,
        }
    }
}

/// A rename of a peer, up to the reply that it waits for.
#[derive(Debug)]
pub struct Rename {
    pub old_id: String,
    pub new_id: String,
    pub uuid: Vec<u8>,
    pub stage: RenameStage,
}

/// What a [`Rename`] holds.
pub struct RenameView {
    pub old_id: Seq<char>,
    pub new_id: Seq<char>,
    pub uuid: Seq<u8>,
    pub stage: RenameStage,
}

/// How a rename goes on after a reply.
pub enum RenameNext {
    /// The next thing is asked.
    Ask(RenameStage),
    /// The rename is over, with this answer.
    Answer(RenamePeerResult),
    /// The rename is over, because a statement failed.
    Fail,
}

impl View for Rename {
    type V = RenameView;

    open spec fn view(&self) -> RenameView {
        RenameView {
            old_id: self.old_id@,
            new_id: self.new_id@,
            uuid: self.uuid@,
            stage: self.stage,
        }
    }
}

impl RenameView {
    /// The rename before anything is asked.
    pub open spec fn start(old_id: Seq<char>, new_id: Seq<char>, uuid: Seq<u8>) -> RenameView {
        RenameView { old_id, new_id, uuid, stage: RenameStage::Update }
    }

    /// What is asked of the database now.
    pub open spec fn query(self) -> QueryView {
        match self.stage {
            RenameStage::Update => QueryView::RenamePeer {
                old_id: self.old_id,
                new_id: self.new_id,
                uuid: self.uuid,
            },
            RenameStage::CheckOld => QueryView::SelectUuid { id: self.old_id },
            RenameStage::CheckNew => QueryView::SelectUuid { id: self.new_id },
        }
    }

    /// What follows from a reply. One changed row is the renamed peer. No changed row leaves
    /// three cases: the old id has another owner, the new id shows that this rename was done
    /// before or that another peer has it, or neither id is known. (No query of a rename asks
    /// for a whole peer.)
    pub open spec fn next(self, reply: ReplyView) -> RenameNext {
        match reply {
            ReplyView::Failed | ReplyView::Peer(_) => RenameNext::Fail,
            ReplyView::IdTaken => RenameNext::Answer(RenamePeerResult::IdExists),
            ReplyView::Rows(rows) => if rows == 1 {
                RenameNext::Answer(RenamePeerResult::Renamed)
            } else {
                RenameNext::Ask(RenameStage::CheckOld)
            },
            ReplyView::Uuid(found) => match (self.stage, found) {
                (RenameStage::CheckNew, Some(uuid)) => if uuid == self.uuid {
                    RenameNext::Answer(RenamePeerResult::Renamed)
                } else {
                    RenameNext::Answer(RenamePeerResult::IdExists)
                },
                (RenameStage::CheckNew, None) => RenameNext::Answer(
                    RenamePeerResult::OldIdNotFound,
                ),
                (_, Some(_)) => RenameNext::Answer(RenamePeerResult::UuidMismatch),
                (_, None) => RenameNext::Ask(RenameStage::CheckNew),
            },
        }
    }
}

/// Tells whether two byte strings are the same.
pub(crate) fn same_bytes(a: &Vec<u8>, b: &Vec<u8>) -> (same: bool)
    ensures
        same == (a@ == b@),
{
    let same = a == b;
    assert(same ==> a@ =~= b@);
    same
}

impl Rename {
    /// The query to send now.
    pub fn query(&self) -> (query: Query)
        ensures
            query@ == self@.query(),
    {
        match self.stage {
            RenameStage::Update => Query::RenamePeer {
                old_id: self.old_id.clone(),
                new_id: self.new_id.clone(),
                uuid: slice_to_vec(self.uuid.as_slice()),
            },
            RenameStage::CheckOld => Query::SelectUuid { id: self.old_id.clone() },
            RenameStage::CheckNew => Query::SelectUuid { id: self.new_id.clone() },
        }
    }

    /// Takes the reply to the query. Gives the answer once there is one; until then, the next
    /// query is to be sent.
    pub fn resume(&mut self, reply: RenameReply) -> (answer: Option<
        Result<RenamePeerResult, DbError>,
    >)
        requires
            reply.answers(old(self).stage),
        ensures
            match old(self)@.next(reply@) {
                RenameNext::Ask(stage) => {
                    &&& answer is None
                    &&& final(self)@ == (RenameView { stage, ..old(self)@ })
                },
                RenameNext::Answer(result) => {
                    &&& answer == Some(Ok::<RenamePeerResult, DbError>(result))
                    &&& final(self)@ == old(self)@
                },
                RenameNext::Fail => {
                    &&& answer == Some(Err::<RenamePeerResult, DbError>(reply.error()))
                    &&& final(self)@ == old(self)@
                },
            },
    {
        match reply {
            RenameReply::Updated(Ok(rows)) => {
                if rows == 1 {
                    return Some(Ok(RenamePeerResult::Renamed));
                }
                self.stage = RenameStage::CheckOld;
                None
            },
            RenameReply::Updated(Err(err)) => {
                if is_peer_id_unique_violation(&err) {
                    Some(Ok(RenamePeerResult::IdExists))
                } else {
                    Some(Err(err))
                }
            },
            RenameReply::Uuid(Err(err)) => Some(Err(err)),
            RenameReply::Uuid(Ok(found)) => {
                if self.stage == RenameStage::CheckNew {
                    match found {
                        Some(stored) => {
                            if same_bytes(&stored, &self.uuid) {
                                Some(Ok(RenamePeerResult::Renamed))
                            } else {
                                Some(Ok(RenamePeerResult::IdExists))
                            }
                        },
                        None => Some(Ok(RenamePeerResult::OldIdNotFound)),
                    }
                } else {
                    match found {
                        Some(_) => Some(Ok(RenamePeerResult::UuidMismatch)),
                        None => {
                            self.stage = RenameStage::CheckNew;
                            None
                        },
                    }
                }
            },
        }
    }
}

/// Whether `guid` is a version 4 UUID: sixteen bytes with the version and the variant in place.
pub open spec fn is_random_guid(guid: Seq<u8>) -> bool {
    &&& guid.len() == 16
    &&& 0x40 <= guid[6] <= 0x4f
    &&& 0x80 <= guid[8] <= 0xbf
}

/// A fresh `uuid::Uuid::new_v4`, as its sixteen bytes. Claimed of every outcome: there are
/// sixteen bytes, the high half of the seventh is the version number 4, and the two top bits of
/// the ninth are those of the RFC variant. The other bits are random, so nothing is said of them.
/// The call panics where the system has no randomness to give.
#[verifier::external_body]
fn new_guid() -> (guid: Vec<u8>)
    ensures
        is_random_guid(guid@),
{
    uuid::Uuid::new_v4().as_bytes().to_vec()
}

/// How many connections a configured value allows: the count it writes, or else the default.
pub open spec fn connections(configured: Option<Seq<char>>) -> usize {
    match configured {
        Some(text) => match count_written(text) {
            Some(n) => if n <= usize::MAX {
                n as usize
            } else {
                DEFAULT_CONNECTIONS
            },
            None => DEFAULT_CONNECTIONS,
        },
        None => DEFAULT_CONNECTIONS,
    }
}

impl Database {
    /// The database at `url`. `max_connections` is the configured number of connections, as it
    /// was written; where there is none, or it is not a count, the default holds.
    pub fn new(url: &str, max_connections: Option<&str>) -> (db: Database)
        ensures
            db.pool.url@ == url@,
            db.max_connections == connections(
                match max_connections {
                    Some(text) => Some(text@),
                    None => None,
                },
            ),
    {
        let n: usize = match max_connections {
            Some(text) => match parse_count(text) {
                Some(n) => n,
                None => DEFAULT_CONNECTIONS,
            },
            None => DEFAULT_CONNECTIONS,
        };
        Database { pool: DbPool { url: url.to_owned() }, max_connections: n }
    }

    /// The statements that a database needs to have seen before any other.
    pub fn create_tables(&self) -> (query: Query)
        ensures
            query@ == QueryView::CreateTables,
    {
        Query::CreateTables
    }

    /// Asks for the peer that has `id`.
    pub fn get_peer(&self, id: &str) -> (query: Query)
        ensures
            query@ == (QueryView::GetPeer { id: id@ }),
    {
        Query::GetPeer { id: id.to_owned() }
    }

    /// Adds a peer under a fresh guid. Gives that guid and the query.
    pub fn insert_peer(&self, id: &str, uuid: &[u8], pk: &[u8], info: &str) -> (inserted: (
        Vec<u8>,
        Query,
    ))
        ensures
            is_random_guid(inserted.0@),
            inserted.1@ == (QueryView::InsertPeer {
                guid: inserted.0@,
                id: id@,
                uuid: uuid@,
                pk: pk@,
                info: info@,
            }),
    {
        let guid = new_guid();
        let query = self.insert_peer_as(guid.as_slice(), id, uuid, pk, info);
        (guid, query)
    }

    /// Adds a peer under a given guid.
    pub fn insert_peer_as(&self, guid: &[u8], id: &str, uuid: &[u8], pk: &[u8], info: &str) -> (query:
        Query)
        ensures
            query@ == (QueryView::InsertPeer {
                guid: guid@,
                id: id@,
                uuid: uuid@,
                pk: pk@,
                info: info@,
            }),
    {
        Query::InsertPeer {
            guid: slice_to_vec(guid),
            id: id.to_owned(),
            uuid: slice_to_vec(uuid),
            pk: slice_to_vec(pk),
            info: info.to_owned(),
        }
    }

    /// Gives the peer with `guid` another id, public key and info.
    pub fn update_pk(&self, guid: &Vec<u8>, id: &str, pk: &[u8], info: &str) -> (query: Query)
        ensures
            query@ == (QueryView::UpdatePk { guid: guid@, id: id@, pk: pk@, info: info@ }),
    {
        Query::UpdatePk {
            guid: slice_to_vec(guid.as_slice()),
            id: id.to_owned(),
            pk: slice_to_vec(pk),
            info: info.to_owned(),
        }
    }

    /// Starts to give the peer that has `old_id` and the machine uuid `uuid` the id `new_id`.
    pub fn rename_peer(&self, old_id: &str, new_id: &str, uuid: &[u8]) -> (rename: Rename)
        ensures
            rename@ == RenameView::start(old_id@, new_id@, uuid@),
    {
        Rename {
            old_id: old_id.to_owned(),
            new_id: new_id.to_owned(),
            uuid: slice_to_vec(uuid),
            stage: RenameStage::Update,
        }
    }
}

} // verus!
