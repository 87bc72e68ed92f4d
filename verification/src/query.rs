//! The statements that are sent to the peer table, with the values bound to them.

use vstd::prelude::*;
use vstd::slice::slice_to_vec;

verus! {

/// Creates the peer table and its indices where they are missing.
pub const CREATE_TABLES: &'static str = "
            create table if not exists peer (
                guid blob primary key not null,
                id varchar(100) not null,
                uuid blob not null,
                pk blob not null,
                created_at datetime not null default(current_timestamp),
                user blob,
                status tinyint,
                note varchar(300),
                info text not null
            ) without rowid;
            create unique index if not exists index_peer_id on peer (id);
            create index if not exists index_peer_user on peer (user);
            create index if not exists index_peer_created_at on peer (created_at);
            create index if not exists index_peer_status on peer (status);
        ";

/// Reads the peer that has an id.
pub const GET_PEER: &'static str =
    "select guid, id, uuid, pk, user, status, info from peer where id = ?";

/// Adds a peer.
pub const INSERT_PEER: &'static str =
    "insert into peer(guid, id, uuid, pk, info) values(?, ?, ?, ?, ?)";

/// Replaces the id, the public key and the info of a peer.
pub const UPDATE_PK: &'static str = "update peer set id=?, pk=?, info=? where guid=?";

/// Replaces the id of a peer, provided that the peer has the given machine uuid.
pub const RENAME_PEER: &'static str = "update peer set id=? where id=? and uuid=?";

/// Reads the machine uuid of the peer that has an id.
pub const SELECT_UUID: &'static str = "select uuid from peer where id=?";

/// A value bound to a placeholder of a statement.
#[derive(Debug)]
pub enum Param {
    Text(String),
    Blob(Vec<u8>),
}

/// What a [`Param`] holds.
pub enum ParamView {
    Text(Seq<char>),
    Blob(Seq<u8>),
}

impl View for Param {
    type V = ParamView;

    open spec fn view(&self) -> ParamView {
        match self {
            Param::Text(text) => ParamView::Text(text@),
            Param::Blob(bytes) => ParamView::Blob(bytes@),
        }
    }
}

impl Param {
    fn text(text: &String) -> (param: Param)
        ensures
            param@ == ParamView::Text(text@),
    {
        Param::Text(text.clone())
    }

    fn blob(bytes: &Vec<u8>) -> (param: Param)
        ensures
            param@ == ParamView::Blob(bytes@),
    {
        Param::Blob(slice_to_vec(bytes.as_slice()))
    }
}

/// A statement on the peer table.
#[derive(Debug)]
pub enum Query {
    CreateTables,
    GetPeer { id: String },
    InsertPeer { guid: Vec<u8>, id: String, uuid: Vec<u8>, pk: Vec<u8>, info: String },
    UpdatePk { guid: Vec<u8>, id: String, pk: Vec<u8>, info: String },
    RenamePeer { old_id: String, new_id: String, uuid: Vec<u8> },
    SelectUuid { id: String },
}

/// What a [`Query`] says.
pub enum QueryView {
    CreateTables,
    GetPeer { id: Seq<char> },
    InsertPeer { guid: Seq<u8>, id: Seq<char>, uuid: Seq<u8>, pk: Seq<u8>, info: Seq<char> },
    UpdatePk { guid: Seq<u8>, id: Seq<char>, pk: Seq<u8>, info: Seq<char> },
    RenamePeer { old_id: Seq<char>, new_id: Seq<char>, uuid: Seq<u8> },
    SelectUuid { id: Seq<char> },
}

impl View for Query {
    type V = QueryView;

    open spec fn view(&self) -> QueryView {
        match self {
            Query::CreateTables => QueryView::CreateTables,
            Query::GetPeer { id } => QueryView::GetPeer { id: id@ },
            Query::InsertPeer { guid, id, uuid, pk, info } => QueryView::InsertPeer {
                guid: guid@,
                id: id@,
                uuid: uuid@,
                pk: pk@,
                info: info@,
            },
            Query::UpdatePk { guid, id, pk, info } => QueryView::UpdatePk {
                guid: guid@,
                id: id@,
                pk: pk@,
                info: info@,
            },
            Query::RenamePeer { old_id, new_id, uuid } => QueryView::RenamePeer {
                old_id: old_id@,
                new_id: new_id@,
                uuid: uuid@,
            },
            Query::SelectUuid { id } => QueryView::SelectUuid { id: id@ },
        }
    }
}

impl QueryView {
    /// The text of the statement.
    pub open spec fn sql(self) -> Seq<char> {
        match self {
            QueryView::CreateTables => CREATE_TABLES@,
            QueryView::GetPeer { .. } => GET_PEER@,
            QueryView::InsertPeer { .. } => INSERT_PEER@,
            QueryView::UpdatePk { .. } => UPDATE_PK@,
            QueryView::RenamePeer { .. } => RENAME_PEER@,
            QueryView::SelectUuid { .. } => SELECT_UUID@,
        }
    }

    /// The values of the placeholders, in the order in which the text has them.
    pub open spec fn params(self) -> Seq<ParamView> {
        match self {
            QueryView::CreateTables => seq![],
            QueryView::GetPeer { id } => seq![ParamView::Text(id)],
            QueryView::InsertPeer { guid, id, uuid, pk, info } => seq![
                ParamView::Blob(guid),
                ParamView::Text(id),
                ParamView::Blob(uuid),
                ParamView::Blob(pk),
                ParamView::Text(info),
            ],
            QueryView::UpdatePk { guid, id, pk, info } => seq![
                ParamView::Text(id),
                ParamView::Blob(pk),
                ParamView::Text(info),
                ParamView::Blob(guid),
            ],
            QueryView::RenamePeer { old_id, new_id, uuid } => seq![
                ParamView::Text(new_id),
                ParamView::Text(old_id),
                ParamView::Blob(uuid),
            ],
            QueryView::SelectUuid { id } => seq![ParamView::Text(id)],
        }
    }
}

impl Query {
    /// The text of the statement, with a `?` for each value.
    pub fn sql(&self) -> (text: &'static str)
        ensures
            text@ == self@.sql(),
    {
        match self {
            Query::CreateTables => CREATE_TABLES,
            Query::GetPeer { .. } => GET_PEER,
            Query::InsertPeer { .. } => INSERT_PEER,
            Query::UpdatePk { .. } => UPDATE_PK,
            Query::RenamePeer { .. } => RENAME_PEER,
            Query::SelectUuid { .. } => SELECT_UUID,
        }
    }

    /// The values to bind, one for each `?` and in the same order.
    pub fn params(&self) -> (params: Vec<Param>)
        ensures
            params@.map_values(|p: Param| p@) == self@.params(),
    {
        let params = match self {
            Query::CreateTables => Vec::new(),
            Query::GetPeer { id } => vec![Param::text(id)],
            Query::InsertPeer { guid, id, uuid, pk, info } => vec![
                Param::blob(guid),
                Param::text(id),
                Param::blob(uuid),
                Param::blob(pk),
                Param::text(info),
            ],
            Query::UpdatePk { guid, id, pk, info } => vec![
                Param::text(id),
                Param::blob(pk),
                Param::text(info),
                Param::blob(guid),
            ],
            Query::RenamePeer { old_id, new_id, uuid } => vec![
                Param::text(new_id),
                Param::text(old_id),
                Param::blob(uuid),
            ],
            Query::SelectUuid { id } => vec![Param::text(id)],
        };
        assert(params@.map_values(|p: Param| p@) =~= self@.params());
        params
    }
}

} // verus!
