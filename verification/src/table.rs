//! A model of the peer table: what each statement does to it and what it replies, when the
//! statements run one after the other and none of them fails for an outside reason.

use crate::database::ReplyView;
use crate::query::QueryView;
use vstd::prelude::*;

verus! {

/// A row of the peer table.
pub struct Row {
    pub guid: Seq<u8>,
    pub id: Seq<char>,
    pub uuid: Seq<u8>,
    pub pk: Seq<u8>,
    pub created_at: Seq<char>,
    pub user: Option<Seq<u8>>,
    pub status: Option<int>,
    pub note: Option<Seq<char>>,
    pub info: Seq<char>,
}

/// The columns of a row that the query for a peer reads.
pub struct PeerColumns {
    pub guid: Seq<u8>,
    pub id: Seq<char>,
    pub uuid: Seq<u8>,
    pub pk: Seq<u8>,
    pub user: Option<Seq<u8>>,
    pub info: Seq<char>,
    pub status: Option<int>,
}

impl Row {
    /// What the query for a peer reads of this row.
    pub open spec fn columns(self) -> PeerColumns {
        PeerColumns {
            guid: self.guid,
            id: self.id,
            uuid: self.uuid,
            pk: self.pk,
            user: self.user,
            info: self.info,
            status: self.status,
        }
    }
}

/// The peer table, each row under its id.
pub struct Table {
    pub rows: Map<Seq<char>, Row>,
}

impl Table {
    /// Whether a peer has `id`.
    pub open spec fn has(self, id: Seq<char>) -> bool {
        self.rows.contains_key(id)
    }

    /// Whether the peer at `id` has `guid`.
    pub open spec fn has_guid_at(self, guid: Seq<u8>, id: Seq<char>) -> bool {
        self.has(id) && self.rows[id].guid == guid
    }

    /// Whether a peer has `guid`.
    pub open spec fn has_guid(self, guid: Seq<u8>) -> bool {
        exists|id: Seq<char>| self.has_guid_at(guid, id)
    }

    /// The id of the peer that has `guid`.
    pub open spec fn id_of(self, guid: Seq<u8>) -> Seq<char> {
        choose|id: Seq<char>| self.has_guid_at(guid, id)
    }

    /// Every row stands under its id, and no guid occurs twice.
    pub open spec fn well_formed(self) -> bool {
        &&& forall|id: Seq<char>| #[trigger] self.has(id) ==> self.rows[id].id == id
        &&& forall|a: Seq<char>, b: Seq<char>| #[trigger]
            self.has(a) && #[trigger] self.has(b) && self.rows[a].guid == self.rows[b].guid ==> a
                == b
    }

    /// The table with the row at `id` replaced by `row`, under the id of `row`.
    pub open spec fn replace(self, id: Seq<char>, row: Row) -> Table {
        Table { rows: self.rows.remove(id).insert(row.id, row) }
    }

    /// The machine uuid of the peer that has `id`.
    pub open spec fn uuid_of(self, id: Seq<char>) -> Option<Seq<u8>> {
        if self.has(id) {
            Some(self.rows[id].uuid)
        } else {
            None
        }
    }

    /// The peer that has `id`.
    pub open spec fn peer(self, id: Seq<char>) -> Option<Row> {
        if self.has(id) {
            Some(self.rows[id])
        } else {
            None
        }
    }

    /// The table after a statement, and the reply. `now` is the time of the statement, which a
    /// new row gets as its creation time. A statement that the unique index on the id or the
    /// primary key refuses changes nothing. (SQLite may report either of the two where both
    /// refuse; no law depends on which.)
    pub open spec fn run(self, query: QueryView, now: Seq<char>) -> (Table, ReplyView) {
        match query {
            QueryView::CreateTables => (self, ReplyView::Rows(0)),
            QueryView::GetPeer { id } => (self, ReplyView::Peer(self.peer(id))),
            QueryView::SelectUuid { id } => (self, ReplyView::Uuid(self.uuid_of(id))),
            QueryView::InsertPeer { guid, id, uuid, pk, info } => if self.has(id) {
                (self, ReplyView::IdTaken)
            } else if self.has_guid(guid) {
                (self, ReplyView::Failed)
            } else {
                let row = Row {
                    guid,
                    id,
                    uuid,
                    pk,
                    created_at: now,
                    user: None,
                    status: None,
                    note: None,
                    info,
                };
                (Table { rows: self.rows.insert(id, row) }, ReplyView::Rows(1))
            },
            QueryView::UpdatePk { guid, id, pk, info } => if !self.has_guid(guid) {
                (self, ReplyView::Rows(0))
            } else {
                let at = self.id_of(guid);
                if self.has(id) && id != at {
                    (self, ReplyView::IdTaken)
                } else {
                    let row = Row { id, pk, info, ..self.rows[at] };
                    (self.replace(at, row), ReplyView::Rows(1))
                }
            },
            QueryView::RenamePeer { old_id, new_id, uuid } => if self.uuid_of(old_id) != Some(uuid) {
                (self, ReplyView::Rows(0))
            } else if self.has(new_id) && new_id != old_id {
                (self, ReplyView::IdTaken)
            } else {
                let row = Row { id: new_id, ..self.rows[old_id] };
                (self.replace(old_id, row), ReplyView::Rows(1))
            },
        }
    }
}

} // verus!
