//! What holds of renames and registrations as a whole: the database's replies are those of the
//! peer table, and every reply is taken to the end.

use crate::database::{RenameNext, RenamePeerResult, RenameStage, RenameView, ReplyView};
use crate::peer::{
    in_memory, info_json, with_fresh, with_loaded, Peer, PeerRenameActionView, PeerRenameNext,
    PeerRenameStage, PeerRenameView, PeerReplyView, PkUpdateView, RegisterPkResult,
    SocketAddress,
};
use crate::query::QueryView;
use crate::table::{Row, Table};
use std::sync::Arc;
use vstd::prelude::*;

verus! {

/// How many replies a rename in the database may still need.
pub open spec fn replies_left(stage: RenameStage) -> nat {
    match stage {
        RenameStage::Update => 2,
        RenameStage::CheckOld => 1,
        RenameStage::CheckNew => 0,
    }
}

/// The table after a rename, and the database's answer to it.
pub open spec fn rename_rest(table: Table, rename: RenameView) -> (Table, Option<RenamePeerResult>)
    decreases replies_left(rename.stage),
{
    let (after, reply) = table.run(rename.query(), Seq::empty());
    match rename.next(reply) {
        RenameNext::Ask(stage) => rename_rest(after, RenameView { stage, ..rename }),
        RenameNext::Answer(result) => (after, Some(result)),
        RenameNext::Fail => (after, None),
    }
}

/// The table after the peer with `old_id` and `uuid` asked for `new_id`, and the answer.
pub open spec fn rename(table: Table, old_id: Seq<char>, new_id: Seq<char>, uuid: Seq<u8>) -> (
    Table,
    Option<RenamePeerResult>,
) {
    rename_rest(table, RenameView::start(old_id, new_id, uuid))
}

/// Every statement keeps the table well formed: each row stays under its own id, so no two peers
/// ever share an id, and no two share a guid.
pub proof fn law_statements_keep_table_well_formed(table: Table, query: QueryView, now: Seq<char>)
    requires
        table.well_formed(),
    ensures
        table.run(query, now).0.well_formed(),
{
    let after = table.run(query, now).0;
    match query {
        QueryView::InsertPeer { guid, id, .. } => {
            if !table.has(id) && !table.has_guid(guid) {
                assert forall|a: Seq<char>| #[trigger] table.has(a) implies table.rows[a].guid
                    != guid by {
                    assert(!table.has_guid_at(guid, a));
                }
                assert forall|a: Seq<char>| #[trigger] after.has(a) implies a == id || table.has(
                    a,
                ) by {}
            }
        },
        QueryView::UpdatePk { guid, id, .. } => {
            if table.has_guid(guid) {
                let at = table.id_of(guid);
                assert(table.has_guid_at(guid, at));
                assert forall|a: Seq<char>| #[trigger] after.has(a) implies a == id || table.has(
                    a,
                ) by {}
            }
        },
        QueryView::RenamePeer { old_id, new_id, .. } => {
            assert forall|a: Seq<char>| #[trigger] after.has(a) implies a == new_id || table.has(
                a,
            ) by {}
        },
        _ => {},
    }
}

/// How every rename is answered. Where a peer has the old id, only its own machine uuid may
/// rename it, and not to the id of another peer. Where none has it, the rename was already done
/// if the new id belongs to that machine uuid, and is refused if it belongs to another.
pub proof fn law_rename_is_answered(
    table: Table,
    old_id: Seq<char>,
    new_id: Seq<char>,
    uuid: Seq<u8>,
)
    ensures
        rename(table, old_id, new_id, uuid).1 == Some(
            if table.has(old_id) {
                if table.rows[old_id].uuid != uuid {
                    RenamePeerResult::UuidMismatch
                } else if new_id != old_id && table.has(new_id) {
                    RenamePeerResult::IdExists
                } else {
                    RenamePeerResult::Renamed
                }
            } else if table.has(new_id) {
                if table.rows[new_id].uuid == uuid {
                    RenamePeerResult::Renamed
                } else {
                    RenamePeerResult::IdExists
                }
            } else {
                RenamePeerResult::OldIdNotFound
            },
        ),
{
    reveal_with_fuel(rename_rest, 3);
}

/// A rename that is carried out changes the id of one row and nothing else: the guid, the machine
/// uuid, the public key, the creation time, the user, the status, the note and the info stay, and
/// so do all other rows. The old id no longer leads to a peer.
pub proof fn law_rename_changes_only_the_id(
    table: Table,
    old_id: Seq<char>,
    new_id: Seq<char>,
    uuid: Seq<u8>,
)
    requires
        table.has(old_id),
        rename(table, old_id, new_id, uuid).1 == Some(RenamePeerResult::Renamed),
    ensures
        ({
            let after = rename(table, old_id, new_id, uuid).0;
            &&& after.peer(new_id) == Some(Row { id: new_id, ..table.rows[old_id] })
            &&& old_id != new_id ==> !table.has(new_id) && !after.has(old_id)
            &&& forall|id: Seq<char>|
                id != old_id && id != new_id ==> #[trigger] after.peer(id) == table.peer(id)
        }),
{
    reveal_with_fuel(rename_rest, 3);
}

/// A rename that is refused, or that was done before, changes nothing.
pub proof fn law_rename_otherwise_changes_nothing(
    table: Table,
    old_id: Seq<char>,
    new_id: Seq<char>,
    uuid: Seq<u8>,
)
    requires
        !table.has(old_id) || rename(table, old_id, new_id, uuid).1 != Some(
            RenamePeerResult::Renamed,
        ),
    ensures
        rename(table, old_id, new_id, uuid).0 == table,
{
    reveal_with_fuel(rename_rest, 3);
}

/// After a rename was answered as done, the new id belongs to the machine uuid that asked for it.
pub proof fn law_renamed_id_belongs_to_owner(
    table: Table,
    old_id: Seq<char>,
    new_id: Seq<char>,
    uuid: Seq<u8>,
)
    requires
        rename(table, old_id, new_id, uuid).1 == Some(RenamePeerResult::Renamed),
    ensures
        rename(table, old_id, new_id, uuid).0.uuid_of(new_id) == Some(uuid),
        old_id != new_id ==> !rename(table, old_id, new_id, uuid).0.has(old_id),
{
    reveal_with_fuel(rename_rest, 3);
}

/// To repeat a rename that was answered as done gives the same answer, and changes nothing.
pub proof fn law_rename_can_be_repeated(
    table: Table,
    old_id: Seq<char>,
    new_id: Seq<char>,
    uuid: Seq<u8>,
)
    requires
        rename(table, old_id, new_id, uuid).1 == Some(RenamePeerResult::Renamed),
    ensures
        rename(rename(table, old_id, new_id, uuid).0, old_id, new_id, uuid) == rename(
            table,
            old_id,
            new_id,
            uuid,
        ),
{
    let after = rename(table, old_id, new_id, uuid).0;
    law_renamed_id_belongs_to_owner(table, old_id, new_id, uuid);
    law_rename_is_answered(after, old_id, new_id, uuid);
    if old_id == new_id {
        reveal_with_fuel(rename_rest, 3);
        assert(rename(after, old_id, new_id, uuid).0.rows =~= after.rows);
    } else {
        law_rename_otherwise_changes_nothing(after, old_id, new_id, uuid);
    }
}

/// Of the queries of a rename only the first changes the table, and what it changes it changes
/// at once: whatever other statements run between the queries, a rename gives one row another id
/// or does nothing.
pub proof fn law_only_the_update_changes_the_table(
    table: Table,
    rename: RenameView,
    now: Seq<char>,
)
    ensures
        ({
            let after = table.run(rename.query(), now).0;
            after == table || {
                &&& rename.stage == RenameStage::Update
                &&& table.uuid_of(rename.old_id) == Some(rename.uuid)
                &&& after == table.replace(
                    rename.old_id,
                    Row { id: rename.new_id, ..table.rows[rename.old_id] },
                )
            }
        }),
{
}

/// A rename keeps the table well formed.
pub proof fn law_rename_keeps_table_well_formed(
    table: Table,
    old_id: Seq<char>,
    new_id: Seq<char>,
    uuid: Seq<u8>,
)
    requires
        table.well_formed(),
    ensures
        rename(table, old_id, new_id, uuid).0.well_formed(),
{
    reveal_with_fuel(rename_rest, 3);
    law_statements_keep_table_well_formed(
        table,
        RenameView::start(old_id, new_id, uuid).query(),
        Seq::empty(),
    );
}

/// A peer that was added is read back as it was written.
pub proof fn law_added_peer_is_read_back(
    table: Table,
    guid: Seq<u8>,
    id: Seq<char>,
    uuid: Seq<u8>,
    pk: Seq<u8>,
    info: Seq<char>,
    now: Seq<char>,
    later: Seq<char>,
)
    requires
        table.run(QueryView::InsertPeer { guid, id, uuid, pk, info }, now).1 == ReplyView::Rows(1),
    ensures
        ({
            let after = table.run(QueryView::InsertPeer { guid, id, uuid, pk, info }, now).0;
            &&& after.run(QueryView::GetPeer { id }, later) == (
                after,
                ReplyView::Peer(
                    Some(
                        Row {
                            guid,
                            id,
                            uuid,
                            pk,
                            created_at: now,
                            user: None,
                            status: None,
                            note: None,
                            info,
                        },
                    ),
                ),
            )
            &&& forall|other: Seq<char>|
                other != id ==> #[trigger] after.peer(other) == table.peer(other)
        }),
{
}

/// A peer can be added exactly where neither its id nor its guid is in use. Nothing changes where
/// it cannot.
pub proof fn law_adding_needs_a_free_id(
    table: Table,
    guid: Seq<u8>,
    id: Seq<char>,
    uuid: Seq<u8>,
    pk: Seq<u8>,
    info: Seq<char>,
    now: Seq<char>,
)
    ensures
        ({
            let (after, reply) = table.run(
                QueryView::InsertPeer { guid, id, uuid, pk, info },
                now,
            );
            &&& reply == ReplyView::Rows(1) <==> !table.has(id) && !table.has_guid(guid)
            &&& reply != ReplyView::Rows(1) ==> after == table
        }),
{
}

/// A peer to be added, and the time at which it is.
pub struct NewPeer {
    pub guid: Seq<u8>,
    pub id: Seq<char>,
    pub uuid: Seq<u8>,
    pub pk: Seq<u8>,
    pub info: Seq<char>,
    pub now: Seq<char>,
}

impl NewPeer {
    /// The query that adds the peer.
    pub open spec fn query(self) -> QueryView {
        QueryView::InsertPeer {
            guid: self.guid,
            id: self.id,
            uuid: self.uuid,
            pk: self.pk,
            info: self.info,
        }
    }

    /// The row of the peer.
    pub open spec fn row(self) -> Row {
        Row {
            guid: self.guid,
            id: self.id,
            uuid: self.uuid,
            pk: self.pk,
            created_at: self.now,
            user: None,
            status: None,
            note: None,
            info: self.info,
        }
    }
}

/// The table after the peers were added one after the other, and the replies.
pub open spec fn add_all(table: Table, peers: Seq<NewPeer>) -> (Table, Seq<ReplyView>)
    decreases peers.len(),
{
    if peers.len() == 0 {
        (table, Seq::empty())
    } else {
        let (before, replies) = add_all(table, peers.drop_last());
        let (after, reply) = before.run(peers.last().query(), peers.last().now);
        (after, replies.push(reply))
    }
}

/// Peers with different ids and different guids, none of them in use, are all added, in whatever
/// order the statements come: each id then has the row of its own peer, and every other row stays.
pub proof fn law_different_peers_are_all_added(table: Table, peers: Seq<NewPeer>)
    requires
        table.well_formed(),
        forall|i: int| 0 <= i < peers.len() ==> !table.has((#[trigger] peers[i]).id),
        forall|i: int| 0 <= i < peers.len() ==> !table.has_guid((#[trigger] peers[i]).guid),
        forall|i: int, j: int|
            0 <= i < j < peers.len() ==> (#[trigger] peers[i]).id != (#[trigger] peers[j]).id,
        forall|i: int, j: int|
            0 <= i < j < peers.len() ==> (#[trigger] peers[i]).guid != (#[trigger] peers[j]).guid,
    ensures
        ({
            let (after, replies) = add_all(table, peers);
            &&& replies.len() == peers.len()
            &&& forall|i: int|
                0 <= i < peers.len() ==> #[trigger] replies[i] == ReplyView::Rows(1)
            &&& forall|i: int|
                0 <= i < peers.len() ==> after.peer((#[trigger] peers[i]).id) == Some(
                    peers[i].row(),
                )
            &&& forall|id: Seq<char>|
                (forall|i: int| 0 <= i < peers.len() ==> (#[trigger] peers[i]).id != id)
                    ==> #[trigger] after.peer(id) == table.peer(id)
            &&& after.well_formed()
        }),
    decreases peers.len(),
{
    if peers.len() > 0 {
        let rest = peers.drop_last();
        let last = peers.last();
        law_different_peers_are_all_added(table, rest);
        let (before, replies) = add_all(table, rest);
        assert(!before.has(last.id)) by {
            assert(before.peer(last.id) == table.peer(last.id));
        }
        assert(!before.has_guid(last.guid)) by {
            if before.has_guid(last.guid) {
                let at = before.id_of(last.guid);
                assert(before.has_guid_at(last.guid, at));
                if exists|i: int| 0 <= i < rest.len() && (#[trigger] rest[i]).id == at {
                    let i = choose|i: int| 0 <= i < rest.len() && (#[trigger] rest[i]).id == at;
                    assert(before.peer(rest[i].id) == Some(rest[i].row()));
                    assert(peers[i].guid != peers[peers.len() - 1].guid);
                } else {
                    assert(before.peer(at) == table.peer(at));
                    assert(table.has_guid_at(last.guid, at));
                }
            }
        }
        law_statements_keep_table_well_formed(before, last.query(), last.now);
        let after = add_all(table, peers).0;
        assert forall|i: int| 0 <= i < peers.len() implies after.peer((#[trigger] peers[i]).id)
            == Some(peers[i].row()) by {
            if i < rest.len() {
                assert(before.peer(rest[i].id) == Some(rest[i].row()));
                assert(peers[i].id != peers[peers.len() - 1].id);
            }
        }
        assert forall|id: Seq<char>|
            (forall|i: int| 0 <= i < peers.len() ==> (#[trigger] peers[i]).id != id) implies (
        #[trigger] after.peer(id)) == table.peer(id) by {
            assert(peers[peers.len() - 1].id != id);
            assert forall|i: int| 0 <= i < rest.len() implies (#[trigger] rest[i]).id != id by {
                assert(peers[i].id != id);
            }
            assert(before.peer(id) == table.peer(id));
        }
    }
}

/// The guid of a row leads back to the row's id.
proof fn lemma_guid_leads_to_its_row(table: Table, at: Seq<char>)
    requires
        table.well_formed(),
        table.has(at),
    ensures
        table.has_guid(table.rows[at].guid),
        table.id_of(table.rows[at].guid) == at,
{
    let guid = table.rows[at].guid;
    assert(table.has_guid_at(guid, at));
    assert(table.has_guid_at(guid, table.id_of(guid)));
    assert(table.has(table.id_of(guid)));
}

/// A second registration of a public key reaches the row of the first through its guid: the id,
/// the key and the info are the new ones, and the guid, the machine uuid, the creation time, the
/// user, the status and the note stay.
pub proof fn law_reregistration_keeps_the_row(
    table: Table,
    at: Seq<char>,
    id: Seq<char>,
    pk: Seq<u8>,
    info: Seq<char>,
    now: Seq<char>,
)
    requires
        table.well_formed(),
        table.has(at),
        id == at || !table.has(id),
    ensures
        ({
            let (after, reply) = table.run(
                QueryView::UpdatePk { guid: table.rows[at].guid, id, pk, info },
                now,
            );
            &&& reply == ReplyView::Rows(1)
            &&& after.peer(id) == Some(Row { id, pk, info, ..table.rows[at] })
            &&& id != at ==> !after.has(at)
            &&& forall|other: Seq<char>|
                other != id && other != at ==> #[trigger] after.peer(other) == table.peer(other)
        }),
{
    lemma_guid_leads_to_its_row(table, at);
}

/// A registration cannot take the id of another peer: it is refused and changes nothing.
pub proof fn law_registration_cannot_take_an_id(
    table: Table,
    at: Seq<char>,
    id: Seq<char>,
    pk: Seq<u8>,
    info: Seq<char>,
    now: Seq<char>,
)
    requires
        table.well_formed(),
        table.has(at),
        table.has(id),
        id != at,
    ensures
        table.run(QueryView::UpdatePk { guid: table.rows[at].guid, id, pk, info }, now) == (
            table,
            ReplyView::IdTaken,
        ),
{
    lemma_guid_leads_to_its_row(table, at);
}

/// A registration: the table after it, the guid of the peer after it, and the answer. `guid` is
/// the guid of the peer before it, `drawn` the one that is drawn for a peer without.
pub open spec fn register(
    table: Table,
    guid: Seq<u8>,
    drawn: Seq<u8>,
    id: Seq<char>,
    uuid: Seq<u8>,
    pk: Seq<u8>,
    ip: Seq<char>,
    now: Seq<char>,
) -> (Table, Seq<u8>, RegisterPkResult) {
    let update = PkUpdateView::of(guid, drawn, id, uuid, pk, ip);
    let (after, reply) = table.run(update.query(), now);
    let done = reply is Rows;
    (after, update.guid_after(guid, done), update.answer(done))
}

/// Whether a registration asks for an id that it cannot have: the id of any peer where the one
/// that registers is new, the id of another peer where it is known.
pub open spec fn registration_conflict(table: Table, guid: Seq<u8>, id: Seq<char>) -> bool {
    if guid.len() == 0 {
        table.has(id)
    } else {
        table.has_guid(guid) && table.has(id) && table.rows[id].guid != guid
    }
}

/// How a registration is answered, given that the drawn guid is in nobody's use: by
/// `SERVER_ERROR` exactly where the id belongs to another peer, and then nothing changes; by `OK`
/// everywhere else. A new peer then has the drawn guid and a row of its own; a known one keeps its
/// guid and its row, with the new id, key and info. No other row changes.
pub proof fn law_registration_is_answered(
    table: Table,
    guid: Seq<u8>,
    drawn: Seq<u8>,
    id: Seq<char>,
    uuid: Seq<u8>,
    pk: Seq<u8>,
    ip: Seq<char>,
    now: Seq<char>,
)
    requires
        table.well_formed(),
        !table.has_guid(drawn),
    ensures
        ({
            let (after, guid_after, answer) = register(table, guid, drawn, id, uuid, pk, ip, now);
            let at = table.id_of(guid);
            let info = info_json(ip);
            &&& answer == (if registration_conflict(table, guid, id) {
                RegisterPkResult::SERVER_ERROR
            } else {
                RegisterPkResult::OK
            })
            &&& answer != RegisterPkResult::OK ==> after == table && guid_after == guid
            &&& answer == RegisterPkResult::OK ==> if guid.len() == 0 {
                &&& guid_after == drawn
                &&& after.peer(id) == Some(
                    Row {
                        guid: drawn,
                        id,
                        uuid,
                        pk,
                        created_at: now,
                        user: None,
                        status: None,
                        note: None,
                        info,
                    },
                )
                &&& forall|other: Seq<char>|
                    other != id ==> #[trigger] after.peer(other) == table.peer(other)
            } else if table.has_guid(guid) {
                &&& guid_after == guid
                &&& after.peer(id) == Some(Row { id, pk, info, ..table.rows[at] })
                &&& id != at ==> !after.has(at)
                &&& forall|other: Seq<char>|
                    other != id && other != at ==> #[trigger] after.peer(other) == table.peer(
                        other,
                    )
            } else {
                guid_after == guid && after == table
            }
            &&& after.well_formed()
        }),
{
    let query = PkUpdateView::of(guid, drawn, id, uuid, pk, ip).query();
    law_statements_keep_table_well_formed(table, query, now);
    if guid.len() > 0 && table.has_guid(guid) {
        let at = table.id_of(guid);
        assert(table.has_guid_at(guid, at));
        if table.has(id) && id != at {
            law_registration_cannot_take_an_id(table, at, id, pk, info_json(ip), now);
        } else {
            law_reregistration_keeps_the_row(table, at, id, pk, info_json(ip), now);
        }
    }
}

/// The server: the peers in memory, and the table of all peers.
#[verifier::reject_recursive_types(L)]
pub struct Server<L> {
    pub memory: Map<Seq<char>, Arc<L>>,
    pub table: Table,
}

/// What surrounds the server: the machine uuid that a peer in memory holds, and the peer in
/// memory that a row is loaded as.
#[verifier::reject_recursive_types(L)]
pub struct Surroundings<L> {
    pub uuid: spec_fn(Arc<L>) -> Seq<u8>,
    pub load: spec_fn(Row) -> Arc<L>,
}

impl<L> Surroundings<L> {
    /// A loaded peer has the machine uuid of its row.
    pub open spec fn loads_uuids(self) -> bool {
        forall|row: Row| (self.uuid)(#[trigger] (self.load)(row)) == row.uuid
    }
}

/// How many replies a rename of a peer may still need.
pub open spec fn peer_replies_left(stage: PeerRenameStage) -> nat {
    match stage {
        PeerRenameStage::ReadUuid => 2,
        PeerRenameStage::Rename => 1,
        PeerRenameStage::Load => 0,
    }
}

impl<L> Server<L> {
    /// The table after an action of a rename, and what is found by it.
    pub open spec fn act(self, around: Surroundings<L>, action: PeerRenameActionView) -> (
        Table,
        PeerReplyView<L>,
    ) {
        match action {
            PeerRenameActionView::ReadUuid { id } => (
                self.table,
                PeerReplyView::Uuid((around.uuid)(self.memory[id])),
            ),
            PeerRenameActionView::Rename(rename) => {
                let (after, answer) = rename_rest(self.table, rename);
                (after, PeerReplyView::Renamed(answer))
            },
            PeerRenameActionView::Load(query) => {
                let (after, reply) = self.table.run(query, Seq::empty());
                (
                    after,
                    PeerReplyView::Loaded(
                        match reply {
                            ReplyView::Peer(Some(row)) => Some((around.load)(row)),
                            _ => None,
                        },
                    ),
                )
            },
        }
    }

    /// The server after a rename that has begun, and the answer to it.
    pub open spec fn rename_rest(self, around: Surroundings<L>, rename: PeerRenameView) -> (
        Server<L>,
        RegisterPkResult,
    )
        decreases peer_replies_left(rename.stage),
    {
        let (table, reply) = self.act(around, rename.action());
        let after = Server { memory: rename.memory_after(self.memory, reply), table };
        match rename.next(self.memory, reply) {
            PeerRenameNext::Wait(stage) => after.rename_rest(
                around,
                PeerRenameView { stage, ..rename },
            ),
            PeerRenameNext::Answer(result) => (after, result),
        }
    }

    /// The server after the peer with `old_id` and `uuid` asked for `new_id`, and the answer.
    pub open spec fn rename(
        self,
        around: Surroundings<L>,
        old_id: Seq<char>,
        new_id: Seq<char>,
        uuid: Seq<u8>,
    ) -> (Server<L>, RegisterPkResult) {
        self.rename_rest(around, PeerRenameView::start(self.memory, old_id, new_id, uuid))
    }

    /// The server after a look-up of the peer that has `id`, and what was found.
    pub open spec fn lookup(self, around: Surroundings<L>, id: Seq<char>) -> (
        Server<L>,
        Option<Arc<L>>,
    ) {
        match in_memory(self.memory, id) {
            Some(peer) => (self, Some(peer)),
            None => {
                let (table, reply) = self.table.run(QueryView::GetPeer { id }, Seq::empty());
                let loaded = match reply {
                    ReplyView::Peer(Some(row)) => Some((around.load)(row)),
                    _ => None,
                };
                (Server { memory: with_loaded(self.memory, id, loaded), table }, loaded)
            },
        }
    }

    /// The server after a look-up of the peer that has `id`, for which `fresh` is entered where
    /// none is found, and the peer.
    pub open spec fn get_or(self, around: Surroundings<L>, id: Seq<char>, fresh: Arc<L>) -> (
        Server<L>,
        Arc<L>,
    ) {
        let after = self.lookup(around, id).0;
        let memory = with_fresh(after.memory, id, fresh);
        (Server { memory, table: after.table }, memory[id])
    }

    /// Whether a peer in memory stands in the way of giving `new_id` to the peer with `uuid`.
    pub open spec fn memory_conflict(
        self,
        around: Surroundings<L>,
        old_id: Seq<char>,
        new_id: Seq<char>,
        uuid: Seq<u8>,
    ) -> bool {
        &&& old_id != new_id
        &&& self.memory.contains_key(new_id)
        &&& {
            let existing = (around.uuid)(self.memory[new_id]);
            existing.len() == 0 || existing != uuid
        }
    }
}

/// How a rename is answered to the peer: a conflict in memory refuses it before the database is
/// asked; otherwise the database decides, and an unknown old id is answered like a wrong owner.
pub proof fn law_peer_rename_is_answered<L>(
    server: Server<L>,
    around: Surroundings<L>,
    old_id: Seq<char>,
    new_id: Seq<char>,
    uuid: Seq<u8>,
)
    ensures
        server.rename(around, old_id, new_id, uuid).1 == (if server.memory_conflict(
            around,
            old_id,
            new_id,
            uuid,
        ) {
            RegisterPkResult::ID_EXISTS
        } else {
            match rename(server.table, old_id, new_id, uuid).1 {
                Some(RenamePeerResult::Renamed) => RegisterPkResult::OK,
                Some(RenamePeerResult::IdExists) => RegisterPkResult::ID_EXISTS,
                Some(RenamePeerResult::OldIdNotFound) => RegisterPkResult::UUID_MISMATCH,
                Some(RenamePeerResult::UuidMismatch) => RegisterPkResult::UUID_MISMATCH,
                None => RegisterPkResult::SERVER_ERROR,
            }
        }),
{
    reveal_with_fuel(Server::rename_rest, 4);
    law_rename_is_answered(server.table, old_id, new_id, uuid);
    if rename(server.table, old_id, new_id, uuid).1 == Some(RenamePeerResult::Renamed) {
        law_renamed_id_belongs_to_owner(server.table, old_id, new_id, uuid);
    }
}

/// What an accepted rename leaves in memory: the very peer that was in memory under the old id is
/// now under the new one; where none was, the peer under the new id stays or is loaded from its
/// row. No other entry changes.
pub proof fn law_peer_rename_moves_the_same_peer<L>(
    server: Server<L>,
    around: Surroundings<L>,
    old_id: Seq<char>,
    new_id: Seq<char>,
    uuid: Seq<u8>,
)
    requires
        server.rename(around, old_id, new_id, uuid).1 == RegisterPkResult::OK,
    ensures
        ({
            let after = server.rename(around, old_id, new_id, uuid).0;
            &&& after.table == rename(server.table, old_id, new_id, uuid).0
            &&& old_id == new_id ==> after.memory == server.memory
            &&& old_id != new_id ==> {
                &&& in_memory(after.memory, old_id) is None
                &&& in_memory(after.memory, new_id) == Some(
                    if server.memory.contains_key(old_id) {
                        server.memory[old_id]
                    } else if server.memory.contains_key(new_id) {
                        server.memory[new_id]
                    } else {
                        (around.load)(after.table.rows[new_id])
                    },
                )
                &&& forall|id: Seq<char>|
                    id != old_id && id != new_id ==> #[trigger] in_memory(after.memory, id)
                        == in_memory(server.memory, id)
            }
        }),
{
    reveal_with_fuel(Server::rename_rest, 4);
    law_peer_rename_is_answered(server, around, old_id, new_id, uuid);
    law_renamed_id_belongs_to_owner(server.table, old_id, new_id, uuid);
}

/// A rename that is refused changes neither the peers in memory nor the table.
pub proof fn law_refused_peer_rename_changes_nothing<L>(
    server: Server<L>,
    around: Surroundings<L>,
    old_id: Seq<char>,
    new_id: Seq<char>,
    uuid: Seq<u8>,
)
    requires
        server.rename(around, old_id, new_id, uuid).1 != RegisterPkResult::OK,
    ensures
        server.rename(around, old_id, new_id, uuid).0 == server,
{
    reveal_with_fuel(Server::rename_rest, 4);
    law_peer_rename_is_answered(server, around, old_id, new_id, uuid);
    law_rename_is_answered(server.table, old_id, new_id, uuid);
    if !server.memory_conflict(around, old_id, new_id, uuid) {
        law_rename_otherwise_changes_nothing(server.table, old_id, new_id, uuid);
    }
}

/// Whatever the database replies, and also if it fails: the peers in memory change only with the
/// reply that is answered by `OK`.
pub proof fn law_memory_changes_only_with_ok<L>(
    memory: Map<Seq<char>, Arc<L>>,
    rename: PeerRenameView,
    reply: PeerReplyView<L>,
)
    requires
        rename.next(memory, reply) != PeerRenameNext::Answer(RegisterPkResult::OK),
    ensures
        rename.memory_after(memory, reply) == memory,
{
}

/// A rename is only accepted from the owner of the old id, or from the owner of the new id when
/// nobody has the old one any more.
pub proof fn law_peer_rename_needs_the_owner<L>(
    server: Server<L>,
    around: Surroundings<L>,
    old_id: Seq<char>,
    new_id: Seq<char>,
    uuid: Seq<u8>,
)
    requires
        server.rename(around, old_id, new_id, uuid).1 == RegisterPkResult::OK,
    ensures
        server.table.uuid_of(old_id) == Some(uuid) || (!server.table.has(old_id)
            && server.table.uuid_of(new_id) == Some(uuid)),
        server.rename(around, old_id, new_id, uuid).0.table.uuid_of(new_id) == Some(uuid),
{
    law_peer_rename_is_answered(server, around, old_id, new_id, uuid);
    law_peer_rename_moves_the_same_peer(server, around, old_id, new_id, uuid);
    law_rename_is_answered(server.table, old_id, new_id, uuid);
    law_renamed_id_belongs_to_owner(server.table, old_id, new_id, uuid);
}

/// After an accepted rename the old id leads to no peer, in memory or in the table, and the new
/// id leads to one.
pub proof fn law_old_id_stops_resolving<L>(
    server: Server<L>,
    around: Surroundings<L>,
    old_id: Seq<char>,
    new_id: Seq<char>,
    uuid: Seq<u8>,
)
    requires
        old_id != new_id,
        server.rename(around, old_id, new_id, uuid).1 == RegisterPkResult::OK,
    ensures
        ({
            let after = server.rename(around, old_id, new_id, uuid).0;
            &&& after.lookup(around, old_id) == (after, None::<Arc<L>>)
            &&& after.lookup(around, new_id).1 is Some
        }),
{
    law_peer_rename_is_answered(server, around, old_id, new_id, uuid);
    law_peer_rename_moves_the_same_peer(server, around, old_id, new_id, uuid);
    law_renamed_id_belongs_to_owner(server.table, old_id, new_id, uuid);
}

/// To repeat an accepted rename is accepted again, and changes nothing. The machine uuid must not
/// be empty, and a peer in memory under the old id must be the one that asks.
pub proof fn law_peer_rename_can_be_repeated<L>(
    server: Server<L>,
    around: Surroundings<L>,
    old_id: Seq<char>,
    new_id: Seq<char>,
    uuid: Seq<u8>,
)
    requires
        around.loads_uuids(),
        server.rename(around, old_id, new_id, uuid).1 == RegisterPkResult::OK,
        old_id != new_id ==> uuid.len() > 0,
        old_id != new_id && server.memory.contains_key(old_id) ==> (around.uuid)(
            server.memory[old_id],
        ) == uuid,
    ensures
        ({
            let after = server.rename(around, old_id, new_id, uuid).0;
            after.rename(around, old_id, new_id, uuid) == (after, RegisterPkResult::OK)
        }),
{
    let after = server.rename(around, old_id, new_id, uuid).0;
    law_peer_rename_is_answered(server, around, old_id, new_id, uuid);
    law_peer_rename_moves_the_same_peer(server, around, old_id, new_id, uuid);
    law_renamed_id_belongs_to_owner(server.table, old_id, new_id, uuid);
    law_rename_can_be_repeated(server.table, old_id, new_id, uuid);
    law_peer_rename_is_answered(after, around, old_id, new_id, uuid);
    reveal_with_fuel(Server::rename_rest, 4);
}

/// Of two peers with different machine uuids that ask for the same id one after the other, the
/// second is refused once the first was accepted; if it has its old id, because the new one
/// exists.
pub proof fn law_an_id_has_only_one_owner<L>(
    server: Server<L>,
    around: Surroundings<L>,
    first_id: Seq<char>,
    first_uuid: Seq<u8>,
    second_id: Seq<char>,
    second_uuid: Seq<u8>,
    new_id: Seq<char>,
)
    requires
        first_uuid != second_uuid,
        server.rename(around, first_id, new_id, first_uuid).1 == RegisterPkResult::OK,
    ensures
        ({
            let after = server.rename(around, first_id, new_id, first_uuid).0;
            let (last, answer) = after.rename(around, second_id, new_id, second_uuid);
            &&& answer != RegisterPkResult::OK
            &&& last == after
            &&& after.table.uuid_of(second_id) == Some(second_uuid) ==> answer
                == RegisterPkResult::ID_EXISTS
            &&& last.table.uuid_of(new_id) == Some(first_uuid)
        }),
{
    let after = server.rename(around, first_id, new_id, first_uuid).0;
    law_peer_rename_needs_the_owner(server, around, first_id, new_id, first_uuid);
    law_peer_rename_is_answered(after, around, second_id, new_id, second_uuid);
    law_rename_is_answered(after.table, second_id, new_id, second_uuid);
    law_refused_peer_rename_changes_nothing(after, around, second_id, new_id, second_uuid);
}

/// A peer that was found once is found in memory from then on: the second look-up gives the same
/// peer and changes nothing.
pub proof fn law_lookup_can_be_repeated<L>(
    server: Server<L>,
    around: Surroundings<L>,
    id: Seq<char>,
)
    ensures
        ({
            let (after, found) = server.lookup(around, id);
            &&& after.lookup(around, id) == (after, found)
            &&& found is Some ==> in_memory(after.memory, id) == found
            &&& after.table == server.table
        }),
{
}

/// A look-up that must find a peer gives the peer in memory or else in the table, and the fresh
/// one only where there is neither. The peer is in memory from then on; no other entry changes,
/// and the table stays.
pub proof fn law_get_or_prefers_a_known_peer<L>(
    server: Server<L>,
    around: Surroundings<L>,
    id: Seq<char>,
    fresh: Arc<L>,
)
    ensures
        ({
            let (after, peer) = server.get_or(around, id, fresh);
            &&& peer == (match server.lookup(around, id).1 {
                Some(found) => found,
                None => fresh,
            })
            &&& in_memory(after.memory, id) == Some(peer)
            &&& forall|other: Seq<char>|
                other != id ==> #[trigger] in_memory(after.memory, other) == in_memory(
                    server.memory,
                    other,
                )
            &&& after.table == server.table
            &&& after.get_or(around, id, fresh) == (after, peer)
        }),
{
}

/// A fresh peer is entered once: whoever asks for the same id later gets the peer that is there.
pub proof fn law_fresh_peer_is_entered_once<L>(
    memory: Map<Seq<char>, Arc<L>>,
    id: Seq<char>,
    first: Arc<L>,
    second: Arc<L>,
)
    ensures
        with_fresh(with_fresh(memory, id, first), id, second) == with_fresh(memory, id, first),
        in_memory(with_fresh(memory, id, first), id) is Some,
{
}

/// A peer that registers for the first time and then again has one row: the one of its first
/// registration, with the id, the key and the info of the second.
pub proof fn law_second_registration_updates_the_first(
    table: Table,
    guid: Seq<u8>,
    id: Seq<char>,
    uuid: Seq<u8>,
    pk: Seq<u8>,
    info: Seq<char>,
    now: Seq<char>,
    second_id: Seq<char>,
    second_pk: Seq<u8>,
    second_info: Seq<char>,
    later: Seq<char>,
)
    requires
        table.well_formed(),
        table.run(QueryView::InsertPeer { guid, id, uuid, pk, info }, now).1 == ReplyView::Rows(1),
        second_id == id || !table.has(second_id),
    ensures
        ({
            let first = table.run(QueryView::InsertPeer { guid, id, uuid, pk, info }, now).0;
            let (after, reply) = first.run(
                QueryView::UpdatePk { guid, id: second_id, pk: second_pk, info: second_info },
                later,
            );
            &&& reply == ReplyView::Rows(1)
            &&& after.peer(second_id) == Some(
                Row {
                    guid,
                    id: second_id,
                    uuid,
                    pk: second_pk,
                    created_at: now,
                    user: None,
                    status: None,
                    note: None,
                    info: second_info,
                },
            )
            &&& second_id != id ==> !after.has(id)
        }),
{
    let query = QueryView::InsertPeer { guid, id, uuid, pk, info };
    let first = table.run(query, now).0;
    law_statements_keep_table_well_formed(table, query, now);
    law_reregistration_keeps_the_row(first, id, second_id, second_pk, second_info, later);
}

/// How rows become peers in memory: what an info text says, where it can be read; the two times
/// that a row's peer gets; and the peer behind a lock.
#[verifier::reject_recursive_types(L)]
#[verifier::reject_recursive_types(T)]
pub struct Loading<L, T> {
    pub ip: spec_fn(Seq<char>) -> Option<Seq<char>>,
    pub times: spec_fn(Row) -> (T, T),
    pub behind: spec_fn(Arc<L>) -> Peer<T>,
}

impl<L, T> Loading<L, T> {
    /// The info text that a peer is stored with says its address again.
    pub open spec fn reads_info(self) -> bool {
        forall|ip: Seq<char>| (self.ip)(#[trigger] info_json(ip)) == Some(ip)
    }

    /// A row is loaded as its peer.
    pub open spec fn loads_rows(self, around: Surroundings<L>) -> bool {
        forall|row: Row|
            (self.behind)(#[trigger] (around.load)(row)).is_of_row(
                row.columns(),
                (self.ip)(row.info),
                (self.times)(row).0,
                (self.times)(row).1,
            )
    }
}

/// A registration outlives the server: after it was answered by `OK`, a server that starts with
/// nothing in memory finds the peer by its id, with its guid, its key and its address, and with
/// the machine uuid of its first registration. Its socket address and its count of registrations
/// are not kept.
pub proof fn law_registration_outlives_a_restart<L, T>(
    table: Table,
    guid: Seq<u8>,
    drawn: Seq<u8>,
    id: Seq<char>,
    uuid: Seq<u8>,
    pk: Seq<u8>,
    ip: Seq<char>,
    now: Seq<char>,
    around: Surroundings<L>,
    loading: Loading<L, T>,
)
    requires
        table.well_formed(),
        !table.has_guid(drawn),
        guid.len() == 0 || table.has_guid(guid),
        loading.reads_info(),
        loading.loads_rows(around),
        register(table, guid, drawn, id, uuid, pk, ip, now).2 == RegisterPkResult::OK,
    ensures
        ({
            let (after, guid_after, _) = register(table, guid, drawn, id, uuid, pk, ip, now);
            let restarted = Server::<L> { memory: Map::empty(), table: after };
            let found = restarted.lookup(around, id).1;
            let peer = (loading.behind)(found->0);
            &&& found is Some
            &&& peer.guid@ == guid_after
            &&& peer.uuid@ == (if guid.len() == 0 {
                uuid
            } else {
                table.rows[table.id_of(guid)].uuid
            })
            &&& peer.pk@ == pk
            &&& peer.info.ip@ == ip
            &&& peer.socket_addr == (SocketAddress::V4 { ip: 0, port: 0 })
            &&& peer.reg_pk.0 == 0
        }),
{
    law_registration_is_answered(table, guid, drawn, id, uuid, pk, ip, now);
    let after = register(table, guid, drawn, id, uuid, pk, ip, now).0;
    let row = after.rows[id];
    if guid.len() > 0 {
        assert(table.has_guid_at(guid, table.id_of(guid)));
    }
    assert((loading.behind)((around.load)(row)).guid@ == row.guid);
}

/// A rename outlives the server: after it was accepted, a server that starts with nothing in
/// memory finds the peer of the new id, which has the machine uuid that asked for it and, where
/// the rename was carried out, all else of the row that had the old id. It finds none by the old
/// id.
pub proof fn law_rename_outlives_a_restart<L>(
    server: Server<L>,
    around: Surroundings<L>,
    old_id: Seq<char>,
    new_id: Seq<char>,
    uuid: Seq<u8>,
)
    requires
        old_id != new_id,
        server.rename(around, old_id, new_id, uuid).1 == RegisterPkResult::OK,
    ensures
        ({
            let after = server.rename(around, old_id, new_id, uuid).0.table;
            let restarted = Server::<L> { memory: Map::empty(), table: after };
            let row = after.rows[new_id];
            &&& restarted.lookup(around, new_id).1 == Some((around.load)(row))
            &&& row.uuid == uuid
            &&& server.table.has(old_id) ==> row == (Row { id: new_id, ..server.table.rows[old_id] })
            &&& !server.table.has(old_id) ==> row == server.table.rows[new_id]
            &&& restarted.lookup(around, old_id).1 is None
        }),
{
    law_peer_rename_is_answered(server, around, old_id, new_id, uuid);
    law_peer_rename_moves_the_same_peer(server, around, old_id, new_id, uuid);
    law_renamed_id_belongs_to_owner(server.table, old_id, new_id, uuid);
    let after = server.rename(around, old_id, new_id, uuid).0.table;
    if server.table.has(old_id) {
        law_rename_changes_only_the_id(server.table, old_id, new_id, uuid);
        assert(after.peer(new_id) == Some(after.rows[new_id]));
    } else {
        law_rename_otherwise_changes_nothing(server.table, old_id, new_id, uuid);
    }
}

/// A request for a rename on its way: not looked at yet, under way, or answered.
pub enum Claim {
    Asked,
    Running(PeerRenameView),
    Answered(RegisterPkResult),
}

/// Who asks for an id: the peer with `old_id` and `uuid`.
pub struct Claimant {
    pub old_id: Seq<char>,
    pub uuid: Seq<u8>,
}

/// A server to which two peers ask for the same id, with both requests as far as they are.
#[verifier::reject_recursive_types(L)]
pub struct Contest<L> {
    pub server: Server<L>,
    pub first: Claim,
    pub second: Claim,
}

impl<L> Server<L> {
    /// One step of a request: its beginning, or an action and what follows from it. (A rename in
    /// the database is one action. Where the old id belongs to the one who asks, it is a single
    /// statement.)
    pub open spec fn step(
        self,
        around: Surroundings<L>,
        who: Claimant,
        new_id: Seq<char>,
        claim: Claim,
    ) -> (Server<L>, Claim) {
        match claim {
            Claim::Asked => (
                self,
                Claim::Running(PeerRenameView::start(self.memory, who.old_id, new_id, who.uuid)),
            ),
            Claim::Running(rename) => {
                let (table, reply) = self.act(around, rename.action());
                let after = Server { memory: rename.memory_after(self.memory, reply), table };
                match rename.next(self.memory, reply) {
                    PeerRenameNext::Wait(stage) => (
                        after,
                        Claim::Running(PeerRenameView { stage, ..rename }),
                    ),
                    PeerRenameNext::Answer(result) => (after, Claim::Answered(result)),
                }
            },
            Claim::Answered(_) => (self, claim),
        }
    }
}

impl<L> Contest<L> {
    /// The contest after steps of the two requests in the order of `turns`, in which `true` stands
    /// for a step of the first.
    pub open spec fn play(
        self,
        around: Surroundings<L>,
        one: Claimant,
        other: Claimant,
        new_id: Seq<char>,
        turns: Seq<bool>,
    ) -> Contest<L>
        decreases turns.len(),
    {
        if turns.len() == 0 {
            self
        } else {
            let before = self.play(around, one, other, new_id, turns.drop_last());
            if turns.last() {
                let (server, first) = before.server.step(around, one, new_id, before.first);
                Contest { server, first, ..before }
            } else {
                let (server, second) = before.server.step(around, other, new_id, before.second);
                Contest { server, second, ..before }
            }
        }
    }
}

/// How many steps a request may still need.
pub open spec fn steps_left(claim: Claim) -> nat {
    match claim {
        Claim::Asked => 4,
        Claim::Running(rename) => peer_replies_left(rename.stage) + 1,
        Claim::Answered(_) => 0,
    }
}

/// How many of the turns are those of the first request, or of the second.
pub open spec fn turns_of(turns: Seq<bool>, first: bool) -> nat
    decreases turns.len(),
{
    if turns.len() == 0 {
        0
    } else {
        turns_of(turns.drop_last(), first) + if turns.last() == first {
            1nat
        } else {
            0nat
        }
    }
}

/// Every step of a request brings it nearer to its answer.
proof fn lemma_requests_go_on<L>(
    start: Contest<L>,
    around: Surroundings<L>,
    one: Claimant,
    other: Claimant,
    new_id: Seq<char>,
    turns: Seq<bool>,
)
    ensures
        ({
            let end = start.play(around, one, other, new_id, turns);
            &&& steps_left(end.first) == 0 || steps_left(end.first) + turns_of(turns, true)
                <= steps_left(start.first)
            &&& steps_left(end.second) == 0 || steps_left(end.second) + turns_of(turns, false)
                <= steps_left(start.second)
        }),
    decreases turns.len(),
{
    if turns.len() > 0 {
        lemma_requests_go_on(start, around, one, other, new_id, turns.drop_last());
    }
}

/// Whether a request of `who` for `new_id` is under way at `stage`.
spec fn runs_at(claim: Claim, who: Claimant, new_id: Seq<char>, stage: PeerRenameStage) -> bool {
    claim == Claim::Running(
        PeerRenameView { old_id: who.old_id, new_id, uuid: who.uuid, stage },
    )
}

/// Nobody has the id yet, and both requests are before their turn in the database.
spec fn undecided<L>(
    contest: Contest<L>,
    one: Claimant,
    other: Claimant,
    new_id: Seq<char>,
) -> bool {
    &&& contest.server.table.uuid_of(one.old_id) == Some(one.uuid)
    &&& contest.server.table.uuid_of(other.old_id) == Some(other.uuid)
    &&& !contest.server.table.has(new_id)
    &&& !contest.server.memory.contains_key(new_id)
    &&& contest.first is Asked || runs_at(contest.first, one, new_id, PeerRenameStage::Rename)
    &&& contest.second is Asked || runs_at(contest.second, other, new_id, PeerRenameStage::Rename)
}

/// `winner` has the id, and `loser` still has its old one.
spec fn decided<L>(
    server: Server<L>,
    winner: Claimant,
    won: Claim,
    loser: Claimant,
    lost: Claim,
    new_id: Seq<char>,
) -> bool {
    &&& server.table.uuid_of(new_id) == Some(winner.uuid)
    &&& !server.table.has(winner.old_id)
    &&& server.table.uuid_of(loser.old_id) == Some(loser.uuid)
    &&& won == Claim::Answered(RegisterPkResult::OK) || runs_at(
        won,
        winner,
        new_id,
        PeerRenameStage::Load,
    )
    &&& {
        ||| lost is Asked
        ||| runs_at(lost, loser, new_id, PeerRenameStage::ReadUuid)
        ||| runs_at(lost, loser, new_id, PeerRenameStage::Rename)
        ||| lost == Claim::Answered(RegisterPkResult::ID_EXISTS)
    }
}

/// A step of the winner keeps the contest decided.
proof fn lemma_winner_keeps_the_id<L>(
    server: Server<L>,
    around: Surroundings<L>,
    winner: Claimant,
    won: Claim,
    loser: Claimant,
    lost: Claim,
    new_id: Seq<char>,
)
    requires
        decided(server, winner, won, loser, lost, new_id),
    ensures
        ({
            let (after, claim) = server.step(around, winner, new_id, won);
            decided(after, winner, claim, loser, lost, new_id)
        }),
{
}

/// A step of the loser keeps the contest decided.
proof fn lemma_loser_gets_nothing<L>(
    server: Server<L>,
    around: Surroundings<L>,
    winner: Claimant,
    won: Claim,
    loser: Claimant,
    lost: Claim,
    new_id: Seq<char>,
)
    requires
        decided(server, winner, won, loser, lost, new_id),
        loser.old_id != new_id,
    ensures
        ({
            let (after, claim) = server.step(around, loser, new_id, lost);
            decided(after, winner, won, loser, claim, new_id)
        }),
{
    law_rename_is_answered(server.table, loser.old_id, new_id, loser.uuid);
    law_rename_otherwise_changes_nothing(server.table, loser.old_id, new_id, loser.uuid);
}

/// The first step in the database decides the contest.
proof fn lemma_rename_decides<L>(
    server: Server<L>,
    around: Surroundings<L>,
    winner: Claimant,
    won: Claim,
    loser: Claimant,
    lost: Claim,
    new_id: Seq<char>,
)
    requires
        server.table.uuid_of(winner.old_id) == Some(winner.uuid),
        server.table.uuid_of(loser.old_id) == Some(loser.uuid),
        !server.table.has(new_id),
        winner.old_id != loser.old_id,
        runs_at(won, winner, new_id, PeerRenameStage::Rename),
        lost is Asked || runs_at(lost, loser, new_id, PeerRenameStage::Rename),
    ensures
        ({
            let (after, claim) = server.step(around, winner, new_id, won);
            decided(after, winner, claim, loser, lost, new_id)
        }),
{
    law_rename_is_answered(server.table, winner.old_id, new_id, winner.uuid);
    law_rename_changes_only_the_id(server.table, winner.old_id, new_id, winner.uuid);
    let after = rename(server.table, winner.old_id, new_id, winner.uuid).0;
    assert(after.peer(loser.old_id) == server.table.peer(loser.old_id));
    assert(after.peer(new_id) is Some);
}

/// Every order of steps leaves the contest undecided, or decided for one of the two.
proof fn lemma_contest_has_at_most_one_winner<L>(
    start: Contest<L>,
    around: Surroundings<L>,
    one: Claimant,
    other: Claimant,
    new_id: Seq<char>,
    turns: Seq<bool>,
)
    requires
        one.old_id != other.old_id,
        undecided(start, one, other, new_id),
    ensures
        ({
            let end = start.play(around, one, other, new_id, turns);
            ||| undecided(end, one, other, new_id)
            ||| decided(end.server, one, end.first, other, end.second, new_id)
            ||| decided(end.server, other, end.second, one, end.first, new_id)
        }),
    decreases turns.len(),
{
    if turns.len() > 0 {
        lemma_contest_has_at_most_one_winner(
            start,
            around,
            one,
            other,
            new_id,
            turns.drop_last(),
        );
        let before = start.play(around, one, other, new_id, turns.drop_last());
        let server = before.server;
        let (first, second) = (before.first, before.second);
        assert(one.old_id != new_id && other.old_id != new_id) by {
            // The old ids are in the table as long as the new one is not.
            assert(start.server.table.has(one.old_id) && start.server.table.has(other.old_id));
        }
        if undecided(before, one, other, new_id) {
            if turns.last() && first is Running {
                lemma_rename_decides(server, around, one, first, other, second, new_id);
            } else if !turns.last() && second is Running {
                lemma_rename_decides(server, around, other, second, one, first, new_id);
            }
        } else if decided(server, one, first, other, second, new_id) {
            if turns.last() {
                lemma_winner_keeps_the_id(server, around, one, first, other, second, new_id);
            } else {
                lemma_loser_gets_nothing(server, around, one, first, other, second, new_id);
            }
        } else {
            if turns.last() {
                lemma_loser_gets_nothing(server, around, other, second, one, first, new_id);
            } else {
                lemma_winner_keeps_the_id(server, around, other, second, one, first, new_id);
            }
        }
    }
}

/// Two peers ask for the same free id, and the steps of the two requests come in any order. After
/// four steps a request is answered. Once both are, one was accepted and the other was told that
/// the id exists; the id belongs to the one that was accepted, whose old id is gone, and the other
/// still has its own.
pub proof fn law_concurrent_renames_have_one_winner<L>(
    server: Server<L>,
    around: Surroundings<L>,
    one: Claimant,
    other: Claimant,
    new_id: Seq<char>,
    turns: Seq<bool>,
)
    requires
        one.old_id != other.old_id,
        server.table.uuid_of(one.old_id) == Some(one.uuid),
        server.table.uuid_of(other.old_id) == Some(other.uuid),
        !server.table.has(new_id),
        !server.memory.contains_key(new_id),
    ensures
        ({
            let start = Contest { server, first: Claim::Asked, second: Claim::Asked };
            let end = start.play(around, one, other, new_id, turns);
            let table = end.server.table;
            &&& turns_of(turns, true) >= 4 ==> end.first is Answered
            &&& turns_of(turns, false) >= 4 ==> end.second is Answered
            &&& end.first is Answered && end.second is Answered ==> {
                ||| {
                    &&& end.first == Claim::Answered(RegisterPkResult::OK)
                    &&& end.second == Claim::Answered(RegisterPkResult::ID_EXISTS)
                    &&& table.uuid_of(new_id) == Some(one.uuid)
                    &&& !table.has(one.old_id)
                    &&& table.uuid_of(other.old_id) == Some(other.uuid)
                }
                ||| {
                    &&& end.first == Claim::Answered(RegisterPkResult::ID_EXISTS)
                    &&& end.second == Claim::Answered(RegisterPkResult::OK)
                    &&& table.uuid_of(new_id) == Some(other.uuid)
                    &&& !table.has(other.old_id)
                    &&& table.uuid_of(one.old_id) == Some(one.uuid)
                }
            }
        }),
{
    let start = Contest { server, first: Claim::Asked, second: Claim::Asked };
    lemma_requests_go_on(start, around, one, other, new_id, turns);
    lemma_contest_has_at_most_one_winner(start, around, one, other, new_id, turns);
}

} // verus!
