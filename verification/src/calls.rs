//! What holds of the calls themselves. A statement counts as what it does when it is sent: its
//! text, with its values bound to it, run on the rows of the peer table.

use crate::database::{
    self as rows, is_peer_id_unique_violation, Database, DbError, DbPool, Rename, RenamePeerResult,
    RenameReply,
};
use crate::json::{
    fields_in, json_contents, json_escaped, json_string, law_json_string_reads_back, string_at,
};
use crate::laws::{
    law_registration_outlives_a_restart, register, Loading, Server, Surroundings,
};
use crate::peer::{
    data_dir, db_url, info_json, DataDir, Lookup, Peer, PeerInfo, PeerMap, PeerRename,
    PeerRenameAction, PeerRenameReply, PkUpdate, PkUpdateView, RegisterPkResult, SocketAddress,
};
use crate::query::{Param, Query};
use crate::sql::{
    bound, columns_of, law_statements_do_as_the_table_says, peer_columns, run, Cell, Column,
    Outcome, Record,
};
use crate::table::{Row, Table};
use crate::text::{lemma_count_is_what_is_written, occurs_in, writes};
use std::sync::Arc;
use vstd::prelude::*;

verus! {

/// A statement as it is sent: the text of a query, and the values that are bound to it.
pub struct Sent {
    pub text: &'static str,
    pub params: Vec<Param>,
}

impl Sent {
    /// Whether this is what is sent for a query.
    pub open spec fn is_of(self, query: Query) -> bool {
        &&& call_ensures(Query::sql, (&query,), self.text)
        &&& call_ensures(Query::params, (&query,), self.params)
    }

    /// What the statement does to the rows of a table, and what comes back.
    pub open spec fn run(self, table: Table, now: Seq<char>) -> Option<(Set<Record>, Outcome)> {
        run(table.records(), self.text@, bound(self.params@), now)
    }
}

/// What is fetched where a peer is looked up: the columns of the row that has the id.
pub open spec fn row_with_id(table: Table, id: Seq<char>) -> Outcome {
    Outcome::Fetched(
        if table.rows.contains_key(id) {
            set![columns_of(table.rows[id].record(), peer_columns())]
        } else {
            Set::empty()
        },
    )
}

/// What is fetched where the machine uuid of a peer is asked for.
pub open spec fn uuid_with_id(table: Table, id: Seq<char>) -> Outcome {
    Outcome::Fetched(
        if table.rows.contains_key(id) {
            set![map![Column::Uuid => Cell::Blob(table.rows[id].uuid)]]
        } else {
            Set::empty()
        },
    )
}

/// Looking up a peer, as it is sent, fetches the row whose id is the one asked for, whatever the
/// id, and nothing where there is none. No row is changed.
pub proof fn law_look_up_fetches_the_row_with_the_id(
    db: &Database,
    id: &str,
    query: Query,
    sent: Sent,
    table: Table,
    now: Seq<char>,
)
    requires
        table.well_formed(),
        call_ensures(Database::get_peer, (db, id), query),
        sent.is_of(query),
    ensures
        sent.run(table, now) == Some((table.records(), row_with_id(table, id@))),
{
    law_statements_do_as_the_table_says(&query, sent.text, sent.params, table, now);
}

/// The row of a peer that was just added.
pub open spec fn new_row(
    guid: Seq<u8>,
    id: Seq<char>,
    uuid: Seq<u8>,
    pk: Seq<u8>,
    info: Seq<char>,
    now: Seq<char>,
) -> Record {
    map![
        Column::Guid => Cell::Blob(guid),
        Column::Id => Cell::Text(id),
        Column::Uuid => Cell::Blob(uuid),
        Column::Pk => Cell::Blob(pk),
        Column::CreatedAt => Cell::Text(now),
        Column::User => Cell::Null,
        Column::Status => Cell::Null,
        Column::Note => Cell::Null,
        Column::Info => Cell::Text(info),
    ]
}

/// What adding a peer does and gives.
pub open spec fn adds(
    table: Table,
    guid: Seq<u8>,
    id: Seq<char>,
    uuid: Seq<u8>,
    pk: Seq<u8>,
    info: Seq<char>,
    now: Seq<char>,
) -> (Set<Record>, Outcome) {
    if table.rows.contains_key(id) {
        (table.records(), Outcome::IdTaken)
    } else if table.has_guid(guid) {
        (table.records(), Outcome::Refused)
    } else {
        (
            table.records().insert(new_row(guid, id, uuid, pk, info, now)),
            Outcome::Changed(1),
        )
    }
}

/// A query that adds a peer does so.
proof fn lemma_insert_adds(query: Query, sent: Sent, table: Table, now: Seq<char>)
    requires
        table.well_formed(),
        query is InsertPeer,
        sent.is_of(query),
    ensures
        sent.run(table, now) == Some(
            adds(
                table,
                query->InsertPeer_guid@,
                query->InsertPeer_id@,
                query->InsertPeer_uuid@,
                query->InsertPeer_pk@,
                query->InsertPeer_info@,
                now,
            ),
        ),
{
    law_statements_do_as_the_table_says(&query, sent.text, sent.params, table, now);
    let (guid, id) = (query->InsertPeer_guid@, query->InsertPeer_id@);
    let (uuid, pk) = (query->InsertPeer_uuid@, query->InsertPeer_pk@);
    let info = query->InsertPeer_info@;
    if !table.has(id) && !table.has_guid(guid) {
        let row = Row {
            guid,
            id,
            uuid,
            pk,
            created_at: now,
            user: None,
            status: None,
            note: None,
            info,
        };
        let after = Table { rows: table.rows.insert(id, row) };
        let record = new_row(guid, id, uuid, pk, info, now);
        assert(row.record() =~= record);
        assert forall|found: Record| #[trigger] after.records().contains(found) implies table.records().insert(
            record,
        ).contains(found) by {
            let at = choose|at: Seq<char>| #[trigger]
                after.has(at) && found == after.rows[at].record();
            if at != id {
                assert(table.has(at));
            }
        }
        assert forall|found: Record| #[trigger] table.records().insert(record).contains(
            found,
        ) implies after.records().contains(found) by {
            if found == record {
                assert(after.has(id));
            } else {
                let at = choose|at: Seq<char>| #[trigger]
                    table.has(at) && found == table.rows[at].record();
                assert(after.has(at));
            }
        }
        assert(after.records() =~= table.records().insert(record));
    }
}

/// Adding a peer, as it is sent, adds one row: the guid, the id, the machine uuid, the public key
/// and the info stand each in its own column. An id or a guid that is in use is refused, and then
/// nothing changes.
pub proof fn law_adding_a_peer_adds_its_row(
    db: &Database,
    guid: &[u8],
    id: &str,
    uuid: &[u8],
    pk: &[u8],
    info: &str,
    query: Query,
    sent: Sent,
    table: Table,
    now: Seq<char>,
)
    requires
        table.well_formed(),
        call_ensures(Database::insert_peer_as, (db, guid, id, uuid, pk, info), query),
        sent.is_of(query),
    ensures
        sent.run(table, now) == Some(adds(table, guid@, id@, uuid@, pk@, info@, now)),
{
    lemma_insert_adds(query, sent, table, now);
}

/// A peer that is added under a drawn guid gets the row that has that guid and what was given. The
/// guid has the sixteen bytes, the version and the variant of a random UUID.
pub proof fn law_adding_a_peer_draws_its_guid(
    db: &Database,
    id: &str,
    uuid: &[u8],
    pk: &[u8],
    info: &str,
    inserted: (Vec<u8>, Query),
    sent: Sent,
    table: Table,
    now: Seq<char>,
)
    requires
        table.well_formed(),
        call_ensures(Database::insert_peer, (db, id, uuid, pk, info), inserted),
        sent.is_of(inserted.1),
    ensures
        inserted.0@.len() == 16,
        inserted.0@[6] & 0xf0 == 0x40,
        inserted.0@[8] & 0xc0 == 0x80,
        sent.run(table, now) == Some(adds(table, inserted.0@, id@, uuid@, pk@, info@, now)),
{
    lemma_insert_adds(inserted.1, sent, table, now);
    let (version, variant) = (inserted.0@[6], inserted.0@[8]);
    assert(version & 0xf0 == 0x40) by (bit_vector)
        requires
            0x40 <= version <= 0x4f,
    ;
    assert(variant & 0xc0 == 0x80) by (bit_vector)
        requires
            0x80 <= variant <= 0xbf,
    ;
}

/// Changing a registration, as it is sent, gives the row that has the guid the id, the public key
/// and the info, and leaves the rest of it and all other rows alone. The id of another row is
/// refused; a guid that no row has changes nothing.
pub proof fn law_a_changed_registration_keeps_its_row(
    db: &Database,
    guid: &Vec<u8>,
    id: &str,
    pk: &[u8],
    info: &str,
    query: Query,
    sent: Sent,
    table: Table,
    at: Seq<char>,
    now: Seq<char>,
)
    requires
        table.well_formed(),
        call_ensures(Database::update_pk, (db, guid, id, pk, info), query),
        sent.is_of(query),
    ensures
        !table.has_guid(guid@) ==> sent.run(table, now) == Some(
            (table.records(), Outcome::Changed(0)),
        ),
        table.has_guid_at(guid@, at) ==> sent.run(table, now) == Some(
            if table.rows.contains_key(id@) && id@ != at {
                (table.records(), Outcome::IdTaken)
            } else {
                let row = Row { id: id@, pk: pk@, info: info@, ..table.rows[at] };
                let rows = table.rows.remove(at).insert(id@, row);
                (Table { rows }.records(), Outcome::Changed(1))
            },
        ),
{
    law_statements_do_as_the_table_says(&query, sent.text, sent.params, table, now);
    if table.has_guid_at(guid@, at) {
        assert(table.has_guid(guid@));
        assert(table.has_guid_at(guid@, table.id_of(guid@)));
        assert(at == table.id_of(guid@)) by {
            assert(table.has(at) && table.has(table.id_of(guid@)));
        }
    }
}

/// What asking for another id does and gives: the row of the peer that has the old id and the
/// machine uuid gets the new id and keeps all else, unless another row has that id.
pub open spec fn renames(
    table: Table,
    old_id: Seq<char>,
    new_id: Seq<char>,
    uuid: Seq<u8>,
) -> (Set<Record>, Outcome) {
    if !table.rows.contains_key(old_id) || table.rows[old_id].uuid != uuid {
        (table.records(), Outcome::Changed(0))
    } else if table.rows.contains_key(new_id) && new_id != old_id {
        (table.records(), Outcome::IdTaken)
    } else {
        let row = Row { id: new_id, ..table.rows[old_id] };
        let rows = table.rows.remove(old_id).insert(new_id, row);
        (Table { rows }.records(), Outcome::Changed(1))
    }
}

/// A rename begins with a statement that, as it is sent, gives the row of the owner the whole new
/// id and nothing else. Of another machine uuid, or to an id in use, it changes nothing.
pub proof fn law_rename_gives_the_row_the_new_id(
    db: &Database,
    old_id: &str,
    new_id: &str,
    uuid: &[u8],
    rename: Rename,
    query: Query,
    sent: Sent,
    table: Table,
    now: Seq<char>,
)
    requires
        table.well_formed(),
        call_ensures(Database::rename_peer, (db, old_id, new_id, uuid), rename),
        call_ensures(Rename::query, (&rename,), query),
        sent.is_of(query),
    ensures
        rename.stage is Update,
        rename.old_id@ == old_id@,
        rename.new_id@ == new_id@,
        rename.uuid@ == uuid@,
        sent.run(table, now) == Some(renames(table, old_id@, new_id@, uuid@)),
{
    law_statements_do_as_the_table_says(&query, sent.text, sent.params, table, now);
}

/// What a rename asks afterwards, as it is sent, fetches the machine uuid of the row that has the
/// old id, and then that of the row that has the new id. Neither changes a row.
pub proof fn law_rename_asks_for_the_owners(
    rename: &Rename,
    query: Query,
    sent: Sent,
    table: Table,
    now: Seq<char>,
)
    requires
        table.well_formed(),
        !(rename.stage is Update),
        call_ensures(Rename::query, (rename,), query),
        sent.is_of(query),
    ensures
        sent.run(table, now) == Some(
            (
                table.records(),
                uuid_with_id(
                    table,
                    if rename.stage is CheckOld {
                        rename.old_id@
                    } else {
                        rename.new_id@
                    },
                ),
            ),
        ),
{
    law_statements_do_as_the_table_says(&query, sent.text, sent.params, table, now);
}

/// An error says that an id is in use exactly if it comes from the database and either has the
/// code of a broken unique index or names the id of a peer anywhere in its message.
pub proof fn law_taken_ids_are_recognised(
    err: &DbError,
    taken: bool,
    before: Seq<char>,
    behind: Seq<char>,
)
    requires
        call_ensures(is_peer_id_unique_violation, (err,), taken),
    ensures
        err is Other ==> !taken,
        err matches DbError::Database { code: Some(code), .. } ==> code@ == "2067"@ ==> taken,
        err matches DbError::Database { message, .. } ==> message@ == before
            + "UNIQUE constraint failed: peer.id"@ + behind ==> taken,
        err matches DbError::Database { code, message } ==> taken && !(code is Some && code->0@
            == "2067"@) ==> exists|before: Seq<char>, behind: Seq<char>|
            message@ == #[trigger] (before + "UNIQUE constraint failed: peer.id"@ + behind),
{
    let pattern = "UNIQUE constraint failed: peer.id"@;
    if let DbError::Database { code, message } = err {
        if message@ == before + pattern + behind {
            let at = before.len() as int;
            assert(message@.subrange(at, at + pattern.len()) =~= pattern);
        }
        if occurs_in(pattern, message@) {
            let at = choose|i: int|
                0 <= i <= message@.len() - pattern.len() && #[trigger] message@.subrange(
                    i,
                    i + pattern.len(),
                ) == pattern;
            assert(message@ =~= message@.take(at) + pattern + message@.skip(at + pattern.len()));
        }
    }
}

/// How a rename takes the reply to its update: one changed row is the renamed peer, and any other
/// number leads to the question who has the old id.
pub proof fn law_one_changed_row_is_the_renamed_peer(
    rename: &mut Rename,
    changed: u64,
    answer: Option<Result<RenamePeerResult, DbError>>,
)
    requires
        old(rename).stage is Update,
        call_ensures(Rename::resume, (rename, RenameReply::Updated(Ok(changed))), answer),
    ensures
        changed == 1 ==> answer == Some(
            Ok::<RenamePeerResult, DbError>(RenamePeerResult::Renamed),
        ),
        changed != 1 ==> answer is None && final(rename).stage is CheckOld,
        final(rename).old_id@ == old(rename).old_id@,
        final(rename).new_id@ == old(rename).new_id@,
        final(rename).uuid@ == old(rename).uuid@,
{
}

/// How a rename takes an error: an update that fails because the id is in use is answered so, and
/// every other error ends the rename and is handed on as it is.
pub proof fn law_rename_hands_errors_on(
    rename: &mut Rename,
    reply: RenameReply,
    err: DbError,
    taken: bool,
    answer: Option<Result<RenamePeerResult, DbError>>,
)
    requires
        reply == RenameReply::Updated(Err(err)) || reply == RenameReply::Uuid(Err(err)),
        reply is Updated <==> old(rename).stage is Update,
        call_ensures(is_peer_id_unique_violation, (&err,), taken),
        call_ensures(Rename::resume, (rename, reply), answer),
    ensures
        answer == Some(
            if reply is Updated && taken {
                Ok::<RenamePeerResult, DbError>(RenamePeerResult::IdExists)
            } else {
                Err::<RenamePeerResult, DbError>(err)
            },
        ),
{
}

/// How a rename that changed no row ends. If a peer has the old id, its machine uuid is another.
/// If none has it, the new id is looked at: where it belongs to the one who asks, the rename was
/// done before; where it belongs to another, it is in use; where it belongs to none, there is
/// nobody to rename.
pub proof fn law_rename_ends_by_the_owners(
    rename: &mut Rename,
    found: Option<Vec<u8>>,
    answer: Option<Result<RenamePeerResult, DbError>>,
)
    requires
        !(old(rename).stage is Update),
        call_ensures(Rename::resume, (rename, RenameReply::Uuid(Ok(found))), answer),
    ensures
        old(rename).stage is CheckOld && found is None ==> {
            &&& answer is None
            &&& final(rename).stage is CheckNew
            &&& final(rename).old_id@ == old(rename).old_id@
            &&& final(rename).new_id@ == old(rename).new_id@
            &&& final(rename).uuid@ == old(rename).uuid@
        },
        old(rename).stage is CheckOld && found is Some ==> answer == Some(
            Ok::<RenamePeerResult, DbError>(RenamePeerResult::UuidMismatch),
        ),
        old(rename).stage is CheckNew ==> answer == Some(
            Ok::<RenamePeerResult, DbError>(
                match found {
                    Some(uuid) => if uuid@ == old(rename).uuid@ {
                        RenamePeerResult::Renamed
                    } else {
                        RenamePeerResult::IdExists
                    },
                    None => RenamePeerResult::OldIdNotFound,
                },
            ),
        ),
{
}

/// A configured number of connections holds as it is written, for every number; one connection is
/// opened where nothing is configured, or where what is configured writes no number that fits. The
/// place of the database is the given one.
pub proof fn law_connections_are_as_configured(
    url: &str,
    configured: Option<&str>,
    db: Database,
    n: usize,
)
    requires
        call_ensures(Database::new, (url, configured), db),
    ensures
        db.pool.url@ == url@,
        configured matches Some(text) ==> writes(text@, n as nat) ==> db.max_connections == n,
        configured matches Some(text) ==> db.max_connections != 1 ==> writes(
            text@,
            db.max_connections as nat,
        ),
        configured is None ==> db.max_connections == 1,
{
    if let Some(text) = configured {
        lemma_count_is_what_is_written(text@, n as nat);
        lemma_count_is_what_is_written(text@, db.max_connections as nat);
    }
}

/// The info of a peer is a JSON object with one field, which is named `ip` and holds the whole
/// address.
pub proof fn law_info_is_an_object_with_the_address(info: &PeerInfo, json: String)
    requires
        call_ensures(PeerInfo::to_json, (info,), json),
    ensures
        fields_in(json@) == Some(seq![("ip"@, info.ip@)]),
{
    lemma_info_reads_back(info.ip@);
}

/// The info text of an address is read back as the one field that it is.
proof fn lemma_info_reads_back(ip: Seq<char>)
    ensures
        fields_in(info_json(ip)) == Some(seq![("ip"@, ip)]),
{
    let text = info_json(ip);
    let before = "{\"ip\":"@;
    reveal_strlit("{\"ip\":");
    reveal_strlit("}");
    reveal_strlit("ip");
    law_json_string_reads_back(before, ip, "}"@);
    let end = before.len() + json_string(ip).len();
    assert(before + json_string(ip) + "}"@ =~= text);
    assert(forall|i: int| 0 <= i < 6 ==> text[i] == #[trigger] before[i]);
    assert(text[0] == before[0] && text[1] == before[1] && text[2] == before[2]);
    assert(text[3] == before[3] && text[4] == before[4] && text[5] == before[5]);
    assert(text[6] == json_string(ip)[0]);
    assert(text[end as int] == "}"@[0]);
    reveal_with_fuel(string_at, 3);
    let (name, _) = string_at(text, 2)->0;
    assert(name =~= "ip"@);
}

/// The place of the database is the configured one, whole. Where none is configured it is the
/// same file in every case: next to the server, or in the given folder.
pub proof fn law_place_of_the_database(configured: Option<String>, dir: DataDir, url: String)
    requires
        call_ensures(db_url, (configured, dir), url),
    ensures
        configured matches Some(place) ==> url@ == place@,
        configured is None ==> match dir {
            DataDir::Working => url@ == "./db_v2.sqlite3"@,
            DataDir::Unnamed => url@ == "db_v2.sqlite3"@,
            DataDir::Folder(Some(path)) => url@ == path@ + "\\db_v2.sqlite3"@,
            DataDir::Folder(None) => url@ == ".\\db_v2.sqlite3"@,
        },
{
    reveal_strlit("./db_v2.sqlite3");
    reveal_strlit("db_v2.sqlite3");
    reveal_strlit("\\db_v2.sqlite3");
    reveal_strlit(".\\db_v2.sqlite3");
    reveal_strlit("./");
    reveal_strlit(".");
    reveal_strlit("\\");
    assert("./"@ + "db_v2.sqlite3"@ =~= "./db_v2.sqlite3"@);
    assert("\\"@ + "db_v2.sqlite3"@ =~= "\\db_v2.sqlite3"@);
    assert("."@ + "\\"@ + "db_v2.sqlite3"@ =~= ".\\db_v2.sqlite3"@);
    if let DataDir::Folder(Some(path)) = dir {
        assert(path@ + "\\"@ + "db_v2.sqlite3"@ =~= path@ + ("\\"@ + "db_v2.sqlite3"@));
    }
}

/// Only a Windows release with a folder of its own keeps the database there. Elsewhere the working
/// directory holds it, and only Windows leaves that unnamed.
pub proof fn law_only_a_windows_release_has_a_folder(
    windows: bool,
    debug: bool,
    folder: Option<Option<String>>,
    dir: DataDir,
)
    requires
        call_ensures(data_dir, (windows, debug, folder), dir),
    ensures
        dir is Working <==> !windows,
        dir is Folder <==> windows && !debug && folder is Some,
        dir matches DataDir::Folder(path) ==> folder == Some(path),
{
}

/// A new registry has no peer in memory, and its database is the one that the place and the number
/// of connections give.
pub proof fn law_new_registry_is_empty<L>(
    configured: Option<String>,
    dir: DataDir,
    connections: Option<&str>,
    peers: PeerMap<L>,
    place: String,
    url: &str,
    db: Database,
)
    requires
        call_ensures(PeerMap::<L>::new, (configured, dir, connections), peers),
        call_ensures(db_url, (configured, dir), place),
        call_ensures(Database::new, (url, connections), db),
        url@ == place@,
    ensures
        forall|id: Seq<char>| !(#[trigger] peers.map@.contains_key(id)),
        peers.db.pool.url@ == place@,
        peers.db.max_connections == db.max_connections,
{
}

/// A peer of which nothing is known has no address, no guid, no machine uuid, no key and no
/// registrations.
pub proof fn law_unknown_peer_is_empty<T>(last: T, first: T, peer: Peer<T>)
    requires
        call_ensures(Peer::<T>::default, (last, first), peer),
    ensures
        peer.socket_addr == (SocketAddress::V4 { ip: 0, port: 0 }),
        peer.last_reg_time == last,
        peer.guid@ == Seq::<u8>::empty(),
        peer.uuid@ == Seq::<u8>::empty(),
        peer.pk@ == Seq::<u8>::empty(),
        peer.info.ip@ == Seq::<char>::empty(),
        peer.reg_pk.0 == 0,
        peer.reg_pk.1 == first,
{
}

/// The peer of a row has the guid, the machine uuid and the key of the row and the info that was
/// read from it, or none where none could be. In all else it is a peer of which nothing is known.
pub proof fn law_loaded_peer_is_that_of_its_row<T>(
    row: rows::Peer,
    info: Option<PeerInfo>,
    last: T,
    first: T,
    peer: Peer<T>,
    unknown: Peer<T>,
)
    requires
        call_ensures(Peer::<T>::from, (row, info, last, first), peer),
        call_ensures(Peer::<T>::default, (last, first), unknown),
    ensures
        peer.guid@ == row.guid@,
        peer.uuid@ == row.uuid@,
        peer.pk@ == row.pk@,
        info matches Some(info) ==> peer.info.ip@ == info.ip@,
        info is None ==> peer.info.ip@ == unknown.info.ip@,
        peer.socket_addr == unknown.socket_addr,
        peer.last_reg_time == unknown.last_reg_time,
        peer.reg_pk == unknown.reg_pk,
{
    assert(unknown.info.ip@ =~= Seq::empty());
}

/// The query of a registration.
pub open spec fn query_of(update: PkUpdate) -> Query {
    match update {
        PkUpdate::Insert { query, .. } => query,
        PkUpdate::Update { query } => query,
    }
}

/// A registration notes in the peer what came with it and leaves its guid and its count alone. As
/// it is sent, it adds the row of a peer that has no guid, and changes that of a peer that has
/// one; either way the info that is stored holds the address in its field `ip`.
pub proof fn law_registration_is_noted_and_sent<L, T>(
    db: &Database,
    id: &str,
    peer: &mut Peer<T>,
    addr: SocketAddress,
    uuid: Vec<u8>,
    pk: Vec<u8>,
    ip: String,
    now: T,
    update: PkUpdate,
    sent: Sent,
    table: Table,
    at: Seq<char>,
    time: Seq<char>,
)
    requires
        table.well_formed(),
        call_ensures(
            PeerMap::<L>::update_pk::<T>,
            (db, id, peer, addr, uuid, pk, ip, now),
            update,
        ),
        sent.is_of(query_of(update)),
    ensures
        final(peer).socket_addr == addr,
        final(peer).last_reg_time == now,
        final(peer).uuid@ == uuid@,
        final(peer).pk@ == pk@,
        final(peer).info.ip@ == ip@,
        final(peer).guid@ == old(peer).guid@,
        final(peer).reg_pk == old(peer).reg_pk,
        update is Insert <==> old(peer).guid@.len() == 0,
        update matches PkUpdate::Insert { guid, .. } ==> guid@.len() == 16,
        exists|info: Seq<char>| #[trigger]
            fields_in(info) == Some(seq![("ip"@, ip@)]) && match update {
                PkUpdate::Insert { guid, .. } => sent.run(table, time) == Some(
                    adds(table, guid@, id@, uuid@, pk@, info, time),
                ),
                PkUpdate::Update { .. } => {
                    &&& !table.has_guid(old(peer).guid@) ==> sent.run(table, time) == Some(
                        (table.records(), Outcome::Changed(0)),
                    )
                    &&& table.has_guid_at(old(peer).guid@, at) ==> sent.run(table, time) == Some(
                        if table.rows.contains_key(id@) && id@ != at {
                            (table.records(), Outcome::IdTaken)
                        } else {
                            let row = Row { id: id@, pk: pk@, info, ..table.rows[at] };
                            let rows = table.rows.remove(at).insert(id@, row);
                            (Table { rows }.records(), Outcome::Changed(1))
                        },
                    )
                },
            },
{
    let query = query_of(update);
    let info = info_json(ip@);
    let guid = old(peer).guid@;
    lemma_info_reads_back(ip@);
    assert(update@ == PkUpdateView::of(
        guid,
        match update {
            PkUpdate::Insert { guid, .. } => guid@,
            PkUpdate::Update { .. } => guid,
        },
        id@,
        uuid@,
        pk@,
        ip@,
    ));
    if update is Insert {
        lemma_insert_adds(query, sent, table, time);
    } else {
        law_statements_do_as_the_table_says(&query, sent.text, sent.params, table, time);
        if table.has_guid_at(guid, at) {
            assert(table.has_guid(guid));
            assert(table.has_guid_at(guid, table.id_of(guid)));
            assert(table.has(at) && table.has(table.id_of(guid)));
        }
    }
}

/// A registration is accepted exactly if the database carried it out. Only then does a peer that
/// was added get the guid of its row. Nothing else of the peer changes.
pub proof fn law_registration_ends_as_the_database_says<T>(
    update: PkUpdate,
    peer: &mut Peer<T>,
    reply: Result<(), DbError>,
    answer: RegisterPkResult,
)
    requires
        call_ensures(PkUpdate::finish::<T>, (update, peer, reply), answer),
    ensures
        answer is OK <==> reply is Ok,
        answer is SERVER_ERROR <==> reply is Err,
        reply is Ok ==> (update matches PkUpdate::Insert { guid, .. } ==> final(peer).guid@
            == guid@),
        reply is Err || update is Update ==> final(peer).guid@ == old(peer).guid@,
        final(peer).socket_addr == old(peer).socket_addr,
        final(peer).last_reg_time == old(peer).last_reg_time,
        final(peer).uuid == old(peer).uuid,
        final(peer).pk == old(peer).pk,
        final(peer).info == old(peer).info,
        final(peer).reg_pk == old(peer).reg_pk,
{
}

/// A peer in memory is found there, whatever its id; for any other, the database is asked for the
/// row that has the id.
pub proof fn law_look_up_asks_only_for_unknown_peers<L>(
    peers: &PeerMap<L>,
    id: &str,
    lookup: Lookup<L>,
    found: Option<Arc<L>>,
    known: bool,
)
    requires
        call_ensures(PeerMap::<L>::get, (peers, id), lookup),
        call_ensures(PeerMap::<L>::get_in_memory, (peers, id), found),
        call_ensures(PeerMap::<L>::is_in_memory, (peers, id), known),
    ensures
        known <==> peers.map@.contains_key(id@),
        lookup is Found <==> known,
        found is Some <==> known,
        known ==> found == Some(peers.map@[id@]) && lookup == Lookup::Found(peers.map@[id@]),
{
}

/// What a look-up asks the database, as it is sent, fetches the row that has the id.
pub proof fn law_look_up_asks_for_the_row_with_the_id<L>(
    peers: &PeerMap<L>,
    id: &str,
    query: Query,
    sent: Sent,
    table: Table,
    now: Seq<char>,
)
    requires
        table.well_formed(),
        call_ensures(PeerMap::<L>::get, (peers, id), Lookup::Ask(query)),
        sent.is_of(query),
    ensures
        sent.run(table, now) == Some((table.records(), row_with_id(table, id@))),
{
    law_statements_do_as_the_table_says(&query, sent.text, sent.params, table, now);
}

/// A peer that the database replied with is given back and is in memory under the id from then
/// on; otherwise nothing is given back and nothing changes. No other entry changes.
pub proof fn law_loaded_peers_are_entered<L>(
    peers: &mut PeerMap<L>,
    id: &str,
    reply: Result<Option<Arc<L>>, DbError>,
    found: Option<Arc<L>>,
    other: Seq<char>,
)
    requires
        call_ensures(PeerMap::<L>::get_loaded, (peers, id, reply), found),
    ensures
        reply matches Ok(Some(peer)) ==> found == Some(peer) && final(peers).map@.contains_key(id@)
            && final(peers).map@[id@] == peer,
        reply is Err || reply->Ok_0 is None ==> found is None && final(peers).map@
            == old(peers).map@,
        other != id@ ==> (final(peers).map@.contains_key(other) <==> old(peers).map@.contains_key(
            other,
        )) && final(peers).map@[other] == old(peers).map@[other],
        final(peers).db == old(peers).db,
{
}

/// A look-up that must find a peer gives the one that is in memory under the id afterwards: that
/// of the database, or else the one that was there before, or else the fresh one. No other entry
/// changes.
pub proof fn law_a_peer_is_always_found<L>(
    peers: &mut PeerMap<L>,
    id: &str,
    reply: Result<Option<Arc<L>>, DbError>,
    fresh: Arc<L>,
    peer: Arc<L>,
    other: Seq<char>,
)
    requires
        call_ensures(PeerMap::<L>::get_or, (peers, id, reply, fresh), peer),
    ensures
        final(peers).map@.contains_key(id@),
        final(peers).map@[id@] == peer,
        reply matches Ok(Some(loaded)) ==> peer == loaded,
        reply is Err || reply->Ok_0 is None ==> peer == (if old(peers).map@.contains_key(id@) {
            old(peers).map@[id@]
        } else {
            fresh
        }),
        other != id@ ==> (final(peers).map@.contains_key(other) <==> old(peers).map@.contains_key(
            other,
        )) && final(peers).map@[other] == old(peers).map@[other],
        final(peers).db == old(peers).db,
{
}

/// A rename of a peer begins with the peer in memory that has the new id, where there is one and it
/// is not the same id; otherwise with the database. Nothing of the request is lost.
pub proof fn law_rename_looks_at_memory_first<L>(
    peers: &PeerMap<L>,
    old_id: &str,
    new_id: &str,
    uuid: &[u8],
    rename: PeerRename,
)
    requires
        call_ensures(PeerMap::<L>::rename_peer, (peers, old_id, new_id, uuid), rename),
    ensures
        rename.old_id@ == old_id@,
        rename.new_id@ == new_id@,
        rename.uuid@ == uuid@,
        rename.stage is ReadUuid <==> old_id@ != new_id@ && peers.map@.contains_key(new_id@),
        rename.stage is Rename <==> !(rename.stage is ReadUuid),
{
}

/// What is done for a rename of a peer: the machine uuid of the peer that has the new id is read;
/// the database is asked for the same rename; and the row that has the new id is fetched.
pub proof fn law_rename_acts_on_its_request(
    rename: &PeerRename,
    action: PeerRenameAction,
    query: Query,
    sent: Sent,
    table: Table,
    now: Seq<char>,
)
    requires
        table.well_formed(),
        call_ensures(PeerRename::action, (rename,), action),
        sent.is_of(query),
        action matches PeerRenameAction::Rename(inner) ==> call_ensures(
            Rename::query,
            (&inner,),
            query,
        ),
        action matches PeerRenameAction::Load(load) ==> query == load,
    ensures
        action is ReadUuid <==> rename.stage is ReadUuid,
        action is Rename <==> rename.stage is Rename,
        action is Load <==> rename.stage is Load,
        action matches PeerRenameAction::ReadUuid { id } ==> id@ == rename.new_id@,
        action matches PeerRenameAction::Rename(inner) ==> inner.stage is Update && inner.old_id@
            == rename.old_id@ && inner.new_id@ == rename.new_id@ && inner.uuid@ == rename.uuid@
            && sent.run(table, now) == Some(
            renames(table, rename.old_id@, rename.new_id@, rename.uuid@),
        ),
        action is Load ==> sent.run(table, now) == Some(
            (table.records(), row_with_id(table, rename.new_id@)),
        ),
{
    if !(action is ReadUuid) {
        law_statements_do_as_the_table_says(&query, sent.text, sent.params, table, now);
    }
}

/// A peer in memory that has the new id keeps it, unless it has the machine uuid that asks for the
/// id. An empty machine uuid is nobody's. Nothing in memory changes.
pub proof fn law_a_peer_in_memory_keeps_its_id<L>(
    peers: &mut PeerMap<L>,
    rename: &mut PeerRename,
    existing: Vec<u8>,
    answer: Option<RegisterPkResult>,
)
    requires
        old(rename).stage is ReadUuid,
        call_ensures(
            PeerMap::<L>::resume_rename,
            (peers, rename, PeerRenameReply::Uuid(existing)),
            answer,
        ),
    ensures
        answer == (if existing@ == old(rename).uuid@ && existing@.len() > 0 {
            None
        } else {
            Some(RegisterPkResult::ID_EXISTS)
        }),
        answer is None ==> final(rename).stage is Rename && final(rename).old_id@ == old(
            rename,
        ).old_id@ && final(rename).new_id@ == old(rename).new_id@ && final(rename).uuid@ == old(
            rename,
        ).uuid@,
        final(peers).map@ == old(peers).map@,
        final(peers).db == old(peers).db,
{
}

/// A rename that the database does not carry out is refused, for the reason that it gives, and
/// changes nothing in memory.
pub proof fn law_refusals_are_handed_on<L>(
    peers: &mut PeerMap<L>,
    rename: &mut PeerRename,
    reply: Result<RenamePeerResult, DbError>,
    answer: Option<RegisterPkResult>,
)
    requires
        old(rename).stage is Rename,
        !(reply matches Ok(RenamePeerResult::Renamed)),
        call_ensures(
            PeerMap::<L>::resume_rename,
            (peers, rename, PeerRenameReply::Renamed(reply)),
            answer,
        ),
    ensures
        reply is Err ==> answer == Some(RegisterPkResult::SERVER_ERROR),
        reply matches Ok(RenamePeerResult::IdExists) ==> answer == Some(
            RegisterPkResult::ID_EXISTS,
        ),
        reply matches Ok(RenamePeerResult::UuidMismatch) ==> answer == Some(
            RegisterPkResult::UUID_MISMATCH,
        ),
        reply matches Ok(RenamePeerResult::OldIdNotFound) ==> answer == Some(
            RegisterPkResult::UUID_MISMATCH,
        ),
        final(peers).map@ == old(peers).map@,
        final(peers).db == old(peers).db,
{
}

/// Once the database has renamed a peer, the entry in memory moves from the old id to the new one.
/// Where there is none under either id, the peer is fetched first. No other entry changes.
pub proof fn law_the_entry_moves_to_the_new_id<L>(
    peers: &mut PeerMap<L>,
    rename: &mut PeerRename,
    answer: Option<RegisterPkResult>,
    other: Seq<char>,
)
    requires
        old(rename).stage is Rename,
        call_ensures(
            PeerMap::<L>::resume_rename,
            (peers, rename, PeerRenameReply::Renamed(Ok(RenamePeerResult::Renamed))),
            answer,
        ),
    ensures
        ({
            let (old_id, new_id) = (old(rename).old_id@, old(rename).new_id@);
            let (before, after) = (old(peers).map@, final(peers).map@);
            &&& answer == (if old_id != new_id && !before.contains_key(old_id)
                && !before.contains_key(new_id) {
                None
            } else {
                Some(RegisterPkResult::OK)
            })
            &&& answer is None ==> final(rename).stage is Load && final(rename).old_id@ == old_id
                && final(rename).new_id@ == new_id
            &&& old_id == new_id || !before.contains_key(old_id) ==> after == before
            &&& old_id != new_id && before.contains_key(old_id) ==> !after.contains_key(old_id)
                && after.contains_key(new_id) && after[new_id] == before[old_id]
            &&& other != old_id && other != new_id ==> (after.contains_key(other)
                <==> before.contains_key(other)) && after[other] == before[other]
        }),
        final(peers).db == old(peers).db,
{
}

/// The renamed peer that is fetched is entered under the new id. Where it cannot be fetched, the
/// answer is an error and nothing changes in memory.
pub proof fn law_the_renamed_peer_is_entered<L>(
    peers: &mut PeerMap<L>,
    rename: &mut PeerRename,
    reply: Result<Option<Arc<L>>, DbError>,
    answer: Option<RegisterPkResult>,
    other: Seq<char>,
)
    requires
        old(rename).stage is Load,
        call_ensures(
            PeerMap::<L>::resume_rename,
            (peers, rename, PeerRenameReply::Loaded(reply)),
            answer,
        ),
    ensures
        reply matches Ok(Some(peer)) ==> answer == Some(RegisterPkResult::OK)
            && final(peers).map@.contains_key(old(rename).new_id@) && final(peers).map@[old(
            rename,
        ).new_id@] == peer,
        reply is Err || reply->Ok_0 is None ==> answer == Some(RegisterPkResult::SERVER_ERROR)
            && final(peers).map@ == old(peers).map@,
        other != old(rename).new_id@ ==> (final(peers).map@.contains_key(other) <==> old(
            peers,
        ).map@.contains_key(other)) && final(peers).map@[other] == old(peers).map@[other],
        final(peers).db == old(peers).db,
{
}

/// The value of the first field that has a name.
pub open spec fn value_of(fields: Seq<(Seq<char>, Seq<char>)>, name: Seq<char>) -> Option<Seq<char>>
    decreases fields.len(),
{
    if fields.len() == 0 {
        None
    } else if fields[0].0 == name {
        Some(fields[0].1)
    } else {
        value_of(fields.drop_first(), name)
    }
}

/// The address that an info text holds, if it is a JSON object of strings: the value of its field
/// `ip`, or an empty one where it has no such field.
pub open spec fn stored_ip(info: Seq<char>) -> Option<Seq<char>> {
    match fields_in(info) {
        Some(fields) => match value_of(fields, "ip"@) {
            Some(ip) => Some(ip),
            None => Some(seq![]),
        },
        None => None,
    }
}

/// Whoever reads the field `ip` of the info that a peer is stored with gets its address again.
pub proof fn law_stored_addresses_are_read_again<L, T>(loading: Loading<L, T>)
    requires
        forall|info: Seq<char>| (loading.ip)(info) == #[trigger] stored_ip(info),
    ensures
        loading.reads_info(),
{
    assert forall|ip: Seq<char>| (loading.ip)(#[trigger] info_json(ip)) == Some(ip) by {
        lemma_info_reads_back(ip);
        assert((loading.ip)(info_json(ip)) == stored_ip(info_json(ip)));
    }
}

/// An address is known again after a restart: where the field `ip` of the info is read, a peer
/// that was registered is found by its id with the address that it registered from.
pub proof fn law_registered_address_outlives_a_restart<L, T>(
    table: Table,
    guid: Seq<u8>,
    drawn: Seq<u8>,
    id: Seq<char>,
    uuid: Seq<u8>,
    pk: Seq<u8>,
    ip: Seq<char>,
    now: Seq<char>,
    around: Surroundings<L>,
    loading: Loading<L, T>,
)
    requires
        table.well_formed(),
        !table.has_guid(drawn),
        guid.len() == 0 || table.has_guid(guid),
        forall|info: Seq<char>| (loading.ip)(info) == #[trigger] stored_ip(info),
        loading.loads_rows(around),
        register(table, guid, drawn, id, uuid, pk, ip, now).2 == RegisterPkResult::OK,
    ensures
        ({
            let (after, _, _) = register(table, guid, drawn, id, uuid, pk, ip, now);
            let restarted = Server::<L> { memory: Map::empty(), table: after };
            let found = restarted.lookup(around, id).1;
            found is Some && (loading.behind)(found->0).info.ip@ == ip
        }),
{
    law_stored_addresses_are_read_again(loading);
    law_registration_outlives_a_restart(
        table,
        guid,
        drawn,
        id,
        uuid,
        pk,
        ip,
        now,
        around,
        loading,
    );
}

/// An address in which nothing needs to be escaped is stored as it is, between quotes.
pub proof fn law_plain_addresses_are_stored_as_they_are(info: &PeerInfo, json: String)
    requires
        call_ensures(PeerInfo::to_json, (info,), json),
        forall|i: int|
            0 <= i < info.ip@.len() ==> #[trigger] info.ip@[i] != '"' && info.ip@[i] != '\\'
                && info.ip@[i] as int >= 32,
    ensures
        json@ == "{\"ip\":\""@ + info.ip@ + "\"}"@,
{
    reveal_strlit("{\"ip\":\"");
    reveal_strlit("{\"ip\":");
    reveal_strlit("\"}");
    reveal_strlit("}");
    lemma_plain_contents(info.ip@);
    assert("{\"ip\":\""@ =~= "{\"ip\":"@ + seq!['"']);
    assert("\"}"@ =~= seq!['"'] + "}"@);
    assert(json@ =~= "{\"ip\":\""@ + info.ip@ + "\"}"@);
}

/// A text in which nothing needs to be escaped is its own contents.
proof fn lemma_plain_contents(text: Seq<char>)
    requires
        forall|i: int|
            0 <= i < text.len() ==> #[trigger] text[i] != '"' && text[i] != '\\' && text[i] as int
                >= 32,
    ensures
        json_contents(text) == text,
    decreases text.len(),
{
    if text.len() > 0 {
        let rest = text.drop_first();
        assert forall|i: int| 0 <= i < rest.len() implies #[trigger] rest[i] != '"' && rest[i]
            != '\\' && rest[i] as int >= 32 by {
            assert(rest[i] == text[i + 1]);
        }
        lemma_plain_contents(rest);
        assert(json_escaped(text[0]) =~= seq![text[0]]);
        assert(text =~= seq![text[0]] + rest);
    } else {
        assert(json_contents(text) =~= text);
    }
}

/// An empty row and an empty info hold nothing.
pub proof fn law_defaults_are_empty(row: rows::Peer, info: PeerInfo)
    requires
        call_ensures(rows::Peer::default, (), row),
        call_ensures(PeerInfo::default, (), info),
    ensures
        row.guid@ == Seq::<u8>::empty(),
        row.id@ == Seq::<char>::empty(),
        row.uuid@ == Seq::<u8>::empty(),
        row.pk@ == Seq::<u8>::empty(),
        row.user is None,
        row.info@ == Seq::<char>::empty(),
        row.status is None,
        info.ip@ == Seq::<char>::empty(),
{
}

/// What stands at a position of a text occurs in it.
proof fn lemma_occurs_at(pattern: Seq<char>, text: Seq<char>, at: int)
    requires
        0 <= at <= text.len() - pattern.len(),
        text.subrange(at, at + pattern.len()) =~= pattern,
    ensures
        occurs_in(pattern, text),
{
}

/// What stands in the text of the statements that create the peer table: each column with its type
/// and whether it may be empty, the guid as the key, and one peer to an id. No value is bound.
pub proof fn law_tables_are_created(db: &Database, query: Query, sent: Sent)
    requires
        call_ensures(Database::create_tables, (db,), query),
        sent.is_of(query),
    ensures
        sent.params@.len() == 0,
        occurs_in("create table if not exists peer ("@, sent.text@),
        occurs_in("guid blob primary key not null,"@, sent.text@),
        occurs_in("id varchar(100) not null,"@, sent.text@),
        occurs_in("uuid blob not null,"@, sent.text@),
        occurs_in("pk blob not null,"@, sent.text@),
        occurs_in("created_at datetime not null default(current_timestamp),"@, sent.text@),
        occurs_in("user blob,"@, sent.text@),
        occurs_in("status tinyint,"@, sent.text@),
        occurs_in("note varchar(300),"@, sent.text@),
        occurs_in("info text not null"@, sent.text@),
        occurs_in(
            "create unique index if not exists index_peer_id on peer (id);"@,
            sent.text@,
        ),
{
    let text = sent.text@;
    assert(sent.params@.map_values(|p: Param| p@).len() == 0);
    reveal_strlit(
        "
            create table if not exists peer (
                guid blob primary key not null,
                id varchar(100) not null,
                uuid blob not null,
                pk blob not null,
                created_at datetime not null default(current_timestamp),
                user blob,
                status tinyint,
                note varchar(300),
                info text not null
            ) without rowid;
            create unique index if not exists index_peer_id on peer (id);
            create index if not exists index_peer_user on peer (user);
            create index if not exists index_peer_created_at on peer (created_at);
            create index if not exists index_peer_status on peer (status);
        ",
    );
    reveal_strlit("create table if not exists peer (");
    lemma_occurs_at("create table if not exists peer ("@, text, 13);
    reveal_strlit("guid blob primary key not null,");
    lemma_occurs_at("guid blob primary key not null,"@, text, 63);
    reveal_strlit("id varchar(100) not null,");
    lemma_occurs_at("id varchar(100) not null,"@, text, 111);
    reveal_strlit("uuid blob not null,");
    lemma_occurs_at("uuid blob not null,"@, text, 153);
    reveal_strlit("pk blob not null,");
    lemma_occurs_at("pk blob not null,"@, text, 189);
    reveal_strlit("created_at datetime not null default(current_timestamp),");
    lemma_occurs_at("created_at datetime not null default(current_timestamp),"@, text, 223);
    reveal_strlit("user blob,");
    lemma_occurs_at("user blob,"@, text, 296);
    reveal_strlit("status tinyint,");
    lemma_occurs_at("status tinyint,"@, text, 323);
    reveal_strlit("note varchar(300),");
    lemma_occurs_at("note varchar(300),"@, text, 355);
    reveal_strlit("info text not null");
    lemma_occurs_at("info text not null"@, text, 390);
    reveal_strlit("create unique index if not exists index_peer_id on peer (id);");
    lemma_occurs_at("create unique index if not exists index_peer_id on peer (id);"@, text, 450);
}

/// A copy is the same.
pub proof fn law_copies_are_the_same(
    pool: &DbPool,
    pool_copy: DbPool,
    db: &Database,
    db_copy: Database,
    info: &PeerInfo,
    info_copy: PeerInfo,
)
    requires
        call_ensures(DbPool::clone, (pool,), pool_copy),
        call_ensures(Database::clone, (db,), db_copy),
        call_ensures(PeerInfo::clone, (info,), info_copy),
    ensures
        pool_copy.url@ == pool.url@,
        db_copy.pool.url@ == db.pool.url@,
        db_copy.max_connections == db.max_connections,
        info_copy.ip@ == info.ip@,
{
}

} // verus!
