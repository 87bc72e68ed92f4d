//! What the text of a statement on the peer table says, and what the statement does with the
//! values that are bound to it. The text is read here by itself: nothing is known of who sends it.

use crate::database::ReplyView;
use crate::query::{
    Param, ParamView, Query, QueryView, GET_PEER, INSERT_PEER, RENAME_PEER, SELECT_UUID, UPDATE_PK,
};
use crate::table::{Row, Table};
use vstd::prelude::*;

verus! {

/// A column of the peer table.
pub enum Column {
    Guid,
    Id,
    Uuid,
    Pk,
    CreatedAt,
    User,
    Status,
    Note,
    Info,
}

/// What stands in a column of a row.
pub enum Cell {
    Null,
    Number(int),
    Text(Seq<char>),
    Blob(Seq<u8>),
}

/// A statement. Each placeholder of its text stands for a value of a column: first those that are
/// set, then those by which the rows are picked.
pub enum Statement {
    Select { columns: Seq<Column>, by: Seq<Column> },
    Insert { columns: Seq<Column> },
    Update { set: Seq<Column>, by: Seq<Column> },
}

/// The first position from `i` on where no space stands.
pub open spec fn past_spaces(text: Seq<char>, i: int) -> int
    decreases text.len() - i,
{
    if 0 <= i < text.len() && text[i] == ' ' {
        past_spaces(text, i + 1)
    } else {
        i
    }
}

/// Whether a word may go on with `c`.
pub open spec fn in_word(c: char) -> bool {
    'a' <= c <= 'z' || c == '_'
}

/// Whether `what` stands at the position `start` of the text, as a whole word if it is one.
#[verifier::opaque]
pub open spec fn stands_at(text: Seq<char>, start: int, what: Seq<char>) -> bool {
    let end = start + what.len();
    &&& 0 <= start
    &&& end <= text.len()
    &&& text.subrange(start, end) == what
    &&& !(in_word(what.last()) && end < text.len() && in_word(text[end]))
}

/// The position after `what`, where that comes next in the text from the position `from` on.
pub open spec fn after(text: Seq<char>, from: Option<int>, what: Seq<char>) -> Option<int> {
    match from {
        None => None,
        Some(from) => {
            let start = past_spaces(text, from);
            if stands_at(text, start, what) {
                Some(start + what.len())
            } else {
                None
            }
        },
    }
}

impl Column {
    /// The name of the column.
    pub open spec fn name(self) -> Seq<char> {
        match self {
            Column::Guid => "guid"@,
            Column::Id => "id"@,
            Column::Uuid => "uuid"@,
            Column::Pk => "pk"@,
            Column::CreatedAt => "created_at"@,
            Column::User => "user"@,
            Column::Status => "status"@,
            Column::Note => "note"@,
            Column::Info => "info"@,
        }
    }
}

/// The column whose name comes next in the text, and the position after it.
pub open spec fn column_at(text: Seq<char>, from: int) -> Option<(Column, int)> {
    if exists|column: Column| after(text, Some(from), #[trigger] column.name()) is Some {
        let column = choose|column: Column|
            after(text, Some(from), #[trigger] column.name()) is Some;
        Some((column, after(text, Some(from), column.name())->0))
    } else {
        None
    }
}

/// The columns that come next in the text, with a comma between two of them, and the position
/// after the last.
pub open spec fn columns_at(text: Seq<char>, from: Option<int>) -> (Seq<Column>, Option<int>)
    decreases text.len() - from->0,
{
    match from {
        None => (seq![], None),
        Some(i) => match column_at(text, i) {
            None => (seq![], None),
            Some((column, end)) => {
                let comma = after(text, Some(end), ","@);
                if comma is Some && i < comma->0 <= text.len() {
                    let (rest, end) = columns_at(text, comma);
                    (seq![column] + rest, end)
                } else {
                    (seq![column], Some(end))
                }
            },
        },
    }
}

/// The columns that come next in the text, each with an equals sign and a placeholder behind it
/// and with `between` between two of them, and the position after the last.
pub open spec fn bindings_at(text: Seq<char>, from: Option<int>, between: Seq<char>) -> (
    Seq<Column>,
    Option<int>,
)
    decreases text.len() - from->0,
{
    match from {
        None => (seq![], None),
        Some(i) => match column_at(text, i) {
            None => (seq![], None),
            Some((column, end)) => {
                let end = after(text, after(text, Some(end), "="@), "?"@);
                let next = after(text, end, between);
                if next is Some && i < next->0 <= text.len() {
                    let (rest, end) = bindings_at(text, next, between);
                    (seq![column] + rest, end)
                } else {
                    (seq![column], end)
                }
            },
        },
    }
}

/// How many placeholders come next in the text, with a comma between two of them, and the position
/// after the last.
pub open spec fn placeholders_at(text: Seq<char>, from: Option<int>) -> (nat, Option<int>)
    decreases text.len() - from->0,
{
    match from {
        None => (0, None),
        Some(i) => {
            let end = after(text, from, "?"@);
            let comma = after(text, end, ","@);
            if comma is Some && i < comma->0 <= text.len() {
                let (rest, end) = placeholders_at(text, comma);
                (rest + 1, end)
            } else {
                (1, end)
            }
        },
    }
}

/// A select, if the whole text is one.
pub open spec fn select_in(text: Seq<char>) -> Option<Statement> {
    let (columns, end) = columns_at(text, after(text, Some(0), "select"@));
    let end = after(text, after(text, after(text, end, "from"@), "peer"@), "where"@);
    let (by, end) = bindings_at(text, end, "and"@);
    if end == Some(text.len() as int) {
        Some(Statement::Select { columns, by })
    } else {
        None
    }
}

/// An insert, if the whole text is one.
pub open spec fn insert_in(text: Seq<char>) -> Option<Statement> {
    let end = after(text, after(text, after(text, Some(0), "insert"@), "into"@), "peer"@);
    let (columns, end) = columns_at(text, after(text, end, "("@));
    let end = after(text, after(text, after(text, end, ")"@), "values"@), "("@);
    let (count, end) = placeholders_at(text, end);
    if after(text, end, ")"@) == Some(text.len() as int) && count == columns.len() {
        Some(Statement::Insert { columns })
    } else {
        None
    }
}

/// An update, if the whole text is one.
pub open spec fn update_in(text: Seq<char>) -> Option<Statement> {
    let end = after(text, after(text, after(text, Some(0), "update"@), "peer"@), "set"@);
    let (set, end) = bindings_at(text, end, ","@);
    let (by, end) = bindings_at(text, after(text, end, "where"@), "and"@);
    if end == Some(text.len() as int) {
        Some(Statement::Update { set, by })
    } else {
        None
    }
}

/// The statement that a text is.
#[verifier::opaque]
pub open spec fn statement_in(text: Seq<char>) -> Option<Statement> {
    if select_in(text) is Some {
        select_in(text)
    } else if insert_in(text) is Some {
        insert_in(text)
    } else {
        update_in(text)
    }
}

/// What begins with another character does not stand at `start`.
proof fn lemma_stands_not(text: Seq<char>, start: int, what: Seq<char>)
    requires
        0 <= start,
        what.len() > 0,
        start < text.len() ==> text[start] != what[0],
    ensures
        !stands_at(text, start, what),
{
    reveal(stands_at);
    if stands_at(text, start, what) {
        assert(text.subrange(start, start + what.len())[0] == text[start]);
    }
}

/// Tells that `what` stands at `start`.
proof fn lemma_stands_at(text: Seq<char>, start: int, what: Seq<char>)
    requires
        0 <= start,
        start + what.len() <= text.len(),
        text.subrange(start, start + what.len()) =~= what,
        start + what.len() == text.len() || !in_word(what.last()) || !in_word(
            text[start + what.len()],
        ),
    ensures
        stands_at(text, start, what),
{
    reveal(stands_at);
}

/// Two words that stand at the same place are the same.
proof fn lemma_one_word_at_a_place(text: Seq<char>, start: int, a: Seq<char>, b: Seq<char>)
    requires
        stands_at(text, start, a),
        stands_at(text, start, b),
        a.len() > 0,
        b.len() > 0,
        forall|i: int| 0 <= i < a.len() ==> in_word(#[trigger] a[i]),
        forall|i: int| 0 <= i < b.len() ==> in_word(#[trigger] b[i]),
    ensures
        a == b,
{
    reveal(stands_at);
    let in_a = text.subrange(start, start + a.len());
    let in_b = text.subrange(start, start + b.len());
    if a.len() < b.len() {
        assert(in_b[a.len() as int] == b[a.len() as int]);
    } else if b.len() < a.len() {
        assert(in_a[b.len() as int] == a[b.len() as int]);
    }
}

/// The names of the columns are words, each of its own.
proof fn lemma_names_are_words(a: Column, b: Column)
    ensures
        a.name().len() > 0,
        forall|i: int| 0 <= i < a.name().len() ==> in_word(#[trigger] a.name()[i]),
        a.name() == b.name() ==> a == b,
{
    reveal_strlit("guid");
    reveal_strlit("id");
    reveal_strlit("uuid");
    reveal_strlit("pk");
    reveal_strlit("created_at");
    reveal_strlit("user");
    reveal_strlit("status");
    reveal_strlit("note");
    reveal_strlit("info");
    assert(a.name()[0] == b.name()[0] || a.name() != b.name());
    assert(a.name()[1] == b.name()[1] || a.name() != b.name());
}

/// Where the name of a column stands, that column comes next.
proof fn lemma_column_at(text: Seq<char>, from: int, column: Column)
    requires
        stands_at(text, past_spaces(text, from), column.name()),
    ensures
        column_at(text, from) == Some((column, past_spaces(text, from) + column.name().len())),
{
    assert(after(text, Some(from), column.name()) is Some);
    let (found, _) = column_at(text, from)->0;
    assert(after(text, Some(from), found.name()) is Some);
    lemma_names_are_words(column, found);
    lemma_names_are_words(found, column);
    lemma_one_word_at_a_place(text, past_spaces(text, from), column.name(), found.name());
}

/// What a row holds, column by column.
pub type Record = Map<Column, Cell>;

impl Row {
    /// What stands in a column of the row.
    pub open spec fn cell(self, column: Column) -> Cell {
        match column {
            Column::Guid => Cell::Blob(self.guid),
            Column::Id => Cell::Text(self.id),
            Column::Uuid => Cell::Blob(self.uuid),
            Column::Pk => Cell::Blob(self.pk),
            Column::CreatedAt => Cell::Text(self.created_at),
            Column::User => match self.user {
                Some(user) => Cell::Blob(user),
                None => Cell::Null,
            },
            Column::Status => match self.status {
                Some(status) => Cell::Number(status),
                None => Cell::Null,
            },
            Column::Note => match self.note {
                Some(note) => Cell::Text(note),
                None => Cell::Null,
            },
            Column::Info => Cell::Text(self.info),
        }
    }

    /// The row, column by column.
    pub open spec fn record(self) -> Record {
        Map::new(|column: Column| true, |column: Column| self.cell(column))
    }
}

impl Table {
    /// The rows of the table, each column by column.
    pub open spec fn records(self) -> Set<Record> {
        Set::new(
            |record: Record|
                exists|id: Seq<char>| #[trigger]
                    self.has(id) && record == self.rows[id].record(),
        )
    }
}

/// The values that are bound to the placeholders.
pub open spec fn bound(params: Seq<Param>) -> Seq<Cell> {
    Seq::new(
        params.len(),
        |i: int|
            match params[i] {
                Param::Text(text) => Cell::Text(text@),
                Param::Blob(bytes) => Cell::Blob(bytes@),
            },
    )
}

/// Whether a row has the given values in the given columns.
pub open spec fn meets(record: Record, by: Seq<Column>, values: Seq<Cell>) -> bool {
    forall|i: int| 0 <= i < by.len() ==> record[#[trigger] by[i]] == values[i]
}

/// The rows that have the given values in the given columns.
pub open spec fn picked(records: Set<Record>, by: Seq<Column>, values: Seq<Cell>) -> Set<Record> {
    Set::new(|record: Record| records.contains(record) && meets(record, by, values))
}

/// The row with the given values put into the given columns.
pub open spec fn with_values(record: Record, columns: Seq<Column>, values: Seq<Cell>) -> Record
    decreases columns.len(),
{
    if columns.len() == 0 {
        record
    } else {
        with_values(record, columns.drop_last(), values.drop_last()).insert(
            columns.last(),
            values[columns.len() - 1],
        )
    }
}

/// The row with the given columns only.
pub open spec fn columns_of(record: Record, columns: Seq<Column>) -> Record {
    Map::new(|column: Column| columns.contains(column), |column: Column| record[column])
}

/// A row before any value is put into it: the creation time is the present, and there is nothing
/// else.
pub open spec fn blank(now: Seq<char>) -> Record {
    Map::new(
        |column: Column| true,
        |column: Column|
            if column == Column::CreatedAt {
                Cell::Text(now)
            } else {
                Cell::Null
            },
    )
}

/// Whether a column that may not be empty is.
pub open spec fn lacks_a_value(record: Record) -> bool {
    ||| record[Column::Guid] is Null
    ||| record[Column::Id] is Null
    ||| record[Column::Uuid] is Null
    ||| record[Column::Pk] is Null
    ||| record[Column::CreatedAt] is Null
    ||| record[Column::Info] is Null
}

/// What comes back from a statement.
pub enum Outcome {
    /// The rows that were asked for.
    Fetched(Set<Record>),
    /// So many rows were added or changed.
    Changed(nat),
    /// Nothing was changed: two rows would have had the same id.
    IdTaken,
    /// Nothing was changed: two rows would have had the same guid, or one would have lacked a
    /// value.
    Refused,
}

/// An insert: the rows after it, and what comes back. Neither an id nor a guid may occur twice.
pub open spec fn inserted(
    records: Set<Record>,
    columns: Seq<Column>,
    values: Seq<Cell>,
    now: Seq<char>,
) -> (Set<Record>, Outcome) {
    let new = with_values(blank(now), columns, values);
    if exists|record: Record| #[trigger]
        records.contains(record) && record[Column::Id] == new[Column::Id] {
        (records, Outcome::IdTaken)
    } else if lacks_a_value(new) || exists|record: Record| #[trigger]
        records.contains(record) && record[Column::Guid] == new[Column::Guid] {
        (records, Outcome::Refused)
    } else {
        (records.insert(new), Outcome::Changed(1))
    }
}

/// The row after an update.
pub open spec fn updated(
    record: Record,
    set: Seq<Column>,
    by: Seq<Column>,
    values: Seq<Cell>,
) -> Record {
    if meets(record, by, values.skip(set.len() as int)) {
        with_values(record, set, values.take(set.len() as int))
    } else {
        record
    }
}

/// Whether two rows would have the same value in a column after an update.
pub open spec fn would_clash(
    records: Set<Record>,
    column: Column,
    set: Seq<Column>,
    by: Seq<Column>,
    values: Seq<Cell>,
) -> bool {
    exists|a: Record, b: Record| #[trigger]
        records.contains(a) && #[trigger] records.contains(b) && a != b && updated(
            a,
            set,
            by,
            values,
        )[column] == updated(b, set, by, values)[column]
}

/// An update: the rows after it, and what comes back. Neither an id nor a guid may occur twice.
pub open spec fn update(
    records: Set<Record>,
    set: Seq<Column>,
    by: Seq<Column>,
    values: Seq<Cell>,
) -> (Set<Record>, Outcome) {
    let changed = picked(records, by, values.skip(set.len() as int));
    if would_clash(records, Column::Id, set, by, values) {
        (records, Outcome::IdTaken)
    } else if would_clash(records, Column::Guid, set, by, values) || exists|record: Record|
        #[trigger]
        changed.contains(record) && lacks_a_value(updated(record, set, by, values)) {
        (records, Outcome::Refused)
    } else {
        (
            Set::new(
                |record: Record|
                    exists|before: Record| #[trigger]
                        records.contains(before) && record == updated(before, set, by, values),
            ),
            Outcome::Changed(changed.len()),
        )
    }
}

/// The rows after a statement was sent as this text with these values, and what came back. `now`
/// is the time of the statement. Nothing is said where the text is no statement, or where it has
/// another number of placeholders than there are values.
pub open spec fn run(
    records: Set<Record>,
    text: Seq<char>,
    values: Seq<Cell>,
    now: Seq<char>,
) -> Option<(Set<Record>, Outcome)> {
    match statement_in(text) {
        None => None,
        Some(Statement::Select { columns, by }) => if values.len() == by.len() {
            let found = picked(records, by, values);
            let fetched = Set::new(
                |record: Record|
                    exists|row: Record| #[trigger]
                        found.contains(row) && record == columns_of(row, columns),
            );
            Some((records, Outcome::Fetched(fetched)))
        } else {
            None
        },
        Some(Statement::Insert { columns }) => if values.len() == columns.len() {
            Some(inserted(records, columns, values, now))
        } else {
            None
        },
        Some(Statement::Update { set, by }) => if values.len() == set.len() + by.len() {
            Some(update(records, set, by, values))
        } else {
            None
        },
    }
}

/// The columns that make up a peer.
pub open spec fn peer_columns() -> Seq<Column> {
    seq![
        Column::Guid,
        Column::Id,
        Column::Uuid,
        Column::Pk,
        Column::User,
        Column::Status,
        Column::Info,
    ]
}

/// How the text of [`GET_PEER`] is read.
proof fn lemma_get_peer_is_read()
    ensures
        statement_in(GET_PEER@) == Some(
            Statement::Select { columns: peer_columns(), by: seq![Column::Id] },
        ),
{
    reveal(statement_in);
    let text = GET_PEER@;
    reveal_strlit(
        "select guid, id, uuid, pk, user, status, info from peer where id = ?",
    );
    reveal_strlit("select");
    reveal_strlit("guid");
    reveal_strlit(",");
    reveal_strlit("id");
    reveal_strlit("uuid");
    reveal_strlit("pk");
    reveal_strlit("user");
    reveal_strlit("status");
    reveal_strlit("info");
    reveal_strlit("from");
    reveal_strlit("peer");
    reveal_strlit("where");
    reveal_strlit("=");
    reveal_strlit("?");
    reveal_strlit("and");
    reveal_with_fuel(past_spaces, 2);
    lemma_stands_at(text, 0, "select"@);
    lemma_stands_at(text, 7, "guid"@);
    lemma_column_at(text, 6, Column::Guid);
    lemma_stands_at(text, 11, ","@);
    lemma_stands_at(text, 13, "id"@);
    lemma_column_at(text, 12, Column::Id);
    lemma_stands_at(text, 15, ","@);
    lemma_stands_at(text, 17, "uuid"@);
    lemma_column_at(text, 16, Column::Uuid);
    lemma_stands_at(text, 21, ","@);
    lemma_stands_at(text, 23, "pk"@);
    lemma_column_at(text, 22, Column::Pk);
    lemma_stands_at(text, 25, ","@);
    lemma_stands_at(text, 27, "user"@);
    lemma_column_at(text, 26, Column::User);
    lemma_stands_at(text, 31, ","@);
    lemma_stands_at(text, 33, "status"@);
    lemma_column_at(text, 32, Column::Status);
    lemma_stands_at(text, 39, ","@);
    lemma_stands_at(text, 41, "info"@);
    lemma_column_at(text, 40, Column::Info);
    lemma_stands_at(text, 46, "from"@);
    lemma_stands_at(text, 51, "peer"@);
    lemma_stands_at(text, 56, "where"@);
    lemma_stands_at(text, 62, "id"@);
    lemma_column_at(text, 61, Column::Id);
    lemma_stands_at(text, 65, "="@);
    lemma_stands_at(text, 67, "?"@);
    lemma_stands_not(text, 46, ","@);
    assert(columns_at(text, Some(40)).1 == Some(45int));
    assert(columns_at(text, Some(40)).0 =~= seq![Column::Info]);
    assert(columns_at(text, Some(32)).1 == Some(45int));
    assert(columns_at(text, Some(32)).0 =~= seq![Column::Status, Column::Info]);
    assert(columns_at(text, Some(26)).1 == Some(45int));
    assert(columns_at(text, Some(26)).0 =~= seq![Column::User, Column::Status, Column::Info]);
    assert(columns_at(text, Some(22)).1 == Some(45int));
    assert(columns_at(text, Some(22)).0 =~= seq![
        Column::Pk,
        Column::User,
        Column::Status,
        Column::Info,
    ]);
    assert(columns_at(text, Some(16)).1 == Some(45int));
    assert(columns_at(text, Some(16)).0 =~= seq![
        Column::Uuid,
        Column::Pk,
        Column::User,
        Column::Status,
        Column::Info,
    ]);
    assert(columns_at(text, Some(12)).1 == Some(45int));
    assert(columns_at(text, Some(12)).0 =~= seq![
        Column::Id,
        Column::Uuid,
        Column::Pk,
        Column::User,
        Column::Status,
        Column::Info,
    ]);
    assert(columns_at(text, Some(6)).1 == Some(45int));
    assert(columns_at(text, Some(6)).0 =~= seq![
        Column::Guid,
        Column::Id,
        Column::Uuid,
        Column::Pk,
        Column::User,
        Column::Status,
        Column::Info,
    ]);
    lemma_stands_not(text, 68, "and"@);
    assert(bindings_at(text, Some(61), "and"@).1 == Some(68int));
    assert(bindings_at(text, Some(61), "and"@).0 =~= seq![Column::Id]);
}

/// How the text of [`SELECT_UUID`] is read.
proof fn lemma_select_uuid_is_read()
    ensures
        statement_in(SELECT_UUID@) == Some(
            Statement::Select { columns: seq![Column::Uuid], by: seq![Column::Id] },
        ),
{
    reveal(statement_in);
    let text = SELECT_UUID@;
    reveal_strlit("select uuid from peer where id=?");
    reveal_strlit("select");
    reveal_strlit("uuid");
    reveal_strlit("from");
    reveal_strlit("peer");
    reveal_strlit("where");
    reveal_strlit("id");
    reveal_strlit("=");
    reveal_strlit("?");
    reveal_strlit("and");
    reveal_strlit(",");
    reveal_with_fuel(past_spaces, 2);
    lemma_stands_at(text, 0, "select"@);
    lemma_stands_at(text, 7, "uuid"@);
    lemma_column_at(text, 6, Column::Uuid);
    lemma_stands_at(text, 12, "from"@);
    lemma_stands_at(text, 17, "peer"@);
    lemma_stands_at(text, 22, "where"@);
    lemma_stands_at(text, 28, "id"@);
    lemma_column_at(text, 27, Column::Id);
    lemma_stands_at(text, 30, "="@);
    lemma_stands_at(text, 31, "?"@);
    lemma_stands_not(text, 12, ","@);
    assert(columns_at(text, Some(6)).1 == Some(11int));
    assert(columns_at(text, Some(6)).0 =~= seq![Column::Uuid]);
    lemma_stands_not(text, 32, "and"@);
    assert(bindings_at(text, Some(27), "and"@).1 == Some(32int));
    assert(bindings_at(text, Some(27), "and"@).0 =~= seq![Column::Id]);
}

/// How the text of [`INSERT_PEER`] is read.
proof fn lemma_insert_peer_is_read()
    ensures
        statement_in(INSERT_PEER@) == Some(
            Statement::Insert {
                columns: seq![Column::Guid, Column::Id, Column::Uuid, Column::Pk, Column::Info],
            },
        ),
{
    reveal(statement_in);
    let text = INSERT_PEER@;
    reveal_strlit(
        "insert into peer(guid, id, uuid, pk, info) values(?, ?, ?, ?, ?)",
    );
    reveal_strlit("insert");
    reveal_strlit("into");
    reveal_strlit("peer");
    reveal_strlit("(");
    reveal_strlit("guid");
    reveal_strlit(",");
    reveal_strlit("id");
    reveal_strlit("uuid");
    reveal_strlit("pk");
    reveal_strlit("info");
    reveal_strlit(")");
    reveal_strlit("values");
    reveal_strlit("?");
    reveal_strlit("select");
    reveal_with_fuel(past_spaces, 2);
    lemma_stands_at(text, 0, "insert"@);
    lemma_stands_at(text, 7, "into"@);
    lemma_stands_at(text, 12, "peer"@);
    lemma_stands_at(text, 16, "("@);
    lemma_stands_at(text, 17, "guid"@);
    lemma_column_at(text, 17, Column::Guid);
    lemma_stands_at(text, 21, ","@);
    lemma_stands_at(text, 23, "id"@);
    lemma_column_at(text, 22, Column::Id);
    lemma_stands_at(text, 25, ","@);
    lemma_stands_at(text, 27, "uuid"@);
    lemma_column_at(text, 26, Column::Uuid);
    lemma_stands_at(text, 31, ","@);
    lemma_stands_at(text, 33, "pk"@);
    lemma_column_at(text, 32, Column::Pk);
    lemma_stands_at(text, 35, ","@);
    lemma_stands_at(text, 37, "info"@);
    lemma_column_at(text, 36, Column::Info);
    lemma_stands_at(text, 41, ")"@);
    lemma_stands_at(text, 43, "values"@);
    lemma_stands_at(text, 49, "("@);
    lemma_stands_at(text, 50, "?"@);
    lemma_stands_at(text, 51, ","@);
    lemma_stands_at(text, 53, "?"@);
    lemma_stands_at(text, 54, ","@);
    lemma_stands_at(text, 56, "?"@);
    lemma_stands_at(text, 57, ","@);
    lemma_stands_at(text, 59, "?"@);
    lemma_stands_at(text, 60, ","@);
    lemma_stands_at(text, 62, "?"@);
    lemma_stands_at(text, 63, ")"@);
    lemma_stands_not(text, 0, "select"@);
    lemma_stands_not(text, 41, ","@);
    assert(columns_at(text, Some(36)).1 == Some(41int));
    assert(columns_at(text, Some(36)).0 =~= seq![Column::Info]);
    assert(columns_at(text, Some(32)).1 == Some(41int));
    assert(columns_at(text, Some(32)).0 =~= seq![Column::Pk, Column::Info]);
    assert(columns_at(text, Some(26)).1 == Some(41int));
    assert(columns_at(text, Some(26)).0 =~= seq![Column::Uuid, Column::Pk, Column::Info]);
    assert(columns_at(text, Some(22)).1 == Some(41int));
    assert(columns_at(text, Some(22)).0 =~= seq![
        Column::Id,
        Column::Uuid,
        Column::Pk,
        Column::Info,
    ]);
    assert(columns_at(text, Some(17)).1 == Some(41int));
    assert(columns_at(text, Some(17)).0 =~= seq![
        Column::Guid,
        Column::Id,
        Column::Uuid,
        Column::Pk,
        Column::Info,
    ]);
    lemma_stands_not(text, 63, ","@);
    assert(placeholders_at(text, Some(61)) == (1nat, Some(63int)));
    assert(placeholders_at(text, Some(58)) == (2nat, Some(63int)));
    assert(placeholders_at(text, Some(55)) == (3nat, Some(63int)));
    assert(placeholders_at(text, Some(52)) == (4nat, Some(63int)));
    assert(placeholders_at(text, Some(50)) == (5nat, Some(63int)));
}

/// How the text of [`UPDATE_PK`] is read.
proof fn lemma_update_pk_is_read()
    ensures
        statement_in(UPDATE_PK@) == Some(
            Statement::Update {
                set: seq![Column::Id, Column::Pk, Column::Info],
                by: seq![Column::Guid],
            },
        ),
{
    reveal(statement_in);
    let text = UPDATE_PK@;
    reveal_strlit("update peer set id=?, pk=?, info=? where guid=?");
    reveal_strlit("update");
    reveal_strlit("peer");
    reveal_strlit("set");
    reveal_strlit("id");
    reveal_strlit("=");
    reveal_strlit("?");
    reveal_strlit(",");
    reveal_strlit("pk");
    reveal_strlit("info");
    reveal_strlit("where");
    reveal_strlit("guid");
    reveal_strlit("select");
    reveal_strlit("insert");
    reveal_strlit("and");
    reveal_with_fuel(past_spaces, 2);
    lemma_stands_at(text, 0, "update"@);
    lemma_stands_at(text, 7, "peer"@);
    lemma_stands_at(text, 12, "set"@);
    lemma_stands_at(text, 16, "id"@);
    lemma_column_at(text, 15, Column::Id);
    lemma_stands_at(text, 18, "="@);
    lemma_stands_at(text, 19, "?"@);
    lemma_stands_at(text, 20, ","@);
    lemma_stands_at(text, 22, "pk"@);
    lemma_column_at(text, 21, Column::Pk);
    lemma_stands_at(text, 24, "="@);
    lemma_stands_at(text, 25, "?"@);
    lemma_stands_at(text, 26, ","@);
    lemma_stands_at(text, 28, "info"@);
    lemma_column_at(text, 27, Column::Info);
    lemma_stands_at(text, 32, "="@);
    lemma_stands_at(text, 33, "?"@);
    lemma_stands_at(text, 35, "where"@);
    lemma_stands_at(text, 41, "guid"@);
    lemma_column_at(text, 40, Column::Guid);
    lemma_stands_at(text, 45, "="@);
    lemma_stands_at(text, 46, "?"@);
    lemma_stands_not(text, 0, "select"@);
    lemma_stands_not(text, 0, "insert"@);
    lemma_stands_not(text, 35, ","@);
    assert(bindings_at(text, Some(27), ","@).1 == Some(34int));
    assert(bindings_at(text, Some(27), ","@).0 =~= seq![Column::Info]);
    assert(bindings_at(text, Some(21), ","@).1 == Some(34int));
    assert(bindings_at(text, Some(21), ","@).0 =~= seq![Column::Pk, Column::Info]);
    assert(bindings_at(text, Some(15), ","@).1 == Some(34int));
    assert(bindings_at(text, Some(15), ","@).0 =~= seq![Column::Id, Column::Pk, Column::Info]);
    lemma_stands_not(text, 47, "and"@);
    assert(bindings_at(text, Some(40), "and"@).1 == Some(47int));
    assert(bindings_at(text, Some(40), "and"@).0 =~= seq![Column::Guid]);
}

/// How the text of [`RENAME_PEER`] is read.
proof fn lemma_rename_peer_is_read()
    ensures
        statement_in(RENAME_PEER@) == Some(
            Statement::Update { set: seq![Column::Id], by: seq![Column::Id, Column::Uuid] },
        ),
{
    reveal(statement_in);
    let text = RENAME_PEER@;
    reveal_strlit("update peer set id=? where id=? and uuid=?");
    reveal_strlit("update");
    reveal_strlit("peer");
    reveal_strlit("set");
    reveal_strlit("id");
    reveal_strlit("=");
    reveal_strlit("?");
    reveal_strlit("where");
    reveal_strlit("and");
    reveal_strlit("uuid");
    reveal_strlit("select");
    reveal_strlit("insert");
    reveal_strlit(",");
    reveal_with_fuel(past_spaces, 2);
    lemma_stands_at(text, 0, "update"@);
    lemma_stands_at(text, 7, "peer"@);
    lemma_stands_at(text, 12, "set"@);
    lemma_stands_at(text, 16, "id"@);
    lemma_column_at(text, 15, Column::Id);
    lemma_stands_at(text, 18, "="@);
    lemma_stands_at(text, 19, "?"@);
    lemma_stands_at(text, 21, "where"@);
    lemma_stands_at(text, 27, "id"@);
    lemma_column_at(text, 26, Column::Id);
    lemma_stands_at(text, 29, "="@);
    lemma_stands_at(text, 30, "?"@);
    lemma_stands_at(text, 32, "and"@);
    lemma_stands_at(text, 36, "uuid"@);
    lemma_column_at(text, 35, Column::Uuid);
    lemma_stands_at(text, 40, "="@);
    lemma_stands_at(text, 41, "?"@);
    lemma_stands_not(text, 0, "select"@);
    lemma_stands_not(text, 0, "insert"@);
    lemma_stands_not(text, 21, ","@);
    assert(bindings_at(text, Some(15), ","@).1 == Some(20int));
    assert(bindings_at(text, Some(15), ","@).0 =~= seq![Column::Id]);
    lemma_stands_not(text, 42, "and"@);
    assert(bindings_at(text, Some(35), "and"@).1 == Some(42int));
    assert(bindings_at(text, Some(35), "and"@).0 =~= seq![Column::Uuid]);
    assert(bindings_at(text, Some(26), "and"@).1 == Some(42int));
    assert(bindings_at(text, Some(26), "and"@).0 =~= seq![Column::Id, Column::Uuid]);
}

/// A row of the table is among its records, under its own id.
proof fn lemma_row_is_a_record(table: Table, id: Seq<char>)
    requires
        table.well_formed(),
        table.has(id),
    ensures
        table.records().contains(table.rows[id].record()),
        table.rows[id].record()[Column::Id] == Cell::Text(id),
{
}

/// A record of the table is that of the row which has its id.
proof fn lemma_record_is_a_row(table: Table, record: Record) -> (id: Seq<char>)
    requires
        table.well_formed(),
        table.records().contains(record),
    ensures
        table.has(id),
        record == table.rows[id].record(),
        record[Column::Id] == Cell::Text(id),
        record[Column::Guid] == Cell::Blob(table.rows[id].guid),
        record[Column::Uuid] == Cell::Blob(table.rows[id].uuid),
{
    choose|id: Seq<char>| #[trigger] table.has(id) && record == table.rows[id].record()
}

/// The rows that are picked by an id.
proof fn lemma_picked_by_id(table: Table, id: Seq<char>)
    requires
        table.well_formed(),
    ensures
        picked(table.records(), seq![Column::Id], seq![Cell::Text(id)]) == (if table.has(id) {
            set![table.rows[id].record()]
        } else {
            Set::empty()
        }),
{
    let by = seq![Column::Id];
    let found = picked(table.records(), by, seq![Cell::Text(id)]);
    assert forall|record: Record| #[trigger] found.contains(record) implies table.has(id)
        && record == table.rows[id].record() by {
        let at = lemma_record_is_a_row(table, record);
        assert(record[by[0]] == Cell::Text(id));
    }
    if table.has(id) {
        lemma_row_is_a_record(table, id);
        assert(found =~= set![table.rows[id].record()]);
    } else {
        assert(found =~= Set::empty());
    }
}

/// A select by an id gives the columns of the row that has it.
proof fn lemma_select_by_id(
    table: Table,
    text: Seq<char>,
    columns: Seq<Column>,
    id: Seq<char>,
    now: Seq<char>,
)
    requires
        table.well_formed(),
        statement_in(text) == Some(Statement::Select { columns, by: seq![Column::Id] }),
    ensures
        run(table.records(), text, seq![Cell::Text(id)], now) == Some(
            (
                table.records(),
                Outcome::Fetched(
                    if table.has(id) {
                        set![columns_of(table.rows[id].record(), columns)]
                    } else {
                        Set::empty()
                    },
                ),
            ),
        ),
{
    lemma_picked_by_id(table, id);
    let found = picked(table.records(), seq![Column::Id], seq![Cell::Text(id)]);
    let fetched = Set::new(
        |record: Record|
            exists|row: Record| #[trigger]
                found.contains(row) && record == columns_of(row, columns),
    );
    if table.has(id) {
        assert(found.contains(table.rows[id].record()));
        assert(fetched =~= set![columns_of(table.rows[id].record(), columns)]);
    } else {
        assert(fetched =~= Set::empty());
    }
}

/// An insert adds the row with the given values, unless its id or its guid is in use.
proof fn lemma_insert(table: Table, row: Row)
    requires
        table.well_formed(),
        row.user is None,
        row.status is None,
        row.note is None,
    ensures
        ({
            let columns = seq![Column::Guid, Column::Id, Column::Uuid, Column::Pk, Column::Info];
            let values = seq![
                Cell::Blob(row.guid),
                Cell::Text(row.id),
                Cell::Blob(row.uuid),
                Cell::Blob(row.pk),
                Cell::Text(row.info),
            ];
            inserted(table.records(), columns, values, row.created_at) == (if table.has(row.id) {
                (table.records(), Outcome::IdTaken)
            } else if table.has_guid(row.guid) {
                (table.records(), Outcome::Refused)
            } else {
                (Table { rows: table.rows.insert(row.id, row) }.records(), Outcome::Changed(1))
            })
        }),
{
    let records = table.records();
    let columns = seq![Column::Guid, Column::Id, Column::Uuid, Column::Pk, Column::Info];
    let values = seq![
        Cell::Blob(row.guid),
        Cell::Text(row.id),
        Cell::Blob(row.uuid),
        Cell::Blob(row.pk),
        Cell::Text(row.info),
    ];
    let new = with_values(blank(row.created_at), columns, values);
    assert(new =~= row.record()) by {
        reveal_with_fuel(with_values, 6);
    }
    if table.has(row.id) {
        lemma_row_is_a_record(table, row.id);
    } else {
        assert forall|record: Record| #[trigger] records.contains(record) implies record[Column::Id]
            != new[Column::Id] by {
            let at = lemma_record_is_a_row(table, record);
        }
        if table.has_guid(row.guid) {
            let at = table.id_of(row.guid);
            assert(table.has_guid_at(row.guid, at));
            lemma_row_is_a_record(table, at);
        } else {
            assert forall|record: Record| #[trigger] records.contains(
                record,
            ) implies record[Column::Guid] != new[Column::Guid] by {
                let at = lemma_record_is_a_row(table, record);
                assert(!table.has_guid_at(row.guid, at));
            }
            let after = Table { rows: table.rows.insert(row.id, row) };
            assert forall|record: Record| #[trigger] after.records().contains(
                record,
            ) implies records.insert(new).contains(record) by {
                let at = choose|id: Seq<char>| #[trigger]
                    after.has(id) && record == after.rows[id].record();
                if at != row.id {
                    assert(table.has(at));
                }
            }
            assert forall|record: Record| #[trigger] records.insert(new).contains(
                record,
            ) implies after.records().contains(record) by {
                if record == new {
                    assert(after.has(row.id));
                } else {
                    let at = lemma_record_is_a_row(table, record);
                    assert(after.has(at));
                }
            }
            assert(after.records() =~= records.insert(new));
        }
    }
}

/// An update that picks the row at `at` alone replaces it by `row`, unless the id of `row` belongs
/// to another.
proof fn lemma_update_of_one(
    table: Table,
    set: Seq<Column>,
    by: Seq<Column>,
    values: Seq<Cell>,
    at: Seq<char>,
    row: Row,
)
    requires
        table.well_formed(),
        table.has(at),
        row.guid == table.rows[at].guid,
        updated(table.rows[at].record(), set, by, values) == row.record(),
        picked(table.records(), by, values.skip(set.len() as int)) == set![
            table.rows[at].record(),
        ],
    ensures
        update(table.records(), set, by, values) == (if table.has(row.id) && row.id != at {
            (table.records(), Outcome::IdTaken)
        } else {
            (table.replace(at, row).records(), Outcome::Changed(1))
        }),
{
    let records = table.records();
    let old = table.rows[at].record();
    let changed = picked(records, by, values.skip(set.len() as int));
    lemma_row_is_a_record(table, at);
    assert(changed.contains(old));
    assert forall|record: Record| #[trigger] records.contains(record) && record != old implies updated(
        record,
        set,
        by,
        values,
    ) == record by {
        assert(!changed.contains(record));
    }
    if table.has(row.id) && row.id != at {
        let other = table.rows[row.id].record();
        lemma_row_is_a_record(table, row.id);
        assert(records.contains(old) && records.contains(other) && old != other);
        assert(updated(old, set, by, values)[Column::Id] == Cell::Text(row.id));
        assert(would_clash(records, Column::Id, set, by, values));
    } else {
        assert forall|a: Record, b: Record| #[trigger]
            records.contains(a) && #[trigger] records.contains(b) && a != b implies updated(
            a,
            set,
            by,
            values,
        )[Column::Id] != updated(b, set, by, values)[Column::Id] && updated(a, set, by, values)[
            Column::Guid] != updated(b, set, by, values)[Column::Guid] by {
            let at_a = lemma_record_is_a_row(table, a);
            let at_b = lemma_record_is_a_row(table, b);
            assert(at_a != at_b);
        }
        assert(!would_clash(records, Column::Id, set, by, values));
        assert(!would_clash(records, Column::Guid, set, by, values));
        assert forall|record: Record| #[trigger] changed.contains(record) implies !lacks_a_value(
            updated(record, set, by, values),
        ) by {
            assert(record == old);
        }
        let after = table.replace(at, row);
        let result = Set::new(
            |record: Record|
                exists|before: Record| #[trigger]
                    records.contains(before) && record == updated(before, set, by, values),
        );
        assert forall|record: Record| #[trigger] result.contains(
            record,
        ) implies after.records().contains(record) by {
            let before = choose|before: Record| #[trigger]
                records.contains(before) && record == updated(before, set, by, values);
            let id = lemma_record_is_a_row(table, before);
            if before == old {
                assert(after.has(row.id));
            } else {
                assert(after.has(id) && id != row.id);
            }
        }
        assert forall|record: Record| #[trigger] after.records().contains(
            record,
        ) implies result.contains(record) by {
            let id = choose|id: Seq<char>| #[trigger]
                after.has(id) && record == after.rows[id].record();
            if id == row.id {
                assert(records.contains(old) && record == updated(old, set, by, values));
            } else {
                assert(table.has(id) && id != at);
                lemma_row_is_a_record(table, id);
                assert(records.contains(record) && record == updated(record, set, by, values));
            }
        }
        assert(result =~= after.records());
        assert(changed.len() == 1);
    }
}

/// An update that picks no row changes nothing.
proof fn lemma_update_of_none(table: Table, set: Seq<Column>, by: Seq<Column>, values: Seq<Cell>)
    requires
        table.well_formed(),
        picked(table.records(), by, values.skip(set.len() as int)) == Set::<Record>::empty(),
    ensures
        update(table.records(), set, by, values) == (table.records(), Outcome::Changed(0)),
{
    let records = table.records();
    let changed = picked(records, by, values.skip(set.len() as int));
    assert forall|record: Record| #[trigger] records.contains(record) implies updated(
        record,
        set,
        by,
        values,
    ) == record by {
        assert(!changed.contains(record));
    }
    assert forall|a: Record, b: Record| #[trigger]
        records.contains(a) && #[trigger] records.contains(b) && a != b implies a[Column::Id]
        != b[Column::Id] && a[Column::Guid] != b[Column::Guid] by {
        let at_a = lemma_record_is_a_row(table, a);
        let at_b = lemma_record_is_a_row(table, b);
        assert(at_a != at_b);
    }
    assert(!would_clash(records, Column::Id, set, by, values));
    assert(!would_clash(records, Column::Guid, set, by, values));
    let result = Set::new(
        |record: Record|
            exists|before: Record| #[trigger]
                records.contains(before) && record == updated(before, set, by, values),
    );
    assert forall|record: Record| #[trigger] records.contains(record) implies result.contains(
        record,
    ) by {
        assert(record == updated(record, set, by, values));
    }
    assert(result =~= records);
    assert(changed.len() == 0);
}

/// The rows that an update by a guid picks.
proof fn lemma_picked_by_guid(table: Table, guid: Seq<u8>)
    requires
        table.well_formed(),
    ensures
        picked(table.records(), seq![Column::Guid], seq![Cell::Blob(guid)]) == (if table.has_guid(
            guid,
        ) {
            set![table.rows[table.id_of(guid)].record()]
        } else {
            Set::empty()
        }),
{
    let by = seq![Column::Guid];
    let found = picked(table.records(), by, seq![Cell::Blob(guid)]);
    let at = table.id_of(guid);
    assert forall|record: Record| #[trigger] found.contains(record) implies table.has_guid(guid)
        && record == table.rows[at].record() by {
        let id = lemma_record_is_a_row(table, record);
        assert(record[by[0]] == Cell::Blob(guid));
        assert(table.has_guid_at(guid, id));
        assert(table.has_guid_at(guid, at));
    }
    if table.has_guid(guid) {
        assert(table.has_guid_at(guid, at));
        lemma_row_is_a_record(table, at);
        assert(found =~= set![table.rows[at].record()]);
    } else {
        assert(found =~= Set::empty());
    }
}

/// The rows that an update by an id and a machine uuid picks.
proof fn lemma_picked_by_owner(table: Table, id: Seq<char>, uuid: Seq<u8>)
    requires
        table.well_formed(),
    ensures
        picked(
            table.records(),
            seq![Column::Id, Column::Uuid],
            seq![Cell::Text(id), Cell::Blob(uuid)],
        ) == (if table.has(id) && table.rows[id].uuid == uuid {
            set![table.rows[id].record()]
        } else {
            Set::empty()
        }),
{
    let by = seq![Column::Id, Column::Uuid];
    let found = picked(table.records(), by, seq![Cell::Text(id), Cell::Blob(uuid)]);
    assert forall|record: Record| #[trigger] found.contains(record) implies table.has(id)
        && table.rows[id].uuid == uuid && record == table.rows[id].record() by {
        let at = lemma_record_is_a_row(table, record);
        assert(record[by[0]] == Cell::Text(id));
        assert(record[by[1]] == Cell::Blob(uuid));
    }
    if table.has(id) && table.rows[id].uuid == uuid {
        lemma_row_is_a_record(table, id);
        assert(found =~= set![table.rows[id].record()]);
    } else {
        assert(found =~= Set::empty());
    }
}

/// The update of a registration changes the id, the public key and the info of the row that has
/// the guid, unless the id belongs to another.
proof fn lemma_update_by_guid(
    table: Table,
    guid: Seq<u8>,
    id: Seq<char>,
    pk: Seq<u8>,
    info: Seq<char>,
)
    requires
        table.well_formed(),
    ensures
        ({
            let set = seq![Column::Id, Column::Pk, Column::Info];
            let values = seq![Cell::Text(id), Cell::Blob(pk), Cell::Text(info), Cell::Blob(guid)];
            let at = table.id_of(guid);
            update(table.records(), set, seq![Column::Guid], values) == (if !table.has_guid(guid) {
                (table.records(), Outcome::Changed(0))
            } else if table.has(id) && id != at {
                (table.records(), Outcome::IdTaken)
            } else {
                (
                    table.replace(at, Row { id, pk, info, ..table.rows[at] }).records(),
                    Outcome::Changed(1),
                )
            })
        }),
{
    let set = seq![Column::Id, Column::Pk, Column::Info];
    let by = seq![Column::Guid];
    let values = seq![Cell::Text(id), Cell::Blob(pk), Cell::Text(info), Cell::Blob(guid)];
    assert(values.skip(3) =~= seq![Cell::Blob(guid)]);
    lemma_picked_by_guid(table, guid);
    if table.has_guid(guid) {
        let at = table.id_of(guid);
        let old = table.rows[at];
        let row = Row { id, pk, info, ..old };
        assert(table.has_guid_at(guid, at));
        assert(meets(old.record(), by, values.skip(3)));
        assert(with_values(old.record(), set, values.take(3)) =~= row.record()) by {
            reveal_with_fuel(with_values, 4);
        }
        lemma_update_of_one(table, set, by, values, at, row);
    } else {
        lemma_update_of_none(table, set, by, values);
    }
}

/// The update of a rename changes the id of the row that has the old id and the machine uuid,
/// unless the new id belongs to another.
proof fn lemma_update_by_owner(
    table: Table,
    old_id: Seq<char>,
    new_id: Seq<char>,
    uuid: Seq<u8>,
)
    requires
        table.well_formed(),
    ensures
        ({
            let values = seq![Cell::Text(new_id), Cell::Text(old_id), Cell::Blob(uuid)];
            let by = seq![Column::Id, Column::Uuid];
            update(table.records(), seq![Column::Id], by, values) == (if !table.has(old_id)
                || table.rows[old_id].uuid != uuid {
                (table.records(), Outcome::Changed(0))
            } else if table.has(new_id) && new_id != old_id {
                (table.records(), Outcome::IdTaken)
            } else {
                (
                    table.replace(old_id, Row { id: new_id, ..table.rows[old_id] }).records(),
                    Outcome::Changed(1),
                )
            })
        }),
{
    let set = seq![Column::Id];
    let by = seq![Column::Id, Column::Uuid];
    let values = seq![Cell::Text(new_id), Cell::Text(old_id), Cell::Blob(uuid)];
    assert(values.skip(1) =~= seq![Cell::Text(old_id), Cell::Blob(uuid)]);
    lemma_picked_by_owner(table, old_id, uuid);
    if table.has(old_id) && table.rows[old_id].uuid == uuid {
        let old = table.rows[old_id];
        let row = Row { id: new_id, ..old };
        assert(meets(old.record(), by, values.skip(1)));
        assert(with_values(old.record(), set, values.take(1)) =~= row.record()) by {
            reveal_with_fuel(with_values, 2);
        }
        lemma_update_of_one(table, set, by, values, old_id, row);
    } else {
        lemma_update_of_none(table, set, by, values);
    }
}

/// Whether what comes back from a statement is what the table replies.
pub open spec fn same_reply(outcome: Outcome, reply: ReplyView) -> bool {
    match reply {
        ReplyView::Rows(rows) => outcome == Outcome::Changed(rows),
        ReplyView::IdTaken => outcome is IdTaken,
        ReplyView::Failed => outcome is Refused,
        ReplyView::Peer(None) | ReplyView::Uuid(None) => outcome == Outcome::Fetched(Set::empty()),
        ReplyView::Peer(Some(row)) => outcome == Outcome::Fetched(
            set![columns_of(row.record(), peer_columns())],
        ),
        ReplyView::Uuid(Some(uuid)) => outcome == Outcome::Fetched(
            set![map![Column::Uuid => Cell::Blob(uuid)]],
        ),
    }
}

/// A statement as it is sent, with its text and the values bound to it, does to the rows of the
/// peer table what the table says of its query, and what comes back is what the table replies.
pub proof fn law_statements_do_as_the_table_says(
    query: &Query,
    text: &'static str,
    params: Vec<Param>,
    table: Table,
    now: Seq<char>,
)
    requires
        table.well_formed(),
        !(query is CreateTables),
        call_ensures(Query::sql, (query,), text),
        call_ensures(Query::params, (query,), params),
    ensures
        run(table.records(), text@, bound(params@), now) matches Some((rows, outcome))
            && rows == table.run(query@, now).0.records() && same_reply(
            outcome,
            table.run(query@, now).1,
        ),
{
    let views = params@.map_values(|p: Param| p@);
    assert forall|i: int| 0 <= i < params.len() implies #[trigger] bound(params@)[i] == (
    match views[i] {
        ParamView::Text(text) => Cell::Text(text),
        ParamView::Blob(bytes) => Cell::Blob(bytes),
    }) by {}
    let values = bound(params@);
    assert(values.len() == views.len());
    match query@ {
        QueryView::CreateTables => {},
        QueryView::GetPeer { id } => {
            assert(values =~= seq![Cell::Text(id)]);
            lemma_get_peer_is_read();
            lemma_select_by_id(table, text@, peer_columns(), id, now);
        },
        QueryView::SelectUuid { id } => {
            let columns = seq![Column::Uuid];
            assert(values =~= seq![Cell::Text(id)]);
            lemma_select_uuid_is_read();
            lemma_select_by_id(table, text@, columns, id, now);
            assert(columns.contains(columns[0]));
            assert(columns_of(table.rows[id].record(), columns)
                =~= map![Column::Uuid => Cell::Blob(table.rows[id].uuid)]);
        },
        QueryView::InsertPeer { guid, id, uuid, pk, info } => {
            assert(values =~= seq![
                Cell::Blob(guid),
                Cell::Text(id),
                Cell::Blob(uuid),
                Cell::Blob(pk),
                Cell::Text(info),
            ]);
            lemma_insert_peer_is_read();
            lemma_insert(
                table,
                Row {
                    guid,
                    id,
                    uuid,
                    pk,
                    created_at: now,
                    user: None,
                    status: None,
                    note: None,
                    info,
                },
            );
        },
        QueryView::UpdatePk { guid, id, pk, info } => {
            assert(values =~= seq![
                Cell::Text(id),
                Cell::Blob(pk),
                Cell::Text(info),
                Cell::Blob(guid),
            ]);
            lemma_update_pk_is_read();
            lemma_update_by_guid(table, guid, id, pk, info);
        },
        QueryView::RenamePeer { old_id, new_id, uuid } => {
            assert(values =~= seq![Cell::Text(new_id), Cell::Text(old_id), Cell::Blob(uuid)]);
            lemma_rename_peer_is_read();
            lemma_update_by_owner(table, old_id, new_id, uuid);
        },
    }
}

} // verus!
