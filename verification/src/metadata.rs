//! The description of a database, made from the rows of its information schema.

use vstd::prelude::*;
use crate::http::HttpReply;
use crate::http::HttpRequest;
use crate::http::request_json;
use crate::http::request_json_outcome;
use crate::json::Json;
use crate::json::JsonView;
use crate::json::json_result;
use crate::json::lemma_array_view;
use crate::json::lemma_object_view;
use crate::json::member;
use crate::json::members;
use crate::json::text;
use crate::json::values;
use crate::session::SpannerConnection;
use crate::session::execute_sql_request;
use crate::session::execute_sql_request_of;
use crate::session::query_output;
use crate::session::row_views;
use crate::session::spanner_result_to_output;
use crate::text::before;
use crate::text::eq_ignore_ascii_case;
use crate::text::equal_ignoring_case;
use crate::text::is_before;
use crate::text::lemma_before_total;
use crate::text::lemma_before_transitive;
use crate::text::owned_text;
use crate::text::parse_i64;
use crate::text::parsed_i64;
use crate::text::same_text;
use crate::text::signed_decimal;
use crate::text::signed_decimal_text;
use crate::text::texts;

verus! {

broadcast use vstd::string::group_string_axioms;

/// The position of the first column with that name, its case aside, from `from` on.
pub open spec fn column_position(columns: Seq<Seq<char>>, name: Seq<char>, from: int) -> Option<int>
    decreases columns.len() - from,
{
    if from < 0 || columns.len() <= from {
        None
    } else if equal_ignoring_case(columns[from], name) {
        Some(from)
    } else {
        column_position(columns, name, from + 1)
    }
}

/// A JSON value as the text of a cell: a text as it is, a number or a truth value as it is
/// printed, and nothing for anything else.
pub open spec fn cell_text(value: JsonView) -> Option<Seq<char>> {
    match value {
        JsonView::Text(s) => Some(s),
        JsonView::Number(n) => Some(n),
        JsonView::Bool(b) => if b {
            Some("true"@)
        } else {
            Some("false"@)
        },
        _ => None,
    }
}

/// The text of a row under the column with that name.
pub open spec fn field_of(
    columns: Seq<Seq<char>>,
    row: Seq<JsonView>,
    name: Seq<char>,
) -> Option<Seq<char>> {
    match column_position(columns, name, 0) {
        Some(i) => if i < row.len() {
            cell_text(row[i])
        } else {
            None
        },
        None => None,
    }
}

/// The text of a row under the column with that name.
pub fn field(columns: &Vec<String>, row: &Vec<Json>, name: &str) -> (found: Option<String>)
    ensures
        owned_text(found) == field_of(texts(columns@), values(row@), name@),
{
    let mut i: usize = 0;
    while i < columns.len()
        invariant
            i <= columns@.len(),
            column_position(texts(columns@), name@, i as int) == column_position(
                texts(columns@),
                name@,
                0,
            ),
        decreases columns@.len() - i,
    {
        assert(texts(columns@)[i as int] == columns@[i as int]@);
        if eq_ignore_ascii_case(columns[i].as_str(), name) {
            if i >= row.len() {
                return None;
            }
            assert(values(row@)[i as int] == row@[i as int]@);
            return match &row[i] {
                Json::Text(s) => Some(s.clone()),
                Json::Number(n) => Some(n.clone()),
                Json::Bool(b) => if *b {
                    Some("true".to_string())
                } else {
                    Some("false".to_string())
                },
                _ => None,
            };
        }
        i += 1;
    }
    None
}

/// The text, or an empty one where it is missing.
pub open spec fn or_empty(found: Option<Seq<char>>) -> Seq<char> {
    match found {
        Some(s) => s,
        None => Seq::empty(),
    }
}

fn or_default(found: Option<String>) -> (out: String)
    ensures
        out@ == or_empty(owned_text(found)),
{
    match found {
        Some(s) => s,
        None => String::new(),
    }
}

/// Whether a row of the information schema says that its column may be null; it may unless the
/// row says something other than yes.
pub open spec fn is_nullable(columns: Seq<Seq<char>>, row: Seq<JsonView>) -> bool {
    match field_of(columns, row, "IS_NULLABLE"@) {
        Some(s) => equal_ignoring_case(s, "YES"@) || equal_ignoring_case(s, "true"@),
        None => true,
    }
}

/// The place of a column in its table: what its row says, or else the one behind the columns that
/// the table has already.
pub open spec fn ordinal_of(columns: Seq<Seq<char>>, row: Seq<JsonView>, already: nat) -> int {
    match field_of(columns, row, "ORDINAL_POSITION"@) {
        Some(s) => match parsed_i64(s) {
            Some(n) => n as int,
            None => already as int + 1,
        },
        None => already as int + 1,
    }
}

/// The description of the column that a row of the information schema is about.
pub open spec fn column_json(columns: Seq<Seq<char>>, row: Seq<JsonView>, already: nat) -> JsonView {
    JsonView::Object(
        seq![
            ("name"@, JsonView::Text(or_empty(field_of(columns, row, "COLUMN_NAME"@)))),
            ("dataType"@, JsonView::Text(or_empty(field_of(columns, row, "SPANNER_TYPE"@)))),
            ("nullable"@, JsonView::Bool(is_nullable(columns, row))),
            (
                "ordinal"@,
                JsonView::Number(signed_decimal(ordinal_of(columns, row, already))),
            ),
        ],
    )
}

fn describe_column(columns: &Vec<String>, row: &Vec<Json>, already: usize) -> (out: Json)
    requires
        already < i64::MAX,
        already < usize::MAX,
    ensures
        out@ == column_json(texts(columns@), values(row@), already as nat),
{
    broadcast use lemma_object_view;

    let nullable = match field(columns, row, "IS_NULLABLE") {
        Some(s) => eq_ignore_ascii_case(s.as_str(), "YES") || eq_ignore_ascii_case(
            s.as_str(),
            "true",
        ),
        None => true,
    };
    let next: i64 = (already + 1) as i64;
    let ordinal: i64 = match field(columns, row, "ORDINAL_POSITION") {
        Some(s) => match parse_i64(s.as_str()) {
            Some(n) => n,
            None => next,
        },
        None => next,
    };
    let mut fields: Vec<(String, Json)> = Vec::new();
    fields.push(member("name", Json::Text(or_default(field(columns, row, "COLUMN_NAME")))));
    fields.push(member("dataType", Json::Text(or_default(field(columns, row, "SPANNER_TYPE")))));
    fields.push(member("nullable", Json::Bool(nullable)));
    fields.push(member("ordinal", Json::Number(signed_decimal_text(ordinal))));
    assert(members(fields@) =~= column_json(
        texts(columns@),
        values(row@),
        already as nat,
    )->Object_0);
    Json::Object(fields)
}

/// The tables of a schema, by name, each with the descriptions of its columns.
pub type TablesView = Map<Seq<char>, Seq<JsonView>>;

/// The schemas of a database, by name.
pub type CatalogView = Map<Seq<char>, TablesView>;

/// The columns of a table; none where there is no such table.
pub open spec fn columns_in(tables: TablesView, table: Seq<char>) -> Seq<JsonView> {
    if tables.contains_key(table) {
        tables[table]
    } else {
        Seq::empty()
    }
}

/// The tables of a schema; none where there is no such schema.
pub open spec fn tables_in(catalog: CatalogView, schema: Seq<char>) -> TablesView {
    if catalog.contains_key(schema) {
        catalog[schema]
    } else {
        Map::empty()
    }
}

/// Whether a row of the information schema is about a column: it names a table and a column.
pub open spec fn is_about_column(columns: Seq<Seq<char>>, row: Seq<JsonView>) -> bool {
    &&& or_empty(field_of(columns, row, "TABLE_NAME"@)).len() > 0
    &&& or_empty(field_of(columns, row, "COLUMN_NAME"@)).len() > 0
}

/// The catalog with the column of one more row behind the others of its table.
pub open spec fn with_row(
    catalog: CatalogView,
    columns: Seq<Seq<char>>,
    row: Seq<JsonView>,
) -> CatalogView {
    if is_about_column(columns, row) {
        let schema = or_empty(field_of(columns, row, "TABLE_SCHEMA"@));
        let table = or_empty(field_of(columns, row, "TABLE_NAME"@));
        let tables = tables_in(catalog, schema);
        let known = columns_in(tables, table);
        catalog.insert(
            schema,
            tables.insert(table, known.push(column_json(columns, row, known.len()))),
        )
    } else {
        catalog
    }
}

/// The catalog that rows of the information schema describe.
pub open spec fn catalog_of(columns: Seq<Seq<char>>, rows: Seq<Seq<JsonView>>) -> CatalogView
    decreases rows.len(),
{
    if rows.len() == 0 {
        Map::empty()
    } else {
        with_row(catalog_of(columns, rows.drop_last()), columns, rows.last())
    }
}

/// Whether each text of a list stands before the ones behind it.
pub open spec fn is_ascending(list: Seq<Seq<char>>) -> bool {
    forall|i: int, j: int| 0 <= i < j < list.len() ==> is_before(#[trigger] list[i], #[trigger] list[j])
}

/// The texts of a finite set in ascending order.
pub open spec fn ascending(keys: Set<Seq<char>>) -> Seq<Seq<char>> {
    choose|list: Seq<Seq<char>>| is_ascending(list) && #[trigger] list.to_set() == keys
}

/// The description of a table.
pub open spec fn table_json(schema: Seq<char>, name: Seq<char>, columns: Seq<JsonView>) -> JsonView {
    JsonView::Object(
        seq![
            ("schema"@, JsonView::Text(schema)),
            ("name"@, JsonView::Text(name)),
            ("kind"@, JsonView::Text("table"@)),
            ("columns"@, JsonView::Array(columns)),
            ("indexes"@, JsonView::Array(Seq::empty())),
            ("primaryKey"@, JsonView::Array(Seq::empty())),
            ("foreignKeys"@, JsonView::Array(Seq::empty())),
        ],
    )
}

/// The description of a schema: its name and its tables, in ascending order of their names.
pub open spec fn schema_json(name: Seq<char>, tables: TablesView) -> JsonView {
    JsonView::Object(
        seq![
            ("name"@, JsonView::Text(name)),
            (
                "objects"@,
                JsonView::Array(
                    ascending(tables.dom()).map_values(
                        |table: Seq<char>| table_json(name, table, tables[table]),
                    ),
                ),
            ),
        ],
    )
}

/// The description of a database: its schemas, in ascending order of their names.
pub open spec fn catalog_json(catalog: CatalogView) -> JsonView {
    JsonView::Object(
        seq![
            (
                "schemas"@,
                JsonView::Array(
                    ascending(catalog.dom()).map_values(
                        |schema: Seq<char>| schema_json(schema, catalog[schema]),
                    ),
                ),
            ),
        ],
    )
}

/// How many rows of the information schema are read at most.
pub const METADATA_ROWS: usize = 100_000;

/// The description of a database that the result set of the metadata query stands for.
pub open spec fn metadata_of(value: JsonView) -> JsonView {
    let output = query_output(value, METADATA_ROWS as nat);
    catalog_json(catalog_of(output.columns, output.rows))
}

/// The query that reads the columns of every table of a database.
pub open spec fn metadata_sql() -> Seq<char> {
    "SELECT TABLE_SCHEMA, TABLE_NAME, COLUMN_NAME, SPANNER_TYPE, ORDINAL_POSITION, IS_NULLABLE FROM INFORMATION_SCHEMA.COLUMNS WHERE TABLE_SCHEMA NOT IN ('INFORMATION_SCHEMA') ORDER BY TABLE_SCHEMA, TABLE_NAME, ORDINAL_POSITION"@
}

/// The map from each key to the value at the same place.
pub open spec fn paired<V>(keys: Seq<Seq<char>>, vals: Seq<V>) -> Map<Seq<char>, V> {
    Map::new(|key: Seq<char>| keys.contains(key), |key: Seq<char>| vals[keys.index_of(key)])
}

proof fn lemma_ascending_places(keys: Seq<Seq<char>>)
    requires
        is_ascending(keys),
    ensures
        forall|i: int| 0 <= i < keys.len() ==> keys.index_of(#[trigger] keys[i]) == i,
{
    assert forall|i: int| 0 <= i < keys.len() implies keys.index_of(#[trigger] keys[i]) == i by {
        let j = keys.index_of(keys[i]);
        assert(keys.contains(keys[i]));
        assert(0 <= j < keys.len() && keys[j] == keys[i]);
        lemma_before_total(keys[i], keys[j]);
    }
}

proof fn lemma_paired_update<V>(keys: Seq<Seq<char>>, vals: Seq<V>, i: int, v: V)
    requires
        is_ascending(keys),
        keys.len() == vals.len(),
        0 <= i < keys.len(),
    ensures
        paired(keys, vals.update(i, v)) == paired(keys, vals).insert(keys[i], v),
        paired(keys, vals).contains_key(keys[i]),
        paired(keys, vals)[keys[i]] == vals[i],
{
    lemma_ascending_places(keys);
    assert forall|key: Seq<char>| keys.contains(key) && key != keys[i] implies keys.index_of(key)
        != i by {
        assert(keys[keys.index_of(key)] == key);
    }
    assert(paired(keys, vals.update(i, v)) =~= paired(keys, vals).insert(keys[i], v));
}

proof fn lemma_paired_insert<V>(keys: Seq<Seq<char>>, vals: Seq<V>, i: int, key: Seq<char>, v: V)
    requires
        is_ascending(keys.insert(i, key)),
        is_ascending(keys),
        keys.len() == vals.len(),
        0 <= i <= keys.len(),
    ensures
        paired(keys.insert(i, key), vals.insert(i, v)) == paired(keys, vals).insert(key, v),
        !paired(keys, vals).contains_key(key),
{
    let grown = keys.insert(i, key);
    lemma_ascending_places(keys);
    lemma_ascending_places(grown);
    assert(grown[i] == key);
    assert forall|j: int| 0 <= j < keys.len() implies #[trigger] keys[j] == grown[if j < i {
        j
    } else {
        j + 1
    }] by {}
    assert(!keys.contains(key)) by {
        if keys.contains(key) {
            let j = keys.index_of(key);
            let k = if j < i {
                j
            } else {
                j + 1
            };
            assert(grown[k] == key);
            assert(grown.index_of(grown[k]) == k);
        }
    }
    assert forall|other: Seq<char>| grown.contains(other) == (keys.contains(other) || other
        == key) by {
        if keys.contains(other) {
            let j = keys.index_of(other);
            let k = if j < i {
                j
            } else {
                j + 1
            };
            assert(grown[k] == other);
        }
        if grown.contains(other) {
            let k = grown.index_of(other);
            if k != i {
                let j = if k < i {
                    k
                } else {
                    k - 1
                };
                assert(keys[j] == other);
            }
        }
    }
    let left = paired(grown, vals.insert(i, v));
    let right = paired(keys, vals).insert(key, v);
    assert forall|other: Seq<char>| left.contains_key(other) implies left[other]
        == right[other] by {
        if other == key {
            assert(grown.index_of(grown[i]) == i);
        } else {
            let j = keys.index_of(other);
            let k = if j < i {
                j
            } else {
                j + 1
            };
            assert(grown[k] == other);
            assert(grown.index_of(grown[k]) == k);
        }
    }
    assert(left =~= right);
}

/// Two lists in ascending order that hold the same texts are the same.
pub proof fn ascending_is_unique(a: Seq<Seq<char>>, b: Seq<Seq<char>>)
    requires
        is_ascending(a),
        is_ascending(b),
        a.to_set() == b.to_set(),
    ensures
        a == b,
    decreases a.len(),
{
    if a.len() == 0 {
        if b.len() > 0 {
            assert(b.to_set().contains(b[0]));
            assert(a.to_set().contains(b[0]));
        }
        assert(a =~= b);
    } else {
        assert(a.to_set().contains(a.last()));
        assert(b.contains(a.last()));
        assert(b.to_set().contains(b.last()));
        assert(a.contains(b.last()));
        let i = a.index_of(b.last());
        let j = b.index_of(a.last());
        lemma_before_total(a.last(), b.last());
        assert(a.last() == b.last()) by {
            if i < a.len() - 1 && j < b.len() - 1 {
                assert(is_before(a[i], a[a.len() - 1]));
                assert(is_before(b[j], b[b.len() - 1]));
            }
        }
        lemma_ascending_places(a);
        lemma_ascending_places(b);
        assert(a.drop_last().to_set() =~= b.drop_last().to_set()) by {
            assert forall|key: Seq<char>| a.drop_last().contains(key) == b.drop_last().contains(
                key,
            ) by {
                lemma_head_members(a, b, key);
                lemma_head_members(b, a, key);
            }
        }
        ascending_is_unique(a.drop_last(), b.drop_last());
        assert(a =~= a.drop_last().push(a.last()));
        assert(b =~= b.drop_last().push(b.last()));
    }
}

proof fn lemma_head_members(a: Seq<Seq<char>>, b: Seq<Seq<char>>, key: Seq<char>)
    requires
        is_ascending(a),
        is_ascending(b),
        a.to_set() == b.to_set(),
        a.len() > 0,
        b.len() > 0,
        a.last() == b.last(),
    ensures
        a.drop_last().contains(key) ==> b.drop_last().contains(key),
{
    if a.drop_last().contains(key) {
        let i = a.drop_last().index_of(key);
        assert(a[i] == key);
        assert(a.to_set().contains(key));
        assert(b.contains(key));
        let j = b.index_of(key);
        lemma_before_total(a[i], a.last());
        assert(is_before(a[i], a[a.len() - 1]));
        assert(j != b.len() - 1);
        assert(b.drop_last()[j] == key);
    }
}

proof fn lemma_ascending_exists(keys: Set<Seq<char>>) -> (list: Seq<Seq<char>>)
    requires
        keys.finite(),
    ensures
        is_ascending(list),
        list.to_set() == keys,
    decreases keys.len(),
{
    if keys.len() == 0 {
        let list = Seq::<Seq<char>>::empty();
        assert(list.to_set() =~= keys);
        list
    } else {
        let key = keys.choose();
        let rest = lemma_ascending_exists(keys.remove(key));
        assert(!rest.contains(key)) by {
            if rest.contains(key) {
                assert(rest.to_set().contains(key));
            }
        }
        let i = lemma_place_exists(rest, key);
        let list = rest.insert(i, key);
        assert forall|a: int, b: int| 0 <= a < b < list.len() implies is_before(
            #[trigger] list[a],
            #[trigger] list[b],
        ) by {
            let x = if a < i { a } else { a - 1 };
            let y = if b < i { b } else { b - 1 };
            if a != i && b != i {
                assert(is_before(rest[x], rest[y]));
            }
        }
        assert(list.to_set() =~= keys) by {
            assert forall|k: Seq<char>| list.contains(k) == keys.contains(k) by {
                if keys.contains(k) && k != key {
                    assert(rest.to_set().contains(k));
                    let j = rest.index_of(k);
                    assert(list[if j < i { j } else { j + 1 }] == k);
                }
                if k == key {
                    assert(list[i] == key);
                }
                if list.contains(k) {
                    let j = list.index_of(k);
                    if j != i {
                        assert(rest[if j < i { j } else { j - 1 }] == k);
                        assert(rest.to_set().contains(k));
                    }
                }
            }
        }
        list
    }
}

proof fn lemma_place_exists(list: Seq<Seq<char>>, key: Seq<char>) -> (i: int)
    requires
        is_ascending(list),
        !list.contains(key),
    ensures
        0 <= i <= list.len(),
        forall|j: int| 0 <= j < i ==> is_before(#[trigger] list[j], key),
        forall|j: int| i <= j < list.len() ==> is_before(key, #[trigger] list[j]),
    decreases list.len(),
{
    if list.len() == 0 {
        0
    } else {
        assert(list.contains(list.last()));
        lemma_before_total(list.last(), key);
        if is_before(list.last(), key) {
            assert forall|j: int| 0 <= j < list.len() implies is_before(#[trigger] list[j], key) by {
                if j < list.len() - 1 {
                    lemma_before_transitive(list[j], list.last(), key);
                }
            }
            list.len() as int
        } else {
            let head = list.drop_last();
            assert(!head.contains(key)) by {
                if head.contains(key) {
                    assert(list[head.index_of(key)] == key);
                }
            }
            let i = lemma_place_exists(head, key);
            assert forall|j: int| 0 <= j < i implies is_before(#[trigger] list[j], key) by {
                assert(head[j] == list[j]);
            }
            assert forall|j: int| i <= j < list.len() implies is_before(key, #[trigger] list[j]) by {
                if j < list.len() - 1 {
                    assert(head[j] == list[j]);
                }
            }
            i
        }
    }
}

/// Every finite set of texts has a list in ascending order, and it is the one that is meant.
pub proof fn ascending_lists_the_set(keys: Set<Seq<char>>)
    requires
        keys.finite(),
    ensures
        is_ascending(ascending(keys)),
        ascending(keys).to_set() == keys,
{
    let list = lemma_ascending_exists(keys);
    assert(is_ascending(list) && list.to_set() == keys);
}

/// The views of lists of JSON values.
pub open spec fn column_lists(lists: Seq<Vec<Json>>) -> Seq<Seq<JsonView>> {
    lists.map_values(|list: Vec<Json>| values(list@))
}

/// The tables of a schema, in ascending order of their names.
struct Tables {
    names: Vec<String>,
    columns: Vec<Vec<Json>>,
}

impl Tables {
    spec fn wf(self) -> bool {
        &&& self.names@.len() == self.columns@.len()
        &&& is_ascending(texts(self.names@))
    }

    spec fn model(self) -> TablesView {
        paired(texts(self.names@), column_lists(self.columns@))
    }
}

/// The views of the tables of several schemas.
spec fn table_models(list: Seq<Tables>) -> Seq<TablesView> {
    list.map_values(|tables: Tables| tables.model())
}

/// The schemas of a database, in ascending order of their names.
struct Catalog {
    names: Vec<String>,
    tables: Vec<Tables>,
}

impl Catalog {
    spec fn wf(self) -> bool {
        &&& self.names@.len() == self.tables@.len()
        &&& is_ascending(texts(self.names@))
        &&& forall|i: int| 0 <= i < self.tables@.len() ==> (#[trigger] self.tables@[i]).wf()
    }

    spec fn model(self) -> CatalogView {
        paired(texts(self.names@), table_models(self.tables@))
    }
}

/// Where a name stands in a list in ascending order, or where it would have to be put, and whether
/// it is there.
fn place(names: &Vec<String>, name: &str) -> (out: (usize, bool))
    requires
        is_ascending(texts(names@)),
    ensures
        out.0 <= names@.len(),
        out.1 ==> out.0 < names@.len() && names@[out.0 as int]@ == name@,
        !out.1 ==> is_ascending(texts(names@).insert(out.0 as int, name@)),
{
    let ghost list = texts(names@);
    let mut i: usize = names.len();
    while i > 0 && before(name, names[i - 1].as_str())
        invariant
            i <= names@.len(),
            list == texts(names@),
            is_ascending(list),
            forall|j: int| i <= j < list.len() ==> is_before(name@, #[trigger] list[j]),
        decreases i,
    {
        assert(list[i - 1] == names@[i - 1]@);
        i -= 1;
    }
    if i > 0 && same_text(names[i - 1].as_str(), name) {
        return (i - 1, true);
    }
    proof {
        let grown = list.insert(i as int, name@);
        assert forall|j: int| 0 <= j < i implies is_before(#[trigger] list[j], name@) by {
            assert(list[i - 1] == names@[i - 1]@);
            lemma_before_total(list[i - 1], name@);
            if j < i - 1 {
                lemma_before_transitive(list[j], list[i - 1], name@);
            }
        }
        assert forall|a: int, b: int| 0 <= a < b < grown.len() implies is_before(
            #[trigger] grown[a],
            #[trigger] grown[b],
        ) by {
            let x = if a < i {
                a
            } else {
                a - 1
            };
            let y = if b < i {
                b
            } else {
                b - 1
            };
            if a != i && b != i {
                assert(is_before(list[x], list[y]));
            }
        }
    }
    (i, false)
}

impl Tables {
    fn new() -> (out: Tables)
        ensures
            out.wf(),
            out.model() == Map::<Seq<char>, Seq<JsonView>>::empty(),
    {
        let out = Tables { names: Vec::new(), columns: Vec::new() };
        assert(out.model() =~= Map::<Seq<char>, Seq<JsonView>>::empty());
        out
    }

    /// Finds the place of a table, and makes one for it where there is none.
    fn slot(&mut self, table: &str) -> (i: usize)
        requires
            old(self).wf(),
        ensures
            final(self).wf(),
            i < final(self).names@.len(),
            final(self).names@[i as int]@ == table@,
            values(final(self).columns@[i as int]@) == columns_in(old(self).model(), table@),
            final(self).model() == old(self).model().insert(
                table@,
                columns_in(old(self).model(), table@),
            ),
    {
        let ghost keys = texts(self.names@);
        let ghost vals = column_lists(self.columns@);
        let (i, found) = place(&self.names, table);
        if !found {
            let fresh: Vec<Json> = Vec::new();
            assert(values(fresh@) =~= Seq::<JsonView>::empty());
            self.names.insert(i, table.to_string());
            self.columns.insert(i, fresh);
            assert(texts(self.names@) =~= keys.insert(i as int, table@));
            assert(column_lists(self.columns@) =~= vals.insert(i as int, Seq::<JsonView>::empty()));
            proof {
                lemma_paired_insert(keys, vals, i as int, table@, Seq::<JsonView>::empty());
            }
        } else {
            proof {
                assert(keys[i as int] == table@);
                lemma_paired_update(keys, vals, i as int, vals[i as int]);
                assert(vals.update(i as int, vals[i as int]) =~= vals);
            }
        }
        i
    }
}

impl Tables {
    /// Puts the column that a row is about behind the others of its table.
    fn add_column(&mut self, table: &str, columns: &Vec<String>, row: &Vec<Json>)
        requires
            old(self).wf(),
            columns_in(old(self).model(), table@).len() < METADATA_ROWS,
        ensures
            final(self).wf(),
            ({
                let known = columns_in(old(self).model(), table@);
                final(self).model() == old(self).model().insert(
                    table@,
                    known.push(column_json(texts(columns@), values(row@), known.len())),
                )
            }),
    {
        let ghost known = columns_in(self.model(), table@);
        let ghost was = self.model();
        let i = self.slot(table);
        let ghost keys = texts(self.names@);
        let ghost vals = column_lists(self.columns@);
        assert(vals[i as int] == known);
        assert(keys[i as int] == table@);
        let already: usize = self.columns[i].len();
        assert(already == values(self.columns@[i as int]@).len());
        let column = describe_column(columns, row, already);
        self.columns[i].push(column);
        assert(values(self.columns@[i as int]@) =~= known.push(column@));
        assert(column_lists(self.columns@) =~= vals.update(i as int, known.push(column@)));
        proof {
            lemma_paired_update(keys, vals, i as int, known.push(column@));
            assert(was.insert(table@, known).insert(table@, known.push(column@)) =~= was.insert(
                table@,
                known.push(column@),
            ));
        }
    }
}

impl Catalog {
    fn new() -> (out: Catalog)
        ensures
            out.wf(),
            out.model() == Map::<Seq<char>, TablesView>::empty(),
    {
        let out = Catalog { names: Vec::new(), tables: Vec::new() };
        assert(out.model() =~= Map::<Seq<char>, TablesView>::empty());
        out
    }

    /// Finds the place of a schema, and makes one for it where there is none.
    fn slot(&mut self, schema: &str) -> (i: usize)
        requires
            old(self).wf(),
        ensures
            final(self).wf(),
            i < final(self).names@.len(),
            final(self).names@[i as int]@ == schema@,
            final(self).tables@[i as int].model() == tables_in(old(self).model(), schema@),
            final(self).model() == old(self).model().insert(
                schema@,
                tables_in(old(self).model(), schema@),
            ),
    {
        let ghost keys = texts(self.names@);
        let ghost vals = table_models(self.tables@);
        let ghost before_tables = self.tables@;
        let (i, found) = place(&self.names, schema);
        if !found {
            let fresh = Tables::new();
            self.names.insert(i, schema.to_string());
            self.tables.insert(i, fresh);
            assert(texts(self.names@) =~= keys.insert(i as int, schema@));
            assert(table_models(self.tables@) =~= vals.insert(i as int, fresh.model()));
            proof {
                lemma_paired_insert(keys, vals, i as int, schema@, fresh.model());
                assert forall|j: int| 0 <= j < self.tables@.len() implies (
                #[trigger] self.tables@[j]).wf() by {
                    if j < i {
                        assert(self.tables@[j] == before_tables[j]);
                    } else if j > i {
                        assert(self.tables@[j] == before_tables[j - 1]);
                    }
                }
            }
        } else {
            proof {
                assert(keys[i as int] == schema@);
                lemma_paired_update(keys, vals, i as int, vals[i as int]);
                assert(vals.update(i as int, vals[i as int]) =~= vals);
            }
        }
        i
    }

    /// Puts the column that a row is about behind the others of its table; a row that is about no
    /// column is passed over.
    fn add_row(&mut self, columns: &Vec<String>, row: &Vec<Json>)
        requires
            old(self).wf(),
            forall|schema: Seq<char>, table: Seq<char>|
                (#[trigger] columns_in(tables_in(old(self).model(), schema), table)).len()
                    < METADATA_ROWS,
        ensures
            final(self).wf(),
            final(self).model() == with_row(old(self).model(), texts(columns@), values(row@)),
    {
        let schema = or_default(field(columns, row, "TABLE_SCHEMA"));
        let table = or_default(field(columns, row, "TABLE_NAME"));
        let column = or_default(field(columns, row, "COLUMN_NAME"));
        if table.as_str().is_empty() || column.as_str().is_empty() {
            return ;
        }
        let ghost was = self.model();
        let ghost known = tables_in(was, schema@);
        let i = self.slot(schema.as_str());
        let ghost keys = texts(self.names@);
        let ghost vals = table_models(self.tables@);
        let ghost list = self.tables@;
        assert(keys[i as int] == schema@);
        self.tables[i].add_column(table.as_str(), columns, row);
        let ghost grown = self.tables@[i as int].model();
        assert(table_models(self.tables@) =~= vals.update(i as int, grown));
        proof {
            lemma_paired_update(keys, vals, i as int, grown);
            assert(was.insert(schema@, known).insert(schema@, grown) =~= was.insert(
                schema@,
                grown,
            ));
            assert forall|j: int| 0 <= j < self.tables@.len() implies (
            #[trigger] self.tables@[j]).wf() by {
                if j != i {
                    assert(self.tables@[j] == list[j]);
                }
            }
        }
    }
}

proof fn lemma_ascending_of_paired<V>(keys: Seq<Seq<char>>, vals: Seq<V>)
    requires
        is_ascending(keys),
        keys.len() == vals.len(),
    ensures
        ascending(paired(keys, vals).dom()) == keys,
        forall|i: int| 0 <= i < keys.len() ==> paired(keys, vals)[#[trigger] keys[i]] == vals[i],
{
    assert(paired(keys, vals).dom() =~= keys.to_set());
    assert(is_ascending(keys) && keys.to_set() == paired(keys, vals).dom());
    ascending_is_unique(ascending(paired(keys, vals).dom()), keys);
    lemma_ascending_places(keys);
}

fn empty_array() -> (out: Json)
    ensures
        out@ == JsonView::Array(Seq::empty()),
{
    broadcast use lemma_array_view;

    let items: Vec<Json> = Vec::new();
    assert(values(items@) =~= Seq::<JsonView>::empty());
    Json::Array(items)
}

fn describe_table(schema: &str, name: &str, columns: Vec<Json>) -> (out: Json)
    ensures
        out@ == table_json(schema@, name@, values(columns@)),
{
    broadcast use {lemma_array_view, lemma_object_view};

    let mut fields: Vec<(String, Json)> = Vec::new();
    fields.push(member("schema", text(schema)));
    fields.push(member("name", text(name)));
    fields.push(member("kind", text("table")));
    fields.push(member("columns", Json::Array(columns)));
    fields.push(member("indexes", empty_array()));
    fields.push(member("primaryKey", empty_array()));
    fields.push(member("foreignKeys", empty_array()));
    assert(members(fields@) =~= table_json(schema@, name@, values(columns@))->Object_0);
    Json::Object(fields)
}

impl Tables {
    fn describe(self, schema: &str) -> (out: Json)
        requires
            self.wf(),
        ensures
            out@ == schema_json(schema@, self.model()),
    {
        broadcast use {lemma_array_view, lemma_object_view};

        let ghost model = self.model();
        let ghost keys = texts(self.names@);
        let ghost vals = column_lists(self.columns@);
        let ghost wanted = keys.map_values(
            |table: Seq<char>| table_json(schema@, table, model[table]),
        );
        proof {
            lemma_ascending_of_paired(keys, vals);
        }
        let names = self.names;
        let mut objects: Vec<Json> = Vec::new();
        let mut i: usize = 0;
        for columns in it: self.columns
            invariant
                it.seq() == self.columns@,
                i == it.index(),
                names@.len() == self.columns@.len(),
                keys == texts(names@),
                vals == column_lists(self.columns@),
                forall|j: int| 0 <= j < keys.len() ==> model[#[trigger] keys[j]] == vals[j],
                wanted == keys.map_values(
                    |table: Seq<char>| table_json(schema@, table, model[table]),
                ),
                values(objects@) == wanted.take(i as int),
        {
            let ghost was = values(objects@);
            assert(keys[i as int] == names@[i as int]@);
            assert(vals[i as int] == values(columns@));
            let object = describe_table(schema, names[i].as_str(), columns);
            objects.push(object);
            assert(values(objects@) =~= was.push(object@));
            assert(values(objects@) =~= wanted.take(i + 1));
            assert(i < names.len());
            i += 1;
        }
        assert(values(objects@) =~= wanted);
        let mut fields: Vec<(String, Json)> = Vec::new();
        fields.push(member("name", text(schema)));
        fields.push(member("objects", Json::Array(objects)));
        assert(members(fields@) =~= schema_json(schema@, model)->Object_0);
        Json::Object(fields)
    }
}

impl Catalog {
    fn describe(self) -> (out: Json)
        requires
            self.wf(),
        ensures
            out@ == catalog_json(self.model()),
    {
        broadcast use {lemma_array_view, lemma_object_view};

        let ghost model = self.model();
        let ghost keys = texts(self.names@);
        let ghost vals = table_models(self.tables@);
        let ghost wanted = keys.map_values(
            |schema: Seq<char>| schema_json(schema, model[schema]),
        );
        proof {
            lemma_ascending_of_paired(keys, vals);
        }
        let names = self.names;
        let mut schemas: Vec<Json> = Vec::new();
        let mut i: usize = 0;
        for tables in it: self.tables
            invariant
                it.seq() == self.tables@,
                i == it.index(),
                names@.len() == self.tables@.len(),
                keys == texts(names@),
                vals == table_models(self.tables@),
                forall|j: int| 0 <= j < self.tables@.len() ==> (#[trigger] self.tables@[j]).wf(),
                forall|j: int| 0 <= j < keys.len() ==> model[#[trigger] keys[j]] == vals[j],
                wanted == keys.map_values(|schema: Seq<char>| schema_json(schema, model[schema])),
                values(schemas@) == wanted.take(i as int),
        {
            let ghost was = values(schemas@);
            assert(keys[i as int] == names@[i as int]@);
            assert(self.tables@[i as int] == tables);
            assert(vals[i as int] == tables.model());
            let schema = tables.describe(names[i].as_str());
            schemas.push(schema);
            assert(values(schemas@) =~= was.push(schema@));
            assert(values(schemas@) =~= wanted.take(i + 1));
            assert(i < names.len());
            i += 1;
        }
        assert(values(schemas@) =~= wanted);
        let mut fields: Vec<(String, Json)> = Vec::new();
        fields.push(member("schemas", Json::Array(schemas)));
        assert(members(fields@) =~= catalog_json(model)->Object_0);
        Json::Object(fields)
    }
}

/// A table has no more columns than there are rows.
proof fn lemma_tables_are_small(
    columns: Seq<Seq<char>>,
    rows: Seq<Seq<JsonView>>,
    schema: Seq<char>,
    table: Seq<char>,
)
    ensures
        columns_in(tables_in(catalog_of(columns, rows), schema), table).len() <= rows.len(),
    decreases rows.len(),
{
    if rows.len() > 0 {
        lemma_tables_are_small(columns, rows.drop_last(), schema, table);
    }
}

/// Describes the database that the result set of the metadata query stands for.
pub fn describe_catalog(value: Json) -> (out: Json)
    ensures
        out@ == metadata_of(value@),
{
    let ghost output = query_output(value@, METADATA_ROWS as nat);
    let (columns, rows, truncated) = spanner_result_to_output(value, METADATA_ROWS);
    let mut catalog = Catalog::new();
    let mut i: usize = 0;
    assert(row_views(rows@) == output.rows && texts(columns@) == output.columns);
    while i < rows.len()
        invariant
            i <= rows@.len(),
            rows@.len() <= METADATA_ROWS,
            catalog.wf(),
            catalog.model() == catalog_of(texts(columns@), row_views(rows@).take(i as int)),
        decreases rows@.len() - i,
    {
        let ghost done = row_views(rows@).take(i as int);
        assert(row_views(rows@).take(i + 1).drop_last() =~= done);
        assert forall|schema: Seq<char>, table: Seq<char>|
            (#[trigger] columns_in(tables_in(catalog.model(), schema), table)).len()
                < METADATA_ROWS by {
            lemma_tables_are_small(texts(columns@), done, schema, table);
        }
        catalog.add_row(&columns, &rows[i]);
        i += 1;
    }
    assert(row_views(rows@).take(i as int) =~= row_views(rows@));
    catalog.describe()
}

/// The description of a database, or what went wrong.
pub open spec fn metadata_outcome(value: Result<JsonView, Seq<char>>) -> Result<
    JsonView,
    Seq<char>,
> {
    match value {
        Ok(value) => Ok(metadata_of(value)),
        Err(message) => Err(message),
    }
}

/// Asks for the columns of every table of a database.
pub fn metadata_request(connection: &SpannerConnection) -> (out: HttpRequest)
    ensures
        out@ == execute_sql_request_of(connection@, metadata_sql()),
{
    execute_sql_request(
        connection,
        "SELECT TABLE_SCHEMA, TABLE_NAME, COLUMN_NAME, SPANNER_TYPE, ORDINAL_POSITION, IS_NULLABLE FROM INFORMATION_SCHEMA.COLUMNS WHERE TABLE_SCHEMA NOT IN ('INFORMATION_SCHEMA') ORDER BY TABLE_SCHEMA, TABLE_NAME, ORDINAL_POSITION",
    )
}

/// Makes the description of a database out of what was read from a reply.
pub fn read_metadata(value: Result<Json, String>) -> (out: Result<Json, String>)
    ensures
        json_result(out) == metadata_outcome(json_result(value)),
{
    match value {
        Ok(value) => Ok(describe_catalog(value)),
        Err(message) => Err(message),
    }
}

/// Makes the description of a database out of the reply to the request for it.
pub fn load_metadata(reply: HttpReply) -> (out: Result<Json, String>)
    ensures
        json_result(out) == metadata_outcome(request_json_outcome(reply@)),
{
    read_metadata(request_json(reply))
}

/// Whether a row of the information schema is about a column of that table.
pub open spec fn is_about_table(
    columns: Seq<Seq<char>>,
    row: Seq<JsonView>,
    schema: Seq<char>,
    table: Seq<char>,
) -> bool {
    &&& is_about_column(columns, row)
    &&& or_empty(field_of(columns, row, "TABLE_SCHEMA"@)) == schema
    &&& or_empty(field_of(columns, row, "TABLE_NAME"@)) == table
}

/// The rows that are about the columns of a table, in order.
pub open spec fn rows_about(
    columns: Seq<Seq<char>>,
    rows: Seq<Seq<JsonView>>,
    schema: Seq<char>,
    table: Seq<char>,
) -> Seq<Seq<JsonView>> {
    rows.filter(|row: Seq<JsonView>| is_about_table(columns, row, schema, table))
}

/// A table is described exactly where a row is about it, and its columns are those that the rows
/// are about, in the order of the rows.
pub proof fn tables_follow_their_rows(
    columns: Seq<Seq<char>>,
    rows: Seq<Seq<JsonView>>,
    schema: Seq<char>,
    table: Seq<char>,
)
    ensures
        ({
            let about = rows_about(columns, rows, schema, table);
            let tables = tables_in(catalog_of(columns, rows), schema);
            &&& tables.contains_key(table) <==> about.len() > 0
            &&& columns_in(tables, table) == Seq::new(
                about.len(),
                |i: int| column_json(columns, about[i], i as nat),
            )
        }),
    decreases rows.len(),
{
    reveal(Seq::filter);
    let about = rows_about(columns, rows, schema, table);
    let tables = tables_in(catalog_of(columns, rows), schema);
    if rows.len() > 0 {
        tables_follow_their_rows(columns, rows.drop_last(), schema, table);
        let row = rows.last();
        let known = rows_about(columns, rows.drop_last(), schema, table);
        if is_about_table(columns, row, schema, table) {
            assert(about == known.push(row));
            assert(columns_in(tables, table) =~= Seq::new(
                about.len(),
                |i: int| column_json(columns, about[i], i as nat),
            ));
        } else {
            assert(about == known);
            assert(columns_in(tables, table) == columns_in(
                tables_in(catalog_of(columns, rows.drop_last()), schema),
                table,
            ));
        }
    } else {
        assert(columns_in(tables, table) =~= Seq::new(
            about.len(),
            |i: int| column_json(columns, about[i], i as nat),
        ));
    }
}

/// The schemas of a description, and the tables of each of them, stand in ascending order of their
/// names, each of them once and none left out.
pub proof fn descriptions_are_ordered(
    columns: Seq<Seq<char>>,
    rows: Seq<Seq<JsonView>>,
    schema: Seq<char>,
)
    ensures
        ({
            let catalog = catalog_of(columns, rows);
            let tables = tables_in(catalog, schema);
            &&& is_ascending(ascending(catalog.dom()))
            &&& ascending(catalog.dom()).to_set() == catalog.dom()
            &&& is_ascending(ascending(tables.dom()))
            &&& ascending(tables.dom()).to_set() == tables.dom()
        }),
{
    lemma_catalog_finite(columns, rows, schema);
    ascending_lists_the_set(catalog_of(columns, rows).dom());
    ascending_lists_the_set(tables_in(catalog_of(columns, rows), schema).dom());
}

proof fn lemma_catalog_finite(
    columns: Seq<Seq<char>>,
    rows: Seq<Seq<JsonView>>,
    schema: Seq<char>,
)
    ensures
        catalog_of(columns, rows).dom().finite(),
        tables_in(catalog_of(columns, rows), schema).dom().finite(),
    decreases rows.len(),
{
    if rows.len() > 0 {
        lemma_catalog_finite(columns, rows.drop_last(), schema);
        let row = rows.last();
        if is_about_column(columns, row) {
            let other = or_empty(field_of(columns, row, "TABLE_SCHEMA"@));
            lemma_catalog_finite(columns, rows.drop_last(), other);
        }
    }
}

} // verus!
