//! What holds of the description of a database.

use vstd::prelude::*;
use crate::json::JsonView;
use crate::laws::http::fields_are_found_by_name;
use crate::laws::text::is_same_letter;
use crate::metadata::METADATA_ROWS;
use crate::metadata::ascending;
use crate::metadata::catalog_of;
use crate::metadata::column_json;
use crate::metadata::column_position;
use crate::metadata::columns_in;
use crate::metadata::descriptions_are_ordered;
use crate::metadata::field_of;
use crate::metadata::is_about_table;
use crate::metadata::metadata_of;
use crate::metadata::metadata_outcome;
use crate::metadata::or_empty;
use crate::metadata::rows_about;
use crate::metadata::schema_json;
use crate::metadata::table_json;
use crate::metadata::tables_follow_their_rows;
use crate::metadata::tables_in;
use crate::session::query_output;
use crate::text::equal_ignoring_case;
use crate::text::is_before;
use crate::text::parsed_i64;
use crate::text::signed_decimal;

verus! {

/// Whether two names are equal, letter by letter, when the case of ASCII letters is ignored.
pub open spec fn is_same_name(a: Seq<char>, b: Seq<char>) -> bool {
    a.len() == b.len() && forall|i: int| 0 <= i < a.len() ==> is_same_letter(a[i], #[trigger] b[i])
}

/// The cell of a row under a name is the one at the place of the first column of that name, whatever
/// the case: a text as it is, a number or a truth value as it is printed, and nothing otherwise.
pub proof fn cells_are_found_by_their_column(
    columns: Seq<Seq<char>>,
    row: Seq<JsonView>,
    name: Seq<char>,
    k: int,
)
    requires
        0 <= k <= columns.len(),
        forall|i: int| 0 <= i < k ==> !is_same_name(#[trigger] columns[i], name),
        k < columns.len() ==> is_same_name(columns[k], name),
    ensures
        k == columns.len() || row.len() <= k ==> field_of(columns, row, name) is None,
        k < columns.len() && k < row.len() ==> {
            let found = field_of(columns, row, name);
            &&& row[k] matches JsonView::Text(s) ==> found == Some(s)
            &&& row[k] matches JsonView::Number(n) ==> found == Some(n)
            &&& row[k] == JsonView::Bool(true) ==> found == Some("true"@)
            &&& row[k] == JsonView::Bool(false) ==> found == Some("false"@)
            &&& row[k] is Null || row[k] is Array || row[k] is Object ==> found is None
        },
{
    lemma_position(columns, name, 0, k);
}

proof fn lemma_position(columns: Seq<Seq<char>>, name: Seq<char>, from: int, k: int)
    requires
        0 <= from <= k <= columns.len(),
        forall|i: int| 0 <= i < k ==> !is_same_name(#[trigger] columns[i], name),
        k < columns.len() ==> is_same_name(columns[k], name),
    ensures
        column_position(columns, name, from) == if k < columns.len() {
            Some(k)
        } else {
            None
        },
    decreases k - from,
{
    if from < columns.len() {
        crate::laws::text::case_alone_is_ignored(columns[from], name);
        assert(equal_ignoring_case(columns[from], name) <==> is_same_name(columns[from], name));
        if from < k {
            assert(!is_same_name(columns[from], name));
            lemma_position(columns, name, from + 1, k);
        }
    }
}

/// Whether a value describes the column that a row of the information schema is about, as the
/// `i`-th of its table.
pub open spec fn is_description(
    column: JsonView,
    columns: Seq<Seq<char>>,
    row: Seq<JsonView>,
    i: int,
) -> bool {
    let nullable = field_of(columns, row, "IS_NULLABLE"@);
    let position = field_of(columns, row, "ORDINAL_POSITION"@);
    let told = position is Some && parsed_i64(position->0) is Some;
    &&& column matches JsonView::Object(fields) && fields.len() == 4
    &&& column.text_field("name"@) == field_of(columns, row, "COLUMN_NAME"@)
    &&& column.text_field("dataType"@) == match field_of(columns, row, "SPANNER_TYPE"@) {
        Some(data_type) => Some(data_type),
        None => Some(Seq::empty()),
    }
    &&& column.get("nullable"@) == Some(
        JsonView::Bool(
            nullable is None || is_same_name(nullable->0, "YES"@) || is_same_name(
                nullable->0,
                "true"@,
            ),
        ),
    )
    &&& column.get("ordinal"@) matches Some(JsonView::Number(ordinal))
    &&& told ==> ordinal == signed_decimal(parsed_i64(position->0)->0 as int)
    &&& !told ==> ordinal == signed_decimal(i + 1)
}

/// A column is described by what its row says: its name and type as they are, whether it may be
/// null, and its place, which is counted where the row does not tell it.
pub proof fn columns_are_described_by_their_rows(
    columns: Seq<Seq<char>>,
    row: Seq<JsonView>,
    i: int,
)
    requires
        0 <= i,
        field_of(columns, row, "COLUMN_NAME"@) is Some,
    ensures
        is_description(column_json(columns, row, i as nat), columns, row, i),
{
    reveal_strlit("name");
    reveal_strlit("dataType");
    reveal_strlit("nullable");
    reveal_strlit("ordinal");
    let column = column_json(columns, row, i as nat);
    let fields = column->Object_0;
    assert("name"@.len() == 4 && "dataType"@.len() == 8 && "nullable"@.len() == 8
        && "ordinal"@.len() == 7);
    assert("dataType"@[0] == 'd' && "nullable"@[0] == 'n');
    fields_are_found_by_name(fields, "name"@, 0);
    fields_are_found_by_name(fields, "dataType"@, 1);
    fields_are_found_by_name(fields, "nullable"@, 2);
    fields_are_found_by_name(fields, "ordinal"@, 3);
    if let Some(s) = field_of(columns, row, "IS_NULLABLE"@) {
        crate::laws::text::case_alone_is_ignored(s, "YES"@);
        crate::laws::text::case_alone_is_ignored(s, "true"@);
        assert(equal_ignoring_case(s, "YES"@) <==> is_same_name(s, "YES"@));
        assert(equal_ignoring_case(s, "true"@) <==> is_same_name(s, "true"@));
    }
}

/// Whether a row of the information schema is about a column of a table: it names the table and a
/// column, and the schema is the one that it names, or the nameless one.
pub open spec fn belongs(
    columns: Seq<Seq<char>>,
    row: Seq<JsonView>,
    schema: Seq<char>,
    table: Seq<char>,
) -> bool {
    let column = field_of(columns, row, "COLUMN_NAME"@);
    let named = field_of(columns, row, "TABLE_SCHEMA"@);
    &&& table.len() > 0
    &&& field_of(columns, row, "TABLE_NAME"@) == Some(table)
    &&& column is Some && column->0.len() > 0
    &&& named == Some(schema) || named is None && schema.len() == 0
}

/// The rows that are about the columns of a table, in order.
pub open spec fn rows_of(
    columns: Seq<Seq<char>>,
    rows: Seq<Seq<JsonView>>,
    schema: Seq<char>,
    table: Seq<char>,
) -> Seq<Seq<JsonView>> {
    rows.filter(|row: Seq<JsonView>| belongs(columns, row, schema, table))
}

/// The schemas of a description.
pub open spec fn schemas_of(description: JsonView) -> Seq<JsonView> {
    match description.get("schemas"@) {
        Some(JsonView::Array(schemas)) => schemas,
        _ => Seq::empty(),
    }
}

/// The tables in the description of a schema.
pub open spec fn objects_of(schema: JsonView) -> Seq<JsonView> {
    match schema.get("objects"@) {
        Some(JsonView::Array(objects)) => objects,
        _ => Seq::empty(),
    }
}

/// Whether a value describes a table of that schema and name, with one column for each of the rows.
pub open spec fn describes_table(
    object: JsonView,
    schema: Seq<char>,
    table: Seq<char>,
    columns: Seq<Seq<char>>,
    rows: Seq<Seq<JsonView>>,
) -> bool {
    &&& object.text_field("schema"@) == Some(schema)
    &&& object.text_field("name"@) == Some(table)
    &&& object.text_field("kind"@) == Some("table"@)
    &&& object.get("indexes"@) == Some(JsonView::Array(Seq::empty()))
    &&& object.get("primaryKey"@) == Some(JsonView::Array(Seq::empty()))
    &&& object.get("foreignKeys"@) == Some(JsonView::Array(Seq::empty()))
    &&& object.get("columns"@) matches Some(JsonView::Array(listed))
    &&& listed.len() == rows.len()
    &&& forall|i: int|
        0 <= i < rows.len() ==> is_description(#[trigger] listed[i], columns, rows[i], i)
}

proof fn lemma_rows_of(
    columns: Seq<Seq<char>>,
    rows: Seq<Seq<JsonView>>,
    schema: Seq<char>,
    table: Seq<char>,
)
    ensures
        rows_about(columns, rows, schema, table) == rows_of(columns, rows, schema, table),
        forall|i: int|
            0 <= i < rows_of(columns, rows, schema, table).len() ==> belongs(
                columns,
                #[trigger] rows_of(columns, rows, schema, table)[i],
                schema,
                table,
            ),
{
    let one = |row: Seq<JsonView>| is_about_table(columns, row, schema, table);
    let other = |row: Seq<JsonView>| belongs(columns, row, schema, table);
    assert forall|row: Seq<JsonView>| #[trigger] one(row) == other(row) by {
        let named = field_of(columns, row, "TABLE_SCHEMA"@);
        if named is None && schema.len() == 0 {
            assert(or_empty(named) =~= schema);
        }
    }
    assert(one =~= other);
    assert forall|i: int| 0 <= i < rows_of(columns, rows, schema, table).len() implies belongs(
        columns,
        #[trigger] rows_of(columns, rows, schema, table)[i],
        schema,
        table,
    ) by {
        rows.lemma_filter_pred(other, i);
    }
}

proof fn lemma_table(
    schema: Seq<char>,
    table: Seq<char>,
    columns: Seq<Seq<char>>,
    rows: Seq<Seq<JsonView>>,
)
    ensures
        ({
            let about = rows_of(columns, rows, schema, table);
            let listed = columns_in(tables_in(catalog_of(columns, rows), schema), table);
            describes_table(table_json(schema, table, listed), schema, table, columns, about)
        }),
{
    reveal_strlit("schema");
    reveal_strlit("name");
    reveal_strlit("kind");
    reveal_strlit("columns");
    reveal_strlit("indexes");
    reveal_strlit("primaryKey");
    reveal_strlit("foreignKeys");
    assert("schema"@.len() == 6 && "name"@.len() == 4 && "kind"@.len() == 4 && "columns"@.len() == 7
        && "indexes"@.len() == 7 && "primaryKey"@.len() == 10 && "foreignKeys"@.len() == 11);
    assert("name"@[0] == 'n' && "kind"@[0] == 'k' && "columns"@[0] == 'c' && "indexes"@[0] == 'i');
    let about = rows_of(columns, rows, schema, table);
    let listed = columns_in(tables_in(catalog_of(columns, rows), schema), table);
    let fields = table_json(schema, table, listed)->Object_0;
    fields_are_found_by_name(fields, "schema"@, 0);
    fields_are_found_by_name(fields, "name"@, 1);
    fields_are_found_by_name(fields, "kind"@, 2);
    fields_are_found_by_name(fields, "columns"@, 3);
    fields_are_found_by_name(fields, "indexes"@, 4);
    fields_are_found_by_name(fields, "primaryKey"@, 5);
    fields_are_found_by_name(fields, "foreignKeys"@, 6);
    lemma_rows_of(columns, rows, schema, table);
    tables_follow_their_rows(columns, rows, schema, table);
    assert forall|i: int| 0 <= i < about.len() implies is_description(
        #[trigger] listed[i],
        columns,
        about[i],
        i,
    ) by {
        assert(belongs(columns, about[i], schema, table));
        columns_are_described_by_their_rows(columns, about[i], i);
    }
}

/// The names of the schemas and of the tables of one of them, as the description lists them.
proof fn lemma_lists(columns: Seq<Seq<char>>, rows: Seq<Seq<JsonView>>, schema: Seq<char>)
    ensures
        ({
            let catalog = catalog_of(columns, rows);
            let names = ascending(catalog.dom());
            let described = schema_json(schema, tables_in(catalog, schema));
            let tables = ascending(tables_in(catalog, schema).dom());
            &&& schemas_of(crate::metadata::catalog_json(catalog)) == names.map_values(
                |name: Seq<char>| schema_json(name, catalog[name]),
            )
            &&& described.text_field("name"@) == Some(schema)
            &&& objects_of(described) == tables.map_values(
                |table: Seq<char>| table_json(schema, table, tables_in(catalog, schema)[table]),
            )
        }),
{
    reveal_strlit("name");
    reveal_strlit("objects");
    assert("name"@.len() == 4 && "objects"@.len() == 7);
    let catalog = catalog_of(columns, rows);
    let outer = crate::metadata::catalog_json(catalog)->Object_0;
    fields_are_found_by_name(outer, "schemas"@, 0);
    let inner = schema_json(schema, tables_in(catalog, schema))->Object_0;
    fields_are_found_by_name(inner, "name"@, 0);
    fields_are_found_by_name(inner, "objects"@, 1);
}

/// Every table that a row is about is described, in the schema that the row names: with one column
/// for each row about it, in the order of the rows and none left out. At most a hundred thousand
/// rows are read.
pub proof fn every_table_is_described_with_all_its_columns(
    value: JsonView,
    schema: Seq<char>,
    table: Seq<char>,
)
    requires
        ({
            let output = query_output(value, 100_000);
            rows_of(output.columns, output.rows, schema, table).len() > 0
        }),
    ensures
        ({
            let output = query_output(value, 100_000);
            let about = rows_of(output.columns, output.rows, schema, table);
            let schemas = schemas_of(metadata_of(value));
            exists|s: int, t: int|
                {
                    &&& 0 <= s < schemas.len()
                    &&& schemas[s].text_field("name"@) == Some(schema)
                    &&& 0 <= t < objects_of(schemas[s]).len()
                    &&& #[trigger] describes_table(
                        objects_of(#[trigger] schemas[s])[t],
                        schema,
                        table,
                        output.columns,
                        about,
                    )
                }
        }),
{
    let output = query_output(value, 100_000);
    let columns = output.columns;
    let rows = output.rows;
    let catalog = catalog_of(columns, rows);
    let tables = tables_in(catalog, schema);
    assert(METADATA_ROWS == 100_000);
    assert(metadata_of(value) == crate::metadata::catalog_json(catalog));
    lemma_rows_of(columns, rows, schema, table);
    tables_follow_their_rows(columns, rows, schema, table);
    descriptions_are_ordered(columns, rows, schema);
    lemma_lists(columns, rows, schema);
    lemma_table(schema, table, columns, rows);
    let names = ascending(catalog.dom());
    let listed = ascending(tables.dom());
    assert(tables.contains_key(table));
    assert(catalog.contains_key(schema));
    assert(names.to_set().contains(schema));
    assert(listed.to_set().contains(table));
    let s = choose|s: int| 0 <= s < names.len() && names[s] == schema;
    let t = choose|t: int| 0 <= t < listed.len() && listed[t] == table;
    let schemas = schemas_of(metadata_of(value));
    assert(schemas[s] == schema_json(schema, catalog[schema]));
    assert(objects_of(schemas[s])[t] == table_json(schema, table, tables[table]));
    assert(columns_in(tables, table) == tables[table]);
    assert(describes_table(
        objects_of(schemas[s])[t],
        schema,
        table,
        columns,
        rows_of(columns, rows, schema, table),
    ));
}

/// Nothing else is described: every table in the description is one that rows are about, and it
/// stands in its schema, of which it bears the name.
pub proof fn nothing_else_is_described(value: JsonView, s: int, t: int)
    requires
        0 <= s < schemas_of(metadata_of(value)).len(),
        0 <= t < objects_of(schemas_of(metadata_of(value))[s]).len(),
    ensures
        ({
            let output = query_output(value, 100_000);
            let described = schemas_of(metadata_of(value))[s];
            let object = objects_of(described)[t];
            exists|schema: Seq<char>, table: Seq<char>|
                {
                    let about = #[trigger] rows_of(output.columns, output.rows, schema, table);
                    &&& about.len() > 0
                    &&& described.text_field("name"@) == Some(schema)
                    &&& describes_table(object, schema, table, output.columns, about)
                }
        }),
{
    let output = query_output(value, 100_000);
    let columns = output.columns;
    let rows = output.rows;
    let catalog = catalog_of(columns, rows);
    assert(METADATA_ROWS == 100_000);
    assert(metadata_of(value) == crate::metadata::catalog_json(catalog));
    let names = ascending(catalog.dom());
    lemma_lists(columns, rows, Seq::empty());
    let schema = names[s];
    descriptions_are_ordered(columns, rows, schema);
    assert(names.to_set().contains(schema));
    assert(catalog.contains_key(schema));
    let tables = tables_in(catalog, schema);
    lemma_lists(columns, rows, schema);
    let listed = ascending(tables.dom());
    let table = listed[t];
    assert(listed.to_set().contains(table));
    assert(tables.contains_key(table));
    lemma_rows_of(columns, rows, schema, table);
    tables_follow_their_rows(columns, rows, schema, table);
    lemma_table(schema, table, columns, rows);
    assert(columns_in(tables, table) == tables[table]);
    let described = schemas_of(metadata_of(value))[s];
    assert(described == schema_json(schema, catalog[schema]));
    assert(objects_of(described)[t] == table_json(schema, table, tables[table]));
    assert(rows_of(columns, rows, schema, table).len() > 0);
}

/// The schemas stand in the order of their names, and so do the tables of each; no name comes
/// twice.
pub proof fn names_stand_in_order(value: JsonView, s: int, a: int, b: int)
    requires
        0 <= s < schemas_of(metadata_of(value)).len(),
    ensures
        ({
            let schemas = schemas_of(metadata_of(value));
            let objects = objects_of(schemas[s]);
            &&& 0 <= a < b < schemas.len() ==> {
                &&& schemas[a].text_field("name"@) is Some
                &&& schemas[b].text_field("name"@) is Some
                &&& is_before(
                    schemas[a].text_field("name"@)->0,
                    schemas[b].text_field("name"@)->0,
                )
            }
            &&& 0 <= a < b < objects.len() ==> {
                &&& objects[a].text_field("name"@) is Some
                &&& objects[b].text_field("name"@) is Some
                &&& is_before(
                    objects[a].text_field("name"@)->0,
                    objects[b].text_field("name"@)->0,
                )
            }
        }),
{
    let output = query_output(value, 100_000);
    let columns = output.columns;
    let rows = output.rows;
    let catalog = catalog_of(columns, rows);
    assert(METADATA_ROWS == 100_000);
    assert(metadata_of(value) == crate::metadata::catalog_json(catalog));
    let names = ascending(catalog.dom());
    let schemas = schemas_of(metadata_of(value));
    lemma_lists(columns, rows, Seq::empty());
    let schema = names[s];
    descriptions_are_ordered(columns, rows, schema);
    assert(names.to_set().contains(schema));
    assert(catalog.contains_key(schema));
    lemma_lists(columns, rows, schema);
    let tables = tables_in(catalog, schema);
    let listed = ascending(tables.dom());
    assert(schemas[s] == schema_json(schema, catalog[schema]));
    let objects = objects_of(schemas[s]);
    if 0 <= a < b < schemas.len() {
        lemma_lists(columns, rows, names[a]);
        lemma_lists(columns, rows, names[b]);
        assert(names.to_set().contains(names[a]) && names.to_set().contains(names[b]));
        assert(catalog.contains_key(names[a]) && catalog.contains_key(names[b]));
        assert(schemas[a] == schema_json(names[a], catalog[names[a]]));
        assert(schemas[b] == schema_json(names[b], catalog[names[b]]));
    }
    if 0 <= a < b < objects.len() {
        lemma_table(schema, listed[a], columns, rows);
        lemma_table(schema, listed[b], columns, rows);
        assert(listed.to_set().contains(listed[a]) && listed.to_set().contains(listed[b]));
        assert(tables.contains_key(listed[a]) && tables.contains_key(listed[b]));
        assert(objects[a] == table_json(schema, listed[a], tables[listed[a]]));
        assert(objects[b] == table_json(schema, listed[b], tables[listed[b]]));
    }
}

/// There is a description exactly where the reply could be read, and it is that of the reply.
pub proof fn descriptions_come_from_the_reply(value: Result<JsonView, Seq<char>>)
    ensures
        value is Ok <==> metadata_outcome(value) is Ok,
        value matches Ok(document) ==> metadata_outcome(value)->Ok_0 == metadata_of(document),
        value matches Err(message) ==> metadata_outcome(value)->Err_0 == message,
{
}

} // verus!
