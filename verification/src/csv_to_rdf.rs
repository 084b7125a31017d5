use vstd::prelude::*;
use vstd::string::StrSliceExecFns;
use vstd::string::StringExecFns;
use vstd::utf8::encode_utf8;

use crate::text::has_prefix;
use crate::text::has_suffix;
use crate::text::same_text;

verus! {

#[verifier::external_type_specification]
#[verifier::external_body]
pub struct ExCsvError(csv::Error);

/// The namespace of the event IRIs that the conversion mints.
pub const BASE_URL: &'static str = "http://example.data/event/";

/// Why a CSV table could not be turned into Turtle.
#[derive(Debug)]
pub enum CsvToRdfError {
    /// The CSV reader refused the input (malformed UTF-8, rows of unequal width, ...).
    Csv(csv::Error),
    /// No column name starts with `start_time`.
    MissingStartTime,
    /// No column name starts with `end_time`.
    MissingEndTime,
    /// No column is named `id`.
    MissingId,
}

/// The positions of the three columns that every event table must have.
#[derive(Clone, Copy, Debug, PartialEq, Eq)]
pub struct EventColumns {
    pub start_time: usize,
    pub end_time: usize,
    pub id: usize,
}

/// What a column is used for, judged by its name alone.
#[derive(Clone, Copy, Debug, PartialEq, Eq)]
pub enum ColumnRole {
    StartTime,
    EndTime,
    Id,
    Property,
}

/// A name that starts with `start_time` marks the start column, otherwise one
/// that starts with `end_time` marks the end column, otherwise the name `id`
/// marks the identifier column; every other column is an event property.
pub open spec fn column_role(name: Seq<char>) -> ColumnRole {
    if "start_time"@.is_prefix_of(name) {
        ColumnRole::StartTime
    } else if "end_time"@.is_prefix_of(name) {
        ColumnRole::EndTime
    } else if name == "id"@ {
        ColumnRole::Id
    } else {
        ColumnRole::Property
    }
}

/// The last position whose column name has the given role.
pub open spec fn last_with_role(headers: Seq<Seq<char>>, role: ColumnRole) -> Option<int>
    decreases headers.len(),
{
    if headers.len() == 0 {
        None
    } else if column_role(headers.last()) == role {
        Some(headers.len() - 1)
    } else {
        last_with_role(headers.drop_last(), role)
    }
}

/// The event columns of a header row; a later column of a role wins over an
/// earlier one, and the missing roles are reported in the order start, end, id.
pub open spec fn event_columns(headers: Seq<Seq<char>>) -> Result<EventColumns, CsvToRdfError> {
    match last_with_role(headers, ColumnRole::StartTime) {
        None => Err(CsvToRdfError::MissingStartTime),
        Some(s) => match last_with_role(headers, ColumnRole::EndTime) {
            None => Err(CsvToRdfError::MissingEndTime),
            Some(e) => match last_with_role(headers, ColumnRole::Id) {
                None => Err(CsvToRdfError::MissingId),
                Some(i) => Ok(
                    EventColumns { start_time: s as usize, end_time: e as usize, id: i as usize },
                ),
            },
        },
    }
}

/// The three columns are positions of a row of `width` fields.
pub open spec fn columns_fit(columns: EventColumns, width: int) -> bool {
    &&& columns.start_time < width
    &&& columns.end_time < width
    &&& columns.id < width
}

/// The datatype that a time value gets: a value of ten bytes is a date, any
/// other value a date with a time.
pub open spec fn time_datatype(value: Seq<char>) -> Seq<char> {
    if encode_utf8(value).len() == 10 {
        "xsd:date"@
    } else {
        "xsd:dateTime"@
    }
}

/// Column `i` carries the last statement of a record: it is the last column,
/// or the one before a last identifier column (which writes no statement).
pub open spec fn closes_record(i: int, width: int, id: int) -> bool {
    i == width - 1 || (i == width - 2 && id == width - 1)
}

/// The Turtle text that column `i` of `row` contributes to its event; the
/// last statement of the record ends with `. `, every other with `; `.
pub open spec fn cell_text(
    headers: Seq<Seq<char>>,
    row: Seq<Seq<char>>,
    columns: EventColumns,
    i: int,
) -> Seq<char> {
    if i == columns.id {
        Seq::empty()
    } else {
        let statement = if i == columns.start_time {
            "baseUrl:startDate \""@ + row[i] + "\"^^"@ + time_datatype(row[i])
        } else if i == columns.end_time {
            "baseUrl:endDate \""@ + row[i] + "\"^^"@ + time_datatype(row[i])
        } else {
            "baseUrl:"@ + headers[i] + " \""@ + row[i] + "\""@
        };
        statement + if closes_record(i, headers.len() as int, columns.id as int) {
            ". "@
        } else {
            "; "@
        }
    }
}

/// The text of the first `n` columns of `row`.
pub open spec fn cells_text(
    headers: Seq<Seq<char>>,
    row: Seq<Seq<char>>,
    columns: EventColumns,
    n: int,
) -> Seq<char>
    decreases n,
{
    if n <= 0 {
        Seq::empty()
    } else {
        cells_text(headers, row, columns, n - 1) + cell_text(headers, row, columns, n - 1)
    }
}

/// The subject that opens the block of an event: `<BASE_URL event_id / id>`.
pub open spec fn subject_text(event_id: Seq<char>, id_value: Seq<char>) -> Seq<char> {
    "<"@ + BASE_URL@ + event_id + "/"@ + id_value + "> "@
}

/// The Turtle block of one CSV row.
pub open spec fn row_text(
    headers: Seq<Seq<char>>,
    row: Seq<Seq<char>>,
    columns: EventColumns,
    event_id: Seq<char>,
) -> Seq<char> {
    subject_text(event_id, row[columns.id as int]) + cells_text(
        headers,
        row,
        columns,
        headers.len() as int,
    )
}

/// The blocks of the rows, in order, the `k`th row under `event_ids[k]`.
pub open spec fn rows_text(
    headers: Seq<Seq<char>>,
    rows: Seq<Seq<Seq<char>>>,
    columns: EventColumns,
    event_ids: Seq<Seq<char>>,
) -> Seq<char>
    decreases rows.len(),
{
    if rows.len() == 0 {
        Seq::empty()
    } else {
        rows_text(headers, rows.drop_last(), columns, event_ids) + row_text(
            headers,
            rows.last(),
            columns,
            event_ids[rows.len() - 1],
        )
    }
}

/// The prefix declarations that open every document.
pub open spec fn prefix_text() -> Seq<char> {
    "@prefix xsd: <http://www.w3.org/2001/XMLSchema#> . @prefix baseUrl: <"@ + BASE_URL@
        + "> . "@
}

/// The whole Turtle document of a table.
pub open spec fn document_text(
    headers: Seq<Seq<char>>,
    rows: Seq<Seq<Seq<char>>>,
    columns: EventColumns,
    event_ids: Seq<Seq<char>>,
) -> Seq<char> {
    prefix_text() + rows_text(headers, rows, columns, event_ids)
}

/// The datatype of a time value: `xsd:date` for a value of exactly ten bytes
/// (such as `2022-08-10`), `xsd:dateTime` otherwise.
pub fn parse_time_expr(expr: &str) -> (datatype: &'static str)
    ensures
        datatype@ == time_datatype(expr@),
        encode_utf8(expr@).len() == 10 ==> datatype@ == "xsd:date"@,
        encode_utf8(expr@).len() != 10 ==> datatype@ == "xsd:dateTime"@,
{
    if expr.as_bytes().len() == 10 {
        "xsd:date"
    } else {
        "xsd:dateTime"
    }
}


/// `Some(i)` as a mathematical integer.
pub open spec fn as_position(p: Option<usize>) -> Option<int> {
    match p {
        Some(i) => Some(i as int),
        None => None,
    }
}

/// Extending the scanned prefix of the header row by one column.
proof fn lemma_last_with_role_extend(headers: Seq<Seq<char>>, i: int, role: ColumnRole)
    requires
        0 <= i < headers.len(),
    ensures
        last_with_role(headers.take(i + 1), role) == if column_role(headers[i]) == role {
            Some(i)
        } else {
            last_with_role(headers.take(i), role)
        },
{
    assert(headers.take(i + 1).drop_last() =~= headers.take(i));
}

/// The role of one column name, decided as the conversion decides it.
fn role_of(name: &str) -> (role: ColumnRole)
    ensures
        role == column_role(name@),
{
    if has_prefix(name, "start_time") {
        ColumnRole::StartTime
    } else if has_prefix(name, "end_time") {
        ColumnRole::EndTime
    } else if same_text(name, "id") {
        ColumnRole::Id
    } else {
        ColumnRole::Property
    }
}

/// Finds the start, end and identifier columns of a header row.
pub fn locate_columns(headers: &Vec<String>) -> (res: Result<EventColumns, CsvToRdfError>)
    ensures
        res == event_columns(headers.deep_view()),
        res matches Ok(c) ==> columns_fit(c, headers@.len() as int),
        res matches Ok(c) ==> {
            &&& headers@[c.id as int]@ == "id"@
            &&& "start_time"@.is_prefix_of(headers@[c.start_time as int]@)
            &&& "end_time"@.is_prefix_of(headers@[c.end_time as int]@)
            &&& forall|i: int| c.id < i < headers@.len() ==> headers@[i]@ != "id"@
        },
{
    let ghost names = headers.deep_view();
    let mut start: Option<usize> = None;
    let mut end: Option<usize> = None;
    let mut id: Option<usize> = None;
    let n = headers.len();
    assert(names.take(0) =~= Seq::<Seq<char>>::empty());
    for i in 0..n
        invariant
            n == headers@.len(),
            names == headers.deep_view(),
            as_position(start) == last_with_role(names.take(i as int), ColumnRole::StartTime),
            as_position(end) == last_with_role(names.take(i as int), ColumnRole::EndTime),
            as_position(id) == last_with_role(names.take(i as int), ColumnRole::Id),
            start matches Some(k) ==> k < i,
            end matches Some(k) ==> k < i,
            id matches Some(k) ==> k < i,
    {
        proof {
            lemma_last_with_role_extend(names, i as int, ColumnRole::StartTime);
            lemma_last_with_role_extend(names, i as int, ColumnRole::EndTime);
            lemma_last_with_role_extend(names, i as int, ColumnRole::Id);
        }
        match role_of(headers[i].as_str()) {
            ColumnRole::StartTime => {
                start = Some(i);
            },
            ColumnRole::EndTime => {
                end = Some(i);
            },
            ColumnRole::Id => {
                id = Some(i);
            },
            ColumnRole::Property => {},
        }
    }
    assert(names.take(n as int) =~= names);
    let res = match start {
        None => Err(CsvToRdfError::MissingStartTime),
        Some(s) => match end {
            None => Err(CsvToRdfError::MissingEndTime),
            Some(e) => match id {
                None => Err(CsvToRdfError::MissingId),
                Some(k) => Ok(EventColumns { start_time: s, end_time: e, id: k }),
            },
        },
    };
    proof {
        event_columns_name_the_columns(names);
        if let Ok(c) = res {
            assert(names[c.id as int] == headers@[c.id as int]@);
            assert(names[c.start_time as int] == headers@[c.start_time as int]@);
            assert(names[c.end_time as int] == headers@[c.end_time as int]@);
            assert forall|i: int| c.id < i < headers@.len() implies headers@[i]@ != "id"@ by {
                assert(names[i] == headers@[i]@);
            }
        }
    }
    res
}


/// Appends the text of column `i` of `row`.
fn append_cell(
    block: &mut String,
    headers: &Vec<String>,
    row: &Vec<String>,
    columns: &EventColumns,
    i: usize,
)
    requires
        row@.len() == headers@.len(),
        i < headers@.len(),
        columns_fit(*columns, headers@.len() as int),
    ensures
        final(block)@ == old(block)@ + cell_text(headers.deep_view(), row.deep_view(), *columns, i as int),
{
    let ghost h = headers.deep_view();
    let ghost r = row.deep_view();
    let ghost before = block@;
    if i != columns.id {
        let value = row[i].as_str();
        if i == columns.start_time {
            block.append("baseUrl:startDate \"");
            block.append(value);
            block.append("\"^^");
            block.append(parse_time_expr(value));
        } else if i == columns.end_time {
            block.append("baseUrl:endDate \"");
            block.append(value);
            block.append("\"^^");
            block.append(parse_time_expr(value));
        } else {
            block.append("baseUrl:");
            block.append(headers[i].as_str());
            block.append(" \"");
            block.append(value);
            block.append("\"");
        }
        let n = headers.len();
        if i + 1 == n || (n - i == 2 && columns.id + 1 == n) {
            block.append(". ");
        } else {
            block.append("; ");
        }
    }
    assert(block@ =~= before + cell_text(h, r, *columns, i as int));
}

/// The Turtle block of one CSV row: the event subject, then one statement per
/// column other than the identifier column.
pub fn turtle_row(
    headers: &Vec<String>,
    row: &Vec<String>,
    columns: &EventColumns,
    event_id: &str,
) -> (block: String)
    requires
        row@.len() == headers@.len(),
        columns_fit(*columns, headers@.len() as int),
    ensures
        block@ == row_text(headers.deep_view(), row.deep_view(), *columns, event_id@),
{
    let ghost h = headers.deep_view();
    let ghost r = row.deep_view();
    let mut block = String::new();
    block.append("<");
    block.append(BASE_URL);
    block.append(event_id);
    block.append("/");
    block.append(row[columns.id].as_str());
    block.append("> ");
    let ghost subject = block@;
    assert(subject =~= subject_text(event_id@, r[columns.id as int]));
    let n = headers.len();
    for i in 0..n
        invariant
            n == headers@.len(),
            row@.len() == n,
            h == headers.deep_view(),
            r == row.deep_view(),
            columns_fit(*columns, n as int),
            block@ == subject + cells_text(h, r, *columns, i as int),
    {
        append_cell(&mut block, headers, row, columns, i);
    }
    block
}

/// Every row has as many fields as the header row.
pub open spec fn rows_fit(rows: Seq<Vec<String>>, width: int) -> bool {
    forall|k: int| 0 <= k < rows.len() ==> #[trigger] rows[k]@.len() == width
}

/// The Turtle document, as UTF-8 bytes, of a table whose `k`th row is named
/// by `event_ids[k]`.
pub fn render_document(
    headers: &Vec<String>,
    rows: &Vec<Vec<String>>,
    columns: &EventColumns,
    event_ids: &Vec<String>,
) -> (doc: Vec<u8>)
    requires
        rows_fit(rows@, headers@.len() as int),
        event_ids@.len() == rows@.len(),
        columns_fit(*columns, headers@.len() as int),
    ensures
        doc@ == encode_utf8(
            document_text(headers.deep_view(), rows.deep_view(), *columns, event_ids.deep_view()),
        ),
{
    let ghost h = headers.deep_view();
    let ghost rs = rows.deep_view();
    let ghost ids = event_ids.deep_view();
    let mut text = String::new();
    text.append("@prefix xsd: <http://www.w3.org/2001/XMLSchema#> . @prefix baseUrl: <");
    text.append(BASE_URL);
    text.append("> . ");
    assert(text@ =~= prefix_text());
    let m = rows.len();
    for k in 0..m
        invariant
            m == rows@.len(),
            m == event_ids@.len(),
            h == headers.deep_view(),
            rs == rows.deep_view(),
            ids == event_ids.deep_view(),
            rows_fit(rows@, headers@.len() as int),
            columns_fit(*columns, headers@.len() as int),
            text@ == prefix_text() + rows_text(h, rs.take(k as int), *columns, ids),
    {
        let block = turtle_row(headers, &rows[k], columns, event_ids[k].as_str());
        let ghost before = text@;
        text.append(block.as_str());
        assert(rs.take(k + 1).drop_last() =~= rs.take(k as int));
        assert(rs[k as int] == rows@[k as int].deep_view());
        assert(before + block@ =~= prefix_text() + rows_text(h, rs.take(k + 1), *columns, ids));
    }
    assert(rs.take(m as int) =~= rs);
    text.as_str().as_bytes_vec()
}


/// The fields of the header row that `csv::Reader::headers` reads from
/// `data` under the reader's default settings (comma separated, first row is
/// the header row, double quotes, no trimming), or `None` when it fails.
pub uninterp spec fn csv_header_row(data: Seq<u8>) -> Option<Seq<Seq<char>>>;

/// The data rows (every row after the header row) that the records of
/// `csv::Reader::records` give for `data` under the default settings, or
/// `None` when one of them fails.
pub uninterp spec fn csv_data_rows(data: Seq<u8>) -> Option<Seq<Seq<Seq<char>>>>;

/// Reads `data` with `csv::Reader::from_reader`, then its header row with
/// `Reader::headers` and, on the same reader, all data rows with
/// `Reader::records`, each field taken as a `String`.
///
/// Claimed: the header result is an error exactly when `csv_header_row` is
/// `None` and otherwise holds its fields; the rows are `csv_data_rows`; and,
/// as the reader is not flexible by default (its first record, the header
/// row, fixes the expected width and a record of another width is an
/// `UnequalLengths` error), every data row is as wide as the header row.
#[verifier::external_body]
fn read_csv(data: &[u8]) -> (res: Result<(Vec<String>, Result<Vec<Vec<String>>, csv::Error>), csv::Error>)
    ensures
        res is Err <==> csv_header_row(data@) is None,
        res matches Ok((headers, rows)) ==> {
            &&& csv_header_row(data@) == Some(headers.deep_view())
            &&& (rows is Ok <==> csv_data_rows(data@) is Some)
            &&& rows matches Ok(rs) ==> {
                &&& csv_data_rows(data@) == Some(rs.deep_view())
                &&& rows_fit(rs@, headers@.len() as int)
            }
        },
{
    let mut reader = csv::Reader::from_reader(data);
    let headers: Vec<String> = reader.headers()?.iter().map(|f| f.to_string()).collect();
    let mut rows: Vec<Vec<String>> = Vec::new();
    for record in reader.records() {
        match record {
            Ok(r) => rows.push(r.iter().map(|f| f.to_string()).collect()),
            Err(e) => return Ok((headers, Err(e))),
        }
    }
    Ok((headers, Ok(rows)))
}

/// Whether a file name marks a CSV table (it ends with `.csv`), so that its
/// content is converted before it is read as Turtle.
pub fn is_csv_file_name(name: &str) -> (b: bool)
    ensures
        b == ".csv"@.is_suffix_of(name@),
{
    has_suffix(name, ".csv")
}

/// A lower-case hexadecimal digit.
pub open spec fn is_lower_hex_digit(c: char) -> bool {
    ('0' <= c && c <= '9') || ('a' <= c && c <= 'f')
}

/// The hyphenated lower-case text of a version 4 UUID, such as
/// `67e55044-10b1-426f-9247-bb680e5fe0c8`.
pub open spec fn is_hyphenated_uuid(s: Seq<char>) -> bool {
    &&& s.len() == 36
    &&& forall|i: int|
        0 <= i < 36 ==> if i == 8 || i == 13 || i == 18 || i == 23 {
            s[i] == '-'
        } else {
            is_lower_hex_digit(#[trigger] s[i])
        }
    &&& s[14] == '4'
}

/// A fresh random identifier: `uuid::Uuid::new_v4`, written with its
/// `Display` implementation.
///
/// Claimed: the text is a hyphenated lower-case version 4 UUID (the format
/// that `Display` of `Uuid` writes, with the version digit `4` that `new_v4`
/// sets). Which identifier comes out is chance and is not stated.
#[verifier::external_body]
fn random_event_id() -> (id: String)
    ensures
        is_hyphenated_uuid(id@),
{
    uuid::Uuid::new_v4().to_string()
}

/// What converting `data` gives: the reader's failure, the first missing
/// column, or the document of the table under some fresh identifiers.
pub open spec fn converted(data: Seq<u8>, res: Result<Vec<u8>, CsvToRdfError>) -> bool {
    match csv_header_row(data) {
        None => res matches Err(CsvToRdfError::Csv(_)),
        Some(headers) => match event_columns(headers) {
            Err(e) => res == Err::<Vec<u8>, CsvToRdfError>(e),
            Ok(columns) => match csv_data_rows(data) {
                None => res matches Err(CsvToRdfError::Csv(_)),
                Some(rows) => res matches Ok(doc) && exists|ids: Seq<Seq<char>>|
                    {
                        &&& ids.len() == rows.len()
                        &&& forall|k: int| 0 <= k < ids.len() ==> is_hyphenated_uuid(#[trigger] ids[k])
                        &&& doc@ == encode_utf8(document_text(headers, rows, columns, ids))
                    },
            },
        },
    }
}

/// Converts a CSV table of events into a Turtle document.
///
/// The table needs a column whose name starts with `start_time`, one whose
/// name starts with `end_time` and one named `id`. Every row becomes the event
/// `<BASE_URL uuid/id>`, where `uuid` is a fresh random identifier; the
/// identifier column appears only in that IRI, the time columns become
/// `baseUrl:startDate` and `baseUrl:endDate` typed by `parse_time_expr`, and
/// every other column `c` becomes the plain literal `baseUrl:c`.
pub fn csv_to_rdf(data: &[u8]) -> (res: Result<Vec<u8>, CsvToRdfError>)
    ensures
        converted(data@, res),
{
    let (headers, rows) = match read_csv(data) {
        Ok(table) => table,
        Err(e) => return Err(CsvToRdfError::Csv(e)),
    };
    let columns = match locate_columns(&headers) {
        Ok(c) => c,
        Err(e) => return Err(e),
    };
    let rows = match rows {
        Ok(rs) => rs,
        Err(e) => return Err(CsvToRdfError::Csv(e)),
    };
    let mut ids: Vec<String> = Vec::new();
    let m = rows.len();
    for k in 0..m
        invariant
            ids@.len() == k,
            forall|j: int| 0 <= j < k ==> is_hyphenated_uuid(#[trigger] ids@[j]@),
    {
        ids.push(random_event_id());
    }
    let doc = render_document(&headers, &rows, &columns, &ids);
    let ghost witness = ids.deep_view();
    assert(forall|j: int| 0 <= j < witness.len() ==> #[trigger] witness[j] == ids@[j]@);
    assert(forall|j: int| 0 <= j < witness.len() ==> is_hyphenated_uuid(#[trigger] witness[j]));
    assert(witness.len() == rows.deep_view().len());
    Ok(doc)
}


/// The position that `last_with_role` finds holds a column of that role.
proof fn lemma_last_with_role_found(headers: Seq<Seq<char>>, role: ColumnRole)
    ensures
        last_with_role(headers, role) matches Some(i) ==> 0 <= i < headers.len() && column_role(
            headers[i],
        ) == role,
    decreases headers.len(),
{
    if headers.len() > 0 && column_role(headers.last()) != role {
        lemma_last_with_role_found(headers.drop_last(), role);
    }
}

/// The start, end and identifier columns that a header row yields are three
/// different columns of it.
pub proof fn event_columns_are_distinct(headers: Seq<Seq<char>>)
    requires
        headers.len() <= usize::MAX,
    ensures
        event_columns(headers) matches Ok(c) ==> {
            &&& columns_fit(c, headers.len() as int)
            &&& c.start_time != c.end_time
            &&& c.start_time != c.id
            &&& c.end_time != c.id
        },
{
    lemma_last_with_role_found(headers, ColumnRole::StartTime);
    lemma_last_with_role_found(headers, ColumnRole::EndTime);
    lemma_last_with_role_found(headers, ColumnRole::Id);
}

/// The value of the identifier column appears in an event's block only in
/// its subject: two rows that differ in no other column give the same
/// statements.
pub proof fn id_value_only_in_subject(
    headers: Seq<Seq<char>>,
    row1: Seq<Seq<char>>,
    row2: Seq<Seq<char>>,
    columns: EventColumns,
)
    requires
        row1.len() == headers.len(),
        row2.len() == headers.len(),
        forall|i: int| 0 <= i < headers.len() && i != columns.id ==> row1[i] == row2[i],
    ensures
        cells_text(headers, row1, columns, headers.len() as int) == cells_text(
            headers,
            row2,
            columns,
            headers.len() as int,
        ),
{
    lemma_cells_agree(headers, row1, row2, columns, headers.len() as int);
}

proof fn lemma_cells_agree(
    headers: Seq<Seq<char>>,
    row1: Seq<Seq<char>>,
    row2: Seq<Seq<char>>,
    columns: EventColumns,
    n: int,
)
    requires
        n <= headers.len(),
        row1.len() == headers.len(),
        row2.len() == headers.len(),
        forall|i: int| 0 <= i < headers.len() && i != columns.id ==> row1[i] == row2[i],
    ensures
        cells_text(headers, row1, columns, n) == cells_text(headers, row2, columns, n),
    decreases n,
{
    if n > 0 {
        lemma_cells_agree(headers, row1, row2, columns, n - 1);
    }
}

/// `rows_text` reads an identifier only for a row it has.
proof fn lemma_rows_text_ids(
    headers: Seq<Seq<char>>,
    rows: Seq<Seq<Seq<char>>>,
    columns: EventColumns,
    ids1: Seq<Seq<char>>,
    ids2: Seq<Seq<char>>,
)
    requires
        ids1.len() >= rows.len(),
        ids2.len() >= rows.len(),
        forall|k: int| 0 <= k < rows.len() ==> ids1[k] == ids2[k],
    ensures
        rows_text(headers, rows, columns, ids1) == rows_text(headers, rows, columns, ids2),
    decreases rows.len(),
{
    if rows.len() > 0 {
        lemma_rows_text_ids(headers, rows.drop_last(), columns, ids1, ids2);
    }
}

/// The conversion goes row by row: a table cut in two converts to the
/// conversion of its first part followed by that of its second part.
pub proof fn rows_text_split(
    headers: Seq<Seq<char>>,
    rows1: Seq<Seq<Seq<char>>>,
    rows2: Seq<Seq<Seq<char>>>,
    columns: EventColumns,
    ids1: Seq<Seq<char>>,
    ids2: Seq<Seq<char>>,
)
    requires
        ids1.len() == rows1.len(),
        ids2.len() == rows2.len(),
    ensures
        rows_text(headers, rows1 + rows2, columns, ids1 + ids2) == rows_text(
            headers,
            rows1,
            columns,
            ids1,
        ) + rows_text(headers, rows2, columns, ids2),
    decreases rows2.len(),
{
    if rows2.len() == 0 {
        assert(rows1 + rows2 =~= rows1);
        lemma_rows_text_ids(headers, rows1, columns, ids1 + ids2, ids1);
        assert(rows_text(headers, rows2, columns, ids2) =~= Seq::empty());
    } else {
        rows_text_split(headers, rows1, rows2.drop_last(), columns, ids1, ids2.drop_last());
        assert((rows1 + rows2).drop_last() =~= rows1 + rows2.drop_last());
        lemma_rows_text_ids(
            headers,
            rows1 + rows2.drop_last(),
            columns,
            ids1 + ids2,
            ids1 + ids2.drop_last(),
        );
        lemma_rows_text_ids(headers, rows2.drop_last(), columns, ids2, ids2.drop_last());
        assert((ids1 + ids2)[(rows1 + rows2).len() - 1] == ids2[rows2.len() - 1]);
        assert((rows1 + rows2).last() == rows2.last());
    }
}


/// Two failures that say the same: both the reader's, or the same missing
/// column.
pub open spec fn same_failure(e1: CsvToRdfError, e2: CsvToRdfError) -> bool {
    (e1 is Csv && e2 is Csv) || e1 == e2
}

/// Two conversions of the same data agree: both fail in the same way, or
/// both give the document of the same table, columns and rows, told apart
/// only by the identifiers drawn for the rows.
pub proof fn conversions_agree_up_to_ids(
    data: Seq<u8>,
    r1: Result<Vec<u8>, CsvToRdfError>,
    r2: Result<Vec<u8>, CsvToRdfError>,
)
    requires
        converted(data, r1),
        converted(data, r2),
    ensures
        r1 is Ok <==> r2 is Ok,
        r1 matches Err(e1) ==> (r2 matches Err(e2) && same_failure(e1, e2)),
        r1 matches Ok(d1) ==> (r2 matches Ok(d2) && exists|
            headers: Seq<Seq<char>>,
            rows: Seq<Seq<Seq<char>>>,
            columns: EventColumns,
            ids1: Seq<Seq<char>>,
            ids2: Seq<Seq<char>>,
        |
            {
                &&& ids1.len() == rows.len()
                &&& ids2.len() == rows.len()
                &&& d1@ == encode_utf8(document_text(headers, rows, columns, ids1))
                &&& d2@ == encode_utf8(document_text(headers, rows, columns, ids2))
            }),
{
}

/// Every record of a table whose event columns are distinct ends with `. `,
/// wherever its identifier column stands.
pub proof fn every_record_is_closed(
    headers: Seq<Seq<char>>,
    row: Seq<Seq<char>>,
    columns: EventColumns,
    event_id: Seq<char>,
)
    requires
        row.len() == headers.len(),
        columns_fit(columns, headers.len() as int),
        columns.start_time != columns.id,
        columns.end_time != columns.id,
    ensures
        ". "@.is_suffix_of(row_text(headers, row, columns, event_id)),
{
    reveal_strlit(". ");
    let n = headers.len() as int;
    let last = if columns.id == n - 1 {
        n - 2
    } else {
        n - 1
    };
    assert(0 <= last < n && last != columns.id);
    assert(closes_record(last, n, columns.id as int));
    let statement = if last == columns.start_time {
        "baseUrl:startDate \""@ + row[last] + "\"^^"@ + time_datatype(row[last])
    } else if last == columns.end_time {
        "baseUrl:endDate \""@ + row[last] + "\"^^"@ + time_datatype(row[last])
    } else {
        "baseUrl:"@ + headers[last] + " \""@ + row[last] + "\""@
    };
    let cell = cell_text(headers, row, columns, last);
    assert(cell == statement + ". "@);
    let cells = cells_text(headers, row, columns, n);
    let front = subject_text(event_id, row[columns.id as int]) + cells_text(
        headers,
        row,
        columns,
        last,
    ) + statement;
    if columns.id == n - 1 {
        assert(cell_text(headers, row, columns, n - 1) =~= Seq::<char>::empty());
        assert(cells_text(headers, row, columns, n - 1) == cells_text(headers, row, columns, last)
            + cell);
        assert(cells =~= cells_text(headers, row, columns, last) + cell);
    }
    assert(row_text(headers, row, columns, event_id) =~= front + ". "@);
    let text = front + ". "@;
    assert(text.subrange(text.len() - 2, text.len() as int) =~= ". "@);
}


/// The type a time value gets depends on its length in bytes alone: exactly
/// ten bytes (a date such as `2022-08-10`) give `xsd:date`, every other
/// length `xsd:dateTime`.
pub proof fn time_datatype_by_length(value: Seq<char>)
    ensures
        encode_utf8(value).len() == 10 ==> time_datatype(value) == "xsd:date"@,
        encode_utf8(value).len() != 10 ==> time_datatype(value) == "xsd:dateTime"@,
        time_datatype(value) == "xsd:date"@ <==> encode_utf8(value).len() == 10,
{
    reveal_strlit("xsd:date");
    reveal_strlit("xsd:dateTime");
    assert("xsd:date"@.len() != "xsd:dateTime"@.len());
}

/// Only the name `id` itself marks the identifier column; only names that
/// start with `start_time` or `end_time` mark the time columns.
pub proof fn column_roles_by_name(name: Seq<char>)
    ensures
        column_role(name) == ColumnRole::Id ==> name == "id"@,
        column_role(name) == ColumnRole::StartTime ==> "start_time"@.is_prefix_of(name),
        column_role(name) == ColumnRole::EndTime ==> "end_time"@.is_prefix_of(name),
        name == "id"@ ==> column_role(name) == ColumnRole::Id,
{
    reveal_strlit("id");
    reveal_strlit("start_time");
    reveal_strlit("end_time");
}

/// The located columns are named as their roles ask: the identifier column
/// is named exactly `id` and no later column is, the start column's name
/// starts with `start_time`, the end column's with `end_time`.
pub proof fn event_columns_name_the_columns(headers: Seq<Seq<char>>)
    requires
        headers.len() <= usize::MAX,
    ensures
        event_columns(headers) matches Ok(c) ==> {
            &&& headers[c.id as int] == "id"@
            &&& "start_time"@.is_prefix_of(headers[c.start_time as int])
            &&& "end_time"@.is_prefix_of(headers[c.end_time as int])
            &&& forall|i: int| c.id < i < headers.len() ==> headers[i] != "id"@
        },
{
    lemma_last_with_role_found(headers, ColumnRole::StartTime);
    lemma_last_with_role_found(headers, ColumnRole::EndTime);
    lemma_last_with_role_found(headers, ColumnRole::Id);
    lemma_last_with_role_is_last(headers, ColumnRole::Id);
    if let Ok(c) = event_columns(headers) {
        column_roles_by_name(headers[c.id as int]);
        column_roles_by_name(headers[c.start_time as int]);
        column_roles_by_name(headers[c.end_time as int]);
        assert forall|i: int| c.id < i < headers.len() implies headers[i] != "id"@ by {
            column_roles_by_name(headers[i]);
            assert(column_role(headers[i]) != ColumnRole::Id);
        }
    }
}

/// No column after the one `last_with_role` finds has that role.
proof fn lemma_last_with_role_is_last(headers: Seq<Seq<char>>, role: ColumnRole)
    ensures
        last_with_role(headers, role) matches Some(p) ==> forall|i: int|
            p < i < headers.len() ==> column_role(#[trigger] headers[i]) != role,
        last_with_role(headers, role) is None ==> forall|i: int|
            0 <= i < headers.len() ==> column_role(#[trigger] headers[i]) != role,
    decreases headers.len(),
{
    lemma_last_with_role_found(headers, role);
    if headers.len() > 0 && column_role(headers.last()) != role {
        let front = headers.drop_last();
        lemma_last_with_role_is_last(front, role);
        assert(last_with_role(headers, role) == last_with_role(front, role));
        let lower: int = match last_with_role(headers, role) {
            Some(p) => p,
            None => -1,
        };
        assert forall|i: int| lower < i < headers.len() && 0 <= i implies column_role(
            #[trigger] headers[i],
        ) != role by {
            if i < headers.len() - 1 {
                assert(front[i] == headers[i]);
                assert(column_role(front[i]) != role);
            } else {
                assert(headers[i] == headers.last());
            }
        }
    }
}

} // verus!
