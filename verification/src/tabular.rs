//! The parser for delimited text: one object per data row, each cell under
//! its column's header with the value inferred from its text.

use crate::batch::{batches, into_batches, lemma_batches_wf};
use crate::error::{prefixed, ErrorKind, ExtractionError};
use crate::infer::{infer_spec, infer_value_type};
use crate::parsed::ParsedData;
use crate::parser::{FileParser, Outcome};
use crate::source::SourceFile;
use crate::text::{decimal_digits, digit_char, texts_of};
use crate::value::{
    entries_of, insert_entry, lemma_insert_entry_wf, lemma_views_of, put_entry, views_of,
    Value, ValueView,
};
use vstd::prelude::*;
use vstd::string::StringExecFns;

verus! {

/// Why delimited text could not be parsed.
#[derive(Debug)]
pub enum CsvError {
    /// Opening or reading the file failed; the message is the system's.
    Io(String),
    /// The text is malformed; the message is the reader's.
    Csv(String),
    /// No file name can be derived from the path.
    InvalidPath,
    /// The size of the file could not be told; the message is the system's.
    Metadata(String),
}

/// The model of a [`CsvError`].
pub ghost enum CsvErrorView {
    Io(Seq<char>),
    Csv(Seq<char>),
    InvalidPath,
    Metadata(Seq<char>),
}

impl CsvErrorView {
    /// The text of the error.
    pub open spec fn text(self) -> Seq<char> {
        match self {
            CsvErrorView::Io(m) => "IO error: "@ + m,
            CsvErrorView::Csv(m) => "CSV parsing error: "@ + m,
            CsvErrorView::InvalidPath => "Invalid file path"@,
            CsvErrorView::Metadata(m) => "File metadata error: "@ + m,
        }
    }

    /// The kind of the error.
    pub open spec fn kind_of(self) -> ErrorKind {
        match self {
            CsvErrorView::Io(_) => ErrorKind::Io,
            CsvErrorView::Csv(_) => ErrorKind::StructuralParse,
            CsvErrorView::InvalidPath => ErrorKind::InvalidPath,
            CsvErrorView::Metadata(_) => ErrorKind::Io,
        }
    }
}

impl View for CsvError {
    type V = CsvErrorView;

    open spec fn view(&self) -> CsvErrorView {
        match self {
            CsvError::Io(m) => CsvErrorView::Io(m@),
            CsvError::Csv(m) => CsvErrorView::Csv(m@),
            CsvError::InvalidPath => CsvErrorView::InvalidPath,
            CsvError::Metadata(m) => CsvErrorView::Metadata(m@),
        }
    }
}

impl CsvError {
    /// The text of this error.
    pub open spec fn text(self) -> Seq<char> {
        self@.text()
    }

    /// The kind of this error.
    pub open spec fn kind_of(self) -> ErrorKind {
        self@.kind_of()
    }

    /// The text of this error, for the reader.
    pub fn message(&self) -> (m: String)
        ensures
            m@ == self.text(),
    {
        match self {
            CsvError::Io(m) => prefixed("IO error: ", m.as_str()),
            CsvError::Csv(m) => prefixed("CSV parsing error: ", m.as_str()),
            CsvError::InvalidPath => String::from_str("Invalid file path"),
            CsvError::Metadata(m) => prefixed("File metadata error: ", m.as_str()),
        }
    }

    /// The kind of this error.
    pub fn kind(&self) -> (k: ErrorKind)
        ensures
            k == self.kind_of(),
    {
        match self {
            CsvError::Io(_) => ErrorKind::Io,
            CsvError::Csv(_) => ErrorKind::StructuralParse,
            CsvError::InvalidPath => ErrorKind::InvalidPath,
            CsvError::Metadata(_) => ErrorKind::Io,
        }
    }

    /// This error in the form that all parsers share.
    pub fn into_extraction_error(self) -> (e: ExtractionError)
        ensures
            e.kind == self.kind_of(),
            e.message@ == self.text(),
    {
        let kind = self.kind();
        let message = self.message();
        ExtractionError::new(kind, message)
    }
}

/// A cell as it stands in the file, with how its trimmed text reads as a
/// 64-bit float: the IEEE-754 bit pattern, or `None` where it does not read
/// as one.
#[derive(Debug)]
pub struct Field {
    pub text: String,
    pub float_bits: Option<u64>,
}

/// The model of a [`Field`].
pub ghost struct FieldView {
    pub text: Seq<char>,
    pub float_bits: Option<u64>,
}

impl View for Field {
    type V = FieldView;

    open spec fn view(&self) -> FieldView {
        FieldView { text: self.text@, float_bits: self.float_bits }
    }
}

impl Field {
    pub fn new(text: String, float_bits: Option<u64>) -> (f: Field)
        ensures
            f@ == (FieldView { text: text@, float_bits }),
    {
        Field { text, float_bits }
    }
}

/// The configuration of a [`CsvParser`].
pub ghost struct CsvConfig {
    /// The size of a batch; without one the rows are not batched.
    pub batch_size: Option<usize>,
    /// Whether the first record names the columns.
    pub has_headers: bool,
    /// The byte that parts the cells of a record.
    pub delimiter: u8,
}

/// The parser for delimited text.
#[derive(Debug)]
pub struct CsvParser {
    batch_size: Option<usize>,
    has_headers: bool,
    delimiter: u8,
}

impl View for CsvParser {
    type V = CsvConfig;

    closed spec fn view(&self) -> CsvConfig {
        CsvConfig {
            batch_size: self.batch_size,
            has_headers: self.has_headers,
            delimiter: self.delimiter,
        }
    }
}

/// The comma, the delimiter of a new parser.
pub const COMMA: u8 = 44;

/// The least capacity of the read buffer, in bytes.
pub const MIN_BUFFER: usize = 8192;

/// The greatest capacity of the read buffer, in bytes.
pub const MAX_BUFFER: usize = 1048576;

/// The capacity of the buffer through which a file of `file_size` bytes is
/// read: the size itself, but no less than 8 KiB and no more than 1 MiB.
pub open spec fn buffer_capacity_of(file_size: u64) -> int {
    if file_size < MIN_BUFFER {
        MIN_BUFFER as int
    } else if file_size > MAX_BUFFER {
        MAX_BUFFER as int
    } else {
        file_size as int
    }
}

impl Default for CsvParser {
    fn default() -> (p: Self)
        ensures
            p@ == (CsvConfig { batch_size: None, has_headers: true, delimiter: COMMA }),
    {
        CsvParser::new()
    }
}

impl CsvParser {
    #[verifier::type_invariant]
    spec fn batch_size_positive(self) -> bool {
        self.batch_size matches Some(size) ==> size > 0
    }

    /// A parser for comma-separated text with a header row, without batches.
    pub fn new() -> (p: Self)
        ensures
            p@ == (CsvConfig { batch_size: None, has_headers: true, delimiter: COMMA }),
    {
        CsvParser { batch_size: None, has_headers: true, delimiter: COMMA }
    }

    /// Has the rows grouped into batches of at most `batch_size`.
    pub fn with_batch_size(self, batch_size: usize) -> (p: Self)
        requires
            batch_size > 0,
        ensures
            p@ == (CsvConfig { batch_size: Some(batch_size), ..self@ }),
    {
        CsvParser {
            batch_size: Some(batch_size),
            has_headers: self.has_headers,
            delimiter: self.delimiter,
        }
    }

    /// Says whether the first record names the columns.
    pub fn with_headers(self, has_headers: bool) -> (p: Self)
        ensures
            p@ == (CsvConfig { has_headers, ..self@ }),
    {
        proof {
            use_type_invariant(&self);
        }
        CsvParser { batch_size: self.batch_size, has_headers, delimiter: self.delimiter }
    }

    /// Sets the byte that parts the cells of a record.
    pub fn with_delimiter(self, delimiter: u8) -> (p: Self)
        ensures
            p@ == (CsvConfig { delimiter, ..self@ }),
    {
        proof {
            use_type_invariant(&self);
        }
        CsvParser { batch_size: self.batch_size, has_headers: self.has_headers, delimiter }
    }

    /// The size of a batch, where the rows are batched. It is never zero.
    pub fn batch_size(&self) -> (r: Option<usize>)
        ensures
            r == self@.batch_size,
            r matches Some(size) ==> size > 0,
    {
        proof {
            use_type_invariant(self);
        }
        self.batch_size
    }

    /// Whether the first record names the columns.
    pub fn has_headers(&self) -> (r: bool)
        ensures
            r == self@.has_headers,
    {
        self.has_headers
    }

    /// The byte that parts the cells of a record.
    pub fn delimiter(&self) -> (r: u8)
        ensures
            r == self@.delimiter,
    {
        self.delimiter
    }

    /// Tells whether `source` is a regular file with the extension `csv`,
    /// whatever the case of its letters. Nothing is opened or read.
    pub fn validate(&self, source: &SourceFile) -> (ok: bool)
        ensures
            ok == source.is_file_of("csv"@),
    {
        source.is_regular_with_extension("csv")
    }

    /// The capacity of the buffer through which a file of `file_size` bytes
    /// is read.
    pub fn buffer_capacity(file_size: u64) -> (r: usize)
        ensures
            r == buffer_capacity_of(file_size),
            MIN_BUFFER <= r <= MAX_BUFFER,
    {
        if file_size < MIN_BUFFER as u64 {
            MIN_BUFFER
        } else if file_size > MAX_BUFFER as u64 {
            MAX_BUFFER
        } else {
            file_size as usize
        }
    }
}

/// The models of the fields of a record.
pub open spec fn record_view(record: Seq<Field>) -> Seq<FieldView> {
    Seq::new(record.len(), |i: int| record[i]@)
}

/// The models of the records of a file.
pub open spec fn records_view(records: Seq<Vec<Field>>) -> Seq<Seq<FieldView>> {
    Seq::new(records.len(), |i: int| record_view(records[i]@))
}

/// The name given to the column at position `n`, counted from 1.
pub open spec fn column_name(n: nat) -> Seq<char> {
    "column_"@ + decimal_digits(n)
}

/// The names `column_1` to `column_N` for a record of `width` cells.
pub open spec fn positional_names(width: nat) -> Seq<Seq<char>> {
    Seq::new(width, |i: int| column_name((i + 1) as nat))
}

/// The header names: the text of the first record's cells where the file
/// has a header row, else positional names for as many columns as the
/// first record has cells. A file without records has no headers.
pub open spec fn headers_of(has_headers: bool, records: Seq<Seq<FieldView>>) -> Seq<Seq<char>> {
    if records.len() == 0 {
        Seq::empty()
    } else if has_headers {
        Seq::new(records[0].len(), |i: int| records[0][i].text)
    } else {
        positional_names(records[0].len())
    }
}

/// The data records: all but the header row.
pub open spec fn data_of(has_headers: bool, records: Seq<Seq<FieldView>>) -> Seq<Seq<FieldView>> {
    if has_headers && records.len() > 0 {
        records.drop_first()
    } else {
        records
    }
}

/// How many cells of a record have a header: headers without a cell get no
/// entry, and cells without a header are dropped.
pub open spec fn paired(headers: Seq<Seq<char>>, record: Seq<FieldView>) -> int {
    if headers.len() <= record.len() {
        headers.len() as int
    } else {
        record.len() as int
    }
}

/// The entries of a row after its first `n` cells: each cell's inferred
/// value goes under the header at its position, a later cell taking the
/// place of an earlier one under the same header.
pub open spec fn row_entries(headers: Seq<Seq<char>>, record: Seq<FieldView>, n: int) -> Seq<
    (Seq<char>, ValueView),
>
    decreases n,
{
    if n <= 0 {
        Seq::empty()
    } else {
        insert_entry(
            row_entries(headers, record, n - 1),
            headers[n - 1],
            infer_spec(record[n - 1].text, record[n - 1].float_bits),
        )
    }
}

/// The object of one record under `headers`.
pub open spec fn row_object(headers: Seq<Seq<char>>, record: Seq<FieldView>) -> ValueView {
    ValueView::Object(row_entries(headers, record, paired(headers, record)))
}

/// The objects of the data records, one per record and in their order.
pub open spec fn row_objects(has_headers: bool, records: Seq<Seq<FieldView>>) -> Seq<ValueView> {
    Seq::new(
        data_of(has_headers, records).len(),
        |i: int| row_object(headers_of(has_headers, records), data_of(has_headers, records)[i]),
    )
}

/// What is extracted from `records`: the row objects in one array, or, with
/// a batch size, in an array of arrays of at most that many objects.
pub open spec fn table(has_headers: bool, batch_size: Option<usize>, records: Seq<Seq<FieldView>>)
    -> ValueView {
    match batch_size {
        None => ValueView::Array(row_objects(has_headers, records)),
        Some(size) => ValueView::Array(batches(row_objects(has_headers, records), size as nat)),
    }
}

/// The model of what a parse returned: the payload with the file name, or the error.
pub open spec fn parsed_view(r: Result<ParsedData<Value>, CsvError>) -> Result<
    (ValueView, Seq<char>),
    CsvErrorView,
> {
    match r {
        Ok(parsed) => Ok((parsed.payload()@, parsed.name())),
        Err(e) => Err(e@),
    }
}

/// The error of the `csv` crate's reader.
#[verifier::external_type_specification]
#[verifier::external_body]
pub struct ExCsvError(csv::Error);

/// The records that the `csv` crate's reader yields for `bytes` with the
/// given delimiter, each as the text of its cells, when it is told that the
/// first row is a record like the others; `None` where the reader fails.
pub uninterp spec fn csv_records(bytes: Seq<u8>, delimiter: u8) -> Option<Seq<Seq<Seq<char>>>>;

/// The text of the cells of each record.
pub open spec fn record_texts(records: Seq<Vec<String>>) -> Seq<Seq<Seq<char>>> {
    Seq::new(records.len(), |i: int| texts_of(records[i]@))
}

/// Calls `csv::ReaderBuilder` for a reader over `bytes` that treats no row
/// as a header, and collects what `csv::Reader::records` yields.
///
/// Trusted: the records, or the failure, depend on the bytes and the
/// delimiter alone. The reader fails on the first record that is not UTF-8
/// or has another number of cells than the first one.
#[verifier::external_body]
fn read_all_records(bytes: &[u8], delimiter: u8) -> (r: Result<Vec<Vec<String>>, csv::Error>)
    ensures
        r matches Ok(records) ==> csv_records(bytes@, delimiter) == Some(record_texts(records@)),
        r is Err ==> csv_records(bytes@, delimiter) is None,
{
    let mut reader =
        csv::ReaderBuilder::new().has_headers(false).delimiter(delimiter).from_reader(bytes);
    reader.records().map(|record| record.map(|r| r.iter().map(String::from).collect())).collect()
}

/// Calls `to_string` on a `csv::Error`: the reader's own message.
///
/// Trusted: nothing is claimed of the text.
#[verifier::external_body]
fn csv_error_text(error: &csv::Error) -> (r: String) {
    error.to_string()
}

/// The text of one decimal digit.
fn digit_text(d: usize) -> (r: &'static str)
    requires
        d < 10,
    ensures
        r@ == seq![digit_char(d as nat)],
{
    proof {
        reveal_strlit("0");
        reveal_strlit("1");
        reveal_strlit("2");
        reveal_strlit("3");
        reveal_strlit("4");
        reveal_strlit("5");
        reveal_strlit("6");
        reveal_strlit("7");
        reveal_strlit("8");
        reveal_strlit("9");
    }
    let r = if d == 0 {
        "0"
    } else if d == 1 {
        "1"
    } else if d == 2 {
        "2"
    } else if d == 3 {
        "3"
    } else if d == 4 {
        "4"
    } else if d == 5 {
        "5"
    } else if d == 6 {
        "6"
    } else if d == 7 {
        "7"
    } else if d == 8 {
        "8"
    } else {
        "9"
    };
    assert(r@ =~= seq![digit_char(d as nat)]);
    r
}

/// Appends `n` in decimal digits to `out`.
fn push_decimal(out: &mut String, n: usize)
    ensures
        final(out)@ == old(out)@ + decimal_digits(n as nat),
    decreases n,
{
    if n >= 10 {
        push_decimal(out, n / 10);
    }
    out.append(digit_text(n % 10));
    assert(out@ =~= old(out)@ + decimal_digits(n as nat));
}

/// The name of the column at position `n`, counted from 1.
pub fn make_column_name(n: usize) -> (r: String)
    ensures
        r@ == column_name(n as nat),
{
    let mut out = String::from_str("column_");
    push_decimal(&mut out, n);
    out
}

/// Builds the header names for `records`.
pub fn make_headers(has_headers: bool, records: &Vec<Vec<Field>>) -> (r: Vec<String>)
    ensures
        texts_of(r@) == headers_of(has_headers, records_view(records@)),
{
    let mut names: Vec<String> = Vec::new();
    if records.len() == 0 {
        assert(texts_of(names@) =~= Seq::<Seq<char>>::empty());
        return names;
    }
    let first = &records[0];
    let ghost want = headers_of(has_headers, records_view(records@));
    let mut i: usize = 0;
    while i < first.len()
        invariant
            i <= first.len(),
            records.len() > 0,
            first == &records[0],
            want == headers_of(has_headers, records_view(records@)),
            want.len() == first.len(),
            names.len() == i,
            forall|k: int| 0 <= k < i ==> (#[trigger] names[k])@ == want[k],
        decreases first.len() - i,
    {
        let name = if has_headers {
            first[i].text.clone()
        } else {
            make_column_name(i + 1)
        };
        names.push(name);
        i += 1;
    }
    assert(texts_of(names@) =~= want);
    names
}

/// Builds the object of one record under `headers`.
pub fn make_row(headers: &Vec<String>, record: &Vec<Field>) -> (v: Value)
    ensures
        v@ == row_object(texts_of(headers@), record_view(record@)),
        v@.wf(),
{
    let ghost names = texts_of(headers@);
    let ghost cells = record_view(record@);
    let n = if headers.len() <= record.len() {
        headers.len()
    } else {
        record.len()
    };
    let mut entries: Vec<(String, Value)> = Vec::new();
    let mut i: usize = 0;
    proof {
        crate::value::lemma_entries_of(entries@);
        assert(entries_of(entries@) =~= row_entries(names, cells, 0));
        assert(ValueView::Object(entries_of(entries@)).wf());
    }
    while i < n
        invariant
            i <= n,
            n <= headers.len(),
            n <= record.len(),
            names == texts_of(headers@),
            cells == record_view(record@),
            entries_of(entries@) == row_entries(names, cells, i as int),
            ValueView::Object(entries_of(entries@)).wf(),
        decreases n - i,
    {
        let value = infer_value_type(record[i].text.as_str(), record[i].float_bits);
        proof {
            lemma_insert_entry_wf(entries_of(entries@), headers[i as int]@, value@);
        }
        put_entry(&mut entries, headers[i].clone(), value);
        i += 1;
    }
    Value::object(entries)
}

impl CsvParser {
    /// Splits the bytes of a file into its records, each the text of its
    /// cells. Every row is a record here, the header row too.
    ///
    /// Fails with [`CsvError::Csv`], and the reader's message in it, exactly
    /// where the reader fails.
    pub fn read_records(&self, bytes: &[u8]) -> (r: Result<Vec<Vec<String>>, CsvError>)
        ensures
            r matches Ok(records) ==> csv_records(bytes@, self@.delimiter) == Some(
                record_texts(records@),
            ),
            r matches Err(e) ==> e is Csv && csv_records(bytes@, self@.delimiter) is None,
    {
        match read_all_records(bytes, self.delimiter) {
            Ok(records) => Ok(records),
            Err(error) => Err(CsvError::Csv(csv_error_text(&error))),
        }
    }

    /// What parsing `source` gives, once its records have been read.
    pub open spec fn parse_spec(self, source: SourceFile, records: Seq<Seq<FieldView>>) -> Result<
        (ValueView, Seq<char>),
        CsvErrorView,
    > {
        if source.file_name is None {
            Err(CsvErrorView::InvalidPath)
        } else {
            Ok((table(self@.has_headers, self@.batch_size, records), source.file_name->0@))
        }
    }

    /// Parses a file from its records.
    ///
    /// With a header row the first record names the columns and the others
    /// are data; without one every record is data, and the columns are
    /// named `column_1` and so on, as many as the first record has cells.
    /// Each data record becomes one object. A path without a file name is
    /// turned down.
    pub fn parse(&self, source: &SourceFile, records: Vec<Vec<Field>>) -> (r: Result<
        ParsedData<Value>,
        CsvError,
    >)
        ensures
            parsed_view(r) == self.parse_spec(*source, records_view(records@)),
            r matches Ok(parsed) ==> parsed.payload()@.wf(),
    {
        let file_name = match &source.file_name {
            Some(name) => name.clone(),
            None => {
                return Err(CsvError::InvalidPath);
            },
        };
        let headers = make_headers(self.has_headers, &records);
        let ghost all = records_view(records@);
        let ghost names = headers_of(self.has_headers, all);
        let ghost data = data_of(self.has_headers, all);
        let start: usize = if self.has_headers && records.len() > 0 {
            1
        } else {
            0
        };
        let mut rows: Vec<Value> = Vec::new();
        let mut i: usize = start;
        while i < records.len()
            invariant
                start <= i <= records.len(),
                all == records_view(records@),
                names == texts_of(headers@),
                data == data_of(self.has_headers, all),
                data.len() == records.len() - start,
                forall|k: int| 0 <= k < data.len() ==> (#[trigger] data[k]) == all[k + start],
                rows.len() == i - start,
                forall|k: int|
                    0 <= k < rows.len() ==> (#[trigger] rows[k])@ == row_object(names, data[k])
                        && rows[k]@.wf(),
            decreases records.len() - i,
        {
            let row = make_row(&headers, &records[i]);
            rows.push(row);
            i += 1;
        }
        proof {
            lemma_views_of(rows@);
            assert(views_of(rows@) =~= row_objects(self.has_headers, all));
        }
        let payload = match self.batch_size() {
            None => Value::array(rows),
            Some(size) => {
                let groups = into_batches(rows, size);
                proof {
                    lemma_batches_wf(row_objects(self.has_headers, all), size as nat);
                }
                Value::array(groups)
            },
        };
        Ok(ParsedData::new(payload, file_name))
    }
}

impl FileParser for CsvParser {
    /// The records of the file, the header row among them.
    type Input = Vec<Vec<Field>>;

    open spec fn extension(&self) -> Seq<char> {
        "csv"@
    }

    open spec fn admits(&self, input: &Self::Input) -> bool {
        true
    }

    open spec fn outcome(&self, source: &SourceFile, input: &Self::Input) -> Outcome {
        match self.parse_spec(*source, records_view(input@)) {
            Ok(parsed) => Ok(parsed),
            Err(e) => Err((e.kind_of(), e.text())),
        }
    }

    fn validate(&self, source: &SourceFile) -> (ok: bool) {
        CsvParser::validate(self, source)
    }

    fn parse(&self, source: &SourceFile, input: Self::Input) -> (r: Result<
        ParsedData<Value>,
        ExtractionError,
    >) {
        match CsvParser::parse(self, source, input) {
            Ok(parsed) => Ok(parsed),
            Err(e) => Err(e.into_extraction_error()),
        }
    }
}

/// Every data record gives one row, in the order of the records, and the
/// header row gives none.
pub proof fn lemma_one_row_per_data_record(has_headers: bool, records: Seq<Seq<FieldView>>)
    ensures
        row_objects(has_headers, records).len() == if has_headers && records.len() > 0 {
            records.len() - 1
        } else {
            records.len() as int
        },
        forall|i: int|
            0 <= i < row_objects(has_headers, records).len() ==> (#[trigger] row_objects(
                has_headers,
                records,
            )[i]) == row_object(
                headers_of(has_headers, records),
                records[if has_headers {
                    i + 1
                } else {
                    i
                }],
            ),
{
}

/// A row holds each header once at most, and never more entries than the
/// record has cells or than there are headers.
pub proof fn lemma_row_is_well_formed(headers: Seq<Seq<char>>, record: Seq<FieldView>, n: int)
    requires
        n <= headers.len(),
        n <= record.len(),
    ensures
        ValueView::Object(row_entries(headers, record, n)).wf(),
        row_entries(headers, record, n).len() <= if n < 0 {
            0
        } else {
            n
        },
    decreases n,
{
    if n > 0 {
        lemma_row_is_well_formed(headers, record, n - 1);
        let value = infer_spec(record[n - 1].text, record[n - 1].float_bits);
        crate::infer::lemma_inferred_is_well_formed(record[n - 1].text, record[n - 1].float_bits);
        lemma_insert_entry_wf(row_entries(headers, record, n - 1), headers[n - 1], value);
        crate::value::lemma_key_position_first(row_entries(headers, record, n - 1), headers[n - 1]);
    } else {
        assert(ValueView::Object(Seq::empty()).wf());
    }
}

/// Reading is a function of the bytes and the delimiter: two readings of
/// the same bytes with the same delimiter both fail or both give the same
/// records.
pub proof fn lemma_reading_is_repeatable(
    bytes: Seq<u8>,
    delimiter: u8,
    first: Result<Vec<Vec<String>>, CsvError>,
    second: Result<Vec<Vec<String>>, CsvError>,
)
    requires
        first matches Ok(records) ==> csv_records(bytes, delimiter) == Some(
            record_texts(records@),
        ),
        first is Err ==> csv_records(bytes, delimiter) is None,
        second matches Ok(records) ==> csv_records(bytes, delimiter) == Some(
            record_texts(records@),
        ),
        second is Err ==> csv_records(bytes, delimiter) is None,
    ensures
        first is Ok <==> second is Ok,
        first is Ok ==> record_texts(first->Ok_0@) == record_texts(second->Ok_0@),
{
}

/// Parsing is a function of the configuration, the source and the records
/// with their readings: two parses that agree on these return the same
/// payload under the same file name, or the same error.
pub proof fn lemma_parsing_is_repeatable(
    one: CsvParser,
    other: CsvParser,
    source: SourceFile,
    first: Vec<Vec<Field>>,
    second: Vec<Vec<Field>>,
    r1: Result<ParsedData<Value>, CsvError>,
    r2: Result<ParsedData<Value>, CsvError>,
)
    requires
        one@ == other@,
        records_view(first@) == records_view(second@),
        parsed_view(r1) == one.parse_spec(source, records_view(first@)),
        parsed_view(r2) == other.parse_spec(source, records_view(second@)),
    ensures
        parsed_view(r1) == parsed_view(r2),
{
}

} // verus!
