//! The parser for paginated documents: page objects from the text of the
//! pages, blank pages left out, optionally in batches.

use crate::batch::{batches, into_batches, lemma_batches_wf};
use crate::error::{prefixed, ErrorKind, ExtractionError};
use crate::parsed::ParsedData;
use crate::parser::{FileParser, Outcome};
use crate::source::SourceFile;
use crate::text::{chars_of, texts_of, trim_bounds, trimmed};
use crate::value::{all_wf, lemma_views_of, views_of, Value, ValueView};
use vstd::prelude::*;
use vstd::string::StrSliceExecFns;
use vstd::string::StringExecFns;

verus! {

/// Why a paginated document could not be parsed.
#[derive(Debug)]
pub enum PdfError {
    /// Opening or reading the file failed; the message is the system's.
    Io(String),
    /// The document could not be decoded; the message is the decoder's.
    Pdf(String),
    /// No file name can be derived from the path.
    InvalidPath,
}

/// The model of a [`PdfError`].
pub ghost enum PdfErrorView {
    Io(Seq<char>),
    Pdf(Seq<char>),
    InvalidPath,
}

impl PdfErrorView {
    /// The text of the error.
    pub open spec fn text(self) -> Seq<char> {
        match self {
            PdfErrorView::Io(m) => "IO error: "@ + m,
            PdfErrorView::Pdf(m) => "PDF parsing error: "@ + m,
            PdfErrorView::InvalidPath => "Invalid file path"@,
        }
    }

    /// The kind of the error.
    pub open spec fn kind_of(self) -> ErrorKind {
        match self {
            PdfErrorView::Io(_) => ErrorKind::Io,
            PdfErrorView::Pdf(_) => ErrorKind::FormatDecode,
            PdfErrorView::InvalidPath => ErrorKind::InvalidPath,
        }
    }
}

impl View for PdfError {
    type V = PdfErrorView;

    open spec fn view(&self) -> PdfErrorView {
        match self {
            PdfError::Io(m) => PdfErrorView::Io(m@),
            PdfError::Pdf(m) => PdfErrorView::Pdf(m@),
            PdfError::InvalidPath => PdfErrorView::InvalidPath,
        }
    }
}

impl PdfError {
    /// The text of this error.
    pub open spec fn text(self) -> Seq<char> {
        self@.text()
    }

    /// The kind of this error.
    pub open spec fn kind_of(self) -> ErrorKind {
        self@.kind_of()
    }

    /// The text of this error, for the reader.
    pub fn message(&self) -> (m: String)
        ensures
            m@ == self.text(),
    {
        match self {
            PdfError::Io(m) => prefixed("IO error: ", m.as_str()),
            PdfError::Pdf(m) => prefixed("PDF parsing error: ", m.as_str()),
            PdfError::InvalidPath => String::from_str("Invalid file path"),
        }
    }

    /// The kind of this error.
    pub fn kind(&self) -> (k: ErrorKind)
        ensures
            k == self.kind_of(),
    {
        match self {
            PdfError::Io(_) => ErrorKind::Io,
            PdfError::Pdf(_) => ErrorKind::FormatDecode,
            PdfError::InvalidPath => ErrorKind::InvalidPath,
        }
    }

    /// This error in the form that all parsers share.
    pub fn into_extraction_error(self) -> (e: ExtractionError)
        ensures
            e.kind == self.kind_of(),
            e.message@ == self.text(),
    {
        let kind = self.kind();
        let message = self.message();
        ExtractionError::new(kind, message)
    }
}

/// The configuration of a [`PdfParser`].
pub ghost struct PdfConfig {
    /// The size of a batch; without one the pages are not batched.
    pub batch_size: Option<usize>,
    /// Reserved: not reflected in what is extracted.
    pub extract_metadata: bool,
    /// The password of an encrypted document.
    pub password: Option<Seq<char>>,
}

/// The parser for paginated documents.
#[derive(Debug)]
pub struct PdfParser {
    batch_size: Option<usize>,
    extract_metadata: bool,
    password: Option<String>,
}

impl View for PdfParser {
    type V = PdfConfig;

    closed spec fn view(&self) -> PdfConfig {
        PdfConfig {
            batch_size: self.batch_size,
            extract_metadata: self.extract_metadata,
            password: match self.password {
                Some(p) => Some(p@),
                None => None,
            },
        }
    }
}

impl Default for PdfParser {
    fn default() -> (p: Self)
        ensures
            p@ == (PdfConfig { batch_size: None, extract_metadata: true, password: None }),
    {
        PdfParser::new()
    }
}

/// The pages that are kept: the trimmed text of each page that holds more
/// than whitespace, in the order of the pages.
pub open spec fn retained(pages: Seq<Seq<char>>) -> Seq<Seq<char>>
    decreases pages.len(),
{
    if pages.len() == 0 {
        Seq::empty()
    } else if trimmed(pages.last()).len() == 0 {
        retained(pages.drop_last())
    } else {
        retained(pages.drop_last()).push(trimmed(pages.last()))
    }
}

/// The object of the page with the given number and text.
pub open spec fn page_object(number: int, content: Seq<char>) -> ValueView {
    ValueView::Object(
        seq![
            ("page_number"@, ValueView::Integer(number)),
            ("content"@, ValueView::Text(content)),
        ],
    )
}

/// The objects of the pages that are kept, numbered from 1 without a gap.
pub open spec fn page_objects(pages: Seq<Seq<char>>) -> Seq<ValueView> {
    Seq::new(retained(pages).len(), |i: int| page_object(i + 1, retained(pages)[i]))
}

/// What is extracted from `pages`: their objects in one array, or, with a
/// batch size, in an array of arrays of at most that many objects.
pub open spec fn extracted(pages: Seq<Seq<char>>, batch_size: Option<usize>) -> ValueView {
    match batch_size {
        None => ValueView::Array(page_objects(pages)),
        Some(size) => ValueView::Array(batches(page_objects(pages), size as nat)),
    }
}

/// The model of what an extraction handed over.
pub open spec fn outcome_view(outcome: Result<Vec<String>, String>) -> Result<
    Seq<Seq<char>>,
    Seq<char>,
> {
    match outcome {
        Ok(pages) => Ok(texts_of(pages@)),
        Err(message) => Err(message@),
    }
}

/// The model of what a parse returned: the payload with the file name, or the error.
pub open spec fn parsed_view(r: Result<ParsedData<Value>, PdfError>) -> Result<
    (ValueView, Seq<char>),
    PdfErrorView,
> {
    match r {
        Ok(parsed) => Ok((parsed.payload()@, parsed.name())),
        Err(e) => Err(e@),
    }
}

impl PdfParser {
    #[verifier::type_invariant]
    spec fn batch_size_positive(self) -> bool {
        self.batch_size matches Some(size) ==> size > 0
    }

    /// A parser that does not batch, has no password, and has the reserved
    /// metadata flag set.
    pub fn new() -> (p: Self)
        ensures
            p@ == (PdfConfig { batch_size: None, extract_metadata: true, password: None }),
    {
        PdfParser { batch_size: None, extract_metadata: true, password: None }
    }

    /// Has the pages grouped into batches of at most `batch_size`.
    pub fn with_batch_size(self, batch_size: usize) -> (p: Self)
        requires
            batch_size > 0,
        ensures
            p@ == (PdfConfig { batch_size: Some(batch_size), ..self@ }),
    {
        PdfParser {
            batch_size: Some(batch_size),
            extract_metadata: self.extract_metadata,
            password: self.password,
        }
    }

    /// Sets the reserved metadata flag; what is extracted does not depend on it.
    pub fn with_metadata(self, extract_metadata: bool) -> (p: Self)
        ensures
            p@ == (PdfConfig { extract_metadata, ..self@ }),
    {
        proof {
            use_type_invariant(&self);
        }
        PdfParser {
            batch_size: self.batch_size,
            extract_metadata,
            password: self.password,
        }
    }

    /// Sets the password with which an encrypted document is decoded.
    pub fn with_password(self, password: String) -> (p: Self)
        ensures
            p@ == (PdfConfig { password: Some(password@), ..self@ }),
    {
        proof {
            use_type_invariant(&self);
        }
        PdfParser {
            batch_size: self.batch_size,
            extract_metadata: self.extract_metadata,
            password: Some(password),
        }
    }

    /// The size of a batch, where the pages are batched. It is never zero.
    pub fn batch_size(&self) -> (r: Option<usize>)
        ensures
            r == self@.batch_size,
            r matches Some(size) ==> size > 0,
    {
        proof {
            use_type_invariant(self);
        }
        self.batch_size
    }

    /// The reserved metadata flag.
    pub fn extract_metadata(&self) -> (r: bool)
        ensures
            r == self@.extract_metadata,
    {
        self.extract_metadata
    }

    /// The password: with one, the document is to be decoded as an
    /// encrypted one; without, as a plain one.
    pub fn password(&self) -> (r: Option<&str>)
        ensures
            r is Some <==> self@.password is Some,
            r is Some ==> r->0@ == self@.password->0,
    {
        match &self.password {
            Some(p) => Some(p.as_str()),
            None => None,
        }
    }

    /// Tells whether `source` is a regular file with the extension `pdf`,
    /// whatever the case of its letters. Nothing is opened or read.
    pub fn validate(&self, source: &SourceFile) -> (ok: bool)
        ensures
            ok == source.is_file_of("pdf"@),
    {
        source.is_regular_with_extension("pdf")
    }

    /// What parsing `source` gives, once the text of its pages has been
    /// extracted or the extraction has failed with a message.
    pub open spec fn parse_spec(
        self,
        source: SourceFile,
        outcome: Result<Seq<Seq<char>>, Seq<char>>,
    ) -> Result<(ValueView, Seq<char>), PdfErrorView> {
        if source.file_name is None {
            Err(PdfErrorView::InvalidPath)
        } else {
            match outcome {
                Err(message) => Err(PdfErrorView::Pdf(message)),
                Ok(pages) => Ok((extracted(pages, self@.batch_size), source.file_name->0@)),
            }
        }
    }

    /// Parses a document from the text of its pages, in the order of the
    /// pages, or from the message with which their extraction failed.
    ///
    /// Pages that hold nothing but whitespace are left out, and the others
    /// are numbered from 1 without a gap. A path without a file name is
    /// turned down first; a failed extraction is passed on as it is.
    pub fn parse(&self, source: &SourceFile, outcome: Result<Vec<String>, String>) -> (r: Result<
        ParsedData<Value>,
        PdfError,
    >)
        requires
            outcome matches Ok(pages) ==> pages.len() <= i64::MAX,
        ensures
            parsed_view(r) == self.parse_spec(*source, outcome_view(outcome)),
            r matches Ok(parsed) ==> parsed.payload()@.wf(),
    {
        let file_name = match &source.file_name {
            Some(name) => name.clone(),
            None => {
                return Err(PdfError::InvalidPath);
            },
        };
        let pages = match outcome {
            Ok(pages) => pages,
            Err(message) => {
                return Err(PdfError::Pdf(message));
            },
        };
        let objects = make_page_objects(&pages);
        let payload = match self.batch_size() {
            None => Value::array(objects),
            Some(size) => {
                let groups = into_batches(objects, size);
                proof {
                    lemma_batches_wf(page_objects(texts_of(pages@)), size as nat);
                }
                Value::array(groups)
            },
        };
        Ok(ParsedData::new(payload, file_name))
    }
}

/// Builds the object of one page.
pub fn make_page_object(number: i64, content: String) -> (v: Value)
    ensures
        v@ == page_object(number as int, content@),
        v@.wf(),
{
    let mut entries: Vec<(String, Value)> = Vec::new();
    entries.push((String::from_str("page_number"), Value::Integer(number)));
    entries.push((String::from_str("content"), Value::String(content)));
    proof {
        reveal_strlit("page_number");
        reveal_strlit("content");
        crate::value::lemma_entries_of(entries@);
        assert(crate::value::entries_of(entries@) =~= page_object(
            number as int,
            content@,
        )->Object_0);
        assert("page_number"@.len() != "content"@.len());
        assert(ValueView::Integer(number as int).wf());
        assert(ValueView::Text(content@).wf());
    }
    Value::object(entries)
}

/// Builds the objects of the pages that are kept.
pub fn make_page_objects(pages: &Vec<String>) -> (r: Vec<Value>)
    requires
        pages.len() <= i64::MAX,
    ensures
        views_of(r@) == page_objects(texts_of(pages@)),
        all_wf(views_of(r@)),
{
    let ghost texts = texts_of(pages@);
    let mut out: Vec<Value> = Vec::new();
    let mut i: usize = 0;
    proof {
        assert(texts.subrange(0, 0) == Seq::<Seq<char>>::empty());
        lemma_views_of(out@);
        assert(views_of(out@) =~= page_objects(texts.subrange(0, 0)));
    }
    while i < pages.len()
        invariant
            i <= pages.len() <= i64::MAX,
            texts == texts_of(pages@),
            out.len() == retained(texts.subrange(0, i as int)).len(),
            out.len() <= i,
            views_of(out@) == page_objects(texts.subrange(0, i as int)),
            all_wf(views_of(out@)),
        decreases pages.len() - i,
    {
        let page = pages[i].as_str();
        let chars = chars_of(page);
        let (a, b) = trim_bounds(&chars);
        let ghost before = texts.subrange(0, i as int);
        let ghost after = texts.subrange(0, i + 1);
        proof {
            assert(after.drop_last() == before);
            assert(after.last() == page@);
            lemma_views_of(out@);
        }
        if a < b {
            let content = page.substring_char(a, b).to_owned();
            let number: i64 = (out.len() + 1) as i64;
            let object = make_page_object(number, content);
            let ghost old_views = views_of(out@);
            out.push(object);
            proof {
                lemma_views_of(out@);
                assert(content@ == trimmed(page@));
                assert(retained(after) == retained(before).push(content@));
                assert forall|k: int| 0 <= k < out.len() implies (#[trigger] views_of(out@)[k])
                    == page_objects(after)[k] by {
                    if k < out.len() - 1 {
                        assert(views_of(out@)[k] == old_views[k]);
                    }
                }
                assert(views_of(out@) =~= page_objects(after));
                assert forall|k: int| 0 <= k < out.len() implies (#[trigger] views_of(
                    out@,
                )[k]).wf() by {
                    if k < out.len() - 1 {
                        assert(views_of(out@)[k] == old_views[k]);
                    }
                }
            }
        } else {
            assert(chars@.subrange(a as int, b as int).len() == 0);
        }
        i += 1;
    }
    proof {
        assert(texts.subrange(0, i as int) == texts);
    }
    out
}

impl FileParser for PdfParser {
    /// The text of the pages, or the message with which their extraction failed.
    type Input = Result<Vec<String>, String>;

    open spec fn extension(&self) -> Seq<char> {
        "pdf"@
    }

    open spec fn admits(&self, input: &Self::Input) -> bool {
        *input matches Ok(pages) ==> pages.len() <= i64::MAX
    }

    open spec fn outcome(&self, source: &SourceFile, input: &Self::Input) -> Outcome {
        match self.parse_spec(*source, outcome_view(*input)) {
            Ok(parsed) => Ok(parsed),
            Err(e) => Err((e.kind_of(), e.text())),
        }
    }

    fn validate(&self, source: &SourceFile) -> (ok: bool) {
        PdfParser::validate(self, source)
    }

    fn parse(&self, source: &SourceFile, input: Self::Input) -> (r: Result<
        ParsedData<Value>,
        ExtractionError,
    >) {
        match PdfParser::parse(self, source, input) {
            Ok(parsed) => Ok(parsed),
            Err(e) => Err(e.into_extraction_error()),
        }
    }
}

/// No more pages are kept than there are.
pub proof fn lemma_retained_len(pages: Seq<Seq<char>>)
    ensures
        retained(pages).len() <= pages.len(),
    decreases pages.len(),
{
    if pages.len() > 0 {
        lemma_retained_len(pages.drop_last());
    }
}

/// Every page that is kept is trimmed and not empty.
pub proof fn lemma_retained_not_blank(pages: Seq<Seq<char>>, i: int)
    requires
        0 <= i < retained(pages).len(),
    ensures
        retained(pages)[i].len() > 0,
        exists|k: int| 0 <= k < pages.len() && retained(pages)[i] == trimmed(#[trigger] pages[k]),
    decreases pages.len(),
{
    if pages.len() > 0 {
        let rest = pages.drop_last();
        if trimmed(pages.last()).len() > 0 && i == retained(rest).len() {
            assert(retained(pages)[i] == trimmed(pages[pages.len() - 1]));
        } else {
            lemma_retained_not_blank(rest, i);
            let k = choose|k: int|
                0 <= k < rest.len() && retained(rest)[i] == trimmed(#[trigger] rest[k]);
            assert(pages[k] == rest[k]);
        }
    }
}

/// The pages are numbered from 1 without a gap, in their order: the object
/// at position `i` has the number `i + 1` and the trimmed text of a page
/// that is not blank.
pub proof fn lemma_pages_numbered_without_gap(pages: Seq<Seq<char>>, i: int)
    requires
        0 <= i < page_objects(pages).len(),
    ensures
        page_objects(pages).len() == retained(pages).len() <= pages.len(),
        page_objects(pages)[i] == page_object(i + 1, retained(pages)[i]),
        retained(pages)[i].len() > 0,
        page_objects(pages)[i].wf(),
{
    lemma_retained_len(pages);
    lemma_retained_not_blank(pages, i);
    reveal_strlit("page_number");
    reveal_strlit("content");
    let entries = page_object(i + 1, retained(pages)[i])->Object_0;
    assert("page_number"@.len() != "content"@.len());
    assert(entries[0].1.wf());
    assert(entries[1].1.wf());
}

/// Parsing is a function of the configuration, the source and what the
/// extraction handed over: two parses that agree on these return the same
/// payload under the same file name, or the same error.
pub proof fn lemma_parsing_is_repeatable(
    one: PdfParser,
    other: PdfParser,
    source: SourceFile,
    first: Result<Vec<String>, String>,
    second: Result<Vec<String>, String>,
    r1: Result<ParsedData<Value>, PdfError>,
    r2: Result<ParsedData<Value>, PdfError>,
)
    requires
        one@ == other@,
        outcome_view(first) == outcome_view(second),
        parsed_view(r1) == one.parse_spec(source, outcome_view(first)),
        parsed_view(r2) == other.parse_spec(source, outcome_view(second)),
    ensures
        parsed_view(r1) == parsed_view(r2),
{
}

} // verus!
