//! What every format's parser offers, and the choice of a parser for a file.

use crate::error::{prefixed, ErrorKind, ExtractionError};
use crate::paginated::PdfParser;
use crate::parsed::ParsedData;
use crate::source::{PathKind, SourceFile};
use crate::tabular::CsvParser;
use crate::value::{Value, ValueView};
use vstd::prelude::*;
use vstd::string::StringExecFns;

verus! {

/// What a parse comes to: the payload and the file's base name, or the kind
/// and the message of the failure.
pub type Outcome = Result<(ValueView, Seq<char>), (ErrorKind, Seq<char>)>;

/// The model of what a parser returned.
pub open spec fn outcome_of(r: Result<ParsedData<Value>, ExtractionError>) -> Outcome {
    match r {
        Ok(parsed) => Ok((parsed.payload()@, parsed.name())),
        Err(e) => Err((e.kind, e.message@)),
    }
}

/// A parser for the files of one format.
pub trait FileParser {
    /// What has been read of a file when it is parsed.
    type Input;

    /// The extension of the files of this format, in small letters.
    spec fn extension(&self) -> Seq<char>;

    /// Whether `input` is within what the machine can number.
    spec fn admits(&self, input: &Self::Input) -> bool;

    /// What parsing `source` comes to, given what was read of it.
    spec fn outcome(&self, source: &SourceFile, input: &Self::Input) -> Outcome;

    /// Tells whether `source` is a regular file with this format's
    /// extension, whatever the case of its letters. Nothing is opened or
    /// read.
    fn validate(&self, source: &SourceFile) -> (ok: bool)
        ensures
            ok == source.is_file_of(self.extension()),
    ;

    /// Turns what was read of `source` into its structured value.
    fn parse(&self, source: &SourceFile, input: Self::Input) -> (r: Result<
        ParsedData<Value>,
        ExtractionError,
    >)
        requires
            self.admits(&input),
        ensures
            outcome_of(r) == self.outcome(source, &input),
            r matches Ok(parsed) ==> parsed.payload()@.wf(),
    ;
}

/// `text` in small letters, as `str::to_lowercase` gives it.
pub uninterp spec fn lowercase(text: Seq<char>) -> Seq<char>;

/// Calls `str::to_lowercase`.
///
/// Trusted: the result depends on the text alone. Which letters Unicode
/// maps to which is not stated here.
#[verifier::external_body]
fn to_lowercase(text: &str) -> (r: String)
    ensures
        r@ == lowercase(text@),
{
    text.to_lowercase()
}

/// The formats for which there is a parser.
#[derive(Debug, Clone, Copy, PartialEq, Eq, Structural)]
pub enum Format {
    /// Delimited text, extension `csv`.
    Tabular,
    /// Paginated documents, extension `pdf`.
    Paginated,
}

/// A parser chosen for a file, configured as the dispatcher configures it.
#[derive(Debug)]
pub enum Parser {
    Tabular(CsvParser),
    Paginated(PdfParser),
}

impl Parser {
    /// The format that this parser reads.
    pub open spec fn format(self) -> Format {
        match self {
            Parser::Tabular(_) => Format::Tabular,
            Parser::Paginated(_) => Format::Paginated,
        }
    }

    /// Whether this parser is configured as the dispatcher configures it:
    /// comma-separated text with a header row, or a document without a
    /// password and with the reserved metadata flag unset; neither batched.
    pub open spec fn is_default(self) -> bool {
        match self {
            Parser::Tabular(p) => p@ == (crate::tabular::CsvConfig {
                batch_size: None,
                has_headers: true,
                delimiter: crate::tabular::COMMA,
            }),
            Parser::Paginated(p) => p@ == (crate::paginated::PdfConfig {
                batch_size: None,
                extract_metadata: false,
                password: None,
            }),
        }
    }
}

/// The failure for a path that is not what a parser's format asks for.
pub open spec fn validation_failure(source: &SourceFile) -> Seq<char> {
    "File validation failed for parser: "@ + source.path@
}

/// The format chosen for `source`, or the kind and message of the failure.
///
/// In order: a path that does not exist is not found; one that is no
/// regular file is not a file; without an extension, or with one that no
/// parser is known for, the format is unsupported; and a path that the
/// chosen format turns down fails validation.
pub open spec fn selection(source: &SourceFile) -> Result<Format, (ErrorKind, Seq<char>)> {
    if source.kind is Missing {
        Err((ErrorKind::NotFound, "File not found: "@ + source.path@))
    } else if source.kind is Other {
        Err((ErrorKind::NotAFile, "Path is not a file: "@ + source.path@))
    } else if source.extension is None {
        Err((ErrorKind::UnsupportedFormat, "Unable to determine file type from extension"@))
    } else {
        let extension = lowercase(source.extension->0@);
        if extension == "csv"@ {
            if source.is_file_of("csv"@) {
                Ok(Format::Tabular)
            } else {
                Err((ErrorKind::ValidationFailed, validation_failure(source)))
            }
        } else if extension == "pdf"@ {
            if source.is_file_of("pdf"@) {
                Ok(Format::Paginated)
            } else {
                Err((ErrorKind::ValidationFailed, validation_failure(source)))
            }
        } else {
            Err((ErrorKind::UnsupportedFormat, "Unsupported file type: "@ + extension))
        }
    }
}

/// Whether `source` is a regular file with an extension that no parser is
/// known for.
pub open spec fn is_unknown_extension(source: &SourceFile) -> bool {
    &&& source.kind is File
    &&& source.extension is Some
    &&& lowercase(source.extension->0@) != "csv"@
    &&& lowercase(source.extension->0@) != "pdf"@
}

/// The model of what a selection returned.
pub open spec fn selected(r: Result<Parser, ExtractionError>) -> Result<
    Format,
    (ErrorKind, Seq<char>),
> {
    match r {
        Ok(parser) => Ok(parser.format()),
        Err(e) => Err((e.kind, e.message@)),
    }
}

/// Chooses the parser for `source` by its extension, in small letters, and
/// has the parser validate the path. Nothing is opened or read.
pub fn select_parser(source: &SourceFile) -> (r: Result<Parser, ExtractionError>)
    ensures
        selected(r) == selection(source),
        r matches Ok(parser) ==> parser.is_default(),
        source.kind is Missing ==> r is Err && r->Err_0.kind == ErrorKind::NotFound,
        is_unknown_extension(source) ==> r is Err && r->Err_0.kind == ErrorKind::UnsupportedFormat
            && r->Err_0.message@ == "Unsupported file type: "@ + lowercase(source.extension->0@),
{
    match source.kind {
        PathKind::Missing => {
            return Err(
                ExtractionError::new(
                    ErrorKind::NotFound,
                    prefixed("File not found: ", source.path.as_str()),
                ),
            );
        },
        PathKind::Other => {
            return Err(
                ExtractionError::new(
                    ErrorKind::NotAFile,
                    prefixed("Path is not a file: ", source.path.as_str()),
                ),
            );
        },
        PathKind::File => {},
    }
    let extension = match &source.extension {
        Some(extension) => to_lowercase(extension.as_str()),
        None => {
            return Err(
                ExtractionError::new(
                    ErrorKind::UnsupportedFormat,
                    String::from_str("Unable to determine file type from extension"),
                ),
            );
        },
    };
    let parser = if extension == String::from_str("csv") {
        Parser::Tabular(
            CsvParser::new().with_headers(true).with_delimiter(crate::tabular::COMMA),
        )
    } else if extension == String::from_str("pdf") {
        Parser::Paginated(PdfParser::new().with_metadata(false))
    } else {
        return Err(
            ExtractionError::new(
                ErrorKind::UnsupportedFormat,
                prefixed("Unsupported file type: ", extension.as_str()),
            ),
        );
    };
    let valid = match &parser {
        Parser::Tabular(p) => p.validate(source),
        Parser::Paginated(p) => p.validate(source),
    };
    if !valid {
        return Err(
            ExtractionError::new(
                ErrorKind::ValidationFailed,
                prefixed("File validation failed for parser: ", source.path.as_str()),
            ),
        );
    }
    Ok(parser)
}

/// The message for a failure to parse `source`.
pub open spec fn parse_failure(source: &SourceFile, message: Seq<char>) -> Seq<char> {
    "Failed to parse file "@ + source.path@ + ": "@ + message
}

/// The message for `error` as a failure to parse `source`: the error's own
/// message with the path before it.
pub fn describe_failure(source: &SourceFile, error: &ExtractionError) -> (r: String)
    ensures
        r@ == parse_failure(source, error.message@),
{
    let mut out = prefixed("Failed to parse file ", source.path.as_str());
    out.append(": ");
    out.append(error.message.as_str());
    out
}

/// What running `parser` on `source` comes to: the payload alone, or the
/// message of the failure.
pub open spec fn dispatched<P: FileParser>(parser: &P, source: &SourceFile, input: &P::Input)
    -> Result<ValueView, Seq<char>> {
    if !source.is_file_of(parser.extension()) {
        Err(validation_failure(source))
    } else {
        match parser.outcome(source, input) {
            Ok((payload, _)) => Ok(payload),
            Err((_, message)) => Err(parse_failure(source, message)),
        }
    }
}

/// The model of what a dispatch returned.
pub open spec fn flattened(r: Result<Value, String>) -> Result<ValueView, Seq<char>> {
    match r {
        Ok(payload) => Ok(payload@),
        Err(message) => Err(message@),
    }
}

/// Has `parser` validate `source` and parse what was read of it. On
/// success the payload is returned without its envelope; a failure is
/// returned as its message, with the path before it.
pub fn parse_with_parser<P: FileParser>(parser: &P, source: &SourceFile, input: P::Input) -> (r:
    Result<Value, String>)
    requires
        parser.admits(&input),
    ensures
        flattened(r) == dispatched(parser, source, &input),
        r matches Ok(payload) ==> payload@.wf(),
{
    if !parser.validate(source) {
        return Err(prefixed("File validation failed for parser: ", source.path.as_str()));
    }
    match parser.parse(source, input) {
        Ok(parsed) => Ok(parsed.into_data()),
        Err(error) => Err(describe_failure(source, &error)),
    }
}

} // verus!
