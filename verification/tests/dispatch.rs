use insighter::error::{ErrorKind, ExtractionError};
use insighter::paginated::PdfParser;
use insighter::parser::{describe_failure, parse_with_parser, select_parser, Parser};
use insighter::source::{PathKind, SourceFile};
use insighter::tabular::{CsvParser, Field};
use insighter::value::Value;

fn file(path: &str) -> SourceFile {
    let name = path.rsplit('/').next().unwrap().to_string();
    let extension = name.rsplit_once('.').map(|(_, ext)| ext.to_string());
    SourceFile::new(path.to_string(), PathKind::File, Some(name), extension)
}

fn failure(source: &SourceFile) -> ExtractionError {
    match select_parser(source) {
        Err(error) => error,
        Ok(parser) => panic!("{:?}", parser),
    }
}

#[test]
fn an_unknown_extension_is_unsupported_and_named() {
    let error = failure(&file("/data/notes.xyz"));
    assert_eq!(error.kind(), ErrorKind::UnsupportedFormat);
    assert_eq!(error.message(), "Unsupported file type: xyz");
}

#[test]
fn an_unknown_extension_is_named_in_small_letters() {
    let error = failure(&file("/data/notes.XyZ"));
    assert_eq!(error.kind(), ErrorKind::UnsupportedFormat);
    assert_eq!(error.message(), "Unsupported file type: xyz");
    let error = failure(&file("/data/notes.\u{c4}B"));
    assert_eq!(error.message(), "Unsupported file type: \u{e4}b");
}

#[test]
fn a_path_that_does_not_exist_is_not_found() {
    let missing = SourceFile::new(
        "/no/such.csv".to_string(),
        PathKind::Missing,
        Some("such.csv".to_string()),
        Some("csv".to_string()),
    );
    let error = failure(&missing);
    assert_eq!(error.kind(), ErrorKind::NotFound);
    assert_eq!(error.message(), "File not found: /no/such.csv");
}

#[test]
fn a_missing_path_is_not_found_whatever_its_extension() {
    let missing =
        SourceFile::new("/no/such.xyz".to_string(), PathKind::Missing, None, Some("xyz".to_string()));
    assert_eq!(failure(&missing).kind(), ErrorKind::NotFound);
    let bare = SourceFile::new("/no/such".to_string(), PathKind::Missing, None, None);
    assert_eq!(failure(&bare).kind(), ErrorKind::NotFound);
}

#[test]
fn a_directory_is_not_a_file() {
    let directory = SourceFile::new(
        "/data/dir.csv".to_string(),
        PathKind::Other,
        Some("dir.csv".to_string()),
        Some("csv".to_string()),
    );
    let error = failure(&directory);
    assert_eq!(error.kind(), ErrorKind::NotAFile);
    assert_eq!(error.message(), "Path is not a file: /data/dir.csv");
}

#[test]
fn a_file_without_an_extension_has_no_format() {
    let error = failure(&file("/data/README"));
    assert_eq!(error.kind(), ErrorKind::UnsupportedFormat);
    assert_eq!(error.message(), "Unable to determine file type from extension");
}

#[test]
fn tabular_files_get_the_tabular_parser() {
    for path in ["/d/a.csv", "/d/a.CSV", "/d/a.Csv"] {
        match select_parser(&file(path)) {
            Ok(Parser::Tabular(parser)) => {
                assert!(parser.has_headers());
                assert_eq!(parser.delimiter(), b',');
                assert_eq!(parser.batch_size(), None);
            },
            other => panic!("{:?}", other),
        }
    }
}

#[test]
fn documents_get_the_document_parser() {
    for path in ["/d/a.pdf", "/d/a.PDF"] {
        match select_parser(&file(path)) {
            Ok(Parser::Paginated(parser)) => {
                assert!(!parser.extract_metadata());
                assert_eq!(parser.password(), None);
                assert_eq!(parser.batch_size(), None);
            },
            other => panic!("{:?}", other),
        }
    }
}

#[test]
fn a_parsed_file_gives_its_payload_alone() {
    let records = vec![
        vec![Field::new("n".to_string(), None)],
        vec![Field::new("1".to_string(), Some(1.0f64.to_bits()))],
    ];
    let payload = parse_with_parser(&CsvParser::new(), &file("/d/a.csv"), records).unwrap();
    assert_eq!(
        payload,
        Value::Array(vec![Value::Object(vec![("n".to_string(), Value::Integer(1))])])
    );
}

#[test]
fn a_path_of_another_format_fails_validation() {
    let result = parse_with_parser(&CsvParser::new(), &file("/d/a.pdf"), Vec::new());
    assert_eq!(result, Err("File validation failed for parser: /d/a.pdf".to_string()));
    let result = parse_with_parser(&PdfParser::new(), &file("/d/a.csv"), Ok(Vec::new()));
    assert_eq!(result, Err("File validation failed for parser: /d/a.csv".to_string()));
}

#[test]
fn a_failed_parse_is_told_with_the_path() {
    let result =
        parse_with_parser(&PdfParser::new(), &file("/d/a.pdf"), Err("wrong password".to_string()));
    assert_eq!(
        result,
        Err("Failed to parse file /d/a.pdf: PDF parsing error: wrong password".to_string())
    );
    let nameless =
        SourceFile::new("/d/a.csv".to_string(), PathKind::File, None, Some("csv".to_string()));
    let result = parse_with_parser(&CsvParser::new(), &nameless, Vec::new());
    assert_eq!(result, Err("Failed to parse file /d/a.csv: Invalid file path".to_string()));
}

#[test]
fn a_failure_is_described_with_the_path_before_it() {
    let error = ExtractionError::new(ErrorKind::Io, "IO error: denied".to_string());
    assert_eq!(
        describe_failure(&file("/d/a.csv"), &error),
        "Failed to parse file /d/a.csv: IO error: denied"
    );
}
