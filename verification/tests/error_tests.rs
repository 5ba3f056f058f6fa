use mp3stitch::err_describe;
use mp3stitch::err_parsing;
use mp3stitch::Error;

#[test]
fn test_error_new() {
    let e = Error::new(Some(42), "failed to read id3v2 tag size");
    assert_eq!(e.position, Some(42));
    assert_eq!(e.description, "failed to read id3v2 tag size");
    let e = Error::new(None, "failed to read from input");
    assert_eq!(e.position, None);
}

#[test]
fn test_error_parsing() {
    let e = Error::parsing(7, "no id3v2 tag: we need to handle this");
    assert_eq!(e.position, Some(7));
    assert_eq!(e.description, "no id3v2 tag: we need to handle this");
}

#[test]
fn test_error_describe() {
    let e = Error::describe("failed to write to output");
    assert_eq!(e.position, None);
    assert_eq!(e.description, "failed to write to output");
}

#[test]
fn test_err_parsing_helper() {
    let r: Result<(), Error> = err_parsing(3, "failed to seek to id3v2 tag size");
    let e = r.unwrap_err();
    assert_eq!(e.position, Some(3));
    assert_eq!(e.description, "failed to seek to id3v2 tag size");
}

#[test]
fn test_err_describe_helper() {
    let r: Result<u64, Error> = err_describe("failed to get stream position at beginning of parsing");
    let e = r.unwrap_err();
    assert_eq!(e.position, None);
    assert_eq!(e.description, "failed to get stream position at beginning of parsing");
}
