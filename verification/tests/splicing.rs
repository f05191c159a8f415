use docx_you_want::{splice_once, Error};

#[test]
fn test_splice_once_unique() {
    assert_eq!(splice_once("ab!X!cd", "!X!", "Z"), Ok(String::from("abZcd")));
    assert_eq!(splice_once("!X!", "!X!", ""), Ok(String::new()));
}

#[test]
fn test_splice_zero_occurrences_is_fatal() {
    assert_eq!(splice_once("abcd", "!X!", "Z"), Err(Error::IoError));
    assert_eq!(splice_once("", "!X!", "Z"), Err(Error::IoError));
}

#[test]
fn test_splice_multiple_occurrences_is_fatal() {
    assert_eq!(splice_once("!X!a!X!", "!X!", "Z"), Err(Error::IoError));
    assert_eq!(splice_once("!X!!X!", "!X!", "Z"), Err(Error::IoError));
}

#[test]
fn test_splice_overlapping_token() {
    // "aaa" holds two occurrences of "aa" for a left-to-right scan.
    assert_eq!(splice_once("aaa", "aa", "b"), Err(Error::IoError));
}

#[test]
fn test_write_to_file() {
    assert_eq!(
        splice_once("<doc>!INSERT_HERE!</doc>", "!INSERT_HERE!", "<p></p>"),
        Ok(String::from("<doc><p></p></doc>")),
    );
}
