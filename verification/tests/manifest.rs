use leeklaunch::manifest::{parse_manifest, FileInfo, ManifestError, SizeField};
use leeklaunch::number::NumberError;

fn entry(filename: &str, md5_hash: &str, compressed_size: u64, uncompressed_size: u64) -> FileInfo {
    FileInfo {
        filename: filename.to_string(),
        md5_hash: md5_hash.to_string(),
        compressed_size,
        uncompressed_size,
    }
}

/// The same reading, done with what std offers for lines and numbers.
fn read_with_std(text: &str) -> Option<Vec<FileInfo>> {
    if text.lines().next() != Some("v0") {
        return None;
    }
    let body = text.lines().skip(1).collect::<Vec<_>>().join("\n");
    let mut lines = body.lines();
    let mut files = Vec::new();
    loop {
        let Some(filename) = lines.next() else { break };
        let Some(md5_hash) = lines.next() else { break };
        let Some(compressed) = lines.next() else { break };
        let Some(uncompressed) = lines.next() else { break };
        files.push(FileInfo {
            filename: filename.to_string(),
            md5_hash: md5_hash.to_string(),
            compressed_size: compressed.parse().ok()?,
            uncompressed_size: uncompressed.parse().ok()?,
        });
    }
    Some(files)
}

#[test]
fn two_entries_in_manifest_order() {
    let text = "v0\nfileA.zip\nhash1\n100\n200\nfileB.txt\nhash2\n50\n50\n";
    assert_eq!(
        parse_manifest(text),
        Ok(vec![entry("fileA.zip", "hash1", 100, 200), entry("fileB.txt", "hash2", 50, 50)])
    );
}

#[test]
fn other_version_is_rejected() {
    let text = "v1\nfileA.zip\nhash1\n100\n200\nfileB.txt\nhash2\n50\n50\n";
    assert_eq!(parse_manifest(text), Err(ManifestError::UnsupportedVersion));
}

#[test]
fn empty_text_has_no_version() {
    assert_eq!(parse_manifest(""), Err(ManifestError::UnsupportedVersion));
}

#[test]
fn version_must_match_exactly() {
    assert_eq!(parse_manifest("v0 \na\nb\n1\n2\n"), Err(ManifestError::UnsupportedVersion));
    assert_eq!(parse_manifest(" v0\na\nb\n1\n2\n"), Err(ManifestError::UnsupportedVersion));
    assert_eq!(parse_manifest("V0\na\nb\n1\n2\n"), Err(ManifestError::UnsupportedVersion));
    assert_eq!(parse_manifest("v00\na\nb\n1\n2\n"), Err(ManifestError::UnsupportedVersion));
    assert_eq!(parse_manifest("\nv0\na\nb\n1\n2\n"), Err(ManifestError::UnsupportedVersion));
}

#[test]
fn version_alone_is_an_empty_manifest() {
    assert_eq!(parse_manifest("v0"), Ok(vec![]));
    assert_eq!(parse_manifest("v0\n"), Ok(vec![]));
    assert_eq!(parse_manifest("v0\r\n"), Ok(vec![]));
}

#[test]
fn version_without_line_feed_keeps_its_carriage_return() {
    assert_eq!(parse_manifest("v0\r"), Err(ManifestError::UnsupportedVersion));
}

#[test]
fn lines_after_the_last_full_group_are_ignored() {
    assert_eq!(parse_manifest("v0\na\nb\n1\n2\nc\n"), Ok(vec![entry("a", "b", 1, 2)]));
    assert_eq!(parse_manifest("v0\na\nb\n1\n2\nc\nd\n"), Ok(vec![entry("a", "b", 1, 2)]));
    assert_eq!(parse_manifest("v0\na\nb\n1\n2\nc\nd\nx\n"), Ok(vec![entry("a", "b", 1, 2)]));
    assert_eq!(parse_manifest("v0\na\nb\n1\n"), Ok(vec![]));
}

#[test]
fn sizes_in_an_incomplete_group_are_not_read() {
    assert_eq!(parse_manifest("v0\na\nb\nnot a number\n"), Ok(vec![]));
}

#[test]
fn carriage_returns_before_line_feeds_are_dropped() {
    let text = "v0\r\nfile\r\nhash\r\n1\r\n2\r\n";
    assert_eq!(parse_manifest(text), Ok(vec![entry("file", "hash", 1, 2)]));
}

#[test]
fn a_second_carriage_return_is_dropped_from_all_but_the_last_line() {
    let text = "v0\nfile\r\r\nhash\r\r\n1\n2\n";
    assert_eq!(parse_manifest(text), Ok(vec![entry("file", "hash", 1, 2)]));
    let text = "v0\nfile\nhash\n1\n2\r\r\n";
    assert_eq!(
        parse_manifest(text),
        Err(ManifestError::InvalidSize {
            entry: 0,
            field: SizeField::Uncompressed,
            reason: NumberError::InvalidDigit,
        })
    );
}

#[test]
fn an_empty_last_line_does_not_count() {
    assert_eq!(parse_manifest("v0\nf\nh\n1\n\n"), Ok(vec![]));
    assert_eq!(
        parse_manifest("v0\nf\nh\n1\n\n\n"),
        Err(ManifestError::InvalidSize {
            entry: 0,
            field: SizeField::Uncompressed,
            reason: NumberError::Empty,
        })
    );
}

#[test]
fn empty_names_are_kept() {
    assert_eq!(parse_manifest("v0\n\n\n1\n2\n"), Ok(vec![entry("", "", 1, 2)]));
}

#[test]
fn the_first_bad_size_is_reported() {
    let text = "v0\na\nb\n1\n2\nc\nd\nx\ny\ne\nf\n\n9\n";
    assert_eq!(
        parse_manifest(text),
        Err(ManifestError::InvalidSize {
            entry: 1,
            field: SizeField::Compressed,
            reason: NumberError::InvalidDigit,
        })
    );
    let text = "v0\na\nb\n1\n-2\n";
    assert_eq!(
        parse_manifest(text),
        Err(ManifestError::InvalidSize {
            entry: 0,
            field: SizeField::Uncompressed,
            reason: NumberError::InvalidDigit,
        })
    );
    let text = "v0\na\nb\n18446744073709551616\n2\n";
    assert_eq!(
        parse_manifest(text),
        Err(ManifestError::InvalidSize {
            entry: 0,
            field: SizeField::Compressed,
            reason: NumberError::Overflow,
        })
    );
}

#[test]
fn largest_size_is_read() {
    let text = "v0\na\nb\n18446744073709551615\n+0\n";
    assert_eq!(parse_manifest(text), Ok(vec![entry("a", "b", u64::MAX, 0)]));
}

#[test]
fn names_may_hold_any_characters_but_line_feeds() {
    let text = "v0\ncontent-\u{e9}t\u{e9}.zip\n \thash \n007\n10\n";
    assert_eq!(
        parse_manifest(text),
        Ok(vec![entry("content-\u{e9}t\u{e9}.zip", " \thash ", 7, 10)])
    );
}

#[test]
fn written_manifest_is_read_back() {
    let entries = vec![
        entry("RobloxApp.zip", "0123456789abcdef", 0, u64::MAX),
        entry("", "", 12, 34),
        entry("a b", "c\rd", 5, 6),
    ];
    let mut text = String::from("v0\n");
    for e in &entries {
        text.push_str(&format!(
            "{}\n{}\n{}\n{}\n",
            e.filename, e.md5_hash, e.compressed_size, e.uncompressed_size
        ));
    }
    assert_eq!(parse_manifest(&text), Ok(entries));
}

#[test]
fn reading_agrees_with_std() {
    let texts = [
        "",
        "v0",
        "v0\n",
        "v0\r",
        "v0\r\n",
        "v1\na\nb\n1\n2\n",
        "v0\na\nb\n1\n2\n",
        "v0\na\nb\n1\n2",
        "v0\na\nb\n1\n2\r",
        "v0\na\nb\n1\n2\r\n",
        "v0\na\nb\n1\n2\r\r\n",
        "v0\na\r\r\nb\n1\n2\n",
        "v0\r\na\r\nb\r\n1\r\n2\r\n",
        "v0\na\nb\n1\n\n",
        "v0\na\nb\n1\n\n\n",
        "v0\na\nb\n1\n\r\n",
        "v0\na\nb\n1\n\r",
        "v0\n\n\n\n\n",
        "v0\n\n\n1\n2\n\n",
        "v0\na\nb\n1\n2\nc\n",
        "v0\na\nb\n1\n2\nc\nd\ne\n",
        "v0\na\nb\n1\n2\nc\nd\n3\n4\n",
        "v0\na\nb\n+1\n+2\n",
        "v0\na\nb\n 1\n2\n",
        "v0\na\nb\n1\n2 \n",
        "v0\na\nb\n18446744073709551615\n18446744073709551616\n",
        "v0\n\r\n\r\n\r\n\r\n",
        "v0\n\u{1F600}\n\u{e9}\n1\n2\n",
    ];
    for text in texts {
        assert_eq!(parse_manifest(text).ok(), read_with_std(text), "{:?}", text);
    }
}

#[test]
fn errors_say_what_is_wrong() {
    assert_eq!(ManifestError::UnsupportedVersion.message(), "Invalid manifest version");
    let error = ManifestError::InvalidSize {
        entry: 3,
        field: SizeField::Compressed,
        reason: NumberError::InvalidDigit,
    };
    assert_eq!(error.message(), "invalid digit found in string");
}
