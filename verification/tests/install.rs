use leeklaunch::archive::{read_archive, Member};
use leeklaunch::install::{plan_extraction, plan_payload, plan_raw, plan_settings, FileOp, Plan};
use leeklaunch::layout::Location;
use std::io::{Cursor, Write};
use zip::write::SimpleFileOptions;
use zip::{CompressionMethod, ZipWriter};

fn place(segments: &[&str]) -> Location {
    Location { segments: segments.iter().map(|s| s.to_string()).collect() }
}

fn write(segments: &[&str], data: &[u8]) -> FileOp {
    FileOp::WriteFile { path: place(segments), data: data.to_vec() }
}

fn file(name: &str, data: &[u8]) -> Member {
    Member::File { name: name.to_string(), data: data.to_vec() }
}

fn directory(name: &str) -> Member {
    Member::Directory { name: name.to_string() }
}

/// An archive with the given members; a name that ends in a slash is a
/// directory.
fn archive(members: &[(&str, &[u8])], method: CompressionMethod) -> Vec<u8> {
    let mut writer = ZipWriter::new(Cursor::new(Vec::new()));
    let options = SimpleFileOptions::default().compression_method(method);
    for (name, data) in members {
        if name.ends_with('/') {
            writer.add_directory(name.to_string(), options).unwrap();
        } else {
            writer.start_file(name.to_string(), options).unwrap();
            writer.write_all(data).unwrap();
        }
    }
    writer.finish().unwrap().into_inner()
}

#[test]
fn payload_that_is_no_archive_is_written_as_it_is() {
    let payload = b"MZ\x90\x00 not an archive".to_vec();
    assert_eq!(
        plan_payload("version-abc123", "RobloxPlayerInstaller.exe", payload.clone()),
        Plan {
            ops: vec![write(
                &["versions", "version-abc123", "RobloxPlayerInstaller.exe"],
                &payload)],
            complete: true,
        }
    );
}

#[test]
fn empty_payload_is_written_as_it_is() {
    assert_eq!(
        plan_payload("t", "empty.bin", Vec::new()),
        Plan { ops: vec![write(&["versions", "t", "empty.bin"], b"")], complete: true }
    );
}

#[test]
fn raw_plan_ignores_the_table_of_packages() {
    assert_eq!(
        plan_raw("t", "shaders.zip", b"abc".to_vec()),
        Plan { ops: vec![write(&["versions", "t", "shaders.zip"], b"abc")], complete: true }
    );
}

#[test]
fn named_archive_is_unpacked_into_its_directory() {
    let payload = archive(
        &[("a.txt", b"alpha"), ("sub/", b""), ("sub/b.bin", b"\x00\x01\x02")],
        CompressionMethod::Stored,
    );
    let plan = plan_payload("version-abc123", "shaders.zip", payload);
    assert_eq!(
        plan,
        Plan {
            ops: vec![
                write(&["versions", "version-abc123", "./shaders", "a.txt"], b"alpha"),
                FileOp::CreateDir {
                    path: place(&["versions", "version-abc123", "./shaders", "sub/"])
                },
                write(
                    &["versions", "version-abc123", "./shaders", "sub/b.bin"],
                    b"\x00\x01\x02"),
            ],
            complete: true,
        }
    );
}

#[test]
fn other_archive_is_unpacked_into_the_install_directory() {
    let payload = archive(&[("a.txt", b"alpha")], CompressionMethod::Stored);
    assert_eq!(
        plan_payload("version-abc123", "fileA.zip", payload),
        Plan {
            ops: vec![write(&["versions", "version-abc123", "./", "a.txt"], b"alpha")],
            complete: true,
        }
    );
}

#[test]
fn deflated_members_are_unpacked() {
    let text = vec![b'x'; 10_000];
    let payload = archive(&[("big.txt", &text)], CompressionMethod::Deflated);
    assert!(payload.len() < text.len());
    assert_eq!(
        plan_payload("t", "content-fonts.zip", payload),
        Plan {
            ops: vec![write(&["versions", "t", "./content/fonts", "big.txt"], &text)],
            complete: true,
        }
    );
}

#[test]
fn members_that_leave_the_directory_are_passed_over() {
    let payload = archive(
        &[
            ("../evil.txt", b"1"),
            ("/etc/evil.txt", b"2"),
            ("a/../../evil.txt", b"3"),
            ("good.txt", b"4"),
            ("a/../still-good.txt", b"5"),
        ],
        CompressionMethod::Stored,
    );
    assert_eq!(
        plan_payload("t", "ssl.zip", payload),
        Plan {
            ops: vec![
                write(&["versions", "t", "./ssl", "good.txt"], b"4"),
                write(&["versions", "t", "./ssl", "a/../still-good.txt"], b"5"),
            ],
            complete: true,
        }
    );
}

#[test]
fn empty_archive_changes_nothing() {
    let payload = archive(&[], CompressionMethod::Stored);
    assert_eq!(plan_payload("t", "ssl.zip", payload), Plan { ops: vec![], complete: true });
}

#[test]
fn archive_members_are_read_in_order() {
    let payload = archive(
        &[("b.txt", b"2"), ("dir/", b""), ("../up", b"x"), ("a.txt", b"1")],
        CompressionMethod::Stored,
    );
    assert_eq!(
        read_archive(&payload),
        Some(vec![file("b.txt", b"2"), directory("dir/"), Member::Unsafe, file("a.txt", b"1")])
    );
}

#[test]
fn bytes_that_are_no_archive_are_not_read() {
    assert_eq!(read_archive(b""), None);
    assert_eq!(read_archive(b"plain text"), None);
    assert_eq!(read_archive(b"PK\x03\x04 but nothing more"), None);
}

#[test]
fn damaged_member_is_unreadable() {
    let mut payload = archive(&[("a.txt", b"alpha"), ("b.txt", b"beta")], CompressionMethod::Stored);
    let at = payload.windows(5).position(|w| w == b"alpha").unwrap();
    payload[at] = b'A';
    assert_eq!(read_archive(&payload), Some(vec![Member::Unreadable, file("b.txt", b"beta")]));
    assert_eq!(plan_payload("t", "ssl.zip", payload), Plan { ops: vec![], complete: false });
}

#[test]
fn unpacking_ends_before_the_first_unreadable_member() {
    let members = vec![
        file("a.txt", b"1"),
        Member::Unsafe,
        directory("d/"),
        Member::Unreadable,
        file("b.txt", b"2"),
    ];
    assert_eq!(
        plan_extraction("t", "redist.zip", members),
        Plan {
            ops: vec![
                write(&["versions", "t", "./", "a.txt"], b"1"),
                FileOp::CreateDir { path: place(&["versions", "t", "./", "d/"]) },
            ],
            complete: false,
        }
    );
}

#[test]
fn unpacking_all_members() {
    let members = vec![directory("x/"), file("x/y", b"z"), Member::Unsafe];
    assert_eq!(
        plan_extraction("tok", "extracontent-models.zip", members),
        Plan {
            ops: vec![
                FileOp::CreateDir { path: place(&["versions", "tok", "./ExtraContent/models", "x/"]) },
                write(&["versions", "tok", "./ExtraContent/models", "x/y"], b"z"),
            ],
            complete: true,
        }
    );
    assert_eq!(plan_extraction("tok", "a.zip", vec![]), Plan { ops: vec![], complete: true });
}

#[test]
fn settings_document_is_fixed() {
    let expected = "<Settings>\n<ContentFolder>content</ContentFolder>\n<BaseUrl>http://www.roblox.com</BaseUrl>\n</Settings>";
    assert_eq!(
        plan_settings("version-abc123"),
        write(&["versions", "version-abc123", "AppSettings.xml"], expected.as_bytes())
    );
}
