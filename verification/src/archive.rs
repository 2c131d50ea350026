//! Archives, as far as unpacking reads them.
//!
//! The zip format is read by the `zip` crate. What it tells of an archive's
//! members is trusted as it is; which member is unpacked, which is passed
//! over and which is given up is decided here.

use std::io::Read;
use vstd::prelude::*;

verus! {

/// `zip::ZipArchive`, the reader of an archive. Nothing is known of what it
/// holds but what `archive_records` names.
#[verifier::external_type_specification]
#[verifier::external_body]
#[verifier::reject_recursive_types(R)]
pub struct ExZipArchive<R>(zip::ZipArchive<R>);

/// `std::io::Cursor`, through which the reader reads bytes in memory.
#[verifier::external_type_specification]
#[verifier::external_body]
#[verifier::reject_recursive_types(T)]
pub struct ExCursor<T>(std::io::Cursor<T>);

/// What the reader tells of one member of an archive.
pub struct MemberRecord {
    /// The member's name as a relative path that stays below the directory
    /// it is unpacked into, if its name is one, and whether the name is that
    /// of a directory. `None` where the reader does not open the member.
    pub header: Option<(Option<Seq<char>>, bool)>,
    /// The member's bytes, unpacked. `None` where the reader fails on them.
    pub data: Option<Seq<u8>>,
}

/// Whether the reader takes `bytes` for an archive: whether
/// `zip::ZipArchive::new` succeeds on them.
pub uninterp spec fn opens_as_archive(bytes: Seq<u8>) -> bool;

/// What the reader tells of the members of the archive that `bytes` are, in
/// the archive's order: what `archive_records` names for the archive that
/// `zip::ZipArchive::new` makes of them. The reader looks at nothing but the
/// bytes; which names are safe paths goes by the path rules of the platform
/// that the program is built for.
pub uninterp spec fn archive_contents(bytes: Seq<u8>) -> Seq<MemberRecord>;

/// What the reader tells of the members of `archive`, in the archive's
/// order: for the member at each index, what `by_index` and the methods of
/// the member that it opens return.
pub uninterp spec fn archive_records(archive: zip::ZipArchive<std::io::Cursor<&[u8]>>) -> Seq<
    MemberRecord,
>;

/// Calls `zip::ZipArchive::new` on `bytes`. An archive comes back exactly
/// where the reader takes the bytes for one, and its members are those that
/// the reader finds in the bytes.
#[verifier::external_body]
fn open_archive<'a>(bytes: &'a [u8]) -> (archive: Option<
    zip::ZipArchive<std::io::Cursor<&'a [u8]>>,
>)
    ensures
        archive is Some <==> opens_as_archive(bytes@),
        archive matches Some(opened) ==> archive_records(opened) == archive_contents(bytes@),
{
    zip::ZipArchive::new(std::io::Cursor::new(bytes)).ok()
}

/// Calls `zip::ZipArchive::len`: the number of members.
#[verifier::external_body]
fn member_count(archive: &zip::ZipArchive<std::io::Cursor<&[u8]>>) -> (count: usize)
    ensures
        count == archive_records(*archive).len(),
{
    archive.len()
}

/// Calls `zip::ZipArchive::by_index`, and on the member that it opens
/// `enclosed_name` and `is_dir`. The result is the header that the archive
/// has for that member; the path is made from the member's name, which is
/// text, so it is handed on as text. The archive's members stay what they
/// are.
#[verifier::external_body]
fn member_header(archive: &mut zip::ZipArchive<std::io::Cursor<&[u8]>>, index: usize) -> (header:
    Option<(Option<String>, bool)>)
    ensures
        archive_records(*final(archive)) == archive_records(*old(archive)),
        index < archive_records(*old(archive)).len() ==> header_view(header) == archive_records(
            *old(archive),
        )[index as int].header,
{
    let file = archive.by_index(index).ok()?;
    Some((file.enclosed_name().map(|path| path.to_string_lossy().into_owned()), file.is_dir()))
}

/// Calls `zip::ZipArchive::by_index`, and reads the member that it opens to
/// its end with `read_to_end`. The result is the bytes that the archive has
/// for that member. The archive's members stay what they are.
#[verifier::external_body]
fn member_data(archive: &mut zip::ZipArchive<std::io::Cursor<&[u8]>>, index: usize) -> (data:
    Option<Vec<u8>>)
    ensures
        archive_records(*final(archive)) == archive_records(*old(archive)),
        index < archive_records(*old(archive)).len() ==> data_view(data) == archive_records(
            *old(archive),
        )[index as int].data,
{
    let mut file = archive.by_index(index).ok()?;
    let mut data = Vec::new();
    file.read_to_end(&mut data).ok()?;
    Some(data)
}

/// What a header holds.
pub open spec fn header_view(header: Option<(Option<String>, bool)>) -> Option<
    (Option<Seq<char>>, bool),
> {
    match header {
        None => None,
        Some((None, directory)) => Some((None, directory)),
        Some((Some(name), directory)) => Some((Some(name@), directory)),
    }
}

/// What a member's bytes hold.
pub open spec fn data_view(data: Option<Vec<u8>>) -> Option<Seq<u8>> {
    match data {
        None => None,
        Some(bytes) => Some(bytes@),
    }
}

/// One member of an archive, as unpacking treats it.
#[derive(Clone, Debug, PartialEq, Eq)]
pub enum Member {
    /// The member cannot be opened, or its bytes cannot be read.
    Unreadable,
    /// The member's name is no relative path that stays below the directory
    /// it is unpacked into.
    Unsafe,
    /// A directory, with its path.
    Directory { name: String },
    /// A file, with its path and its bytes.
    File { name: String, data: Vec<u8> },
}

/// What a `Member` holds.
pub enum MemberView {
    Unreadable,
    Unsafe,
    Directory { name: Seq<char> },
    File { name: Seq<char>, data: Seq<u8> },
}

impl View for Member {
    type V = MemberView;

    open spec fn view(&self) -> MemberView {
        match *self {
            Member::Unreadable => MemberView::Unreadable,
            Member::Unsafe => MemberView::Unsafe,
            Member::Directory { name } => MemberView::Directory { name: name@ },
            Member::File { name, data } => MemberView::File { name: name@, data: data@ },
        }
    }
}

/// What a list of `Member` holds.
pub open spec fn members_view(members: Seq<Member>) -> Seq<MemberView> {
    members.map_values(|member: Member| member@)
}

/// How unpacking treats the member of which the reader tells `record`.
///
/// A member that does not open is unreadable. One without a safe path is
/// unsafe, whatever else it is. One whose name is that of a directory is a
/// directory, and its bytes are not asked for. Any other is a file, and
/// unreadable where its bytes are.
pub open spec fn member_of(record: MemberRecord) -> MemberView {
    match record.header {
        None => MemberView::Unreadable,
        Some((None, _)) => MemberView::Unsafe,
        Some((Some(name), true)) => MemberView::Directory { name },
        Some((Some(name), false)) => match record.data {
            None => MemberView::Unreadable,
            Some(data) => MemberView::File { name, data },
        },
    }
}

/// The members of what the reader tells in `records`.
pub open spec fn members_of(records: Seq<MemberRecord>) -> Seq<MemberView> {
    records.map_values(|record: MemberRecord| member_of(record))
}

/// How unpacking treats member `index` of `archive`.
fn read_member(archive: &mut zip::ZipArchive<std::io::Cursor<&[u8]>>, index: usize) -> (member:
    Member)
    requires
        index < archive_records(*old(archive)).len(),
    ensures
        archive_records(*final(archive)) == archive_records(*old(archive)),
        member@ == member_of(archive_records(*old(archive))[index as int]),
{
    match member_header(archive, index) {
        None => Member::Unreadable,
        Some((None, _)) => Member::Unsafe,
        Some((Some(name), true)) => Member::Directory { name },
        Some((Some(name), false)) => match member_data(archive, index) {
            None => Member::Unreadable,
            Some(data) => Member::File { name, data },
        },
    }
}

/// The members of `archive`, in the archive's order.
fn read_members(archive: &mut zip::ZipArchive<std::io::Cursor<&[u8]>>) -> (members: Vec<Member>)
    ensures
        archive_records(*final(archive)) == archive_records(*old(archive)),
        members_view(members@) == members_of(archive_records(*old(archive))),
{
    let count = member_count(archive);
    let ghost records = archive_records(*archive);
    let mut members: Vec<Member> = Vec::new();
    let mut index: usize = 0;
    while index < count
        invariant
            records == archive_records(*archive),
            records == archive_records(*old(archive)),
            count == records.len(),
            index <= count,
            members@.len() == index,
            forall|i: int| 0 <= i < index ==> (#[trigger] members@[i])@ == member_of(records[i]),
        decreases count - index,
    {
        let member = read_member(archive, index);
        members.push(member);
        index = index + 1;
    }
    assert(members_view(members@) =~= members_of(records));
    members
}

/// The members of the archive that `bytes` are, where they are one.
pub open spec fn archive_members(bytes: Seq<u8>) -> Option<Seq<MemberView>> {
    if opens_as_archive(bytes) {
        Some(members_of(archive_contents(bytes)))
    } else {
        None
    }
}

/// What an optional list of `Member` holds.
pub open spec fn optional_members_view(members: Option<Vec<Member>>) -> Option<Seq<MemberView>> {
    match members {
        None => None,
        Some(found) => Some(members_view(found@)),
    }
}

/// Reads `bytes` as an archive.
///
/// The result is `Some` exactly where the reader takes the bytes for an
/// archive, and then holds the archive's members in their order, each as
/// unpacking treats it.
pub fn read_archive(bytes: &[u8]) -> (members: Option<Vec<Member>>)
    ensures
        optional_members_view(members) == archive_members(bytes@),
{
    match open_archive(bytes) {
        None => None,
        Some(archive) => {
            let mut archive = archive;
            Some(read_members(&mut archive))
        },
    }
}

} // verus!
