//! What installing one file of a version writes to disk.
//!
//! A payload that is an archive is unpacked, member by member, into the
//! directory that the table of packages gives for the file's name. A payload
//! that is no archive is written as it is, under the file's name, into the
//! install directory.

use crate::archive::{
    archive_members, members_view, opens_as_archive, read_archive, Member, MemberView,
};
use crate::manifest::FileInfoView;
use crate::layout::{
    extraction_dir, extraction_location, install_dir, install_location, settings_location,
    settings_path, Location,
};
use crate::routes::{default_root, extraction_routes, route_for};
use vstd::prelude::*;
use vstd::string::StringSliceAdditionalSpecFns;

verus! {

/// One change to the disk.
#[derive(Clone, Debug, PartialEq, Eq)]
pub enum FileOp {
    /// Create the directory at `path`, and every directory above it that is
    /// missing.
    CreateDir { path: Location },
    /// Write `data` to the file at `path`, in place of what it holds. The
    /// directory of the file and every directory above it is created first,
    /// where it is missing.
    WriteFile { path: Location, data: Vec<u8> },
}

/// What a `FileOp` holds.
pub enum FileOpView {
    CreateDir { path: Seq<Seq<char>> },
    WriteFile { path: Seq<Seq<char>>, data: Seq<u8> },
}

impl View for FileOp {
    type V = FileOpView;

    open spec fn view(&self) -> FileOpView {
        match *self {
            FileOp::CreateDir { path } => FileOpView::CreateDir { path: path@ },
            FileOp::WriteFile { path, data } => FileOpView::WriteFile { path: path@, data: data@ },
        }
    }
}

/// What a list of `FileOp` holds.
pub open spec fn ops_view(ops: Seq<FileOp>) -> Seq<FileOpView> {
    ops.map_values(|op: FileOp| op@)
}

/// The changes that install one file, and whether they are all of them.
#[derive(Clone, Debug, PartialEq, Eq)]
pub struct Plan {
    /// The changes, in the order in which they are made.
    pub ops: Vec<FileOp>,
    /// `false` where the file is an archive with a member that cannot be
    /// read: the changes then end before that member.
    pub complete: bool,
}

/// What a `Plan` holds.
pub struct PlanView {
    pub ops: Seq<FileOpView>,
    pub complete: bool,
}

impl View for Plan {
    type V = PlanView;

    open spec fn view(&self) -> PlanView {
        PlanView { ops: ops_view(self.ops@), complete: self.complete }
    }
}

/// The changes that unpack `members` into the directory `root`.
///
/// The members are taken in their order. A directory is created. A file is
/// written below `root` at its own path, and the directories on that path
/// are created as needed. A member without a safe path is passed over. At
/// the first member that cannot be read the changes end.
pub open spec fn member_ops(root: Seq<Seq<char>>, members: Seq<MemberView>) -> Seq<FileOpView>
    decreases members.len(),
{
    if members.len() == 0 {
        Seq::empty()
    } else {
        match members[0] {
            MemberView::Unreadable => Seq::empty(),
            MemberView::Unsafe => member_ops(root, members.skip(1)),
            MemberView::Directory { name } => seq![
                FileOpView::CreateDir { path: root.push(name) },
            ] + member_ops(root, members.skip(1)),
            MemberView::File { name, data } => seq![
                FileOpView::WriteFile { path: root.push(name), data },
            ] + member_ops(root, members.skip(1)),
        }
    }
}

/// Whether every one of `members` can be read.
pub open spec fn all_readable(members: Seq<MemberView>) -> bool {
    forall|i: int| 0 <= i < members.len() ==> !((#[trigger] members[i]) is Unreadable)
}

/// What installing the archive `filename`, with the members `members`, of
/// the version stored under `token` changes.
pub open spec fn extraction_plan(
    token: Seq<char>,
    filename: Seq<char>,
    members: Seq<MemberView>,
) -> PlanView {
    PlanView {
        ops: member_ops(extraction_dir(token, filename), members),
        complete: all_readable(members),
    }
}

/// What installing the file `filename` of the version stored under `token`
/// changes where its payload is no archive: the payload is written as it is
/// to the file of that name in the install directory, which is created with
/// it where it is missing.
pub open spec fn raw_plan(token: Seq<char>, filename: Seq<char>, payload: Seq<u8>) -> PlanView {
    PlanView {
        ops: seq![
            FileOpView::WriteFile {
                path: install_dir(token).push(filename),
                data: payload,
            },
        ],
        complete: true,
    }
}

/// The text of the settings document that every installed version gets.
pub open spec fn settings_text() -> Seq<char> {
    "<Settings>\n<ContentFolder>content</ContentFolder>\n<BaseUrl>http://www.roblox.com</BaseUrl>\n</Settings>"@
}

/// The change that writes the settings document of the version stored under
/// `token`.
pub open spec fn settings_op(token: Seq<char>) -> FileOpView {
    FileOpView::WriteFile {
        path: settings_path(token),
        data: vstd::utf8::encode_utf8(settings_text()),
    }
}

/// Plans the unpacking of the archive `filename` of the version stored under
/// `token`, given its members.
pub fn plan_extraction(token: &str, filename: &str, members: Vec<Member>) -> (plan: Plan)
    ensures
        plan@ == extraction_plan(token@, filename@, members_view(members@)),
{
    let root = extraction_location(token, filename);
    let ghost all = members_view(members@);
    let ghost dir = extraction_dir(token@, filename@);
    let mut ops: Vec<FileOp> = Vec::new();
    let mut complete = true;
    assert(all.skip(0) =~= all);
    for member in it: members
        invariant
            it.seq() == members@,
            all == members_view(members@),
            root@ == dir,
            complete ==> member_ops(dir, all) == ops_view(ops@) + member_ops(
                dir,
                all.skip(it.index()),
            ),
            complete ==> forall|i: int| 0 <= i < it.index() ==> !((#[trigger] all[i]) is Unreadable),
            !complete ==> member_ops(dir, all) == ops_view(ops@),
            !complete ==> !all_readable(all),
    {
        let ghost rest = all.skip(it.index());
        let ghost before = ops_view(ops@);
        proof {
            assert(rest[0] == member@);
            assert(rest.skip(1) =~= all.skip(it.index() + 1));
        }
        if complete {
            match member {
                Member::Unreadable => {
                    complete = false;
                    proof {
                        assert(all[it.index()] is Unreadable);
                        assert(before + Seq::<FileOpView>::empty() =~= before);
                    }
                },
                Member::Unsafe => {},
                Member::Directory { name } => {
                    let op = FileOp::CreateDir { path: root.child(name.as_str()) };
                    ops.push(op);
                    proof {
                        assert(ops_view(ops@) =~= before + seq![op@]);
                        assert(before + (seq![op@] + member_ops(dir, rest.skip(1))) =~= (before
                            + seq![op@]) + member_ops(dir, rest.skip(1)));
                    }
                },
                Member::File { name, data } => {
                    let op = FileOp::WriteFile {
                        path: root.child(name.as_str()),
                        data,
                    };
                    ops.push(op);
                    proof {
                        assert(ops_view(ops@) =~= before + seq![op@]);
                        assert(before + (seq![op@] + member_ops(dir, rest.skip(1))) =~= (before
                            + seq![op@]) + member_ops(dir, rest.skip(1)));
                    }
                },
            }
        }
    }
    proof {
        if complete {
            assert(all.skip(all.len() as int) =~= Seq::empty());
            assert(ops_view(ops@) + Seq::<FileOpView>::empty() =~= ops_view(ops@));
        }
    }
    Plan { ops, complete }
}

/// Plans the writing of a payload that is no archive.
pub fn plan_raw(token: &str, filename: &str, payload: Vec<u8>) -> (plan: Plan)
    ensures
        plan@ == raw_plan(token@, filename@, payload@),
{
    let op = FileOp::WriteFile {
        path: install_location(token).child(filename),
        data: payload,
    };
    let mut ops: Vec<FileOp> = Vec::new();
    ops.push(op);
    let plan = Plan { ops, complete: true };
    assert(plan@.ops =~= raw_plan(token@, filename@, payload@).ops);
    plan
}

/// What installing the file `filename` of the version stored under `token`
/// changes, given its payload.
///
/// A payload that the reader does not take for an archive is written as it
/// is. One that it does is unpacked: the plan is the one for the members
/// that the reader finds in it.
pub open spec fn payload_plan(token: Seq<char>, filename: Seq<char>, payload: Seq<u8>) -> PlanView {
    match archive_members(payload) {
        Some(members) => extraction_plan(token, filename, members),
        None => raw_plan(token, filename, payload),
    }
}

/// Plans the installing of the file `filename` of the version stored under
/// `token`, given its payload.
pub fn plan_payload(token: &str, filename: &str, payload: Vec<u8>) -> (plan: Plan)
    ensures
        plan@ == payload_plan(token@, filename@, payload@),
{
    match read_archive(payload.as_slice()) {
        Some(members) => plan_extraction(token, filename, members),
        None => plan_raw(token, filename, payload),
    }
}

/// The change that writes the settings document of the version stored under
/// `token`.
pub fn plan_settings(token: &str) -> (op: FileOp)
    ensures
        op@ == settings_op(token@),
{
    let text = "<Settings>\n<ContentFolder>content</ContentFolder>\n<BaseUrl>http://www.roblox.com</BaseUrl>\n</Settings>";
    FileOp::WriteFile {
        path: settings_location(token),
        data: text.as_bytes_vec(),
    }
}

/// The place to which a change writes.
pub open spec fn op_path(op: FileOpView) -> Seq<Seq<char>> {
    match op {
        FileOpView::CreateDir { path } => path,
        FileOpView::WriteFile { path, .. } => path,
    }
}

/// Every file of an archive that is reached before a member that cannot be
/// read is written, with its own bytes, at its own path below the directory
/// that the archive is unpacked into.
pub proof fn lemma_file_member_written(root: Seq<Seq<char>>, members: Seq<MemberView>, i: int)
    requires
        0 <= i < members.len(),
        members[i] is File,
        forall|j: int| 0 <= j < i ==> !((#[trigger] members[j]) is Unreadable),
    ensures
        member_ops(root, members).contains(
            FileOpView::WriteFile {
                path: root.push(members[i]->File_name),
                data: members[i]->File_data,
            },
        ),
    decreases i,
{
    let op = FileOpView::WriteFile {
        path: root.push(members[i]->File_name),
        data: members[i]->File_data,
    };
    let tail = members.skip(1);
    if i == 0 {
        assert(member_ops(root, members)[0] == op);
    } else {
        assert(!(members[0] is Unreadable));
        assert(tail[i - 1] == members[i]);
        assert forall|j: int| 0 <= j < i - 1 implies !((#[trigger] tail[j]) is Unreadable) by {
            assert(tail[j] == members[j + 1]);
        }
        lemma_file_member_written(root, tail, i - 1);
        let k = choose|k: int| 0 <= k < member_ops(root, tail).len() && member_ops(root, tail)[k] == op;
        match members[0] {
            MemberView::Unsafe => {},
            _ => {
                assert(member_ops(root, members)[k + 1] == op);
            },
        }
    }
}

/// Unpacking changes nothing but what lies directly at a member's path below
/// the directory that the archive is unpacked into.
pub proof fn lemma_member_ops_below_root(root: Seq<Seq<char>>, members: Seq<MemberView>)
    ensures
        forall|k: int|
            0 <= k < member_ops(root, members).len() ==> {
                let path = op_path(#[trigger] member_ops(root, members)[k]);
                path.len() == root.len() + 1 && path.drop_last() == root
            },
    decreases members.len(),
{
    if members.len() > 0 {
        let tail = members.skip(1);
        lemma_member_ops_below_root(root, tail);
        assert forall|k: int| 0 <= k < member_ops(root, members).len() implies {
            let path = op_path(#[trigger] member_ops(root, members)[k]);
            path.len() == root.len() + 1 && path.drop_last() == root
        } by {
            match members[0] {
                MemberView::Unreadable => {},
                MemberView::Unsafe => {
                    assert(member_ops(root, members)[k] == member_ops(root, tail)[k]);
                },
                MemberView::Directory { name } => {
                    if k == 0 {
                        assert(member_ops(root, members)[0] == FileOpView::CreateDir {
                            path: root.push(name),
                        });
                        assert(root.push(name).drop_last() =~= root);
                    } else {
                        assert(member_ops(root, members)[k] == member_ops(root, tail)[k - 1]);
                    }
                },
                MemberView::File { name, data } => {
                    if k == 0 {
                        assert(member_ops(root, members)[0] == FileOpView::WriteFile {
                            path: root.push(name),
                            data,
                        });
                        assert(root.push(name).drop_last() =~= root);
                    } else {
                        assert(member_ops(root, members)[k] == member_ops(root, tail)[k - 1]);
                    }
                },
            }
        }
    }
}

/// The files of an archive that the table of packages names are written
/// below the directory that the table gives for it, inside the install
/// directory; those of any other archive are written below the install
/// directory itself. Either way each file lies at its own path there.
pub proof fn lemma_archive_files_follow_route(
    token: Seq<char>,
    filename: Seq<char>,
    members: Seq<MemberView>,
    i: int,
)
    requires
        0 <= i < members.len(),
        members[i] is File,
        forall|j: int| 0 <= j < i ==> !((#[trigger] members[j]) is Unreadable),
    ensures
        extraction_routes().dom().contains(filename) ==> extraction_plan(
            token,
            filename,
            members,
        ).ops.contains(
            FileOpView::WriteFile {
                path: seq![
                    "versions"@,
                    token,
                    extraction_routes()[filename],
                    members[i]->File_name,
                ],
                data: members[i]->File_data,
            },
        ),
        !extraction_routes().dom().contains(filename) ==> extraction_plan(
            token,
            filename,
            members,
        ).ops.contains(
            FileOpView::WriteFile {
                path: seq!["versions"@, token, default_root(), members[i]->File_name],
                data: members[i]->File_data,
            },
        ),
{
    let root = extraction_dir(token, filename);
    lemma_file_member_written(root, members, i);
    assert(root.push(members[i]->File_name) =~= seq![
        "versions"@,
        token,
        route_for(filename),
        members[i]->File_name,
    ]);
}

/// A payload that is no archive is written as it is, to the file of its
/// name in the install directory, and nothing else is changed.
pub proof fn lemma_raw_payload_written_verbatim(
    token: Seq<char>,
    filename: Seq<char>,
    payload: Seq<u8>,
)
    requires
        !opens_as_archive(payload),
    ensures
        payload_plan(token, filename, payload).complete,
        payload_plan(token, filename, payload).ops == seq![
            FileOpView::WriteFile { path: seq!["versions"@, token, filename], data: payload },
        ],
{
    assert(install_dir(token).push(filename) =~= seq!["versions"@, token, filename]);
}

/// The files of a payload that is an archive are written where the table of
/// packages sends them: each file that the reader reaches before a member
/// that it cannot read lies, with its own bytes, at its own path below the
/// directory that the table gives for the archive's name.
pub proof fn lemma_archive_payload_follows_route(
    token: Seq<char>,
    filename: Seq<char>,
    payload: Seq<u8>,
    i: int,
)
    requires
        opens_as_archive(payload),
        0 <= i < archive_members(payload)->0.len(),
        archive_members(payload)->0[i] is File,
        forall|j: int| 0 <= j < i ==> !((#[trigger] archive_members(payload)->0[j]) is Unreadable),
    ensures
        payload_plan(token, filename, payload).ops.contains(
            FileOpView::WriteFile {
                path: seq![
                    "versions"@,
                    token,
                    route_for(filename),
                    archive_members(payload)->0[i]->File_name,
                ],
                data: archive_members(payload)->0[i]->File_data,
            },
        ),
{
    let members = archive_members(payload)->0;
    lemma_file_member_written(extraction_dir(token, filename), members, i);
    assert(extraction_dir(token, filename).push(members[i]->File_name) =~= seq![
        "versions"@,
        token,
        route_for(filename),
        members[i]->File_name,
    ]);
}

/// What installing a file changes depends on the version's token, the
/// file's name and its payload, and on nothing else that the manifest says
/// of the file.
pub proof fn lemma_plan_ignores_checksum_and_sizes(
    token: Seq<char>,
    first: FileInfoView,
    second: FileInfoView,
    payload: Seq<u8>,
)
    requires
        first.filename == second.filename,
    ensures
        payload_plan(token, first.filename, payload) == payload_plan(
            token,
            second.filename,
            payload,
        ),
{
}

} // verus!
