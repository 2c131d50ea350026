//! The package manifest of a version: which files it is made of.
//!
//! A manifest is text. Its first line names the layout and must be `v0`. The
//! lines after it are joined by line feeds and read as lines once more, so
//! that each of them but the last loses a carriage return at its end and an
//! empty last line does not count. They come in groups of four: a file's
//! name, its checksum, its compressed size and its uncompressed size. Lines
//! left over after the last full group are ignored.

use crate::lines::{
    join_lines, lemma_lines_hold_no_line_feed, lemma_reread_lines, lemma_split_first_line,
    line_spans, no_line_feed, settle_spans, settled_lines, spans_of, spans_within, split_lines,
    strip_cr, Span,
};
use crate::number::{
    is_digit, lemma_parse_rendered_size, lemma_render_size, parse_size_in, parse_size_spec,
    render_size, NumberError,
};
use crate::text::chars_of;
use vstd::prelude::*;

verus! {

/// One file of a version, as the manifest describes it. The checksum is
/// carried along and compared with nothing.
#[derive(Clone, Debug, PartialEq, Eq)]
pub struct FileInfo {
    pub filename: String,
    pub md5_hash: String,
    pub compressed_size: u64,
    pub uncompressed_size: u64,
}

/// What a `FileInfo` holds.
pub struct FileInfoView {
    pub filename: Seq<char>,
    pub md5_hash: Seq<char>,
    pub compressed_size: nat,
    pub uncompressed_size: nat,
}

impl View for FileInfo {
    type V = FileInfoView;

    open spec fn view(&self) -> FileInfoView {
        FileInfoView {
            filename: self.filename@,
            md5_hash: self.md5_hash@,
            compressed_size: self.compressed_size as nat,
            uncompressed_size: self.uncompressed_size as nat,
        }
    }
}

/// What a list of `FileInfo` holds.
pub open spec fn manifest_view(files: Seq<FileInfo>) -> Seq<FileInfoView> {
    files.map_values(|file: FileInfo| file@)
}

/// One of the two sizes of a manifest entry.
#[derive(Clone, Copy, Debug, PartialEq, Eq, Structural)]
pub enum SizeField {
    Compressed,
    Uncompressed,
}

/// Why a text is no manifest.
#[derive(Clone, Copy, Debug, PartialEq, Eq, Structural)]
pub enum ManifestError {
    /// The first line is not `v0`, or there is no line at all.
    UnsupportedVersion,
    /// A size of the entry with index `entry`, counted from zero, is no
    /// number.
    InvalidSize { entry: usize, field: SizeField, reason: NumberError },
}

/// What a `ManifestError` says, with the entry's index as a natural number.
pub enum ManifestFault {
    UnsupportedVersion,
    InvalidSize { entry: nat, field: SizeField, reason: NumberError },
}

impl View for ManifestError {
    type V = ManifestFault;

    open spec fn view(&self) -> ManifestFault {
        match *self {
            ManifestError::UnsupportedVersion => ManifestFault::UnsupportedVersion,
            ManifestError::InvalidSize { entry, field, reason } => ManifestFault::InvalidSize {
                entry: entry as nat,
                field,
                reason,
            },
        }
    }
}

impl ManifestError {
    /// What the error says, in words: that the version is another, or why
    /// the size is no number.
    pub open spec fn message_spec(self) -> Seq<char> {
        match self {
            ManifestError::UnsupportedVersion => "Invalid manifest version"@,
            ManifestError::InvalidSize { reason, .. } => reason.message_spec(),
        }
    }

    /// What the error says, in words.
    pub fn message(&self) -> (text: String)
        ensures
            text@ == self.message_spec(),
    {
        match self {
            ManifestError::UnsupportedVersion => "Invalid manifest version".to_owned(),
            ManifestError::InvalidSize { reason, .. } => reason.message(),
        }
    }
}

/// The first line of every manifest that is understood.
pub open spec fn supported_version() -> Seq<char> {
    seq!['v', '0']
}

/// Whether `text` begins with the line `v0`.
pub open spec fn has_supported_version(text: Seq<char>) -> bool {
    split_lines(text).len() > 0 && split_lines(text)[0] == supported_version()
}

/// The lines of `text` in which the entries stand: the lines after the first,
/// joined by line feeds and read as lines once more.
pub open spec fn manifest_body(text: Seq<char>) -> Seq<Seq<char>> {
    split_lines(join_lines(split_lines(text).skip(1)))
}

/// What is wrong with the group of four lines that begins at line `4 * i` of
/// `body`, if anything: the compressed size is looked at first.
pub open spec fn group_fault(body: Seq<Seq<char>>, i: int) -> Option<ManifestFault> {
    match parse_size_spec(body[4 * i + 2]) {
        Err(reason) => Some(
            ManifestFault::InvalidSize { entry: i as nat, field: SizeField::Compressed, reason },
        ),
        Ok(_) => match parse_size_spec(body[4 * i + 3]) {
            Err(reason) => Some(
                ManifestFault::InvalidSize {
                    entry: i as nat,
                    field: SizeField::Uncompressed,
                    reason,
                },
            ),
            Ok(_) => None,
        },
    }
}

/// The entry that the group of four lines beginning at line `4 * i` of `body`
/// describes, where both of its sizes are numbers.
pub open spec fn entry_at(body: Seq<Seq<char>>, i: int) -> FileInfoView {
    FileInfoView {
        filename: body[4 * i],
        md5_hash: body[4 * i + 1],
        compressed_size: parse_size_spec(body[4 * i + 2])->Ok_0 as nat,
        uncompressed_size: parse_size_spec(body[4 * i + 3])->Ok_0 as nat,
    }
}

/// Whether group `i` is the first full group of `body` with something wrong.
pub open spec fn is_first_fault(body: Seq<Seq<char>>, i: int) -> bool {
    &&& 0 <= i < body.len() / 4
    &&& group_fault(body, i) is Some
    &&& forall|j: int| 0 <= j < i ==> (#[trigger] group_fault(body, j)) is None
}

/// The entries that `body` describes: one for each full group of four lines,
/// in their order. Where a full group has something wrong, the result is what
/// is wrong with the first such group.
pub open spec fn parse_body(body: Seq<Seq<char>>) -> Result<Seq<FileInfoView>, ManifestFault> {
    if exists|i: int| is_first_fault(body, i) {
        Err(group_fault(body, choose|i: int| is_first_fault(body, i))->0)
    } else {
        Ok(Seq::new(body.len() / 4, |i: int| entry_at(body, i)))
    }
}

/// The entries that the manifest `text` describes, or why it is no manifest.
pub open spec fn parse_manifest_spec(text: Seq<char>) -> Result<Seq<FileInfoView>, ManifestFault> {
    if has_supported_version(text) {
        parse_body(manifest_body(text))
    } else {
        Err(ManifestFault::UnsupportedVersion)
    }
}

/// At most one group is the first with something wrong.
pub proof fn lemma_first_fault_unique(body: Seq<Seq<char>>, i: int, j: int)
    requires
        is_first_fault(body, i),
        is_first_fault(body, j),
    ensures
        i == j,
{
    if i < j {
        assert(group_fault(body, i) is None);
    } else if j < i {
        assert(group_fault(body, j) is None);
    }
}

/// Where the lines of the body of the manifest `chars` stand in it: `None`
/// where the first line is not `v0`.
fn body_spans(chars: &Vec<char>) -> (rows: Option<Vec<Span>>)
    ensures
        rows is Some <==> has_supported_version(chars@),
        rows matches Some(rows) ==> spans_within(rows@, chars@.len()) && spans_of(rows@, chars@)
            == manifest_body(chars@),
{
    let mut spans = line_spans(chars);
    if spans.len() == 0 {
        return None;
    }
    let head = spans[0];
    let ghost lines = split_lines(chars@);
    assert(lines[0] == head.of(chars@));
    if head.end - head.start != 2 || chars[head.start] != 'v' || chars[head.start + 1] != '0' {
        assert(lines[0] != supported_version()) by {
            if head.end - head.start == 2 {
                assert(lines[0][0] == chars@[head.start as int]);
                assert(lines[0][1] == chars@[head.start + 1]);
            }
        }
        return None;
    }
    assert(lines[0] =~= supported_version());
    spans.remove(0);
    proof {
        assert(spans_of(spans@, chars@) =~= lines.skip(1));
        lemma_lines_hold_no_line_feed(chars@);
        lemma_reread_lines(lines.skip(1));
    }
    Some(settle_spans(chars, &spans))
}

/// Reads the entry that group `g` of the lines at `rows` describes.
fn read_entry(text: &str, chars: &Vec<char>, rows: &Vec<Span>, g: usize) -> (result: Result<
    FileInfo,
    ManifestError,
>)
    requires
        chars@ == text@,
        spans_within(rows@, chars@.len()),
        4 * g + 3 < rows.len(),
    ensures
        match result {
            Ok(file) => group_fault(spans_of(rows@, chars@), g as int) is None && file@
                == entry_at(spans_of(rows@, chars@), g as int),
            Err(error) => group_fault(spans_of(rows@, chars@), g as int) == Some(error@),
        },
{
    let ghost body = spans_of(rows@, chars@);
    let name = rows[4 * g];
    let hash = rows[4 * g + 1];
    let packed = rows[4 * g + 2];
    let unpacked = rows[4 * g + 3];
    proof {
        assert(body[4 * g] == name.of(chars@));
        assert(body[4 * g + 1] == hash.of(chars@));
        assert(body[4 * g + 2] == packed.of(chars@));
        assert(body[4 * g + 3] == unpacked.of(chars@));
    }
    let compressed_size = match parse_size_in(chars, packed.start, packed.end) {
        Ok(size) => size,
        Err(reason) => {
            return Err(
                ManifestError::InvalidSize { entry: g, field: SizeField::Compressed, reason },
            );
        },
    };
    let uncompressed_size = match parse_size_in(chars, unpacked.start, unpacked.end) {
        Ok(size) => size,
        Err(reason) => {
            return Err(
                ManifestError::InvalidSize { entry: g, field: SizeField::Uncompressed, reason },
            );
        },
    };
    let filename = text.substring_char(name.start, name.end).to_owned();
    let md5_hash = text.substring_char(hash.start, hash.end).to_owned();
    Ok(FileInfo { filename, md5_hash, compressed_size, uncompressed_size })
}

/// Reads a manifest.
///
/// The result is `Ok` exactly where the first line is `v0` and both sizes of
/// every full group of four lines after it are numbers; it then holds one
/// entry for each such group, in the manifest's order. Otherwise the error
/// says that the first line is another, or names the first entry, and of it
/// the first size, that is no number.
pub fn parse_manifest(text: &str) -> (result: Result<Vec<FileInfo>, ManifestError>)
    ensures
        match result {
            Ok(files) => parse_manifest_spec(text@) == Ok::<Seq<FileInfoView>, ManifestFault>(
                manifest_view(files@),
            ),
            Err(error) => parse_manifest_spec(text@) == Err::<Seq<FileInfoView>, ManifestFault>(
                error@,
            ),
        },
{
    let chars = chars_of(text);
    let rows = match body_spans(&chars) {
        Some(rows) => rows,
        None => {
            return Err(ManifestError::UnsupportedVersion);
        },
    };
    let ghost body = manifest_body(text@);
    let groups: usize = rows.len() / 4;
    let mut files: Vec<FileInfo> = Vec::new();
    let mut g: usize = 0;
    while g < groups
        invariant
            chars@ == text@,
            has_supported_version(text@),
            body == manifest_body(text@),
            body == spans_of(rows@, chars@),
            spans_within(rows@, chars@.len()),
            groups == rows.len() / 4,
            g <= groups,
            files@.len() == g,
            forall|j: int| 0 <= j < g ==> (#[trigger] group_fault(body, j)) is None,
            forall|j: int| 0 <= j < g ==> (#[trigger] files@[j])@ == entry_at(body, j),
        decreases groups - g,
    {
        match read_entry(text, &chars, &rows, g) {
            Ok(file) => {
                files.push(file);
            },
            Err(error) => {
                proof {
                    assert(is_first_fault(body, g as int));
                    lemma_first_fault_unique(
                        body,
                        g as int,
                        choose|i: int| is_first_fault(body, i),
                    );
                }
                return Err(error);
            },
        }
        g = g + 1;
    }
    proof {
        assert(!exists|i: int| is_first_fault(body, i));
        assert(manifest_view(files@) =~= Seq::new(body.len() / 4, |i: int| entry_at(body, i)));
    }
    Ok(files)
}

/// A line that reading leaves as it is: it holds no line feed and does not
/// end in a carriage return.
pub open spec fn plain_line(line: Seq<char>) -> bool {
    no_line_feed(line) && (line.len() == 0 || line.last() != '\r')
}

/// The four lines that describe `entry`.
pub open spec fn entry_lines(entry: FileInfoView) -> Seq<Seq<char>> {
    seq![
        entry.filename,
        entry.md5_hash,
        render_size(entry.compressed_size),
        render_size(entry.uncompressed_size),
    ]
}

/// The lines that describe `entries`, four for each, in their order.
pub open spec fn entries_lines(entries: Seq<FileInfoView>) -> Seq<Seq<char>>
    decreases entries.len(),
{
    if entries.len() == 0 {
        Seq::empty()
    } else {
        entry_lines(entries[0]) + entries_lines(entries.skip(1))
    }
}

/// `lines` as text, a line feed after each.
pub open spec fn render_lines(lines: Seq<Seq<char>>) -> Seq<char>
    decreases lines.len(),
{
    if lines.len() == 0 {
        Seq::empty()
    } else {
        lines[0] + seq!['\n'] + render_lines(lines.skip(1))
    }
}

/// The manifest that describes `entries`: the line `v0`, then four lines for
/// each entry, a line feed after every line.
pub open spec fn render_manifest(entries: Seq<FileInfoView>) -> Seq<char> {
    render_lines(seq![supported_version()] + entries_lines(entries))
}

/// Whether `entry` can stand in a manifest: its name and checksum are plain
/// lines and its sizes fit in 64 bits.
pub open spec fn renderable(entry: FileInfoView) -> bool {
    &&& plain_line(entry.filename)
    &&& plain_line(entry.md5_hash)
    &&& entry.compressed_size <= u64::MAX
    &&& entry.uncompressed_size <= u64::MAX
}

/// A written number is a plain line.
pub proof fn lemma_rendered_size_is_plain(n: nat)
    ensures
        plain_line(render_size(n)),
        render_size(n).len() > 0,
{
    lemma_render_size(n);
    let s = render_size(n);
    assert forall|i: int| 0 <= i < s.len() implies s[i] != '\n' && s[i] != '\r' by {
        assert(is_digit(s[i]));
    }
}

/// Line `4 * i + k` of the lines that describe `entries` is line `k` of the
/// four that describe entry `i`.
pub proof fn lemma_entries_lines(entries: Seq<FileInfoView>)
    ensures
        entries_lines(entries).len() == 4 * entries.len(),
        forall|i: int, k: int|
            0 <= i < entries.len() && 0 <= k < 4 ==> #[trigger] entries_lines(entries)[4 * i + k]
                == entry_lines(entries[i])[k],
    decreases entries.len(),
{
    if entries.len() > 0 {
        let tail = entries.skip(1);
        lemma_entries_lines(tail);
        assert forall|i: int, k: int| 0 <= i < entries.len() && 0 <= k < 4 implies #[trigger] entries_lines(
            entries,
        )[4 * i + k] == entry_lines(entries[i])[k] by {
            if i > 0 {
                assert(entries_lines(entries)[4 * i + k] == entries_lines(tail)[4 * (i - 1) + k]);
                assert(tail[i - 1] == entries[i]);
            }
        }
    }
}

/// The lines of text written from lines without line feeds are those lines,
/// each less a carriage return at its end.
pub proof fn lemma_split_rendered_lines(lines: Seq<Seq<char>>)
    requires
        forall|i: int| 0 <= i < lines.len() ==> no_line_feed(#[trigger] lines[i]),
    ensures
        split_lines(render_lines(lines)) == lines.map_values(|line: Seq<char>| strip_cr(line)),
    decreases lines.len(),
{
    if lines.len() == 0 {
        assert(split_lines(render_lines(lines)) =~= lines.map_values(
            |line: Seq<char>| strip_cr(line),
        ));
    } else {
        let tail = lines.skip(1);
        assert forall|i: int| 0 <= i < tail.len() implies no_line_feed(#[trigger] tail[i]) by {
            assert(tail[i] == lines[i + 1]);
        }
        lemma_split_rendered_lines(tail);
        lemma_split_first_line(lines[0], render_lines(tail));
        assert(split_lines(render_lines(lines)) =~= lines.map_values(
            |line: Seq<char>| strip_cr(line),
        ));
    }
}

/// The lines that describe entries that can stand in a manifest are plain,
/// and the last of them is not empty.
pub proof fn lemma_entries_lines_plain(entries: Seq<FileInfoView>)
    requires
        forall|i: int| 0 <= i < entries.len() ==> renderable(#[trigger] entries[i]),
    ensures
        forall|r: int|
            0 <= r < entries_lines(entries).len() ==> plain_line(
                #[trigger] entries_lines(entries)[r],
            ),
        entries_lines(entries).len() > 0 ==> entries_lines(entries).last().len() > 0,
{
    let rows = entries_lines(entries);
    lemma_entries_lines(entries);
    assert forall|r: int| 0 <= r < rows.len() implies plain_line(#[trigger] rows[r]) && (r % 4
        == 3 ==> rows[r].len() > 0) by {
        let i = r / 4;
        let k = r % 4;
        assert(rows[4 * i + k] == entry_lines(entries[i])[k]);
        assert(renderable(entries[i]));
        lemma_rendered_size_is_plain(entries[i].compressed_size);
        lemma_rendered_size_is_plain(entries[i].uncompressed_size);
    }
    if rows.len() > 0 {
        let last = rows.len() - 1;
        assert(plain_line(rows[last]) && (last % 4 == 3 ==> rows[last].len() > 0));
    }
}

/// Plain lines of which the last is not empty stay as they are when they
/// are read once more.
pub proof fn lemma_plain_lines_settled(rows: Seq<Seq<char>>)
    requires
        forall|r: int| 0 <= r < rows.len() ==> plain_line(#[trigger] rows[r]),
        rows.len() > 0 ==> rows.last().len() > 0,
    ensures
        split_lines(join_lines(rows)) == rows,
{
    assert forall|r: int| 0 <= r < rows.len() implies no_line_feed(#[trigger] rows[r]) by {
        assert(plain_line(rows[r]));
    }
    lemma_reread_lines(rows);
    if rows.len() > 0 {
        let front = rows.drop_last();
        assert forall|r: int| 0 <= r < front.len() implies strip_cr(#[trigger] front[r])
            == front[r] by {
            assert(plain_line(rows[r]));
        }
        assert(front.map_values(|line: Seq<char>| strip_cr(line)) =~= front);
        assert(settled_lines(rows) =~= rows);
    }
}

/// The lines of a written manifest are `v0` and the lines that describe its
/// entries.
pub proof fn lemma_rendered_manifest_lines(entries: Seq<FileInfoView>)
    requires
        forall|i: int| 0 <= i < entries.len() ==> renderable(#[trigger] entries[i]),
    ensures
        split_lines(render_manifest(entries)) == seq![supported_version()] + entries_lines(
            entries,
        ),
{
    let rows = entries_lines(entries);
    let all = seq![supported_version()] + rows;
    lemma_entries_lines_plain(entries);
    assert forall|r: int| 0 <= r < all.len() implies no_line_feed(#[trigger] all[r]) && strip_cr(
        all[r],
    ) == all[r] by {
        if r > 0 {
            assert(all[r] == rows[r - 1]);
            assert(plain_line(rows[r - 1]));
        }
    }
    lemma_split_rendered_lines(all);
    assert(all.map_values(|line: Seq<char>| strip_cr(line)) =~= all);
}

/// The lines that describe entries that can stand in a manifest are read as
/// those entries.
pub proof fn lemma_parse_entries_lines(entries: Seq<FileInfoView>)
    requires
        forall|i: int| 0 <= i < entries.len() ==> renderable(#[trigger] entries[i]),
    ensures
        parse_body(entries_lines(entries)) == Ok::<Seq<FileInfoView>, ManifestFault>(entries),
{
    let rows = entries_lines(entries);
    lemma_entries_lines(entries);
    assert forall|i: int| 0 <= i < entries.len() implies (#[trigger] group_fault(rows, i)) is None
        && entry_at(rows, i) == entries[i] by {
        assert(rows[4 * i + 0] == entry_lines(entries[i])[0]);
        assert(rows[4 * i + 1] == entry_lines(entries[i])[1]);
        assert(rows[4 * i + 2] == entry_lines(entries[i])[2]);
        assert(rows[4 * i + 3] == entry_lines(entries[i])[3]);
        assert(renderable(entries[i]));
        lemma_parse_rendered_size(entries[i].compressed_size);
        lemma_parse_rendered_size(entries[i].uncompressed_size);
    }
    assert(!exists|i: int| is_first_fault(rows, i));
    let read = Seq::new(rows.len() / 4, |i: int| entry_at(rows, i));
    assert forall|i: int| 0 <= i < entries.len() implies #[trigger] read[i] == entries[i] by {
        assert(group_fault(rows, i) is None);
    }
    assert(read =~= entries);
}

/// Every manifest that is written as `v0` and four lines for each entry is
/// read as those entries, in their order.
pub proof fn lemma_parse_rendered_manifest(entries: Seq<FileInfoView>)
    requires
        forall|i: int| 0 <= i < entries.len() ==> renderable(#[trigger] entries[i]),
    ensures
        parse_manifest_spec(render_manifest(entries)) == Ok::<Seq<FileInfoView>, ManifestFault>(
            entries,
        ),
{
    let rows = entries_lines(entries);
    let text = render_manifest(entries);
    lemma_rendered_manifest_lines(entries);
    assert(split_lines(text).skip(1) =~= rows);
    assert(split_lines(text)[0] == supported_version());
    lemma_entries_lines_plain(entries);
    lemma_plain_lines_settled(rows);
    lemma_parse_entries_lines(entries);
}

/// A text whose first line is not `v0` is no manifest, whatever follows.
pub proof fn lemma_other_version_rejected(text: Seq<char>)
    requires
        !has_supported_version(text),
    ensures
        parse_manifest_spec(text) == Err::<Seq<FileInfoView>, ManifestFault>(
            ManifestFault::UnsupportedVersion,
        ),
{
}

/// Where a text is read as a manifest, it has one entry for each full group
/// of four lines of its body, in the body's order, and the fields of each
/// entry are the lines of its group.
pub proof fn lemma_entries_follow_lines(text: Seq<char>)
    requires
        parse_manifest_spec(text) is Ok,
    ensures
        has_supported_version(text),
        parse_manifest_spec(text)->Ok_0.len() == manifest_body(text).len() / 4,
        forall|i: int|
            #![trigger parse_manifest_spec(text)->Ok_0[i]]
            0 <= i < manifest_body(text).len() / 4 ==> {
                let entry = parse_manifest_spec(text)->Ok_0[i];
                let body = manifest_body(text);
                &&& entry.filename == body[4 * i]
                &&& entry.md5_hash == body[4 * i + 1]
                &&& parse_size_spec(body[4 * i + 2]) == Ok::<u64, NumberError>(
                    entry.compressed_size as u64,
                )
                &&& parse_size_spec(body[4 * i + 3]) == Ok::<u64, NumberError>(
                    entry.uncompressed_size as u64,
                )
            },
{
    let body = manifest_body(text);
    assert forall|i: int| 0 <= i < body.len() / 4 implies (#[trigger] group_fault(body, i))
        is None by {
        lemma_all_groups_sound(body, i);
    }
    assert forall|i: int| 0 <= i < body.len() / 4 implies {
        let entry = #[trigger] parse_manifest_spec(text)->Ok_0[i];
        &&& entry == entry_at(body, i)
        &&& parse_size_spec(body[4 * i + 2]) is Ok
        &&& parse_size_spec(body[4 * i + 3]) is Ok
    } by {
        assert(group_fault(body, i) is None);
    }
}

/// Where no group is the first with something wrong, nothing is wrong with
/// any full group.
pub proof fn lemma_all_groups_sound(body: Seq<Seq<char>>, i: int)
    requires
        !exists|k: int| is_first_fault(body, k),
        0 <= i < body.len() / 4,
    ensures
        group_fault(body, i) is None,
    decreases i,
{
    if group_fault(body, i) is Some {
        assert forall|j: int| 0 <= j < i implies (#[trigger] group_fault(body, j)) is None by {
            lemma_all_groups_sound(body, j);
        }
        assert(is_first_fault(body, i));
    }
}

/// Lines after the last full group of four are ignored: the body is read as
/// its full groups alone are, and where they are sound the result holds as
/// many entries as there are full groups.
pub proof fn lemma_incomplete_group_ignored(body: Seq<Seq<char>>)
    ensures
        parse_body(body) == parse_body(body.take(4 * (body.len() as int / 4))),
        parse_body(body) matches Ok(entries) ==> entries.len() == body.len() / 4,
{
    let full = body.take(4 * (body.len() as int / 4));
    assert(full.len() / 4 == body.len() / 4);
    assert forall|i: int| 0 <= i < body.len() / 4 implies #[trigger] group_fault(full, i)
        == group_fault(body, i) && entry_at(full, i) == entry_at(body, i) by {
        assert(full[4 * i] == body[4 * i]);
        assert(full[4 * i + 1] == body[4 * i + 1]);
        assert(full[4 * i + 2] == body[4 * i + 2]);
        assert(full[4 * i + 3] == body[4 * i + 3]);
    }
    assert forall|i: int| is_first_fault(full, i) == is_first_fault(body, i) by {
        if 0 <= i < body.len() / 4 {
            assert(group_fault(full, i) == group_fault(body, i));
            if is_first_fault(full, i) {
                assert forall|j: int| 0 <= j < i implies (#[trigger] group_fault(body, j))
                    is None by {
                    assert(group_fault(full, j) == group_fault(body, j));
                }
            }
            if is_first_fault(body, i) {
                assert forall|j: int| 0 <= j < i implies (#[trigger] group_fault(full, j))
                    is None by {
                    assert(group_fault(full, j) == group_fault(body, j));
                }
            }
        }
    }
    if exists|i: int| is_first_fault(body, i) {
        let a = choose|i: int| is_first_fault(body, i);
        assert(is_first_fault(full, a));
        let b = choose|i: int| is_first_fault(full, i);
        assert(is_first_fault(body, b));
        lemma_first_fault_unique(body, a, b);
    } else {
        assert(!exists|i: int| is_first_fault(full, i));
        assert(Seq::new(full.len() / 4, |i: int| entry_at(full, i)) =~= Seq::new(
            body.len() / 4,
            |i: int| entry_at(body, i),
        ));
    }
}

} // verus!
