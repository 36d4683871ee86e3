//! Removable drives, recognised by their filesystem UUID.
//!
//! A drive labelled "Backup" is mounted at `/media/alex/Backup` today and at
//! `/media/alex/Backup1` tomorrow if another drive with the same label came
//! first. A backup remembers the drive's UUID and a path inside it, and
//! looks up where that drive is mounted now. Reading `/proc/self/mountinfo`
//! and `/dev/disk/by-*` is the application's part; making sense of what they
//! hold is done here.

use vstd::prelude::*;
use crate::number::{parse_u8_radix, parse_u8_radix_chars};
use crate::path::{file_name, file_name_of, path_starts_with, same_path, same_path_chars,
    starts_with_path, strip_prefix, strip_prefix_of};
use crate::split::{lines, lines_of, views, words, words_of};
use crate::text::{chars_of, find, has_prefix, occurs_at, same, slice, starts_with, string_of};

verus! {

/// A mounted removable drive.
#[derive(Debug, Clone, PartialEq, Eq)]
pub struct Drive {
    pub uuid: String,
    /// The filesystem label, or the mount point's name when there is none.
    pub label: String,
    pub mount_point: String,
}

impl Drive {
    /// A copy of this drive.
    pub fn duplicate(&self) -> (r: Drive)
        ensures
            r == *self,
    {
        Drive {
            uuid: self.uuid.clone(),
            label: self.label.clone(),
            mount_point: self.mount_point.clone(),
        }
    }
}

/// The text `String::from_utf8_lossy` makes of `bytes`.
pub uninterp spec fn lossy_text(bytes: Seq<u8>) -> Seq<char>;

/// `String::from_utf8_lossy`: valid UTF-8 is decoded as it stands; what
/// is not is replaced with U+FFFD.
#[verifier::external_body]
fn text_from_bytes(bytes: &[u8]) -> (r: String)
    ensures
        r@ == lossy_text(bytes@),
        vstd::utf8::valid_utf8(bytes@) ==> r@ == vstd::utf8::decode_utf8(bytes@),
{
    String::from_utf8_lossy(bytes).into_owned()
}

/// Bytes read as the characters with the same numbers.
pub open spec fn latin(b: Seq<u8>) -> Seq<char> {
    b.map_values(|x: u8| x as char)
}

/// The text `\x` and `\NNN` escapes stand for undone, as bytes: `\x` and two
/// hex digits, or `\` and three octal digits, each become the byte they
/// write; a `\` followed by anything else stays.
pub open spec fn unescaped(b: Seq<u8>) -> Seq<u8>
    decreases b.len(),
{
    if b.len() == 0 {
        Seq::empty()
    } else if b[0] == 92 && b.len() >= 4 && b[1] == 120 && parse_u8_radix(
        latin(b.subrange(2, 4)),
        16,
    ) is Some {
        seq![parse_u8_radix(latin(b.subrange(2, 4)), 16)->0] + unescaped(b.skip(4))
    } else if b[0] == 92 && b.len() >= 4 && parse_u8_radix(latin(b.subrange(1, 4)), 8) is Some {
        seq![parse_u8_radix(latin(b.subrange(1, 4)), 8)->0] + unescaped(b.skip(4))
    } else {
        seq![b[0]] + unescaped(b.skip(1))
    }
}

/// The characters for bytes `b[lo..hi]`, each read on its own.
fn latin_of(b: &[u8], lo: usize, hi: usize) -> (r: Vec<char>)
    requires
        lo <= hi <= b@.len(),
    ensures
        r@ == latin(b@.subrange(lo as int, hi as int)),
{
    let mut r: Vec<char> = Vec::new();
    let mut i = lo;
    while i < hi
        invariant
            lo <= i <= hi <= b@.len(),
            r@ == latin(b@.subrange(lo as int, i as int)),
        decreases hi - i,
    {
        r.push(b[i] as char);
        assert(latin(b@.subrange(lo as int, i + 1)) =~= latin(b@.subrange(lo as int, i as int)).push(
            b@[i as int] as char,
        ));
        i = i + 1;
    }
    r
}

/// The bytes of `text` with the kernel's and udev's escapes undone.
#[verifier::rlimit(50)]
fn unescape_bytes(b: &[u8]) -> (r: Vec<u8>)
    ensures
        r@ == unescaped(b@),
{
    let mut out: Vec<u8> = Vec::new();
    let mut i: usize = 0;
    assert(b@.skip(0) =~= b@);
    while i < b.len()
        invariant
            i <= b@.len(),
            out@ + unescaped(b@.skip(i as int)) == unescaped(b@),
        decreases b@.len() - i,
    {
        let ghost rest = b@.skip(i as int);
        if b[i] == 92 && b.len() - i >= 4 {
            assert(rest.subrange(2, 4) =~= b@.subrange(i + 2, i + 4));
            assert(rest.subrange(1, 4) =~= b@.subrange(i + 1, i + 4));
            assert(rest.skip(4) =~= b@.skip(i + 4));
            if b[i + 1] == 120 {
                let hex = latin_of(b, i + 2, i + 4);
                if let Some(value) = parse_u8_radix_chars(hex.as_slice(), 16) {
                    let ghost before = out@;
                    out.push(value);
                    assert(out@ + unescaped(b@.skip(i + 4)) =~= before + unescaped(rest));
                    i = i + 4;
                    continue;
                }
            }
            let oct = latin_of(b, i + 1, i + 4);
            if let Some(value) = parse_u8_radix_chars(oct.as_slice(), 8) {
                let ghost before = out@;
                out.push(value);
                assert(out@ + unescaped(b@.skip(i + 4)) =~= before + unescaped(rest));
                i = i + 4;
                continue;
            }
        }
        let ghost before = out@;
        out.push(b[i]);
        assert(rest.skip(1) =~= b@.skip(i + 1));
        assert(out@ + unescaped(b@.skip(i + 1)) =~= before + unescaped(rest));
        i = i + 1;
    }
    out
}

/// `text` with escapes undone, as text.
pub open spec fn unescape_spec(text: Seq<char>) -> Seq<char> {
    lossy_text(unescaped(vstd::utf8::encode_utf8(text)))
}

/// Undoes the escaping the kernel and udev use: `\040` (octal) in mountinfo,
/// `\x20` (hex) in `/dev/disk/by-label`.
pub fn unescape(text: &str) -> (r: String)
    ensures
        r@ == unescape_spec(text@),
{
    let b = text.as_bytes();
    let out = unescape_bytes(b);
    text_from_bytes(out.as_slice())
}

/// The name the last of `links` for the same device as `device` gives it,
/// as a map built from `links` keeps it.
///
/// Devices are compared as paths, by their components, as a map keyed by
/// `Path` compares them (`/dev//sda` is `/dev/sda`); a map keyed by the text
/// would tell those apart, so the links are kept as they come and searched
/// from the last.
pub open spec fn link_for(links: Seq<(String, String)>, device: Seq<char>) -> Option<Seq<char>>
    decreases links.len(),
{
    if links.len() == 0 {
        None
    } else if same_path(links.last().1@, device) {
        Some(links.last().0@)
    } else {
        link_for(links.drop_last(), device)
    }
}

/// The name `links` gives `device`.
fn find_link(links: &[(String, String)], device: &[char]) -> (r: Option<String>)
    ensures
        match r {
            Some(name) => link_for(links@, device@) == Some(name@),
            None => link_for(links@, device@) is None,
        },
{
    let mut i: usize = links.len();
    assert(links@.subrange(0, links@.len() as int) =~= links@);
    while i > 0
        invariant
            i <= links@.len(),
            link_for(links@.subrange(0, i as int), device@) == link_for(links@, device@),
        decreases i,
    {
        let ghost pre = links@.subrange(0, i as int);
        assert(pre.drop_last() =~= links@.subrange(0, i - 1));
        let dev = chars_of(links[i - 1].1.as_str());
        if same_path_chars(dev.as_slice(), device) {
            return Some(links[i - 1].0.clone());
        }
        i = i - 1;
    }
    None
}

/// Where removable media is mounted on desktop Linux.
pub open spec fn removable_root(mount_point: Seq<char>) -> bool {
    has_prefix(mount_point, "/media/"@) || has_prefix(mount_point, "/run/media/"@)
}

/// The place ` - ` first stands in `line`, which separates a mountinfo
/// line's fields from its filesystem's.
pub open spec fn separator_at(line: Seq<char>, i: int) -> bool {
    occurs_at(line, " - "@, i) && forall|j: int| 0 <= j < i ==> !occurs_at(line, " - "@, j)
}

/// The drive one mountinfo line describes, if it is a removable drive with
/// a UUID: its UUID, its label and its mount point.
pub open spec fn drive_of_line(
    line: Seq<char>,
    by_uuid: Seq<(String, String)>,
    by_label: Seq<(String, String)>,
) -> Option<(Seq<char>, Seq<char>, Seq<char>)> {
    if exists|i: int| separator_at(line, i) {
        let i = choose|i: int| separator_at(line, i);
        let before = words(line.subrange(0, i));
        let after = words(line.subrange(i + 3, line.len() as int));
        if before.len() > 4 && after.len() > 1 {
            let mount_point = unescape_spec(before[4]);
            let device = after[1];
            match link_for(by_uuid, device) {
                Some(uuid) => if removable_root(mount_point) {
                    let label = match link_for(by_label, device) {
                        Some(label) => label,
                        None => match file_name(mount_point) {
                            Some(name) => name,
                            None => uuid,
                        },
                    };
                    Some((uuid, label, mount_point))
                } else {
                    None
                },
                None => None,
            }
        } else {
            None
        }
    } else {
        None
    }
}

/// The mount point (unescaped) and the mounted device one mountinfo line
/// names: the fifth field before ` - ` and the second after it.
pub open spec fn line_fields(line: Seq<char>) -> Option<(Seq<char>, Seq<char>)> {
    if exists|i: int| separator_at(line, i) {
        let i = choose|i: int| separator_at(line, i);
        let before = words(line.subrange(0, i));
        let after = words(line.subrange(i + 3, line.len() as int));
        if before.len() > 4 && after.len() > 1 {
            Some((unescape_spec(before[4]), after[1]))
        } else {
            None
        }
    } else {
        None
    }
}

/// The name the last of `links` for the device `device` gives it.
proof fn lemma_the_last_link_names(links: Seq<(String, String)>, device: Seq<char>, k: int)
    requires
        0 <= k < links.len(),
        same_path(links[k].1@, device),
        forall|m: int| k < m < links.len() ==> !same_path(#[trigger] links[m].1@, device),
    ensures
        link_for(links, device) == Some(links[k].0@),
    decreases links.len(),
{
    if k < links.len() - 1 {
        let rest = links.drop_last();
        assert forall|m: int| k < m < rest.len() implies !same_path(#[trigger] rest[m].1@, device) by {
            assert(rest[m] == links[m]);
        }
        assert(rest[k] == links[k]);
        lemma_the_last_link_names(rest, device, k);
        assert(!same_path(links[links.len() - 1].1@, device));
    }
}

/// No link for `device` names nothing.
proof fn lemma_no_link_names_nothing(links: Seq<(String, String)>, device: Seq<char>)
    requires
        forall|m: int| 0 <= m < links.len() ==> !same_path(#[trigger] links[m].1@, device),
    ensures
        link_for(links, device) is None,
    decreases links.len(),
{
    if links.len() > 0 {
        let rest = links.drop_last();
        assert forall|m: int| 0 <= m < rest.len() implies !same_path(#[trigger] rest[m].1@, device) by {
            assert(rest[m] == links[m]);
        }
        lemma_no_link_names_nothing(rest, device);
        assert(!same_path(links[links.len() - 1].1@, device));
    }
}

/// A drive is shown by its filesystem label: where a `by-label` link points
/// at its device, the drive takes that link's name (the last such link's,
/// as a map built from them keeps it), whatever its mount point is called.
pub proof fn lemma_a_labelled_drive_shows_its_label(
    line: Seq<char>,
    by_uuid: Seq<(String, String)>,
    by_label: Seq<(String, String)>,
    k: int,
)
    requires
        drive_of_line(line, by_uuid, by_label) is Some,
        line_fields(line) matches Some((_, device)) && 0 <= k < by_label.len() && same_path(
            by_label[k].1@,
            device,
        ) && forall|m: int| k < m < by_label.len() ==> !same_path(#[trigger] by_label[m].1@, device),
    ensures
        (drive_of_line(line, by_uuid, by_label)->0).1 == by_label[k].0@,
{
    let device = (line_fields(line)->0).1;
    lemma_the_last_link_names(by_label, device, k);
}

/// Only a drive with no `by-label` link is shown by its mount point's name
/// (or, where that has none, by its UUID).
pub proof fn lemma_an_unlabelled_drive_shows_its_mount_point(
    line: Seq<char>,
    by_uuid: Seq<(String, String)>,
    by_label: Seq<(String, String)>,
)
    requires
        drive_of_line(line, by_uuid, by_label) is Some,
        line_fields(line) matches Some((_, device)) && forall|m: int|
            0 <= m < by_label.len() ==> !same_path(#[trigger] by_label[m].1@, device),
    ensures
        ({
            let (uuid, label, mount_point) = drive_of_line(line, by_uuid, by_label)->0;
            &&& mount_point == (line_fields(line)->0).0
            &&& label == match file_name(mount_point) {
                Some(name) => name,
                None => uuid,
            }
        }),
{
    let device = (line_fields(line)->0).1;
    lemma_no_link_names_nothing(by_label, device);
}

/// The drives the lines `lines` describe, in order.
pub open spec fn drives_of_lines(
    lines: Seq<Seq<char>>,
    by_uuid: Seq<(String, String)>,
    by_label: Seq<(String, String)>,
) -> Seq<(Seq<char>, Seq<char>, Seq<char>)>
    decreases lines.len(),
{
    if lines.len() == 0 {
        Seq::empty()
    } else {
        let before = drives_of_lines(lines.drop_last(), by_uuid, by_label);
        match drive_of_line(lines.last(), by_uuid, by_label) {
            Some(d) => before.push(d),
            None => before,
        }
    }
}

/// A drive as its three texts.
pub open spec fn drive_view(d: Drive) -> (Seq<char>, Seq<char>, Seq<char>) {
    (d.uuid@, d.label@, d.mount_point@)
}

/// The drive `line` describes.
fn drive_from_line(line: &[char], by_uuid: &[(String, String)], by_label: &[(String, String)]) -> (r:
    Option<Drive>)
    ensures
        match r {
            Some(d) => drive_of_line(line@, by_uuid@, by_label@) == Some(drive_view(d)),
            None => drive_of_line(line@, by_uuid@, by_label@) is None,
        },
{
    let sep = chars_of(" - ");
    proof {
        reveal_strlit(" - ");
    }
    let i = match find(line, sep.as_slice()) {
        Some(i) => i,
        None => {
            assert(!exists|i: int| separator_at(line@, i));
            return None;
        },
    };
    assert(separator_at(line@, i as int));
    assert(" - "@.len() == 3);
    let n = line.len();
    assert(i + 3 <= n);
    assert(forall|j: int| separator_at(line@, j) ==> j == i) by {
        assert forall|j: int| separator_at(line@, j) implies j == i by {
            if j < i {
            } else if j > i {
                assert(occurs_at(line@, " - "@, i as int));
            }
        }
    }
    let before = words_of(slice(line, 0, i).as_slice());
    let after = words_of(slice(line, i + 3, n).as_slice());
    if before.len() <= 4 || after.len() <= 1 {
        return None;
    }
    let mount_point = unescape(string_of(before[4].as_slice()).as_str());
    let device = &after[1];
    assert(views(after@)[1] == device@);
    assert(views(before@)[4] == before@[4]@);
    let uuid = match find_link(by_uuid, device.as_slice()) {
        Some(uuid) => uuid,
        None => return None,
    };
    let mp = chars_of(mount_point.as_str());
    let removable = starts_with(mp.as_slice(), chars_of("/media/").as_slice()) || starts_with(
        mp.as_slice(),
        chars_of("/run/media/").as_slice(),
    );
    if !removable {
        return None;
    }
    let label = match find_link(by_label, device.as_slice()) {
        Some(label) => label,
        None => match file_name_of(mp.as_slice()) {
            Some(name) => string_of(name.as_slice()),
            None => uuid.clone(),
        },
    };
    Some(Drive { uuid, label, mount_point })
}

/// The removable drives that `/proc/self/mountinfo`'s text `mountinfo`
/// shows mounted, given `/dev/disk/by-uuid` and `/dev/disk/by-label` as
/// `(name, device)` links.
pub fn drives_from(by_uuid: &[(String, String)], by_label: &[(String, String)], mountinfo: &str) -> (r:
    Vec<Drive>)
    ensures
        r@.map_values(|d: Drive| drive_view(d)) == drives_of_lines(
            lines(mountinfo@),
            by_uuid@,
            by_label@,
        ),
{
    let text = chars_of(mountinfo);
    let all = lines_of(text.as_slice());
    let ghost ls = views(all@);
    let mut r: Vec<Drive> = Vec::new();
    let mut k: usize = 0;
    assert(ls.subrange(0, 0) =~= Seq::<Seq<char>>::empty());
    while k < all.len()
        invariant
            k <= all@.len(),
            ls == views(all@),
            ls == lines(mountinfo@),
            r@.map_values(|d: Drive| drive_view(d)) == drives_of_lines(
                ls.subrange(0, k as int),
                by_uuid@,
                by_label@,
            ),
        decreases all@.len() - k,
    {
        let ghost next = ls.subrange(0, k + 1);
        assert(next.drop_last() =~= ls.subrange(0, k as int));
        assert(next.last() == all@[k as int]@);
        let ghost before = r@.map_values(|d: Drive| drive_view(d));
        match drive_from_line(all[k].as_slice(), by_uuid, by_label) {
            Some(d) => {
                r.push(d);
                assert(r@.map_values(|d: Drive| drive_view(d)) =~= before.push(drive_view(r@.last())));
            },
            None => {},
        }
        k = k + 1;
    }
    assert(ls.subrange(0, all@.len() as int) =~= ls);
    r
}

/// `path` lies on the drive mounted at `mount_point`.
pub open spec fn on_drive(path: Seq<char>, d: Drive) -> bool {
    path_starts_with(path, d.mount_point@)
}

/// The byte length of the mount point, which decides between drives
/// mounted inside one another.
pub open spec fn mount_len(d: Drive) -> usize {
    vstd::utf8::encode_utf8(d.mount_point@).len() as usize
}

/// `k` is the drive `locate` picks for `path`: a drive `path` lies on, with
/// the longest mount point, and the last of several as long.
pub open spec fn best_drive(drives: Seq<Drive>, path: Seq<char>, k: int) -> bool {
    &&& 0 <= k < drives.len()
    &&& on_drive(path, drives[k])
    &&& forall|j: int| 0 <= j < drives.len() && on_drive(path, drives[j]) ==> mount_len(drives[j]) <= mount_len(drives[k])
    &&& forall|j: int| k < j < drives.len() && on_drive(path, drives[j]) ==> mount_len(drives[j]) < mount_len(drives[k])
}

/// At most one drive is the one `locate` picks.
pub proof fn lemma_best_drive_unique(drives: Seq<Drive>, path: Seq<char>, k: int, j: int)
    requires
        best_drive(drives, path, k),
        best_drive(drives, path, j),
    ensures
        k == j,
{
}

/// The removable drive `path` is on, and the path relative to its root: the
/// drive with the longest mount point that `path` lies under.
pub fn locate(drives: &[Drive], path: &str) -> (r: Option<(Drive, String)>)
    ensures
        match r {
            Some((d, rel)) => exists|k: int|
                best_drive(drives@, path@, k) && d == drives@[k] && strip_prefix(
                    path@,
                    d.mount_point@,
                ) == Some(rel@),
            None => forall|j: int| 0 <= j < drives@.len() ==> !on_drive(path@, #[trigger] drives@[j]),
        },
{
    let p = chars_of(path);
    let mut best: Option<usize> = None;
    let mut best_len: usize = 0;
    let mut i: usize = 0;
    while i < drives.len()
        invariant
            i <= drives@.len(),
            p@ == path@,
            match best {
                Some(k) => k < i && on_drive(path@, drives@[k as int]) && best_len == mount_len(drives@[k as int])
                    && (forall|j: int| 0 <= j < i && on_drive(path@, drives@[j]) ==> mount_len(drives@[j]) <= best_len)
                    && (forall|j: int| k < j < i && on_drive(path@, drives@[j]) ==> mount_len(drives@[j]) < best_len),
                None => forall|j: int| 0 <= j < i ==> !on_drive(path@, #[trigger] drives@[j]),
            },
        decreases drives@.len() - i,
    {
        let m = chars_of(drives[i].mount_point.as_str());
        if starts_with_path(p.as_slice(), m.as_slice()) {
            let len = drives[i].mount_point.as_str().len();
            assert(len == mount_len(drives@[i as int]));
            assert(on_drive(path@, drives@[i as int]));
            match best {
                Some(_) => {
                    if len >= best_len {
                        best = Some(i);
                        best_len = len;
                    }
                },
                None => {
                    best = Some(i);
                    best_len = len;
                },
            }
        }
        i = i + 1;
    }
    match best {
        Some(k) => {
            let m = chars_of(drives[k].mount_point.as_str());
            let rel = match strip_prefix_of(p.as_slice(), m.as_slice()) {
                Some(rel) => rel,
                None => Vec::new(),
            };
            assert(best_drive(drives@, path@, k as int));
            Some((drives[k].duplicate(), string_of(rel.as_slice())))
        },
        None => None,
    }
}

/// Where the drive with `uuid` is mounted, among `drives` (the drives that
/// are mounted now): the first drive with that UUID.
pub fn mount_point(drives: &[Drive], uuid: &str) -> (r: Option<String>)
    ensures
        match r {
            Some(point) => exists|k: int|
                0 <= k < drives@.len() && drives@[k].uuid@ == uuid@ && drives@[k].mount_point == point
                    && forall|j: int| 0 <= j < k ==> #[trigger] drives@[j].uuid@ != uuid@,
            None => forall|j: int| 0 <= j < drives@.len() ==> #[trigger] drives@[j].uuid@ != uuid@,
        },
{
    let wanted = chars_of(uuid);
    let mut i: usize = 0;
    while i < drives.len()
        invariant
            i <= drives@.len(),
            wanted@ == uuid@,
            forall|j: int| 0 <= j < i ==> #[trigger] drives@[j].uuid@ != uuid@,
        decreases drives@.len() - i,
    {
        let id = chars_of(drives[i].uuid.as_str());
        if same(id.as_slice(), wanted.as_slice()) {
            let point = drives[i].mount_point.clone();
            assert(drives@[i as int].uuid@ == uuid@);
            return Some(point);
        }
        i = i + 1;
    }
    None
}

/// The removable drive `path` is on, among `drives` (the drives that are
/// mounted now), and the path relative to its root.
pub fn drive_for(drives: &[Drive], path: &str) -> (r: Option<(Drive, String)>)
    ensures
        match r {
            Some((d, rel)) => exists|k: int|
                best_drive(drives@, path@, k) && d == drives@[k] && strip_prefix(
                    path@,
                    d.mount_point@,
                ) == Some(rel@),
            None => forall|j: int| 0 <= j < drives@.len() ==> !on_drive(path@, #[trigger] drives@[j]),
        },
{
    locate(drives, path)
}

/// A path on a drive that lies under two mount points is placed on the one
/// with the longer mount point.
pub proof fn lemma_locate_prefers_the_innermost(drives: Seq<Drive>, path: Seq<char>, k: int, j: int)
    requires
        best_drive(drives, path, k),
        0 <= j < drives.len(),
        on_drive(path, drives[j]),
    ensures
        mount_len(drives[j]) <= mount_len(drives[k]),
{
}

} // verus!
