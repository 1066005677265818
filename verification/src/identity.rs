//! The identity map of a user namespace.

use crate::text;
use vstd::prelude::*;
use vstd::string::StringExecFns;

verus! {

/// A text to be written to a file.
#[derive(Debug)]
pub struct FileWrite {
    pub path: String,
    pub contents: String,
}

/// What a write says.
pub struct FileWriteView {
    pub path: Seq<char>,
    pub contents: Seq<char>,
}

impl View for FileWrite {
    type V = FileWriteView;

    open spec fn view(&self) -> FileWriteView {
        FileWriteView { path: self.path@, contents: self.contents@ }
    }
}

/// The writes of a vector, taken by their views.
pub open spec fn write_views(v: Seq<FileWrite>) -> Seq<FileWriteView> {
    Seq::new(v.len(), |i: int| v[i]@)
}

/// The line that maps the identity 0 inside to this one outside, and no other.
pub open spec fn map_line(id: u32) -> Seq<char> {
    "0 "@ + text::decimal(id as nat) + " 1\n"@
}

/// The writes that make the identity map. An unprivileged process may write
/// the group map only once it has given up setting groups.
pub open spec fn id_map(uid: u32, gid: u32) -> Seq<FileWriteView> {
    seq![
        FileWriteView { path: "/proc/self/setgroups"@, contents: "deny"@ },
        FileWriteView { path: "/proc/self/uid_map"@, contents: map_line(uid) },
        FileWriteView { path: "/proc/self/gid_map"@, contents: map_line(gid) },
    ]
}

/// The line that maps the identity 0 to this one.
fn line(id: u32) -> (r: String)
    ensures
        r@ == map_line(id),
{
    let mut r = text::prefixed("0 ", text::to_decimal(id).as_str());
    r.append(" 1\n");
    r
}

/// The writes that make the identity map, in order.
pub fn setup_id_map(real_uid: u32, real_gid: u32) -> (writes: Vec<FileWrite>)
    ensures
        write_views(writes@) == id_map(real_uid, real_gid),
        writes@.len() == 3,
        writes@[0].path@ == "/proc/self/setgroups"@,
        writes@[0].contents@ == "deny"@,
        writes@[1].path@ == "/proc/self/uid_map"@,
        writes@[1].contents@ == "0 "@ + text::decimal(real_uid as nat) + " 1\n"@,
        writes@[2].path@ == "/proc/self/gid_map"@,
        writes@[2].contents@ == "0 "@ + text::decimal(real_gid as nat) + " 1\n"@,
{
    let writes: Vec<FileWrite> = vec![
        FileWrite { path: "/proc/self/setgroups".to_owned(), contents: "deny".to_owned() },
        FileWrite { path: "/proc/self/uid_map".to_owned(), contents: line(real_uid) },
        FileWrite { path: "/proc/self/gid_map".to_owned(), contents: line(real_gid) },
    ];
    assert(write_views(writes@) =~= id_map(real_uid, real_gid));
    writes
}

// ---------------------------------------------------------------------------
// Laws
// ---------------------------------------------------------------------------

/// There is one view for each write of a vector, at its position.
pub proof fn writes_by_position(v: Seq<FileWrite>, i: int)
    ensures
        write_views(v).len() == v.len(),
        0 <= i < v.len() ==> write_views(v)[i].path == v[i].path@ && write_views(v)[i].contents
            == v[i].contents@,
{
}

/// Of the files of the identity map each is written exactly once, whatever the
/// two identities are: first the giving up of groups, then the user map with the
/// user, then the group map with the group. Nothing else is written.
pub proof fn each_file_is_written_once(uid: u32, gid: u32)
    ensures
        ({
            let writes = id_map(uid, gid);
            &&& writes.len() == 3
            &&& forall|i: int|
                0 <= i < 3 ==> ((#[trigger] writes[i]).path == "/proc/self/setgroups"@ <==> i == 0)
            &&& forall|i: int|
                0 <= i < 3 ==> ((#[trigger] writes[i]).path == "/proc/self/uid_map"@ <==> i == 1)
            &&& forall|i: int|
                0 <= i < 3 ==> ((#[trigger] writes[i]).path == "/proc/self/gid_map"@ <==> i == 2)
            &&& writes[0].contents == "deny"@
            &&& writes[1].contents == "0 "@ + text::decimal(uid as nat) + " 1\n"@
            &&& writes[2].contents == "0 "@ + text::decimal(gid as nat) + " 1\n"@
        }),
{
    reveal_strlit("/proc/self/setgroups");
    reveal_strlit("/proc/self/uid_map");
    reveal_strlit("/proc/self/gid_map");
    assert("/proc/self/setgroups"@.len() == 20);
    assert("/proc/self/uid_map"@.len() == 18);
    assert("/proc/self/gid_map"@.len() == 18);
    assert("/proc/self/uid_map"@[11] != "/proc/self/gid_map"@[11]);
}

/// Two maps that are written alike map the same user and the same group.
pub proof fn map_tells_the_identity(uid: u32, gid: u32, other_uid: u32, other_gid: u32)
    requires
        id_map(uid, gid) == id_map(other_uid, other_gid),
    ensures
        uid == other_uid,
        gid == other_gid,
{
    line_tells_the_identity(id_map(uid, gid)[1].contents, uid, other_uid);
    line_tells_the_identity(id_map(uid, gid)[2].contents, gid, other_gid);
}

/// A line of the map belongs to one identity only.
proof fn line_tells_the_identity(line: Seq<char>, a: u32, b: u32)
    requires
        line == map_line(a),
        line == map_line(b),
    ensures
        a == b,
{
    reveal_strlit("0 ");
    reveal_strlit(" 1\n");
    let x = text::decimal(a as nat);
    let y = text::decimal(b as nat);
    assert(line.len() == 5 + x.len());
    assert(line.len() == 5 + y.len());
    assert(line.subrange(2, line.len() - 3) =~= x);
    assert(line.subrange(2, line.len() - 3) =~= y);
    text::decimal_is_unique(a as nat, b as nat);
}

} // verus!
