//! The reading cache of a remote service: what to draw before the first round trip.
//!
//! A snapshot is bounded, and the file that holds it has a name that cannot leave its directory.
use crate::dto;
use crate::dto::{Folder, Row};
use crate::text;
use vstd::prelude::*;
use vstd::string::*;

verus! {

/// The rows that a snapshot keeps at most.
pub const MAX_ROWS: usize = 500;

/// The characters of a host that a file name keeps at most.
pub const MAX_HOST: usize = 64;

/// What the cache keeps of a mailbox.
#[derive(Debug)]
pub struct Snapshot {
    /// The version of the contract when it was written.
    pub protocol: u32,
    pub revision: String,
    pub folders: Vec<Folder>,
    /// The folder whose rows are kept.
    pub folder: Option<i64>,
    pub rows: Vec<Row>,
}

/// Whether a snapshot is that of a state: its folders, and the first rows of the open one.
pub open spec fn pictures(
    snapshot: Snapshot,
    protocol: u32,
    revision: Seq<char>,
    folders: Seq<Folder>,
    folder: Option<i64>,
    rows: Seq<Row>,
) -> bool {
    &&& snapshot.protocol == protocol
    &&& snapshot.revision@ == revision
    &&& snapshot.folders@ == folders
    &&& snapshot.folder == folder
    &&& snapshot.rows@ == if rows.len() <= MAX_ROWS {
        rows
    } else {
        rows.take(MAX_ROWS as int)
    }
}

impl Snapshot {
    /// A bounded snapshot.
    pub fn new(
        protocol: u32,
        revision: String,
        folders: Vec<Folder>,
        folder: Option<i64>,
        rows: &Vec<Row>,
    ) -> (r: Snapshot)
        ensures
            pictures(r, protocol, revision@, folders@, folder, rows@),
            r.rows@.len() <= MAX_ROWS,
    {
        let n: usize = if rows.len() <= MAX_ROWS {
            rows.len()
        } else {
            MAX_ROWS
        };
        let kept = dto::copy_rows(rows, n);
        assert(rows@.take(rows.len() as int) == rows@);
        Snapshot { protocol, revision, folders, folder, rows: kept }
    }

    /// Whether the snapshot is worth writing: one without a folder is not.
    pub fn worth_writing(&self) -> (r: bool)
        ensures
            r == (self.folders@.len() > 0),
    {
        self.folders.len() > 0
    }

    /// A snapshot that was read, where it can be used: one that another version of the contract
    /// wrote is ignored.
    pub fn usable(self, protocol: u32) -> (r: Option<Snapshot>)
        ensures
            r == if self.protocol == protocol {
                Some(self)
            } else {
                None
            },
    {
        if self.protocol == protocol {
            Some(self)
        } else {
            None
        }
    }
}

/// Whether a character stands in a file name as it is.
pub open spec fn is_plain(c: char) -> bool {
    ||| 'a' <= c <= 'z'
    ||| 'A' <= c <= 'Z'
    ||| '0' <= c <= '9'
    ||| c == '.'
    ||| c == '-'
}

/// What a file name holds of a host: its first characters, each one that is not a plain letter,
/// a digit, a dot or a hyphen being replaced by an underscore.
pub open spec fn safe_host(host: Seq<char>) -> Seq<char> {
    let n = if host.len() <= MAX_HOST {
        host.len()
    } else {
        MAX_HOST as nat
    };
    Seq::new(
        n,
        |i: int|
            if is_plain(host[i]) {
                host[i]
            } else {
                '_'
            },
    )
}

/// The name of the file that holds the cache of a host.
pub open spec fn file_name(host: Seq<char>) -> Seq<char> {
    "cache-"@ + safe_host(host) + ".json"@
}

fn plain(c: char) -> (r: bool)
    ensures
        r == is_plain(c),
{
    ('a' <= c && c <= 'z') || ('A' <= c && c <= 'Z') || ('0' <= c && c <= '9') || c == '.' || c
        == '-'
}

/// The name of the file that holds the cache of a host.
pub fn cache_file(host: &str) -> (r: String)
    ensures
        r@ == file_name(host@),
{
    let v = text::chars_of(host);
    let mut safe = String::new();
    let mut i: usize = 0;
    while i < v.len() && i < MAX_HOST
        invariant
            i <= v.len(),
            i <= MAX_HOST,
            v@ == host@,
            safe@ == safe_host(host@).take(i as int),
        decreases v.len() - i,
    {
        safe.push(
            if plain(v[i]) {
                v[i]
            } else {
                '_'
            },
        );
        i = i + 1;
        assert(safe@ == safe_host(host@).take(i as int));
    }
    assert(safe_host(host@).take(i as int) == safe_host(host@));
    let mut out = "cache-".to_owned();
    out.append(safe.as_str());
    out.append(".json");
    out
}

/// No host leaves the directory of the cache: the name holds no path separator, and its length
/// is bounded.
pub proof fn a_host_never_escapes_its_directory(host: Seq<char>)
    ensures
        !file_name(host).contains('/'),
        !file_name(host).contains('\\'),
        file_name(host).len() <= MAX_HOST + 11,
        text::starts(file_name(host), "cache-"@),
        file_name(host).skip(file_name(host).len() - 5) == ".json"@,
{
    reveal_strlit("cache-");
    reveal_strlit(".json");
    let name = file_name(host);
    let safe = safe_host(host);
    assert forall|i: int| 0 <= i < name.len() implies name[i] != '/' && name[i] != '\\' by {
        if i < 6 {
            assert(name[i] == "cache-"@[i]);
        } else if i < 6 + safe.len() {
            assert(name[i] == safe[i - 6]);
        } else {
            assert(name[i] == ".json"@[i - 6 - safe.len()]);
        }
    }
    assert(name.take(6) =~= "cache-"@);
    assert(name.skip(name.len() - 5) =~= ".json"@);
}

/// A host of plain letters, digits, dots, hyphens and colons, of no more characters than a file
/// name keeps.
pub open spec fn is_usual(host: Seq<char>) -> bool {
    &&& host.len() <= MAX_HOST
    &&& forall|i: int| 0 <= i < host.len() ==> is_plain(#[trigger] host[i]) || host[i] == ':'
}

/// Two usual hosts have two files.
pub proof fn two_hosts_have_two_files(a: Seq<char>, b: Seq<char>)
    requires
        is_usual(a),
        is_usual(b),
        a != b,
    ensures
        file_name(a) != file_name(b),
{
    if file_name(a) == file_name(b) {
        let left = file_name(a);
        let right = file_name(b);
        let lead = "cache-"@.len();
        assert(left.len() == right.len());
        assert(a.len() == b.len());
        assert forall|i: int| 0 <= i < a.len() implies a[i] == b[i] by {
            assert(left[lead + i] == safe_host(a)[i]);
            assert(right[lead + i] == safe_host(b)[i]);
            assert(is_plain(a[i]) || a[i] == ':');
            assert(is_plain(b[i]) || b[i] == ':');
        }
        assert(a == b);
    }
}

} // verus!
