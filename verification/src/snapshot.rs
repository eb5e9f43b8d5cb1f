//! Choosing a snapshot: one that is at hand, or else the latest one, downloaded.

use vstd::prelude::*;

verus! {

/// Whether a file of this name is a snapshot.
pub open spec fn is_snapshot_name(name: Seq<char>) -> bool {
    "snapshot-"@.is_prefix_of(name)
}

/// An entry of a directory: its name, and whether it is a file, be it through a
/// link.
#[derive(Debug, Clone)]
pub struct DirectoryEntry {
    pub name: String,
    pub is_file: bool,
}

/// Whether an entry of a directory can be read and is a snapshot file.
pub open spec fn is_snapshot_entry(entry: Option<DirectoryEntry>) -> bool {
    entry matches Some(e) && e.is_file && is_snapshot_name(e.name@)
}

/// Whether `place` is that of the first snapshot file among the entries.
pub open spec fn is_first_snapshot(entries: Seq<Option<DirectoryEntry>>, place: int) -> bool {
    &&& 0 <= place < entries.len()
    &&& is_snapshot_entry(entries[place])
    &&& forall|i: int| 0 <= i < place ==> !is_snapshot_entry(#[trigger] entries[i])
}

/// Whether there is no snapshot file among the entries.
pub open spec fn has_no_snapshot(entries: Seq<Option<DirectoryEntry>>) -> bool {
    forall|i: int| 0 <= i < entries.len() ==> !is_snapshot_entry(#[trigger] entries[i])
}

fn starts_like_snapshot(name: &str) -> (yes: bool)
    ensures
        yes == is_snapshot_name(name@),
{
    proof {
        reveal_strlit("snapshot-");
    }
    if name.unicode_len() < 9 {
        return false;
    }
    name.substring_char(0, 9).to_owned() == "snapshot-".to_owned()
}

/// The place of the first snapshot file among the entries of a directory.
/// Entries that could not be read are passed over, and so are directories,
/// whatever their names.
pub fn find_snapshot(entries: &Vec<Option<DirectoryEntry>>) -> (place: Option<usize>)
    ensures
        match place {
            Some(place) => is_first_snapshot(entries@, place as int),
            None => has_no_snapshot(entries@),
        },
{
    for i in 0..entries.len()
        invariant
            forall|j: int| 0 <= j < i ==> !is_snapshot_entry(#[trigger] entries@[j]),
    {
        match &entries[i] {
            Some(entry) => {
                if entry.is_file && starts_like_snapshot(entry.name.as_str()) {
                    return Some(i);
                }
            },
            None => {},
        }
    }
    None
}

/// What a look at the directory for snapshots came to. Of an entry that could not
/// be read nothing is known.
pub enum DirectoryState<E> {
    Missing,
    NotADirectory,
    Unreadable(E),
    Listed(Vec<Option<DirectoryEntry>>),
}

/// Why a directory cannot be searched for snapshots.
#[derive(Debug)]
pub enum CacheError<E> {
    NotADirectory,
    Unreadable(E),
}

impl<E> CacheError<E> {
    /// What there is to say of the error beside what the file system says.
    pub fn message(&self) -> (message: Option<&str>)
        ensures
            match self {
                CacheError::NotADirectory => message matches Some(text) && text@
                    == "Provided path is not a directory"@,
                CacheError::Unreadable(_) => message is None,
            },
    {
        match self {
            CacheError::NotADirectory => Some("Provided path is not a directory"),
            CacheError::Unreadable(_) => None,
        }
    }
}

/// Finds a snapshot that is at hand, by its place among the entries. A directory
/// that does not exist holds none.
pub fn get_snapshot_from_cache<E>(directory: DirectoryState<E>) -> (found: Result<
    Option<usize>,
    CacheError<E>,
>)
    ensures
        match directory {
            DirectoryState::Missing => found == Ok::<Option<usize>, CacheError<E>>(None),
            DirectoryState::NotADirectory => found == Err::<Option<usize>, CacheError<E>>(
                CacheError::NotADirectory,
            ),
            DirectoryState::Unreadable(e) => found == Err::<Option<usize>, CacheError<E>>(
                CacheError::Unreadable(e),
            ),
            DirectoryState::Listed(entries) => match found {
                Ok(Some(place)) => is_first_snapshot(entries@, place as int),
                Ok(None) => has_no_snapshot(entries@),
                Err(_) => false,
            },
        },
{
    match directory {
        DirectoryState::Missing => Ok(None),
        DirectoryState::NotADirectory => Err(CacheError::NotADirectory),
        DirectoryState::Unreadable(e) => Err(CacheError::Unreadable(e)),
        DirectoryState::Listed(entries) => Ok(find_snapshot(&entries)),
    }
}

/// Where to take the snapshot from: an entry of the directory, or the network.
#[derive(Debug, Clone, Copy, PartialEq, Eq, Structural)]
pub enum SnapshotSource {
    Cached(usize),
    Download,
}

/// Chooses a snapshot that is at hand before one that has to be downloaded. A
/// directory that cannot be searched is no reason to stop: the snapshot is
/// downloaded then too.
pub fn choose_source<E>(directory: DirectoryState<E>) -> (source: SnapshotSource)
    ensures
        match source {
            SnapshotSource::Cached(place) => directory matches DirectoryState::Listed(entries)
                && is_first_snapshot(entries@, place as int),
            SnapshotSource::Download => directory matches DirectoryState::Listed(entries)
                ==> has_no_snapshot(entries@),
        },
{
    match get_snapshot_from_cache(directory) {
        Ok(Some(place)) => SnapshotSource::Cached(place),
        _ => SnapshotSource::Download,
    }
}

/// A list of entries has one first snapshot file, or none at all.
pub proof fn first_snapshot_is_unique(entries: Seq<Option<DirectoryEntry>>, a: int, b: int)
    requires
        is_first_snapshot(entries, a),
    ensures
        !has_no_snapshot(entries),
        is_first_snapshot(entries, b) ==> a == b,
{
    assert(is_snapshot_entry(entries[a]));
}

/// Directories and unreadable entries make no difference to the choice: the first
/// snapshot of a list stays the first when such an entry is put before it.
pub proof fn only_files_are_chosen(
    entry: Option<DirectoryEntry>,
    entries: Seq<Option<DirectoryEntry>>,
    place: int,
)
    requires
        entry matches Some(e) ==> !e.is_file,
    ensures
        is_first_snapshot(seq![entry] + entries, place + 1) <==> is_first_snapshot(entries, place),
        has_no_snapshot(seq![entry] + entries) <==> has_no_snapshot(entries),
{
    let longer = seq![entry] + entries;
    assert(longer[0] == entry);
    assert(forall|i: int| 0 <= i < entries.len() ==> #[trigger] entries[i] == longer[i + 1]);
    assert forall|i: int| 1 <= i < longer.len() implies #[trigger] longer[i] == entries[i - 1] by {}
}

/// Whether the path of a URL has segments: whether it starts with a slash.
pub open spec fn has_segments(path: Seq<char>) -> bool {
    path.len() > 0 && path[0] == '/'
}

/// What follows the last slash of a path.
pub open spec fn last_segment(path: Seq<char>) -> Seq<char>
    decreases path.len(),
{
    if path.len() == 0 || path.last() == '/' {
        Seq::empty()
    } else {
        last_segment(path.drop_last()).push(path.last())
    }
}

/// Where a slash is followed by no other, the rest of the path is its last
/// segment.
pub proof fn last_segment_follows_the_last_slash(path: Seq<char>, start: int)
    requires
        1 <= start <= path.len(),
        path[start - 1] == '/',
        forall|i: int| start <= i < path.len() ==> path[i] != '/',
    ensures
        last_segment(path) == path.skip(start),
        !last_segment(path).contains('/'),
    decreases path.len(),
{
    if start == path.len() {
        assert(path.skip(start) =~= Seq::empty());
    } else {
        let rest = path.drop_last();
        last_segment_follows_the_last_slash(rest, start);
        assert(path.skip(start) =~= rest.skip(start).push(path.last()));
        assert forall|i: int| 0 <= i < path.skip(start).len() implies path.skip(start)[i] != '/' by {
            assert(path.skip(start)[i] == path[start + i]);
        }
    }
}

/// The name of the file that a URL leads to: the last segment of the URL's path.
pub fn snapshot_file_name(url_path: &str) -> (name: Option<String>)
    ensures
        match name {
            Some(name) => has_segments(url_path@) && name@ == last_segment(url_path@),
            None => !has_segments(url_path@),
        },
{
    let len: usize = url_path.unicode_len();
    if len == 0 || url_path.get_char(0) != '/' {
        return None;
    }
    let mut start: usize = len;
    while url_path.get_char(start - 1) != '/'
        invariant
            1 <= start <= len,
            len == url_path@.len(),
            url_path@[0] == '/',
            forall|i: int| start <= i < len ==> url_path@[i] != '/',
        decreases start,
    {
        start -= 1;
    }
    proof {
        last_segment_follows_the_last_slash(url_path@, start as int);
    }
    let name: String = url_path.substring_char(start, len).to_owned();
    assert(name@ =~= url_path@.skip(start as int));
    Some(name)
}

/// Whatever follows `snapshot-` in its name, a file is a snapshot; and every
/// snapshot is a file with such a name.
pub proof fn snapshots_are_told_by_their_names(entry: DirectoryEntry, rest: Seq<char>)
    ensures
        entry.is_file && entry.name@ == "snapshot-"@ + rest ==> is_snapshot_entry(Some(entry)),
        is_snapshot_entry(Some(entry)) ==> entry.is_file && entry.name@.len() >= 9
            && entry.name@.take(9) == "snapshot-"@,
        !is_snapshot_entry(None),
{
    reveal_strlit("snapshot-");
    if entry.name@ == "snapshot-"@ + rest {
        assert((("snapshot-"@ + rest).take(9)) =~= "snapshot-"@);
    }
    if is_snapshot_entry(Some(entry)) {
        assert(entry.name@.take(9) =~= "snapshot-"@);
    }
}

/// A place found in a list is that of a file whose name starts with `snapshot-`,
/// and no such file comes before it.
pub proof fn found_snapshots_come_first(entries: Seq<Option<DirectoryEntry>>, place: int)
    requires
        is_first_snapshot(entries, place),
    ensures
        0 <= place < entries.len(),
        entries[place] matches Some(e) && e.is_file && e.name@.len() >= 9 && e.name@.take(9)
            == "snapshot-"@,
        forall|i: int|
            0 <= i < place ==> !(#[trigger] entries[i] matches Some(e) && e.is_file
                && e.name@.len() >= 9 && e.name@.take(9) == "snapshot-"@),
{
    snapshots_are_told_by_their_names(entries[place]->0, Seq::empty());
    assert forall|i: int| 0 <= i < place implies !(#[trigger] entries[i] matches Some(e)
        && e.is_file && e.name@.len() >= 9 && e.name@.take(9) == "snapshot-"@) by {
        if let Some(e) = entries[i] {
            if e.name@.len() >= 9 && e.name@.take(9) == "snapshot-"@ {
                assert(e.name@ =~= "snapshot-"@ + e.name@.skip(9));
                snapshots_are_told_by_their_names(e, e.name@.skip(9));
            }
        }
    }
}

/// Where nothing is found in a list, it holds no file whose name starts with
/// `snapshot-`.
pub proof fn no_snapshot_is_overlooked(entries: Seq<Option<DirectoryEntry>>)
    ensures
        has_no_snapshot(entries) <==> forall|i: int|
            0 <= i < entries.len() ==> !(#[trigger] entries[i] matches Some(e) && e.is_file
                && e.name@.len() >= 9 && e.name@.take(9) == "snapshot-"@),
{
    assert forall|i: int| 0 <= i < entries.len() implies (is_snapshot_entry(#[trigger] entries[i])
        <==> (entries[i] matches Some(e) && e.is_file && e.name@.len() >= 9 && e.name@.take(9)
        == "snapshot-"@)) by {
        if let Some(e) = entries[i] {
            snapshots_are_told_by_their_names(e, e.name@.skip(9));
            if e.name@.len() >= 9 && e.name@.take(9) == "snapshot-"@ {
                assert(e.name@ =~= "snapshot-"@ + e.name@.skip(9));
            }
        }
    }
}

/// A path names a file exactly when it starts with a slash, and then by all that
/// follows its last slash.
pub proof fn paths_name_what_follows_the_last_slash(path: Seq<char>, name: Seq<char>, before: Seq<char>)
    requires
        !name.contains('/'),
        path == before + "/"@ + name,
    ensures
        last_segment(path) == name,
        has_segments(path) <==> path[0] == '/',
        !has_segments(Seq::empty()),
{
    reveal_strlit("/");
    let start = before.len() + 1;
    assert forall|i: int| start <= i < path.len() implies path[i] != '/' by {
        assert(path[i] == name[i - start]);
    }
    last_segment_follows_the_last_slash(path, start as int);
    assert(path.skip(start as int) =~= name);
}

/// Only a path that starts with a slash names a file.
pub proof fn only_rooted_paths_name_a_file(path: Seq<char>)
    ensures
        has_segments(path) <==> path.len() > 0 && path[0] == '/',
{
}

} // verus!
