//! Copying files between local paths and servers: reading locations, the
//! queue of files still to copy, and the arithmetic of chunks and progress.

use vstd::prelude::*;
use vstd::string::*;
use crate::metacommand::{first_index, lemma_first_index, path_file_name, file_name_of};
use crate::paths::{contains_char, join, join_path};

verus! {

/// The part of a text before the first occurrence of a character (all of
/// it where there is none).
pub open spec fn before(s: Seq<char>, c: char) -> Seq<char> {
    match first_index(s, c) {
        Some(k) => s.take(k),
        None => s,
    }
}

/// The part of a text after the first occurrence of a character.
pub open spec fn after(s: Seq<char>, c: char) -> Option<Seq<char>> {
    match first_index(s, c) {
        Some(k) => Some(s.skip(k + 1)),
        None => None,
    }
}

/// Whether a location names a server: a colon comes before the first slash.
pub open spec fn names_peer(location: Seq<char>) -> bool {
    before(location, '/').contains(':')
}

/// The server a location names, if any: what comes before the first colon,
/// or for a bracketed address everything up to the closing bracket.
pub open spec fn peer_spec(location: Seq<char>) -> Option<Seq<char>> {
    if !names_peer(location) {
        None
    } else if location.len() > 0 && location[0] == '[' {
        Some(before(location, ']'))
    } else {
        Some(before(location, ':'))
    }
}

/// Whether the path of a location can be read: a bracketed server address
/// must be closed and followed by a colon.
pub open spec fn path_readable(location: Seq<char>) -> bool {
    names_peer(location) && location.len() > 0 && location[0] == '[' ==> match after(location, ']') {
        Some(rest) => rest.contains(':'),
        None => false,
    }
}

/// The path a location names: all of it for a local path, else what comes
/// after the server's colon.
pub open spec fn path_spec(location: Seq<char>) -> Seq<char> {
    if !names_peer(location) {
        location
    } else if location.len() > 0 && location[0] == '[' {
        after(after(location, ']')->0, ':')->0
    } else {
        after(location, ':')->0
    }
}

/// A character that occurs has a first occurrence.
pub proof fn lemma_first_index_some(s: Seq<char>, c: char, j: int)
    requires
        0 <= j < s.len(),
        s[j] == c,
    ensures
        first_index(s, c) is Some,
    decreases s.len(),
{
    if s[0] != c {
        lemma_first_index_some(s.drop_first(), c, j - 1);
    }
}

/// A character that occurs before the first slash occurs in the text.
proof fn lemma_before_contains(s: Seq<char>, c: char, d: char)
    requires
        before(s, d).contains(c),
    ensures
        first_index(s, c) is Some,
{
    lemma_first_index(s, d);
    let j = choose|j: int| 0 <= j < before(s, d).len() && before(s, d)[j] == c;
    assert(s[j] == c);
    lemma_first_index_some(s, c, j);
}

/// A location splits into the server it names and its path: a location
/// whose first slash comes before any colon (or that has neither) names no
/// server and is all path; otherwise (for a server not written in brackets)
/// the server, a colon and the path put back together give the location.
pub proof fn law_location_splits(location: Seq<char>)
    requires
        location.len() == 0 || location[0] != '[',
    ensures
        !names_peer(location) ==> peer_spec(location) is None && path_spec(location) == location,
        names_peer(location) ==> peer_spec(location) is Some && peer_spec(location)->0 + seq![':'] + path_spec(
            location,
        ) == location,
{
    if names_peer(location) {
        lemma_before_contains(location, ':', '/');
        lemma_first_index(location, ':');
        let k = first_index(location, ':')->0;
        assert(location.take(k) + seq![':'] + location.skip(k + 1) =~= location);
    }
}

/// The first position of a character in a text.
fn find_char(s: &str, c: char) -> (r: Option<usize>)
    ensures
        match first_index(s@, c) {
            Some(k) => r matches Some(x) && x as int == k,
            None => r is None,
        },
{
    let n = s.unicode_len();
    let mut i: usize = 0;
    assert(s@.skip(0) =~= s@);
    while i < n
        invariant
            i <= n,
            n == s@.len(),
            first_index(s@, c) == (match first_index(s@.skip(i as int), c) {
                Some(k) => Some(k + i),
                None => None,
            }),
        decreases n - i,
    {
        assert(s@.skip(i as int).drop_first() =~= s@.skip(i + 1));
        if s.get_char(i) == c {
            return Some(i);
        }
        i = i + 1;
    }
    assert(s@.skip(i as int).len() == 0);
    None
}

fn before_exec(s: &str, c: char) -> (r: &str)
    ensures
        r@ == before(s@, c),
{
    proof {
        lemma_first_index(s@, c);
    }
    match find_char(s, c) {
        Some(k) => {
            let r = s.substring_char(0, k);
            assert(r@ =~= s@.take(k as int));
            r
        },
        None => s,
    }
}

fn after_exec(s: &str, c: char) -> (r: Option<&str>)
    ensures
        match after(s@, c) {
            Some(a) => r matches Some(x) && x@ == a,
            None => r is None,
        },
{
    proof {
        lemma_first_index(s@, c);
    }
    match find_char(s, c) {
        Some(k) => {
            let n = s.unicode_len();
            let r = s.substring_char(k + 1, n);
            assert(r@ =~= s@.skip(k + 1));
            Some(r)
        },
        None => None,
    }
}

fn names_peer_exec(location: &str) -> (r: bool)
    ensures
        r == names_peer(location@),
{
    contains_char(before_exec(location, '/'), ':')
}

/// The server a copy location names, if any.
pub fn get_peer(location: &str) -> (r: Option<String>)
    ensures
        match peer_spec(location@) {
            Some(p) => r matches Some(x) && x@ == p,
            None => r is None,
        },
{
    if !names_peer_exec(location) {
        return None;
    }
    if location.unicode_len() > 0 && location.get_char(0) == '[' {
        return Some(before_exec(location, ']').to_owned());
    }
    Some(before_exec(location, ':').to_owned())
}

/// The path a copy location names.
pub fn get_path(location: &str) -> (r: String)
    requires
        path_readable(location@),
    ensures
        r@ == path_spec(location@),
{
    if !names_peer_exec(location) {
        return location.to_owned();
    }
    proof {
        lemma_before_contains(location@, ':', '/');
        if location@.len() > 0 && location@[0] == '[' {
            let rest = after(location@, ']')->0;
            let j = choose|j: int| 0 <= j < rest.len() && rest[j] == ':';
            lemma_first_index_some(rest, ':', j);
        }
    }
    if location.unicode_len() > 0 && location.get_char(0) == '[' {
        let rest = match after_exec(location, ']') {
            Some(x) => x,
            None => return String::new(),
        };
        return match after_exec(rest, ':') {
            Some(x) => x.to_owned(),
            None => String::new(),
        };
    }
    match after_exec(location, ':') {
        Some(x) => x.to_owned(),
        None => String::new(),
    }
}

/// The parent of a path, as `std::path::Path::parent` gives it; `None` for
/// a root or an empty path.
pub uninterp spec fn path_parent(p: Seq<char>) -> Option<Seq<char>>;

/// Calls `std::path::Path::parent` on a text path. Its result is named by
/// `path_parent`.
#[verifier::external_body]
pub(crate) fn parent_of(p: &str) -> (r: Option<String>)
    ensures
        match r {
            Some(x) => path_parent(p@) == Some(x@),
            None => path_parent(p@) is None,
        },
{
    match std::path::Path::new(p).parent() {
        Some(x) => Some(x.to_string_lossy().into_owned()),
        None => None,
    }
}

/// How a source path splits into the directory it is taken from and the
/// name it is copied under: a path ending in a slash is copied as a whole
/// directory; otherwise the parent and the last component.
pub open spec fn split_source_spec(path: Seq<char>) -> (Seq<char>, Seq<char>) {
    if path.len() > 0 && path.last() == '/' {
        (path, Seq::empty())
    } else {
        (
            match path_parent(path) {
                Some(p) => p,
                None => Seq::empty(),
            },
            match path_file_name(path) {
                Some(f) => f,
                None => Seq::empty(),
            },
        )
    }
}

/// Splits a source path into the directory it is taken from and the name it
/// is copied under.
pub fn split_source(path: &str) -> (r: (String, String))
    ensures
        (r.0@, r.1@) == split_source_spec(path@),
{
    let n = path.unicode_len();
    if n > 0 && path.get_char(n - 1) == '/' {
        assert(path@.last() == path@[n - 1]);
        return (path.to_owned(), String::new());
    }
    let head = match parent_of(path) {
        Some(p) => p,
        None => String::new(),
    };
    let tail = match file_name_of(path) {
        Some(f) => f,
        None => String::new(),
    };
    (head, tail)
}

/// A text with all trailing slashes removed.
pub open spec fn trim_slashes(s: Seq<char>) -> Seq<char>
    decreases s.len(),
{
    if s.len() > 0 && s.last() == '/' {
        trim_slashes(s.drop_last())
    } else {
        s
    }
}

/// Removes all trailing slashes.
pub fn trim_trailing_slashes(s: &str) -> (r: String)
    ensures
        r@ == trim_slashes(s@),
{
    let mut n = s.unicode_len();
    assert(s@.take(n as int) =~= s@);
    while n > 0 && s.get_char(n - 1) == '/'
        invariant
            n <= s@.len(),
            trim_slashes(s@) == trim_slashes(s@.take(n as int)),
        decreases n,
    {
        assert(s@.take(n as int).last() == s@[n - 1]);
        assert(s@.take(n as int).drop_last() =~= s@.take(n - 1));
        n = n - 1;
    }
    let r = s.substring_char(0, n);
    proof {
        assert(r@ =~= s@.take(n as int));
        if n > 0 {
            assert(s@.take(n as int).last() == s@[n - 1]);
        }
    }
    r.to_owned()
}

/// The remote path of a source: its directory and name joined, without
/// trailing slashes.
pub open spec fn remote_source_spec(head: Seq<char>, tail: Seq<char>) -> Seq<char> {
    trim_slashes(join_path(head, tail))
}

/// The remote path of a source.
pub fn remote_source_path(head: &str, tail: &str) -> (r: String)
    ensures
        r@ == remote_source_spec(head@, tail@),
{
    let joined = join(head, tail);
    trim_trailing_slashes(joined.as_str())
}

/// A file still to copy: the server it is on (none for a local file), the
/// directory it is taken from, and the name it is copied under.
pub type Pending = (Option<String>, String, String);

/// The model of a pending file.
pub open spec fn pending_view(p: Pending) -> (Option<Seq<char>>, Seq<char>, Seq<char>) {
    (
        match p.0 {
            Some(x) => Some(x@),
            None => None,
        },
        p.1@,
        p.2@,
    )
}

/// The models of some pending files.
pub open spec fn pendings_view(s: Seq<Pending>) -> Seq<(Option<Seq<char>>, Seq<char>, Seq<char>)> {
    Seq::new(s.len(), |i: int| pending_view(s[i]))
}

/// The models of some texts.
pub open spec fn texts_view(s: Seq<String>) -> Seq<Seq<char>> {
    Seq::new(s.len(), |i: int| s[i]@)
}

/// The work left in a copy: sources named on the command line, and files
/// found inside directories being copied, which go first.
pub struct CopyQueue {
    pub sources: Vec<String>,
    pub found: Vec<Pending>,
}

/// The queue after the entries of a remote directory were put ahead of
/// everything else: each as the directory's name with the entry's pushed on
/// and trailing slashes removed, the last entry first.
pub open spec fn remote_entries_added(
    before: CopyQueue,
    after: CopyQueue,
    peer: Seq<char>,
    head: Seq<char>,
    tail: Seq<char>,
    answers: Seq<Seq<char>>,
) -> bool {
    &&& texts_view(after.sources@) == texts_view(before.sources@)
    &&& after.found@.len() == before.found@.len() + answers.len()
    &&& forall|i: int|
        0 <= i < answers.len() ==> #[trigger] pending_view(after.found@[answers.len() - 1 - i]) == (
            Some(peer),
            head,
            trim_slashes(join_path(tail, answers[i])),
        )
    &&& forall|i: int|
        0 <= i < before.found@.len() ==> #[trigger] pending_view(after.found@[answers.len() + i])
            == pending_view(before.found@[i])
}

/// What to copy next.
#[derive(Debug)]
pub enum NextCopy {
    /// Nothing is left.
    Finished,
    /// A file: the server it is on (none for a local file), the directory it
    /// is taken from and the name it is copied under.
    File { peer: Option<String>, head: String, tail: String },
}

/// What taking the next file does to the queue (see `CopyQueue::next`).
pub open spec fn next_taken(before: CopyQueue, after: CopyQueue, r: NextCopy) -> bool {
    &&& before.found@.len() > 0 ==> {
        &&& pendings_view(after.found@) == pendings_view(before.found@).drop_first()
        &&& texts_view(after.sources@) == texts_view(before.sources@)
        &&& r matches NextCopy::File { peer, head, tail } && pending_view((peer, head, tail))
            == pending_view(before.found@[0])
    }
    &&& before.found@.len() == 0 && before.sources@.len() > 0 ==> {
        let src = before.sources@[0]@;
        &&& after.found@.len() == 0
        &&& texts_view(after.sources@) == texts_view(before.sources@).drop_first()
        &&& r matches NextCopy::File { peer, head, tail } && pending_view((peer, head, tail)) == (
            peer_spec(src),
            split_source_spec(path_spec(src)).0,
            split_source_spec(path_spec(src)).1,
        )
    }
    &&& before.found@.len() == 0 && before.sources@.len() == 0 ==> r is Finished && after.found@.len()
        == 0 && after.sources@.len() == 0
}

impl CopyQueue {
    /// A queue holding the sources.
    pub fn new(sources: Vec<String>) -> (r: CopyQueue)
        ensures
            texts_view(r.sources@) == texts_view(sources@),
            r.found@.len() == 0,
    {
        CopyQueue { sources, found: Vec::new() }
    }

    /// Takes the next file to copy: the first file found inside a
    /// directory, else the first source.
    pub fn next(&mut self) -> (r: NextCopy)
        requires
            old(self).found@.len() == 0 && old(self).sources@.len() > 0 ==> path_readable(old(self).sources@[0]@),
        ensures
            next_taken(*old(self), *final(self), r),
    {
        if self.found.len() > 0 {
            let ghost before = self.found@;
            let (peer, head, tail) = self.found.remove(0);
            assert(pendings_view(self.found@) =~= pendings_view(before).drop_first());
            return NextCopy::File { peer, head, tail };
        }
        if self.sources.len() == 0 {
            return NextCopy::Finished;
        }
        let ghost before = self.sources@;
        let source = self.sources.remove(0);
        assert(texts_view(self.sources@) =~= texts_view(before).drop_first());
        let path = get_path(source.as_str());
        let (head, tail) = split_source(path.as_str());
        let peer = get_peer(source.as_str());
        NextCopy::File { peer, head, tail }
    }

    /// Queues the entries of a remote directory ahead of everything else,
    /// each as the directory's name with the entry's pushed on and trailing
    /// slashes removed. Each entry goes to the front in turn, so the last
    /// entry comes first.
    pub fn add_remote_entries(&mut self, peer: &str, head: &str, tail: &str, answers: &Vec<String>)
        ensures
            remote_entries_added(*old(self), *final(self), peer@, head@, tail@, texts_view(answers@)),
    {
        let ghost old_found = self.found@;
        let mut k: usize = 0;
        while k < answers.len()
            invariant
                k <= answers@.len(),
                texts_view(self.sources@) == texts_view(old(self).sources@),
                old_found == old(self).found@,
                self.found@.len() == old_found.len() + k,
                forall|i: int|
                    0 <= i < k ==> #[trigger] pending_view(self.found@[k - 1 - i]) == (
                        Some(peer@),
                        head@,
                        trim_slashes(join_path(tail@, answers@[i]@)),
                    ),
                forall|i: int|
                    0 <= i < old_found.len() ==> #[trigger] pending_view(self.found@[k + i]) == pending_view(old_found[i]),
            decreases answers.len() - k,
        {
            let joined = join(tail, answers[k].as_str());
            let t = trim_trailing_slashes(joined.as_str());
            let ghost before = self.found@;
            self.found.insert(0, (Some(peer.to_owned()), head.to_owned(), t));
            assert forall|i: int| 0 <= i < k + 1 implies #[trigger] pending_view(self.found@[k + 1 - 1 - i]) == (
                Some(peer@),
                head@,
                trim_slashes(join_path(tail@, answers@[i]@)),
            ) by {
                if i < k {
                    assert(self.found@[k - i] == before[k - 1 - i]);
                }
            }
            assert forall|i: int| 0 <= i < old_found.len() implies #[trigger] pending_view(self.found@[k + 1 + i])
                == pending_view(old_found[i]) by {
                assert(self.found@[k + 1 + i] == before[k + i]);
            }
            k = k + 1;
        }
    }

    /// Queues the entries of a local directory behind everything else, each
    /// as the directory's name, a slash, and the entry's name.
    pub fn add_local_entries(&mut self, head: &str, tail: &str, names: &Vec<String>)
        ensures
            texts_view(final(self).sources@) == texts_view(old(self).sources@),
            pendings_view(final(self).found@) == pendings_view(old(self).found@) + Seq::new(
                names@.len(),
                |i: int| (None::<Seq<char>>, head@, tail@ + seq!['/'] + names@[i]@),
            ),
    {
        let ghost old_found = pendings_view(self.found@);
        let mut k: usize = 0;
        while k < names.len()
            invariant
                k <= names@.len(),
                texts_view(self.sources@) == texts_view(old(self).sources@),
                old_found == pendings_view(old(self).found@),
                pendings_view(self.found@) == old_found + Seq::new(
                    k as nat,
                    |i: int| (None::<Seq<char>>, head@, tail@ + seq!['/'] + names@[i]@),
                ),
            decreases names.len() - k,
        {
            let mut t = tail.to_owned();
            t.append("/");
            t.append(names[k].as_str());
            proof {
                reveal_strlit("/");
                assert(t@ =~= tail@ + seq!['/'] + names@[k as int]@);
            }
            let ghost before = pendings_view(self.found@);
            let ghost tv = t@;
            self.found.push((None, head.to_owned(), t));
            assert(pendings_view(self.found@) =~= before.push((None::<Seq<char>>, head@, tv)));
            assert(pendings_view(self.found@) =~= old_found + Seq::new(
                (k + 1) as nat,
                |i: int| (None::<Seq<char>>, head@, tail@ + seq!['/'] + names@[i]@),
            ));
            k = k + 1;
        }
    }
}

/// What copying needs from its locations: the sources, the destination
/// (the last location), and the servers to connect to, each once, in the
/// order they are named.
pub open spec fn distinct_texts(s: Seq<Seq<char>>) -> bool {
    forall|i: int, j: int| 0 <= i < j < s.len() ==> s[i] != s[j]
}

/// The servers that some locations name, each once, in order of first
/// appearance.
pub open spec fn peers_of(locations: Seq<Seq<char>>) -> Seq<Seq<char>>
    decreases locations.len(),
{
    if locations.len() == 0 {
        Seq::empty()
    } else {
        let r = peers_of(locations.drop_last());
        match peer_spec(locations.last()) {
            Some(p) => if r.contains(p) {
                r
            } else {
                r.push(p)
            },
            None => r,
        }
    }
}

/// The servers that some locations name, each once, in order of first
/// appearance.
pub fn peers_to_connect(locations: &Vec<String>) -> (r: Vec<String>)
    ensures
        texts_view(r@) == peers_of(texts_view(locations@)),
{
    let ghost l = texts_view(locations@);
    let mut r: Vec<String> = Vec::new();
    let mut i: usize = 0;
    while i < locations.len()
        invariant
            i <= locations@.len(),
            l == texts_view(locations@),
            texts_view(r@) == peers_of(l.take(i as int)),
        decreases locations.len() - i,
    {
        assert(l.take(i + 1).drop_last() =~= l.take(i as int));
        assert(l.take(i + 1).last() == locations@[i as int]@);
        match get_peer(locations[i].as_str()) {
            Some(p) => {
                let mut found = false;
                let mut j: usize = 0;
                let ghost rv = texts_view(r@);
                while j < r.len()
                    invariant
                        j <= r@.len(),
                        rv == texts_view(r@),
                        found <==> exists|k: int| 0 <= k < j && rv[k] == p@,
                    decreases r.len() - j,
                {
                    if crate::value::str_eq(r[j].as_str(), p.as_str()) {
                        assert(rv[j as int] == p@);
                        found = true;
                    }
                    j = j + 1;
                }
                assert(found <==> rv.contains(p@));
                if !found {
                    r.push(p);
                    assert(texts_view(r@) =~= rv.push(p@));
                }
            },
            None => {},
        }
        i = i + 1;
    }
    assert(l.take(locations@.len() as int) =~= l);
    r
}

/// How much data a peer-to-peer copy asks for at a time.
pub const PEER_TO_PEER_BUFFER_AMT: u64 = 1048576;

/// Where the next chunk of a peer-to-peer copy ends: `None` to read to the
/// end of the file, where what is left fits in one chunk.
pub open spec fn chunk_end_spec(len: u64, written: u64) -> Option<u64> {
    if len - written <= PEER_TO_PEER_BUFFER_AMT {
        None
    } else {
        Some((written + PEER_TO_PEER_BUFFER_AMT) as u64)
    }
}

/// Where the next chunk of a peer-to-peer copy ends.
pub fn chunk_end(len: u64, written: u64) -> (r: Option<u64>)
    requires
        written <= len,
    ensures
        r == chunk_end_spec(len, written),
{
    if len - written <= PEER_TO_PEER_BUFFER_AMT {
        None
    } else {
        Some(written + PEER_TO_PEER_BUFFER_AMT)
    }
}

/// A chunk of a server-to-server copy asks for exactly one buffer more than
/// was written so far, and ends inside the file, while more than a buffer is
/// left; the last chunk (no end given) comes only once at most a buffer is
/// left.
pub proof fn law_chunk_end_one_buffer_on(len: u64, written: u64)
    requires
        written <= len,
    ensures
        len - written > PEER_TO_PEER_BUFFER_AMT ==> chunk_end_spec(len, written) == Some(
            (written + PEER_TO_PEER_BUFFER_AMT) as u64,
        ),
        chunk_end_spec(len, written) matches Some(e) ==> e - written == PEER_TO_PEER_BUFFER_AMT && written < e < len,
        chunk_end_spec(len, written) is None <==> len - written <= PEER_TO_PEER_BUFFER_AMT,
{
}

/// Progress in thousandths: what is written out of the whole.
pub fn progress_permille(written: u64, len: u64) -> (r: u64)
    requires
        len > 0,
        written * 1000 <= u64::MAX,
    ensures
        r == (written * 1000) / len as int,
{
    (written * 1000) / len
}

/// What a piece of data means to a peer-to-peer copy.
#[derive(Clone, Copy, Debug, PartialEq, Eq, Structural)]
pub enum ChunkStep {
    /// The chunk is done; ask for the next.
    ChunkDone,
    /// Pass the data on; the copy goes on. The new progress is given.
    Forward { progress: u64 },
    /// Pass the (empty) data on; the file is complete.
    Finished { progress: u64 },
    /// The server sent more than was asked for.
    Overrun,
}

/// The state of a peer-to-peer copy of one file.
pub struct ChunkedCopy {
    /// The length of the file.
    pub len: u64,
    /// How much has been passed on.
    pub written: u64,
    /// Where the chunk being read ends, if it does before the file's end.
    pub end: Option<u64>,
}

impl ChunkedCopy {
    /// A copy of a file of the given length, nothing passed on yet.
    pub fn new(len: u64) -> (r: ChunkedCopy)
        ensures
            r.len == len,
            r.written == 0,
            r.end is None,
    {
        ChunkedCopy { len, written: 0, end: None }
    }

    /// Starts the next chunk, returning where it starts and ends.
    pub fn start_chunk(&mut self) -> (r: (u64, Option<u64>))
        requires
            old(self).written <= old(self).len,
        ensures
            r.0 == old(self).written,
            r.1 == chunk_end_spec(old(self).len, old(self).written),
            final(self).end == r.1,
            final(self).len == old(self).len,
            final(self).written == old(self).written,
    {
        let end = chunk_end(self.len, self.written);
        self.end = end;
        (self.written, end)
    }

    /// Takes a piece of the chunk being read.
    pub fn on_data(&mut self, data_len: u64) -> (r: ChunkStep)
        requires
            old(self).len > 0,
            (old(self).written + data_len) * 1000 <= u64::MAX,
        ensures
            final(self).len == old(self).len,
            final(self).end == old(self).end,
            data_len == 0 && old(self).written < old(self).len ==> r == ChunkStep::ChunkDone && final(self).written
                == old(self).written,
            !(data_len == 0 && old(self).written < old(self).len) ==> {
                if old(self).end matches Some(e) && old(self).written + data_len > e {
                    r == ChunkStep::Overrun && final(self).written == old(self).written
                } else {
                    &&& final(self).written == old(self).written + data_len
                    &&& if data_len == 0 {
                        r == ChunkStep::Finished { progress: ((final(self).written * 1000) / final(self).len as int) as u64 }
                    } else {
                        r == ChunkStep::Forward { progress: ((final(self).written * 1000) / final(self).len as int) as u64 }
                    }
                }
            },
    {
        if data_len == 0 && self.written < self.len {
            return ChunkStep::ChunkDone;
        }
        match self.end {
            Some(e) => {
                if self.written + data_len > e {
                    return ChunkStep::Overrun;
                }
            },
            None => {},
        }
        self.written = self.written + data_len;
        let progress = progress_permille(self.written, self.len);
        if data_len == 0 {
            ChunkStep::Finished { progress }
        } else {
            ChunkStep::Forward { progress }
        }
    }
}

/// Where a copied file goes on a server: the directory of the destination
/// path with the source's name pushed on, and the last component of that
/// path. `None` where the joined path has no parent or no file name.
pub open spec fn upload_target_spec(dest_path: Seq<char>, tail: Seq<char>) -> Option<(Seq<char>, Seq<char>)> {
    let p = join_path(dest_path, tail);
    match (path_parent(p), path_file_name(p)) {
        (Some(d), Some(f)) => Some((d, f)),
        _ => None,
    }
}

/// Where a copied file goes on a server: its directory and its name.
pub fn upload_target(dest_path: &str, tail: &str) -> (r: Option<(String, String)>)
    ensures
        match upload_target_spec(dest_path@, tail@) {
            Some((d, f)) => r matches Some(x) && x.0@ == d && x.1@ == f,
            None => r is None,
        },
{
    let p = join(dest_path, tail);
    let d = parent_of(p.as_str());
    let f = file_name_of(p.as_str());
    match (d, f) {
        (Some(d), Some(f)) => Some((d, f)),
        _ => None,
    }
}

/// What one read of an outgoing file transfer does.
#[derive(Clone, Copy, Debug, PartialEq, Eq, Structural)]
pub enum OutStep {
    /// The read passes the cutoff: send the first `take` bytes, then the
    /// empty piece that ends the file. The transfer is done.
    Cut { take: u64 },
    /// Nothing was read: send the empty piece; the transfer is done.
    Last { progress: u64 },
    /// Send what was read; the transfer goes on from `position`.
    More { position: u64, progress: u64 },
}

/// Progress in thousandths of a transfer at a position with a cutoff (a
/// zero cutoff counts as complete).
pub open spec fn out_progress(position: u64, cutoff: u64) -> u64 {
    if cutoff != 0 {
        ((position * 1000) / cutoff as int) as u64
    } else {
        1000
    }
}

/// What one read of `amt` bytes does to an outgoing transfer at `current`
/// that stops at `cutoff`.
pub fn transfer_step(current: u64, cutoff: u64, amt: u64) -> (r: OutStep)
    requires
        current + amt > cutoff ==> current <= cutoff,
        current + amt <= cutoff ==> (current + amt) * 1000 <= u64::MAX,
    ensures
        current + amt > cutoff ==> r == (OutStep::Cut { take: (cutoff - current) as u64 }),
        current + amt <= cutoff && amt == 0 ==> r == (OutStep::Last { progress: out_progress(current, cutoff) }),
        current + amt <= cutoff && amt != 0 ==> r == (OutStep::More {
            position: (current + amt) as u64,
            progress: out_progress((current + amt) as u64, cutoff),
        }),
{
    if amt > cutoff || current > cutoff - amt {
        return OutStep::Cut { take: cutoff - current };
    }
    let position = current + amt;
    let progress = if cutoff != 0 {
        (position * 1000) / cutoff
    } else {
        1000
    };
    if amt == 0 {
        OutStep::Last { progress }
    } else {
        OutStep::More { position, progress }
    }
}

/// The step `transfer_step` takes for a read of `amt` bytes.
pub open spec fn out_step(current: u64, cutoff: u64, amt: u64) -> OutStep {
    if current + amt > cutoff {
        OutStep::Cut { take: (cutoff - current) as u64 }
    } else if amt == 0 {
        OutStep::Last { progress: out_progress(current, cutoff) }
    } else {
        OutStep::More { position: (current + amt) as u64, progress: out_progress((current + amt) as u64, cutoff) }
    }
}

/// An outgoing file transfer: the request it answers, how far it has sent,
/// and where it stops.
#[derive(Clone, Copy, Debug, PartialEq, Eq, Structural)]
pub struct Outgoing {
    pub reference: u64,
    pub current: u64,
    pub cutoff: u64,
}

/// A transfer that has not passed its cutoff, whose progress can be
/// counted in thousandths.
pub open spec fn outgoing_ok(t: Outgoing) -> bool {
    t.current <= t.cutoff && t.cutoff * 1000 <= u64::MAX
}

/// A piece of file data to send for a transfer: the first `len` bytes of
/// what was just read from its file; an empty piece ends the file.
#[derive(Clone, Copy, Debug, PartialEq, Eq, Structural)]
pub struct Sent {
    pub reference: u64,
    pub len: u64,
}

/// The pieces one read of `amt` bytes sends for a transfer.
pub open spec fn pieces_of(t: Outgoing, amt: u64) -> Seq<Sent> {
    match out_step(t.current, t.cutoff, amt) {
        OutStep::Cut { take } => seq![Sent { reference: t.reference, len: take }, Sent { reference: t.reference, len: 0 }],
        OutStep::Last { .. } => seq![Sent { reference: t.reference, len: 0 }],
        OutStep::More { .. } => seq![Sent { reference: t.reference, len: amt }],
    }
}

/// The transfer after one read, or `None` where it is done.
pub open spec fn after_read(t: Outgoing, amt: u64) -> Option<Outgoing> {
    match out_step(t.current, t.cutoff, amt) {
        OutStep::More { position, .. } => Some(Outgoing { reference: t.reference, current: position, cutoff: t.cutoff }),
        _ => None,
    }
}

/// The transfers still going and the pieces sent, in order, after one read
/// from each transfer's file (`reads[i]` bytes for `ts[i]`).
pub open spec fn serviced(ts: Seq<Outgoing>, reads: Seq<u64>) -> (Seq<Outgoing>, Seq<Sent>)
    decreases ts.len(),
{
    if ts.len() == 0 {
        (Seq::empty(), Seq::empty())
    } else {
        let prev = serviced(ts.drop_last(), reads.drop_last());
        let t = ts.last();
        let a = reads.last();
        (
            match after_read(t, a) {
                Some(n) => prev.0.push(n),
                None => prev.0,
            },
            prev.1 + pieces_of(t, a),
        )
    }
}

/// Services the outgoing transfers once, given how many bytes one read of
/// each transfer's file gave: each sends what it read up to its cutoff,
/// and those that reached their end or cutoff send an empty piece and
/// leave. Nothing happens while the connection has no room.
pub fn service_transfers(transfers: &mut Vec<Outgoing>, reads: &Vec<u64>, write_space: bool) -> (sent: Vec<Sent>)
    requires
        old(transfers)@.len() == reads@.len(),
        forall|i: int| 0 <= i < old(transfers)@.len() ==> outgoing_ok(#[trigger] old(transfers)@[i]),
    ensures
        !write_space ==> final(transfers)@ == old(transfers)@ && sent@.len() == 0,
        write_space ==> final(transfers)@ == serviced(old(transfers)@, reads@).0 && sent@ == serviced(
            old(transfers)@,
            reads@,
        ).1,
{
    if !write_space {
        return Vec::new();
    }
    let ghost ts = transfers@;
    let ghost rs = reads@;
    let mut kept: Vec<Outgoing> = Vec::new();
    let mut sent: Vec<Sent> = Vec::new();
    let mut i: usize = 0;
    while i < transfers.len()
        invariant
            transfers@ == ts,
            reads@ == rs,
            ts.len() == rs.len(),
            i <= ts.len(),
            forall|j: int| 0 <= j < ts.len() ==> outgoing_ok(#[trigger] ts[j]),
            (kept@, sent@) == serviced(ts.take(i as int), rs.take(i as int)),
        decreases ts.len() - i,
    {
        let t = transfers[i];
        let amt = reads[i];
        proof {
            assert(ts.take(i + 1).drop_last() =~= ts.take(i as int));
            assert(rs.take(i + 1).drop_last() =~= rs.take(i as int));
            assert(outgoing_ok(ts[i as int]));
            if t.current + amt <= t.cutoff {
                assert((t.current + amt) * 1000 <= t.cutoff * 1000) by (nonlinear_arith)
                    requires
                        t.current + amt <= t.cutoff,
                ;
            }
        }
        let ghost sent0 = sent@;
        match transfer_step(t.current, t.cutoff, amt) {
            OutStep::Cut { take } => {
                sent.push(Sent { reference: t.reference, len: take });
                sent.push(Sent { reference: t.reference, len: 0 });
            },
            OutStep::Last { .. } => {
                sent.push(Sent { reference: t.reference, len: 0 });
            },
            OutStep::More { position, .. } => {
                sent.push(Sent { reference: t.reference, len: amt });
                kept.push(Outgoing { reference: t.reference, current: position, cutoff: t.cutoff });
            },
        }
        proof {
            assert(sent@ =~= sent0 + pieces_of(t, amt));
        }
        i = i + 1;
    }
    proof {
        assert(ts.take(ts.len() as int) =~= ts);
        assert(rs.take(rs.len() as int) =~= rs);
    }
    *transfers = kept;
    sent
}

/// Servicing keeps every transfer short of its cutoff.
pub proof fn law_service_keeps_cutoffs(ts: Seq<Outgoing>, reads: Seq<u64>)
    requires
        ts.len() == reads.len(),
        forall|i: int| 0 <= i < ts.len() ==> outgoing_ok(#[trigger] ts[i]),
    ensures
        forall|i: int| 0 <= i < serviced(ts, reads).0.len() ==> outgoing_ok(#[trigger] serviced(ts, reads).0[i]),
    decreases ts.len(),
{
    if ts.len() > 0 {
        let init = ts.drop_last();
        let ri = reads.drop_last();
        assert forall|i: int| 0 <= i < init.len() implies outgoing_ok(#[trigger] init[i]) by {
            assert(init[i] == ts[i]);
        }
        law_service_keeps_cutoffs(init, ri);
        let prev = serviced(init, ri).0;
        let t = ts.last();
        assert(outgoing_ok(ts[ts.len() - 1]));
        let a = reads.last();
        match after_read(t, a) {
            Some(n) => {
                assert forall|i: int| 0 <= i < prev.push(n).len() implies outgoing_ok(#[trigger] prev.push(n)[i]) by {
                    if i < prev.len() {
                        assert(prev.push(n)[i] == prev[i]);
                    }
                }
            },
            None => {},
        }
    }
}

/// No piece a read sends carries data past its transfer's cutoff, and every
/// piece names its transfer.
pub proof fn law_pieces_within_cutoff(t: Outgoing, amt: u64)
    requires
        outgoing_ok(t),
    ensures
        forall|i: int| 0 <= i < pieces_of(t, amt).len() ==> {
            &&& (#[trigger] pieces_of(t, amt)[i]).reference == t.reference
            &&& t.current + pieces_of(t, amt)[i].len <= t.cutoff
        },
{
}

/// A transfer leaves exactly when the read ends it with an empty piece.
pub proof fn law_leaves_iff_ended(t: Outgoing, amt: u64)
    requires
        outgoing_ok(t),
    ensures
        (after_read(t, amt) is None) == (pieces_of(t, amt).last().len == 0),
{
}

/// Servicing all outgoing transfers keeps every one short of its cutoff; no
/// piece sent for a transfer carries data past its cutoff; and a transfer
/// leaves exactly when the piece that ends it (an empty one) is sent.
pub proof fn law_service_transfers(ts: Seq<Outgoing>, reads: Seq<u64>)
    requires
        ts.len() == reads.len(),
        forall|i: int| 0 <= i < ts.len() ==> outgoing_ok(#[trigger] ts[i]),
    ensures
        forall|i: int| 0 <= i < serviced(ts, reads).0.len() ==> outgoing_ok(#[trigger] serviced(ts, reads).0[i]),
        forall|i: int, j: int|
            0 <= i < ts.len() && 0 <= j < pieces_of(ts[i], reads[i]).len() ==> {
                &&& (#[trigger] pieces_of(ts[i], reads[i])[j]).reference == ts[i].reference
                &&& ts[i].current + pieces_of(ts[i], reads[i])[j].len <= ts[i].cutoff
            },
        forall|i: int|
            0 <= i < ts.len() ==> ((#[trigger] after_read(ts[i], reads[i])) is None) == (pieces_of(
                ts[i],
                reads[i],
            ).last().len == 0),
{
    law_service_keeps_cutoffs(ts, reads);
    assert forall|i: int, j: int| 0 <= i < ts.len() && 0 <= j < pieces_of(ts[i], reads[i]).len() implies {
        &&& (#[trigger] pieces_of(ts[i], reads[i])[j]).reference == ts[i].reference
        &&& ts[i].current + pieces_of(ts[i], reads[i])[j].len <= ts[i].cutoff
    } by {
        law_pieces_within_cutoff(ts[i], reads[i]);
    }
    assert forall|i: int| 0 <= i < ts.len() implies ((#[trigger] after_read(ts[i], reads[i])) is None) == (pieces_of(
        ts[i],
        reads[i],
    ).last().len == 0) by {
        law_leaves_iff_ended(ts[i], reads[i]);
    }
}

/// The big-endian value of the first eight bytes.
pub open spec fn be64(b: Seq<u8>) -> int {
    ((((((b[0] as int * 256 + b[1] as int) * 256 + b[2] as int) * 256 + b[3] as int) * 256 + b[4] as int) * 256
        + b[5] as int) * 256 + b[6] as int) * 256 + b[7] as int
}

/// Reads a big-endian 64-bit value from the first eight bytes.
pub fn read_be64(b: &[u8]) -> (r: u64)
    requires
        b@.len() >= 8,
    ensures
        r as int == be64(b@),
{
    let t0 = b[0] as u64;
    let t1 = t0 * 256 + b[1] as u64;
    let t2 = t1 * 256 + b[2] as u64;
    let t3 = t2 * 256 + b[3] as u64;
    let t4 = t3 * 256 + b[4] as u64;
    let t5 = t4 * 256 + b[5] as u64;
    let t6 = t5 * 256 + b[6] as u64;
    t6 * 256 + b[7] as u64
}

/// What a piece from the copy stream means: the file number it carries
/// against the number of the file being received.
#[derive(Clone, Copy, Debug, PartialEq, Eq, Structural)]
pub enum StreamStep {
    /// More of the file being received; `ticker` is the file number now.
    Continue { ticker: u64 },
    /// The first piece of the next file, numbered `ticker`.
    NewFile { ticker: u64 },
    /// A number out of sequence.
    OutOfOrder,
}

/// Files on the copy stream are numbered from 0 in order; the highest
/// number marks the end of the stream. `receiving` says whether a file is
/// being received.
pub open spec fn stream_step_spec(ticker: u64, receiving: bool, filenumber: u64) -> StreamStep {
    let t = if filenumber == u64::MAX {
        u64::MAX
    } else {
        ticker
    };
    if receiving && filenumber == t {
        StreamStep::Continue { ticker: t }
    } else if (filenumber == 0 && !receiving) || (t < u64::MAX && filenumber == t + 1) {
        StreamStep::NewFile { ticker: filenumber }
    } else {
        StreamStep::OutOfOrder
    }
}

/// Decides what a piece from the copy stream means.
pub fn stream_step(ticker: u64, receiving: bool, filenumber: u64) -> (r: StreamStep)
    ensures
        r == stream_step_spec(ticker, receiving, filenumber),
{
    let t = if filenumber == u64::MAX {
        u64::MAX
    } else {
        ticker
    };
    if receiving && filenumber == t {
        StreamStep::Continue { ticker: t }
    } else if (filenumber == 0 && !receiving) || (t < u64::MAX && filenumber == t + 1) {
        StreamStep::NewFile { ticker: filenumber }
    } else {
        StreamStep::OutOfOrder
    }
}

/// The models of some command lines.
pub open spec fn commands_view(v: Seq<Vec<String>>) -> Seq<Seq<Seq<char>>> {
    Seq::new(v.len(), |i: int| texts_view(v[i]@))
}

/// The prompt commands that download each entry of a remote directory into
/// the local directory.
pub fn download_entry_commands(remote: &str, local: &str, answers: &Vec<String>) -> (r: Vec<Vec<String>>)
    ensures
        commands_view(r@) == Seq::new(
            answers@.len(),
            |i: int| seq!["download"@, join_path(remote@, answers@[i]@), join_path(local@, answers@[i]@)],
        ),
{
    let mut r: Vec<Vec<String>> = Vec::new();
    let mut i: usize = 0;
    while i < answers.len()
        invariant
            i <= answers@.len(),
            commands_view(r@) == Seq::new(
                i as nat,
                |j: int| seq!["download"@, join_path(remote@, answers@[j]@), join_path(local@, answers@[j]@)],
            ),
        decreases answers.len() - i,
    {
        let mut cmd: Vec<String> = Vec::new();
        cmd.push(String::from_str("download"));
        cmd.push(join(remote, answers[i].as_str()));
        cmd.push(join(local, answers[i].as_str()));
        assert(texts_view(cmd@) =~= seq!["download"@, join_path(remote@, answers@[i as int]@), join_path(local@, answers@[i as int]@)]);
        let ghost before = commands_view(r@);
        r.push(cmd);
        assert(commands_view(r@) =~= before.push(texts_view(cmd@)));
        assert(commands_view(r@) =~= Seq::new(
            (i + 1) as nat,
            |j: int| seq!["download"@, join_path(remote@, answers@[j]@), join_path(local@, answers@[j]@)],
        ));
        i = i + 1;
    }
    r
}

/// The prompt commands that upload each entry of a local directory: each
/// entry goes under the remote path joined with the directory's own name.
/// `None` where the local directory has no name.
pub fn upload_entry_commands(local_dir: &str, remote: &str, names: &Vec<String>) -> (r: Option<Vec<Vec<String>>>)
    ensures
        match path_file_name(local_dir@) {
            None => r is None,
            Some(d) => r matches Some(v) && commands_view(v@) == Seq::new(
                names@.len(),
                |i: int| seq!["upload"@, join_path(local_dir@, names@[i]@), join_path(remote@, d)],
            ),
        },
{
    let dir_name = file_name_of(local_dir)?;
    let target = join(remote, dir_name.as_str());
    let mut r: Vec<Vec<String>> = Vec::new();
    let mut i: usize = 0;
    while i < names.len()
        invariant
            i <= names@.len(),
            path_file_name(local_dir@) == Some(dir_name@),
            target@ == join_path(remote@, dir_name@),
            commands_view(r@) == Seq::new(
                i as nat,
                |j: int| seq!["upload"@, join_path(local_dir@, names@[j]@), join_path(remote@, dir_name@)],
            ),
        decreases names.len() - i,
    {
        let mut cmd: Vec<String> = Vec::new();
        cmd.push(String::from_str("upload"));
        cmd.push(join(local_dir, names[i].as_str()));
        cmd.push(target.clone());
        assert(texts_view(cmd@) =~= seq!["upload"@, join_path(local_dir@, names@[i as int]@), join_path(remote@, dir_name@)]);
        let ghost before = commands_view(r@);
        r.push(cmd);
        assert(commands_view(r@) =~= before.push(texts_view(cmd@)));
        assert(commands_view(r@) =~= Seq::new(
            (i + 1) as nat,
            |j: int| seq!["upload"@, join_path(local_dir@, names@[j]@), join_path(remote@, dir_name@)],
        ));
        i = i + 1;
    }
    Some(r)
}

/// What to do with a remote source once it has been described.
#[derive(Debug)]
pub enum RemotePlan {
    /// List the directory and queue its entries.
    ListDir,
    /// Upload to the destination server into `directory` under `file`,
    /// reading from the source server in chunks.
    PeerToPeer { directory: String, file: String },
    /// Download to the local `path`, shown under `file`.
    Download { path: String, file: String },
    /// The destination names no file for it.
    NoTarget,
}

/// The progress shown when the next file starts: above any real progress,
/// so that the bar is drawn afresh.
pub const PROGRESS_RESET: u64 = 1001;

/// Moves a copy on to its next file: the bar is reset for it, and the file
/// is taken as `CopyQueue::next` takes it. Where nothing is left, the copy
/// is finished and the progress stays.
pub fn tick_transfers(queue: &mut CopyQueue, progress: &mut u64) -> (r: NextCopy)
    requires
        old(queue).found@.len() == 0 && old(queue).sources@.len() > 0 ==> path_readable(old(queue).sources@[0]@),
    ensures
        next_taken(*old(queue), *final(queue), r),
        *final(progress) == (if r is Finished {
            *old(progress)
        } else {
            PROGRESS_RESET
        }),
{
    let r = queue.next();
    match r {
        NextCopy::Finished => {},
        _ => {
            *progress = PROGRESS_RESET;
        },
    }
    r
}

/// Where the copy of a remote source stands.
#[derive(Debug)]
pub enum RemoteSource {
    /// Waiting for the description of `path`, the source `tail` under
    /// `head` on server `peer`.
    Describing { peer: String, head: String, tail: String, path: String },
    /// Waiting for the entries of the directory `path`.
    Listing { peer: String, head: String, tail: String, path: String },
    /// Nothing more to wait for.
    Settled,
}

/// A reply about a remote source.
#[derive(Debug)]
pub enum SourceReply {
    /// The source's description: whether it is a directory, and its length.
    Described { is_dir: bool, len: u64 },
    /// The request about it was refused.
    Refused,
    /// Entries of the directory; `complete` on the last batch.
    Entries { complete: bool, answers: Vec<String> },
}

/// What the copy of a remote source calls for.
#[derive(Debug)]
pub enum SourceAction {
    /// Ask the source's server to describe `path`.
    Stat { path: String },
    /// Ask the source's server for the entries of the directory `path`.
    ReadDir { path: String },
    /// Copy the file `path` of length `len` as `plan` says.
    Copy { path: String, len: u64, plan: RemotePlan },
    /// Move on to the next file.
    NextSource,
    /// Wait for more replies.
    Wait,
}

/// The fields of a waiting state, by their models.
pub open spec fn source_fields(s: RemoteSource) -> Option<(Seq<char>, Seq<char>, Seq<char>, Seq<char>)> {
    match s {
        RemoteSource::Describing { peer, head, tail, path } => Some((peer@, head@, tail@, path@)),
        RemoteSource::Listing { peer, head, tail, path } => Some((peer@, head@, tail@, path@)),
        RemoteSource::Settled => None,
    }
}

/// Starts the copy of the remote source `tail` under `head` on server
/// `peer`: its path (joined, without trailing slashes) is asked about.
pub fn start_remote_source(peer: &str, head: &str, tail: &str) -> (r: (RemoteSource, SourceAction))
    ensures
        r.0 is Describing,
        source_fields(r.0) == Some((peer@, head@, tail@, remote_source_spec(head@, tail@))),
        r.1 matches SourceAction::Stat { path } && path@ == remote_source_spec(head@, tail@),
{
    let path = remote_source_path(head, tail);
    let asked = path.clone();
    (RemoteSource::Describing { peer: peer.to_owned(), head: head.to_owned(), tail: tail.to_owned(), path }, SourceAction::Stat {
        path: asked,
    })
}

/// What a reply does to the copy of a remote source going to
/// `destination`:
/// - a described directory is listed, a described file copied as
///   `plan_remote_source` decides, and a refusal moves on to the next file;
/// - entries of a directory being listed are queued ahead of everything
///   else (see `CopyQueue::add_remote_entries`), and the last batch moves on
///   to the next file;
/// - any other reply is not for this step and changes nothing.
pub fn remote_step(state: RemoteSource, reply: SourceReply, destination: &str, queue: &mut CopyQueue) -> (r: (
    RemoteSource,
    SourceAction,
))
    requires
        path_readable(destination@),
    ensures
        match (state, reply) {
            (RemoteSource::Describing { .. }, SourceReply::Refused) => {
                &&& r.0 is Settled
                &&& r.1 is NextSource
                &&& *final(queue) == *old(queue)
            },
            (RemoteSource::Describing { tail, path, .. }, SourceReply::Described { is_dir, len }) => {
                &&& *final(queue) == *old(queue)
                &&& is_dir ==> r.0 is Listing && source_fields(r.0) == source_fields(state) && (
                r.1 matches SourceAction::ReadDir { path: p } && p@ == path@)
                &&& !is_dir ==> r.0 is Settled && (r.1 matches SourceAction::Copy { path: p, len: n, plan } && p@
                    == path@ && n == len && remote_planned(false, destination@, tail@, plan))
            },
            (RemoteSource::Listing { peer, head, tail, .. }, SourceReply::Entries { complete, answers }) => {
                &&& remote_entries_added(*old(queue), *final(queue), peer@, head@, tail@, texts_view(answers@))
                &&& complete ==> r.0 is Settled && r.1 is NextSource
                &&& !complete ==> r.0 is Listing && source_fields(r.0) == source_fields(state) && r.1 is Wait
            },
            _ => {
                &&& source_fields(r.0) == source_fields(state)
                &&& (r.0 is Settled) == (state is Settled)
                &&& (r.0 is Listing) == (state is Listing)
                &&& r.1 is Wait
                &&& *final(queue) == *old(queue)
            },
        },
{
    match state {
        RemoteSource::Describing { peer, head, tail, path } => match reply {
            SourceReply::Refused => (RemoteSource::Settled, SourceAction::NextSource),
            SourceReply::Described { is_dir, len } => {
                if is_dir {
                    let asked = path.clone();
                    (RemoteSource::Listing { peer, head, tail, path }, SourceAction::ReadDir { path: asked })
                } else {
                    let plan = plan_remote_source(false, destination, tail.as_str());
                    (RemoteSource::Settled, SourceAction::Copy { path, len, plan })
                }
            },
            SourceReply::Entries { .. } => (RemoteSource::Describing { peer, head, tail, path }, SourceAction::Wait),
        },
        RemoteSource::Listing { peer, head, tail, path } => match reply {
            SourceReply::Entries { complete, answers } => {
                queue.add_remote_entries(peer.as_str(), head.as_str(), tail.as_str(), &answers);
                if complete {
                    (RemoteSource::Settled, SourceAction::NextSource)
                } else {
                    (RemoteSource::Listing { peer, head, tail, path }, SourceAction::Wait)
                }
            },
            other => (RemoteSource::Listing { peer, head, tail, path }, SourceAction::Wait),
        },
        RemoteSource::Settled => (RemoteSource::Settled, SourceAction::Wait),
    }
}

/// What to do with a local source once it has been described.
#[derive(Debug)]
pub enum LocalPlan {
    /// List the directory and queue its entries.
    ListDir,
    /// Copy the file to the local `path`.
    CopyTo { path: String },
    /// Upload to the destination server into `directory` under `file`.
    Upload { directory: String, file: String },
    /// The destination names no file for it.
    NoTarget,
}

/// What is done with a remote source once described (see
/// `plan_remote_source`).
pub open spec fn remote_planned(is_dir: bool, destination: Seq<char>, tail: Seq<char>, r: RemotePlan) -> bool {
    &&& is_dir ==> r is ListDir
    &&& !is_dir && peer_spec(destination) is Some ==> match upload_target_spec(path_spec(destination), tail) {
        Some((d, f)) => r matches RemotePlan::PeerToPeer { directory, file } && directory@ == d && file@ == f,
        None => r is NoTarget,
    }
    &&& !is_dir && peer_spec(destination) is None ==> match path_file_name(join_path(destination, tail)) {
        Some(f) => r matches RemotePlan::Download { path, file } && path@ == join_path(destination, tail) && file@ == f,
        None => r is NoTarget,
    }
}

/// Decides what to do with a remote source: directories are listed; files go
/// to the destination server directly when the destination is remote, else
/// are downloaded under the destination path.
pub fn plan_remote_source(is_dir: bool, destination: &str, tail: &str) -> (r: RemotePlan)
    requires
        path_readable(destination@),
    ensures
        remote_planned(is_dir, destination@, tail@, r),
{
    if is_dir {
        return RemotePlan::ListDir;
    }
    match get_peer(destination) {
        Some(_) => {
            let dest_path = get_path(destination);
            match upload_target(dest_path.as_str(), tail) {
                Some((directory, file)) => RemotePlan::PeerToPeer { directory, file },
                None => RemotePlan::NoTarget,
            }
        },
        None => {
            let path = join(destination, tail);
            match file_name_of(path.as_str()) {
                Some(file) => RemotePlan::Download { path, file },
                None => RemotePlan::NoTarget,
            }
        },
    }
}

/// Decides what to do with a local source: directories are listed; files are
/// copied under the destination path when it is local, else uploaded to the
/// destination server.
pub fn plan_local_source(is_dir: bool, destination: &str, tail: &str) -> (r: LocalPlan)
    requires
        path_readable(destination@),
    ensures
        is_dir ==> r is ListDir,
        !is_dir && peer_spec(destination@) is None ==> (r matches LocalPlan::CopyTo { path } && path@ == join_path(
            destination@,
            tail@,
        )),
        !is_dir && peer_spec(destination@) is Some ==> match upload_target_spec(path_spec(destination@), tail@) {
            Some((d, f)) => r matches LocalPlan::Upload { directory, file } && directory@ == d && file@ == f,
            None => r is NoTarget,
        },
{
    if is_dir {
        return LocalPlan::ListDir;
    }
    match get_peer(destination) {
        None => {
            let dest_path = get_path(destination);
            LocalPlan::CopyTo { path: join(dest_path.as_str(), tail) }
        },
        Some(_) => {
            let dest_path = get_path(destination);
            match upload_target(dest_path.as_str(), tail) {
                Some((directory, file)) => LocalPlan::Upload { directory, file },
                None => LocalPlan::NoTarget,
            }
        },
    }
}

/// Why a copy cannot start.
#[derive(Clone, Copy, Debug, PartialEq, Eq, Structural)]
pub enum CopyError {
    /// Fewer than two locations were given.
    TooFewLocations,
}

/// The sources and the destination of a copy: the last location is the
/// destination.
pub fn copy_plan(locations: Vec<String>) -> (r: Result<(Vec<String>, String), CopyError>)
    ensures
        locations@.len() < 2 ==> r == Err::<(Vec<String>, String), CopyError>(CopyError::TooFewLocations),
        locations@.len() >= 2 ==> (r matches Ok((sources, destination)) && texts_view(sources@) == texts_view(
            locations@,
        ).drop_last() && destination@ == locations@.last()@),
{
    if locations.len() < 2 {
        return Err(CopyError::TooFewLocations);
    }
    let mut sources = locations;
    let ghost all = texts_view(sources@);
    let destination = match sources.pop() {
        Some(d) => d,
        None => String::new(),
    };
    assert(texts_view(sources@) =~= all.drop_last());
    Ok((sources, destination))
}

} // verus!
