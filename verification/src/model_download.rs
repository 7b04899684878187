//! Streaming, resumable downloads with pinned revisions and SHA-256
//! verification: the manifest rules, the digest of a file, and the protocol
//! that decides, action by action, what the downloader does next.
use crate::order::chars_eq;
use crate::path::{component_count, components, safe_path, safe_path_spec};
use crate::text::{append_str, chars_of, decimal, push_decimal, string_from_chars};
use vstd::prelude::*;

verus! {

/// A pinned download: a repository at a fixed revision, the files to fetch,
/// and the size and SHA-256 of each. `sources` optionally names the remote
/// file that a local file is fetched from. Each key occurs once in a map.
#[derive(Clone, Debug)]
pub struct Manifest {
    pub repo: String,
    pub revision: String,
    pub files: Vec<String>,
    pub sizes: Vec<(String, u64)>,
    pub sha256: Vec<(String, String)>,
    pub sources: Vec<(String, String)>,
}

/// The value that the first entry with key `k` holds.
pub open spec fn lookup<V>(pairs: Seq<(String, V)>, k: Seq<char>) -> Option<V>
    decreases pairs.len(),
{
    if pairs.len() == 0 {
        None
    } else if pairs[0].0@ == k {
        Some(pairs[0].1)
    } else {
        lookup(pairs.drop_first(), k)
    }
}

fn find_size(pairs: &Vec<(String, u64)>, k: &[char]) -> (r: Option<u64>)
    ensures
        r == lookup(pairs@, k@),
{
    let mut i: usize = 0;
    assert(pairs@.subrange(0, pairs@.len() as int) =~= pairs@);
    while i < pairs.len()
        invariant
            i <= pairs@.len(),
            lookup(pairs@, k@) == lookup(pairs@.subrange(i as int, pairs@.len() as int), k@),
        decreases pairs@.len() - i,
    {
        let key = chars_of(pairs[i].0.as_str());
        assert(pairs@.subrange(i as int, pairs@.len() as int).drop_first() =~= pairs@.subrange(
            i + 1,
            pairs@.len() as int,
        ));
        if chars_eq(key.as_slice(), k) {
            return Some(pairs[i].1);
        }
        i = i + 1;
    }
    None
}

fn find_text(pairs: &Vec<(String, String)>, k: &[char]) -> (r: Option<String>)
    ensures
        match lookup(pairs@, k@) {
            None => r is None,
            Some(v) => r matches Some(s) && s@ == v@,
        },
{
    let mut i: usize = 0;
    assert(pairs@.subrange(0, pairs@.len() as int) =~= pairs@);
    while i < pairs.len()
        invariant
            i <= pairs@.len(),
            lookup(pairs@, k@) == lookup(pairs@.subrange(i as int, pairs@.len() as int), k@),
        decreases pairs@.len() - i,
    {
        let key = chars_of(pairs[i].0.as_str());
        assert(pairs@.subrange(i as int, pairs@.len() as int).drop_first() =~= pairs@.subrange(
            i + 1,
            pairs@.len() as int,
        ));
        if chars_eq(key.as_slice(), k) {
            return Some(pairs[i].1.clone());
        }
        i = i + 1;
    }
    None
}

/// The remote file that `name` is fetched from.
pub open spec fn source_of(m: Manifest, name: Seq<char>) -> Seq<char> {
    match lookup(m.sources@, name) {
        Some(s) => s@,
        None => name,
    }
}

/// A manifest entry may be downloaded when its name is a single safe path
/// component, its source is a safe relative path, and it has a size and a hash.
pub open spec fn entry_valid(m: Manifest, name: Seq<char>) -> bool {
    &&& safe_path_spec(name)
    &&& components(name).len() == 1
    &&& safe_path_spec(source_of(m, name))
    &&& lookup(m.sizes@, name) is Some
    &&& lookup(m.sha256@, name) is Some
}

/// No key occurs twice in `pairs`, as in the map it was read from.
pub open spec fn keys_unique<V>(pairs: Seq<(String, V)>) -> bool {
    forall|i: int, j: int| 0 <= i < j < pairs.len() ==> #[trigger] pairs[i].0@ != #[trigger] pairs[j].0@
}

/// A manifest may be downloaded when its maps have unique keys and each of its
/// files is a valid entry.
pub open spec fn manifest_valid(m: Manifest) -> bool {
    &&& keys_unique(m.sizes@)
    &&& keys_unique(m.sha256@)
    &&& keys_unique(m.sources@)
    &&& forall|i: int| 0 <= i < m.files@.len() ==> entry_valid(m, #[trigger] m.files@[i]@)
}

fn unique_keys<V>(pairs: &Vec<(String, V)>) -> (b: bool)
    ensures
        b == keys_unique(pairs@),
{
    let mut i: usize = 0;
    while i < pairs.len()
        invariant
            i <= pairs@.len(),
            forall|a: int, c: int| 0 <= a < c < pairs@.len() && a < i ==> #[trigger] pairs@[a].0@
                != #[trigger] pairs@[c].0@,
        decreases pairs@.len() - i,
    {
        let mut j: usize = i + 1;
        while j < pairs.len()
            invariant
                i < pairs@.len(),
                i + 1 <= j <= pairs@.len(),
                forall|a: int, c: int| 0 <= a < c < pairs@.len() && a < i ==> #[trigger] pairs@[a].0@
                    != #[trigger] pairs@[c].0@,
                forall|c: int| i < c < j ==> pairs@[i as int].0@ != #[trigger] pairs@[c].0@,
            decreases pairs@.len() - j,
        {
            if pairs[i].0 == pairs[j].0 {
                return false;
            }
            j = j + 1;
        }
        i = i + 1;
    }
    true
}

/// One file to download, with everything the manifest says about it.
pub struct FileEntry {
    pub name: String,
    pub source: String,
    pub size: u64,
    pub sha256: String,
}

/// The entry of `name` as the manifest describes it.
pub open spec fn entry_matches(m: Manifest, name: Seq<char>, e: FileEntry) -> bool {
    &&& e.name@ == name
    &&& e.source@ == source_of(m, name)
    &&& lookup(m.sizes@, name) == Some(e.size)
    &&& lookup(m.sha256@, name) matches Some(h) && e.sha256@ == h@
}

/// The sum of the sizes that the manifest lists.
pub open spec fn sizes_total(s: Seq<(String, u64)>) -> int
    decreases s.len(),
{
    if s.len() == 0 {
        0
    } else {
        sizes_total(s.drop_last()) + s.last().1
    }
}

proof fn lemma_sizes_total_bound(s: Seq<(String, u64)>)
    ensures
        0 <= sizes_total(s) <= s.len() * 0xFFFF_FFFF_FFFF_FFFF,
    decreases s.len(),
{
    if s.len() > 0 {
        lemma_sizes_total_bound(s.drop_last());
    }
}

/// A manifest with fewer than 2^32 sizes totals less than 2^96 bytes.
pub proof fn lemma_manifest_total_bound(s: Seq<(String, u64)>)
    requires
        s.len() < 0x1_0000_0000,
    ensures
        0 <= sizes_total(s) < 0x1_0000_0000_0000_0000_0000_0000,
{
    lemma_sizes_total_bound(s);
    assert(s.len() * 0xFFFF_FFFF_FFFF_FFFF < 0x1_0000_0000_0000_0000_0000_0000) by (nonlinear_arith)
        requires
            s.len() < 0x1_0000_0000,
    ;
}

/// The total number of bytes the manifest lists, for progress reports.
pub fn manifest_total(sizes: &Vec<(String, u64)>) -> (t: u128)
    ensures
        t == sizes_total(sizes@),
{
    let mut t: u128 = 0;
    let n = sizes.len();
    let mut i: usize = 0;
    while i < n
        invariant
            n == sizes@.len(),
            i <= sizes@.len(),
            t == sizes_total(sizes@.subrange(0, i as int)),
        decreases sizes@.len() - i,
    {
        assert(sizes@.subrange(0, i + 1).drop_last() =~= sizes@.subrange(0, i as int));
        proof {
            lemma_sizes_total_bound(sizes@.subrange(0, i as int));
        }
        assert(t + sizes@[i as int].1 < 0x1_0000_0000_0000_0000_0000_0000_0000_0000) by (nonlinear_arith)
            requires
                t <= sizes@.subrange(0, i as int).len() * 0xFFFF_FFFF_FFFF_FFFF,
                sizes@.subrange(0, i as int).len() == i,
                i < 0x1_0000_0000_0000_0000,
                sizes@[i as int].1 <= 0xFFFF_FFFF_FFFF_FFFF,
        ;
        t = t + sizes[i].1 as u128;
        i = i + 1;
    }
    assert(sizes@.subrange(0, sizes@.len() as int) =~= sizes@);
    t
}

/// The entries to download, in manifest order, or `None` when an entry is
/// invalid (the whole manifest is then refused).
pub fn validate_manifest(m: &Manifest) -> (r: Option<Vec<FileEntry>>)
    ensures
        match r {
            None => !manifest_valid(*m),
            Some(es) => manifest_valid(*m) && es@.len() == m.files@.len() && forall|i: int|
                0 <= i < es@.len() ==> entry_matches(*m, m.files@[i]@, #[trigger] es@[i]),
        },
{
    if !unique_keys(&m.sizes) || !unique_keys(&m.sha256) || !unique_keys(&m.sources) {
        return None;
    }
    let mut es: Vec<FileEntry> = Vec::new();
    let mut i: usize = 0;
    while i < m.files.len()
        invariant
            keys_unique(m.sizes@) && keys_unique(m.sha256@) && keys_unique(m.sources@),
            i <= m.files@.len(),
            es@.len() == i,
            forall|j: int| 0 <= j < i ==> entry_valid(*m, #[trigger] m.files@[j]@),
            forall|j: int| 0 <= j < i ==> entry_matches(*m, m.files@[j]@, #[trigger] es@[j]),
        decreases m.files@.len() - i,
    {
        let name = &m.files[i];
        let key = chars_of(name.as_str());
        let source = match find_text(&m.sources, key.as_slice()) {
            Some(s) => s,
            None => name.clone(),
        };
        assert(source@ == source_of(*m, name@));
        if !safe_path(name.as_str()) || component_count(name.as_str()) != 1 || !safe_path(
            source.as_str(),
        ) {
            return None;
        }
        let size = match find_size(&m.sizes, key.as_slice()) {
            Some(s) => s,
            None => return None,
        };
        let sha = match find_text(&m.sha256, key.as_slice()) {
            Some(h) => h,
            None => return None,
        };
        es.push(FileEntry { name: name.clone(), source, size, sha256: sha });
        i = i + 1;
    }
    Some(es)
}

/// The SHA-256 hasher of the `sha2` crate, held opaquely: `sha2::Sha256` is an
/// instance of generic types of the `digest` crate whose declaration would need
/// the traits of their bounds declared as well, so what the hasher has been fed
/// is named by `hasher_input` instead.
#[verifier::external_body]
pub struct Sha256State {
    inner: sha2::Sha256,
}

/// The bytes fed to a hasher so far.
pub uninterp spec fn hasher_input(h: Sha256State) -> Seq<u8>;

/// The lowercase hexadecimal SHA-256 digest of `data`, as
/// `format!("{:x}", Sha256::digest(data))` writes it.
pub uninterp spec fn sha256_hex(data: Seq<u8>) -> Seq<char>;

/// `sha2::Sha256::new`: a hasher that has been fed nothing.
#[verifier::external_body]
fn sha256_new() -> (h: Sha256State)
    ensures
        hasher_input(h) == Seq::<u8>::empty(),
{
    Sha256State { inner: <sha2::Sha256 as sha2::Digest>::new() }
}

/// `sha2::Digest::update`: feeds `data` after what was fed before.
#[verifier::external_body]
fn sha256_update(h: &mut Sha256State, data: &[u8])
    ensures
        hasher_input(*final(h)) == hasher_input(*old(h)) + data@,
{
    sha2::Digest::update(&mut h.inner, data)
}

/// `sha2::Digest::finalize`, written as lowercase hexadecimal: the digest of
/// everything fed to the hasher.
#[verifier::external_body]
fn sha256_finalize_hex(h: Sha256State) -> (s: String)
    ensures
        s@ == sha256_hex(hasher_input(h)),
{
    format!("{:x}", sha2::Digest::finalize(h.inner))
}

/// The SHA-256 digest of a file, fed chunk by chunk as it is read.
pub struct FileDigest {
    state: Sha256State,
}

impl FileDigest {
    /// The bytes fed so far.
    pub closed spec fn fed(&self) -> Seq<u8> {
        hasher_input(self.state)
    }

    pub fn new() -> (d: FileDigest)
        ensures
            d.fed() == Seq::<u8>::empty(),
    {
        FileDigest { state: sha256_new() }
    }

    pub fn feed(&mut self, chunk: &[u8])
        ensures
            final(self).fed() == old(self).fed() + chunk@,
    {
        sha256_update(&mut self.state, chunk)
    }

    /// Whether the digest of everything fed equals the expected hexadecimal digest.
    pub fn matches(self, expected: &str) -> (b: bool)
        ensures
            b == (sha256_hex(self.fed()) == expected@),
    {
        let hex = sha256_finalize_hex(self.state);
        let a = chars_of(hex.as_str());
        let e = chars_of(expected);
        chars_eq(a.as_slice(), e.as_slice())
    }
}

/// What the file system says about a path, without following a final symlink.
#[derive(Clone, Copy, Debug, PartialEq, Eq, Structural)]
pub struct FileMeta {
    pub is_file: bool,
    pub is_symlink: bool,
    pub len: u64,
}

/// The outcome of checking a file against its pinned size and digest.
#[derive(Clone, Copy, Debug, PartialEq, Eq, Structural)]
pub enum Verification {
    /// Nothing is there.
    Absent,
    /// Something other than a regular file is there; it is never replaced.
    NotRegular,
    /// A regular file of another size: it does not match, and is not hashed.
    SizeMismatch,
    /// A regular file of the pinned size, hashed: whether the digest matches.
    Digest(bool),
}

/// What to conclude from the metadata alone; `None` when the file must be hashed.
pub open spec fn metadata_verdict_spec(meta: Option<FileMeta>, size: u64) -> Option<Verification> {
    match meta {
        None => Some(Verification::Absent),
        Some(m) => if !m.is_file || m.is_symlink {
            Some(Verification::NotRegular)
        } else if m.len != size {
            Some(Verification::SizeMismatch)
        } else {
            None
        },
    }
}

/// Checks a file's metadata: only a regular file of the pinned size is hashed.
pub fn metadata_verdict(meta: Option<FileMeta>, size: u64) -> (r: Option<Verification>)
    ensures
        r == metadata_verdict_spec(meta, size),
{
    match meta {
        None => Some(Verification::Absent),
        Some(m) => if !m.is_file || m.is_symlink {
            Some(Verification::NotRegular)
        } else if m.len != size {
            Some(Verification::SizeMismatch)
        } else {
            None
        },
    }
}

/// The name of the partial file of `name`.
pub open spec fn part_name_spec(name: Seq<char>) -> Seq<char> {
    name + ".part"@
}

/// The URL of `source` at the pinned revision of `repo`.
pub open spec fn source_url_spec(
    origin: Seq<char>,
    repo: Seq<char>,
    revision: Seq<char>,
    source: Seq<char>,
) -> Seq<char> {
    origin + "/"@ + repo + "/resolve/"@ + revision + "/"@ + source
}

/// The `Range` header that resumes a download at `offset`.
pub open spec fn range_header_spec(offset: u64) -> Seq<char> {
    "bytes="@ + decimal(offset as nat) + "-"@
}

/// The `Content-Range` a server must send when it resumes at `offset` of a
/// file of `size` bytes.
pub open spec fn expected_content_range(offset: u64, size: u64) -> Seq<char> {
    "bytes "@ + decimal(offset as nat) + "-"@ + decimal((size - 1) as nat) + "/"@ + decimal(
        size as nat,
    )
}

pub fn range_header(offset: u64) -> (r: String)
    ensures
        r@ == range_header_spec(offset),
{
    let mut s = String::new();
    let a = "bytes=";
    let b = "-";
    proof {
        reveal_strlit("bytes=");
        reveal_strlit("-");
    }
    append_str(&mut s, a);
    push_decimal(&mut s, offset);
    append_str(&mut s, b);
    assert(s@ =~= range_header_spec(offset));
    s
}

pub fn content_range(offset: u64, size: u64) -> (r: String)
    requires
        size > 0,
    ensures
        r@ == expected_content_range(offset, size),
{
    let mut s = String::new();
    append_str(&mut s, "bytes ");
    push_decimal(&mut s, offset);
    append_str(&mut s, "-");
    push_decimal(&mut s, size - 1);
    append_str(&mut s, "/");
    push_decimal(&mut s, size);
    assert(s@ =~= expected_content_range(offset, size));
    s
}

/// Where a download stands.
#[derive(Clone, Copy, Debug, PartialEq, Eq, Structural)]
pub enum Phase {
    Locking,
    CheckingFinal,
    PreparingPart,
    RemovingPart,
    Fetching,
    Opening,
    Receiving,
    Writing,
    Syncing,
    CheckingPart,
    Discarding,
    Renaming,
    Finishing,
    Done,
    Failed,
}

/// What is found at the partial file's name.
#[derive(Clone, Copy, Debug, PartialEq, Eq, Structural)]
pub enum PartState {
    Absent,
    /// A regular file of this many bytes.
    Regular(u64),
    /// A symlink or something else that is not a regular file.
    NotRegular,
}

/// Why a download stops.
#[derive(Clone, Copy, Debug, PartialEq, Eq, Structural)]
pub enum Failure {
    InvalidManifest,
    ExistingFileCorrupt,
    NotRegularFile,
    PartNotRegular,
    UnexpectedContentRange,
    HttpStatus(u16),
    ExceedsPinnedSize,
    IntegrityFailed,
    OutOfOrder,
}

/// The next thing the downloader does. An I/O error while doing it ends the
/// download with that error.
#[derive(Clone, Copy, Debug, PartialEq, Eq, Structural)]
pub enum Action {
    /// Create the directory and take the download lock.
    Lock,
    /// Check the current file at its final name.
    CheckFinal,
    /// Write the incomplete marker (holding the revision), then inspect the partial file.
    PreparePart,
    /// Delete the partial file.
    RemovePart,
    /// Request the current file's source, with a `Range` header when resuming.
    Fetch { resume_from: u64 },
    /// Open the partial file, truncating it or appending to it.
    OpenPart { truncate: bool },
    /// Wait for the next chunk of the response.
    ReadChunk,
    /// Append the chunk just received to the partial file.
    WriteChunk,
    /// Flush and sync the partial file.
    SyncPart,
    /// Check the partial file against the pinned size and digest.
    CheckPart,
    /// Delete the partial file that failed its check.
    DiscardPart,
    /// Move the checked partial file to its final name.
    Rename,
    /// Delete the incomplete marker, if it exists.
    Finish,
    /// The model is verified and ready.
    Done,
    /// Stop with this failure.
    Fail(Failure),
}

/// A progress report, written out by the caller.
#[derive(Clone, Copy, Debug, PartialEq, Eq, Structural)]
pub enum Progress {
    /// Verifying file `index`; `completed` of `total` bytes are done.
    Verifying { index: usize, completed: u128, total: u128 },
    /// Downloading file `index`; `done` of `total` bytes are on disk.
    Downloading { index: usize, done: u128, total: u128 },
    /// Checking the SHA-256 of file `index`.
    VerifyingDigest { index: usize },
    /// Everything is verified.
    Ready,
}

/// One answer of the protocol: an optional progress report and the next action.
#[derive(Clone, Copy, Debug, PartialEq, Eq, Structural)]
pub struct Step {
    pub progress: Option<Progress>,
    pub action: Action,
}

/// What an action produced.
pub enum Event {
    Locked,
    FinalChecked { verification: Verification, exists: bool },
    PartFound(PartState),
    PartRemoved,
    Responded { status: u16, content_range: Option<String> },
    Opened,
    /// The next chunk's length, or `None` at the end of the response.
    Chunk(Option<u64>),
    Written,
    Synced,
    PartChecked(Verification),
    PartDiscarded,
    Renamed,
    Finished,
}

/// An event as plain values.
pub enum EventView {
    Locked,
    FinalChecked { verification: Verification, exists: bool },
    PartFound(PartState),
    PartRemoved,
    Responded { status: u16, content_range: Option<Seq<char>> },
    Opened,
    Chunk(Option<u64>),
    Written,
    Synced,
    PartChecked(Verification),
    PartDiscarded,
    Renamed,
    Finished,
}

impl View for Event {
    type V = EventView;

    open spec fn view(&self) -> EventView {
        match self {
            Event::Locked => EventView::Locked,
            Event::FinalChecked { verification, exists } => EventView::FinalChecked {
                verification: *verification,
                exists: *exists,
            },
            Event::PartFound(p) => EventView::PartFound(*p),
            Event::PartRemoved => EventView::PartRemoved,
            Event::Responded { status, content_range } => EventView::Responded {
                status: *status,
                content_range: match content_range {
                    Some(c) => Some(c@),
                    None => None,
                },
            },
            Event::Opened => EventView::Opened,
            Event::Chunk(c) => EventView::Chunk(*c),
            Event::Written => EventView::Written,
            Event::Synced => EventView::Synced,
            Event::PartChecked(v) => EventView::PartChecked(*v),
            Event::PartDiscarded => EventView::PartDiscarded,
            Event::Renamed => EventView::Renamed,
            Event::Finished => EventView::Finished,
        }
    }
}

/// The state of a download: its phase, the file at hand, the bytes of the
/// files before it, the bytes of the partial file, and a chunk being written.
#[derive(Clone, Copy, Debug, PartialEq, Eq, Structural)]
pub struct DownloadState {
    pub phase: Phase,
    pub index: usize,
    pub completed: u128,
    pub offset: u64,
    pub pending: u64,
}

/// The sum of the first `n` sizes.
pub open spec fn prefix_total(sizes: Seq<u64>, n: int) -> int
    decreases n,
{
    if n <= 0 {
        0
    } else {
        prefix_total(sizes, n - 1) + sizes[n - 1]
    }
}

pub open spec fn fail_spec(s: DownloadState, f: Failure) -> (DownloadState, Step) {
    (DownloadState { phase: Phase::Failed, ..s }, Step { progress: None, action: Action::Fail(f) })
}

/// Starts on file `i` with `completed` bytes done, or finishes after the last file.
pub open spec fn begin_file_spec(sizes: Seq<u64>, total: u128, i: int, completed: int) -> (
    DownloadState,
    Step,
) {
    if i < sizes.len() {
        (
            DownloadState {
                phase: Phase::CheckingFinal,
                index: i as usize,
                completed: completed as u128,
                offset: 0,
                pending: 0,
            },
            Step {
                progress: Some(
                    Progress::Verifying {
                        index: i as usize,
                        completed: completed as u128,
                        total,
                    },
                ),
                action: Action::CheckFinal,
            },
        )
    } else {
        (
            DownloadState {
                phase: Phase::Finishing,
                index: i as usize,
                completed: completed as u128,
                offset: 0,
                pending: 0,
            },
            Step { progress: None, action: Action::Finish },
        )
    }
}

/// With `offset` bytes of the current file on disk: fetch the rest, or check
/// the partial file when it is complete.
pub open spec fn resume_spec(sizes: Seq<u64>, s: DownloadState, offset: u64) -> (
    DownloadState,
    Step,
) {
    if offset < sizes[s.index as int] {
        (
            DownloadState { phase: Phase::Fetching, offset, pending: 0, ..s },
            Step { progress: None, action: Action::Fetch { resume_from: offset } },
        )
    } else {
        (
            DownloadState { phase: Phase::CheckingPart, offset, pending: 0, ..s },
            Step {
                progress: Some(Progress::VerifyingDigest { index: s.index }),
                action: Action::CheckPart,
            },
        )
    }
}

/// The download protocol: the next state and step after `e` in state `s`,
/// for files of the given sizes and a manifest total of `total` bytes.
pub open spec fn step_spec(sizes: Seq<u64>, total: u128, s: DownloadState, e: EventView) -> (
    DownloadState,
    Step,
) {
    let size = sizes[s.index as int];
    match (s.phase, e) {
        (Phase::Locking, EventView::Locked) => begin_file_spec(sizes, total, 0, 0),
        (Phase::CheckingFinal, EventView::FinalChecked { verification, exists }) => {
            if verification == Verification::Digest(true) {
                begin_file_spec(sizes, total, s.index + 1, s.completed + size)
            } else if verification == Verification::NotRegular {
                fail_spec(s, Failure::NotRegularFile)
            } else if exists {
                fail_spec(s, Failure::ExistingFileCorrupt)
            } else {
                (
                    DownloadState { phase: Phase::PreparingPart, ..s },
                    Step { progress: None, action: Action::PreparePart },
                )
            }
        },
        (Phase::PreparingPart, EventView::PartFound(p)) => match p {
            PartState::NotRegular => fail_spec(s, Failure::PartNotRegular),
            PartState::Absent => resume_spec(sizes, s, 0),
            PartState::Regular(len) => if len > size {
                (
                    DownloadState { phase: Phase::RemovingPart, ..s },
                    Step { progress: None, action: Action::RemovePart },
                )
            } else {
                resume_spec(sizes, s, len)
            },
        },
        (Phase::RemovingPart, EventView::PartRemoved) => resume_spec(sizes, s, 0),
        (Phase::Fetching, EventView::Responded { status, content_range }) => {
            if status == 200 {
                (
                    DownloadState { phase: Phase::Opening, offset: 0, ..s },
                    Step { progress: None, action: Action::OpenPart { truncate: true } },
                )
            } else if status == 206 {
                if content_range == Some(expected_content_range(s.offset, size)) {
                    (
                        DownloadState { phase: Phase::Opening, ..s },
                        Step {
                            progress: None,
                            action: Action::OpenPart { truncate: s.offset == 0 },
                        },
                    )
                } else {
                    fail_spec(s, Failure::UnexpectedContentRange)
                }
            } else {
                fail_spec(s, Failure::HttpStatus(status))
            }
        },
        (Phase::Opening, EventView::Opened) => (
            DownloadState { phase: Phase::Receiving, ..s },
            Step { progress: None, action: Action::ReadChunk },
        ),
        (Phase::Receiving, EventView::Chunk(c)) => match c {
            None => (
                DownloadState { phase: Phase::Syncing, ..s },
                Step { progress: None, action: Action::SyncPart },
            ),
            Some(n) => if s.offset + n > size {
                fail_spec(s, Failure::ExceedsPinnedSize)
            } else {
                (
                    DownloadState { phase: Phase::Writing, pending: n, ..s },
                    Step { progress: None, action: Action::WriteChunk },
                )
            },
        },
        (Phase::Writing, EventView::Written) => {
            let offset = (s.offset + s.pending) as u64;
            (
                DownloadState { phase: Phase::Receiving, offset, pending: 0, ..s },
                Step {
                    progress: Some(
                        Progress::Downloading {
                            index: s.index,
                            done: (s.completed + offset) as u128,
                            total,
                        },
                    ),
                    action: Action::ReadChunk,
                },
            )
        },
        (Phase::Syncing, EventView::Synced) => (
            DownloadState { phase: Phase::CheckingPart, ..s },
            Step {
                progress: Some(Progress::VerifyingDigest { index: s.index }),
                action: Action::CheckPart,
            },
        ),
        (Phase::CheckingPart, EventView::PartChecked(v)) => {
            if v == Verification::Digest(true) {
                (
                    DownloadState { phase: Phase::Renaming, ..s },
                    Step { progress: None, action: Action::Rename },
                )
            } else if v == Verification::NotRegular {
                fail_spec(s, Failure::NotRegularFile)
            } else {
                (
                    DownloadState { phase: Phase::Discarding, ..s },
                    Step { progress: None, action: Action::DiscardPart },
                )
            }
        },
        (Phase::Discarding, EventView::PartDiscarded) => fail_spec(s, Failure::IntegrityFailed),
        (Phase::Renaming, EventView::Renamed) => begin_file_spec(
            sizes,
            total,
            s.index + 1,
            s.completed + size,
        ),
        (Phase::Finishing, EventView::Finished) => (
            DownloadState { phase: Phase::Done, ..s },
            Step { progress: Some(Progress::Ready), action: Action::Done },
        ),
        _ => fail_spec(s, Failure::OutOfOrder),
    }
}

/// What holds of every state the protocol reaches: the file at hand exists
/// while it is being worked on, `completed` is the size of the files before
/// it, the partial file never holds more than the pinned size, and a finished
/// download has accounted for every file.
pub open spec fn state_inv(sizes: Seq<u64>, s: DownloadState) -> bool {
    &&& s.index <= sizes.len()
    &&& s.completed == prefix_total(sizes, s.index as int)
    &&& match s.phase {
        Phase::Locking => s.index == 0,
        Phase::Finishing | Phase::Done => s.index == sizes.len(),
        Phase::Failed => true,
        _ => s.index < sizes.len() && s.offset <= sizes[s.index as int] && (s.phase
            == Phase::Writing ==> s.offset + s.pending <= sizes[s.index as int]) && (s.phase
            != Phase::Writing ==> s.pending == 0) && (s.phase == Phase::Fetching ==> s.offset
            < sizes[s.index as int]),
    }
}

proof fn lemma_prefix_total_bound(sizes: Seq<u64>, n: int)
    requires
        0 <= n <= sizes.len(),
    ensures
        0 <= prefix_total(sizes, n) <= n * 0xFFFF_FFFF_FFFF_FFFF,
    decreases n,
{
    if n > 0 {
        lemma_prefix_total_bound(sizes, n - 1);
    }
}

/// Every step keeps the state invariant.
pub proof fn lemma_step_keeps_invariant(
    sizes: Seq<u64>,
    total: u128,
    s: DownloadState,
    e: EventView,
)
    requires
        sizes.len() <= usize::MAX,
        state_inv(sizes, s),
    ensures
        state_inv(sizes, step_spec(sizes, total, s, e).0),
{
    if s.index < sizes.len() {
        lemma_prefix_total_bound(sizes, s.index + 1);
        assert(prefix_total(sizes, s.index + 1) == prefix_total(sizes, s.index as int) + sizes[s.index as int]);
        let k = s.index + 1;
        assert(k * 0xFFFF_FFFF_FFFF_FFFF < 0x1_0000_0000_0000_0000_0000_0000_0000_0000) by (nonlinear_arith)
            requires
                0 <= k <= 0xFFFF_FFFF_FFFF_FFFF,
        ;
        assert(prefix_total(sizes, k) < 0x1_0000_0000_0000_0000_0000_0000_0000_0000);
    }
}

/// Progress counts every byte of the model: a download report of file `index`
/// is the size of all files before it plus the bytes of its partial file now
/// on disk, and a verification report of file `index` is the size of the files
/// before it; both are out of the manifest total.
pub proof fn lemma_progress_counts_earlier_files(
    sizes: Seq<u64>,
    total: u128,
    s: DownloadState,
    e: EventView,
)
    requires
        sizes.len() <= usize::MAX,
        state_inv(sizes, s),
    ensures
        ({
            let (t, st) = step_spec(sizes, total, s, e);
            &&& st.progress matches Some(Progress::Downloading { index, done, total: all }) ==> index
                == t.index && index < sizes.len() && done == prefix_total(sizes, index as int)
                + t.offset && t.offset <= sizes[index as int] && all == total
            &&& st.progress matches Some(Progress::Verifying { index, completed, total: all })
                ==> index == t.index && index < sizes.len() && completed == prefix_total(
                sizes,
                index as int,
            ) && all == total
        }),
{
    if s.index < sizes.len() {
        lemma_prefix_total_bound(sizes, s.index + 1);
        let k = s.index + 1;
        assert(k * 0xFFFF_FFFF_FFFF_FFFF < 0x1_0000_0000_0000_0000_0000_0000_0000_0000) by (nonlinear_arith)
            requires
                0 <= k <= 0xFFFF_FFFF_FFFF_FFFF,
        ;
        assert(prefix_total(sizes, s.index + 1) == prefix_total(sizes, s.index as int) + sizes[s.index as int]);
    }
    lemma_step_keeps_invariant(sizes, total, s, e);
}

/// A file reaches its final name only by the rename that follows a matching
/// digest of its partial file.
pub proof fn lemma_rename_only_after_digest(
    sizes: Seq<u64>,
    total: u128,
    s: DownloadState,
    e: EventView,
)
    ensures
        step_spec(sizes, total, s, e).1.action == Action::Rename ==> s.phase == Phase::CheckingPart
            && e == EventView::PartChecked(Verification::Digest(true)),
{
}

/// An existing file that fails verification is never overwritten: the
/// download stops instead.
pub proof fn lemma_existing_file_never_overwritten(
    sizes: Seq<u64>,
    total: u128,
    s: DownloadState,
    v: Verification,
)
    requires
        s.phase == Phase::CheckingFinal,
        v != Verification::Digest(true),
    ensures
        step_spec(sizes, total, s, EventView::FinalChecked { verification: v, exists: true }).1.action
            is Fail,
{
}

/// A resumed response must cover exactly the missing bytes; otherwise the
/// download stops and the partial file is preserved.
pub proof fn lemma_bad_range_preserves_part(
    sizes: Seq<u64>,
    total: u128,
    s: DownloadState,
    content_range: Option<Seq<char>>,
)
    requires
        s.phase == Phase::Fetching,
        content_range != Some(expected_content_range(s.offset, sizes[s.index as int])),
    ensures
        step_spec(
            sizes,
            total,
            s,
            EventView::Responded { status: 206, content_range },
        ).1.action == Action::Fail(Failure::UnexpectedContentRange),
{
}

/// Partial files are kept for a later resume: one is removed only when it is
/// longer than its file's pinned size, and discarded only after its digest
/// failed; a resumed request asks exactly for the bytes after those on disk.
pub proof fn lemma_partial_files_kept(
    sizes: Seq<u64>,
    total: u128,
    s: DownloadState,
    e: EventView,
)
    requires
        state_inv(sizes, s),
    ensures
        step_spec(sizes, total, s, e).1.action == Action::RemovePart ==> s.phase
            == Phase::PreparingPart && (e matches EventView::PartFound(PartState::Regular(len))
            && len > sizes[s.index as int]),
        step_spec(sizes, total, s, e).1.action == Action::DiscardPart ==> s.phase
            == Phase::CheckingPart && (e matches EventView::PartChecked(v) && v
            != Verification::Digest(true) && v != Verification::NotRegular),
        step_spec(sizes, total, s, e).1.action matches Action::Fetch { resume_from } ==> ({
            let t = step_spec(sizes, total, s, e).0;
            &&& t.offset == resume_from
            &&& resume_from < sizes[t.index as int]
            &&& (e matches EventView::PartFound(PartState::Regular(len)) ==> resume_from == len)
        }),
{
}

/// The protocol run over the events `es` from state `s`: the state reached
/// and the actions asked for, in order.
pub open spec fn replay(sizes: Seq<u64>, total: u128, s: DownloadState, es: Seq<EventView>) -> (
    DownloadState,
    Seq<Action>,
)
    decreases es.len(),
{
    if es.len() == 0 {
        (s, Seq::empty())
    } else {
        let (t, st) = step_spec(sizes, total, s, es[0]);
        let (u, acts) = replay(sizes, total, t, es.drop_first());
        (u, seq![st.action] + acts)
    }
}

/// The state reached after the first `k` events of `es`.
pub open spec fn replay_state(
    sizes: Seq<u64>,
    total: u128,
    s: DownloadState,
    es: Seq<EventView>,
    k: int,
) -> DownloadState {
    replay(sizes, total, s, es.take(k)).0
}

proof fn lemma_replay_len(sizes: Seq<u64>, total: u128, s: DownloadState, es: Seq<EventView>)
    ensures
        replay(sizes, total, s, es).1.len() == es.len(),
    decreases es.len(),
{
    if es.len() > 0 {
        let t = step_spec(sizes, total, s, es[0]).0;
        lemma_replay_len(sizes, total, t, es.drop_first());
    }
}

proof fn lemma_replay_snoc(
    sizes: Seq<u64>,
    total: u128,
    s: DownloadState,
    xs: Seq<EventView>,
    e: EventView,
)
    ensures
        replay(sizes, total, s, xs.push(e)).0 == step_spec(
            sizes,
            total,
            replay(sizes, total, s, xs).0,
            e,
        ).0,
    decreases xs.len(),
{
    if xs.len() == 0 {
        let t = step_spec(sizes, total, s, e).0;
        assert(xs.push(e).drop_first() =~= Seq::<EventView>::empty());
        assert(xs.push(e)[0] == e);
        assert(replay(sizes, total, t, Seq::<EventView>::empty()).0 == t);
        assert(replay(sizes, total, s, xs).0 == s);
    } else {
        let t = step_spec(sizes, total, s, xs[0]).0;
        assert(xs.push(e)[0] == xs[0]);
        assert(xs.push(e).drop_first() =~= xs.drop_first().push(e));
        lemma_replay_snoc(sizes, total, t, xs.drop_first(), e);
    }
}

/// The `k`-th action of a run is the step from the state reached after the
/// first `k` events; the state after `k + 1` events is that step's state.
proof fn lemma_replay_at(
    sizes: Seq<u64>,
    total: u128,
    s: DownloadState,
    es: Seq<EventView>,
    k: int,
)
    requires
        0 <= k < es.len(),
    ensures
        replay(sizes, total, s, es).1.len() == es.len(),
        replay(sizes, total, s, es).1[k] == step_spec(
            sizes,
            total,
            replay_state(sizes, total, s, es, k),
            es[k],
        ).1.action,
        replay_state(sizes, total, s, es, k + 1) == step_spec(
            sizes,
            total,
            replay_state(sizes, total, s, es, k),
            es[k],
        ).0,
    decreases k,
{
    lemma_replay_len(sizes, total, s, es);
    assert(es.take(k + 1) =~= es.take(k).push(es[k]));
    lemma_replay_snoc(sizes, total, s, es.take(k), es[k]);
    if k == 0 {
        assert(es.take(0) =~= Seq::<EventView>::empty());
    } else {
        let t = step_spec(sizes, total, s, es[0]).0;
        let rest = es.drop_first();
        lemma_replay_at(sizes, total, t, rest, k - 1);
        assert(es.take(k)[0] == es[0]);
        assert(es.take(k).drop_first() =~= rest.take(k - 1));
        assert(rest[k - 1] == es[k]);
    }
}

proof fn lemma_failed_stays_failed(
    sizes: Seq<u64>,
    total: u128,
    s: DownloadState,
    es: Seq<EventView>,
    j: int,
    k: int,
)
    requires
        0 <= j < k <= es.len(),
        replay(sizes, total, s, es).1[j] is Fail,
    ensures
        replay_state(sizes, total, s, es, k).phase == Phase::Failed,
    decreases k - j,
{
    if k == j + 1 {
        lemma_replay_at(sizes, total, s, es, j);
    } else {
        lemma_failed_stays_failed(sizes, total, s, es, j, k - 1);
        lemma_replay_at(sizes, total, s, es, k - 1);
    }
}

/// A file reaches its final name only after its partial file verified: over
/// any run of the protocol, every rename answers a matching digest of the
/// partial file just checked.
pub proof fn lemma_run_renames_only_verified_parts(
    sizes: Seq<u64>,
    total: u128,
    s: DownloadState,
    es: Seq<EventView>,
)
    ensures
        forall|k: int|
            0 <= k < es.len() && #[trigger] replay(sizes, total, s, es).1[k] == Action::Rename
                ==> es[k] == EventView::PartChecked(Verification::Digest(true))
                && replay_state(sizes, total, s, es, k).phase == Phase::CheckingPart,
{
    assert forall|k: int|
        0 <= k < es.len() && #[trigger] replay(sizes, total, s, es).1[k]
            == Action::Rename implies es[k] == EventView::PartChecked(Verification::Digest(true))
        && replay_state(sizes, total, s, es, k).phase == Phase::CheckingPart by {
        lemma_replay_at(sizes, total, s, es, k);
        lemma_rename_only_after_digest(sizes, total, replay_state(sizes, total, s, es, k), es[k]);
    }
}

/// A failure ends the download: over any run, every action after a failure
/// is a failure too, so nothing more is fetched, written or renamed.
pub proof fn lemma_run_failure_is_final(
    sizes: Seq<u64>,
    total: u128,
    s: DownloadState,
    es: Seq<EventView>,
)
    ensures
        forall|j: int, k: int|
            0 <= j <= k < es.len() && #[trigger] replay(sizes, total, s, es).1[j] is Fail
                ==> #[trigger] replay(sizes, total, s, es).1[k] is Fail,
{
    assert forall|j: int, k: int|
        0 <= j <= k < es.len() && #[trigger] replay(sizes, total, s, es).1[j] is Fail implies
            #[trigger] replay(sizes, total, s, es).1[k] is Fail by {
        if j < k {
            lemma_failed_stays_failed(sizes, total, s, es, j, k);
            lemma_replay_at(sizes, total, s, es, k);
        }
    }
}

/// An existing file that fails its check is never overwritten over a whole
/// run: once the check of a file's final name finds it there but not
/// matching, that answer and every later one is a failure.
pub proof fn lemma_run_keeps_corrupt_existing_file(
    sizes: Seq<u64>,
    total: u128,
    s: DownloadState,
    es: Seq<EventView>,
    k: int,
)
    requires
        0 <= k < es.len(),
        replay_state(sizes, total, s, es, k).phase == Phase::CheckingFinal,
        es[k] matches EventView::FinalChecked { verification, exists } && exists && verification
            != Verification::Digest(true),
    ensures
        forall|j: int| k <= j < es.len() ==> #[trigger] replay(sizes, total, s, es).1[j] is Fail,
{
    lemma_replay_at(sizes, total, s, es, k);
    lemma_run_failure_is_final(sizes, total, s, es);
    assert(replay(sizes, total, s, es).1[k] is Fail);
}

/// The phases in which the download works on the current file after its final
/// name was checked: from preparing the partial file to renaming it.
pub open spec fn working_on_file(p: Phase) -> bool {
    match p {
        Phase::PreparingPart | Phase::RemovingPart | Phase::Fetching | Phase::Opening
        | Phase::Receiving | Phase::Writing | Phase::Syncing | Phase::CheckingPart
        | Phase::Discarding | Phase::Renaming => true,
        _ => false,
    }
}

/// In the run over `es` from `s`, the `j`-th event answered the check of file
/// `i`'s final name and found nothing there.
pub open spec fn found_absent(
    sizes: Seq<u64>,
    total: u128,
    s: DownloadState,
    es: Seq<EventView>,
    j: int,
    i: usize,
) -> bool {
    &&& replay_state(sizes, total, s, es, j).phase == Phase::CheckingFinal
    &&& replay_state(sizes, total, s, es, j).index == i
    &&& es[j] matches EventView::FinalChecked { exists, .. } && !exists
}

proof fn lemma_work_starts_at_absent_check(
    sizes: Seq<u64>,
    total: u128,
    x: DownloadState,
    e: EventView,
)
    ensures
        ({
            let y = step_spec(sizes, total, x, e).0;
            working_on_file(y.phase) ==> y.index == x.index && (working_on_file(x.phase) || (
            x.phase == Phase::CheckingFinal && (e matches EventView::FinalChecked { exists, .. }
                && !exists)))
        }),
{
}

proof fn lemma_work_follows_absent_check(
    sizes: Seq<u64>,
    total: u128,
    s: DownloadState,
    es: Seq<EventView>,
    p: int,
)
    requires
        !working_on_file(s.phase),
        0 <= p <= es.len(),
        working_on_file(replay_state(sizes, total, s, es, p).phase),
    ensures
        exists|j: int|
            0 <= j < p && #[trigger] found_absent(
                sizes,
                total,
                s,
                es,
                j,
                replay_state(sizes, total, s, es, p).index,
            ),
    decreases p,
{
    if p == 0 {
        assert(es.take(0) =~= Seq::<EventView>::empty());
    } else {
        lemma_replay_at(sizes, total, s, es, p - 1);
        let x = replay_state(sizes, total, s, es, p - 1);
        lemma_work_starts_at_absent_check(sizes, total, x, es[p - 1]);
        if working_on_file(x.phase) {
            lemma_work_follows_absent_check(sizes, total, s, es, p - 1);
        } else {
            assert(found_absent(sizes, total, s, es, p - 1, x.index));
        }
    }
}

/// An existing file is never replaced over a whole run: a file is renamed
/// into place only after this run checked its final name and found nothing
/// there. A run starts between files, as `DownloadMachine::new` leaves it.
pub proof fn lemma_run_renames_only_absent_files(
    sizes: Seq<u64>,
    total: u128,
    s: DownloadState,
    es: Seq<EventView>,
)
    requires
        !working_on_file(s.phase),
    ensures
        forall|k: int|
            0 <= k < es.len() && #[trigger] replay(sizes, total, s, es).1[k] == Action::Rename
                ==> exists|j: int|
                0 <= j < k && #[trigger] found_absent(
                    sizes,
                    total,
                    s,
                    es,
                    j,
                    replay_state(sizes, total, s, es, k).index,
                ),
{
    assert forall|k: int|
        0 <= k < es.len() && #[trigger] replay(sizes, total, s, es).1[k]
            == Action::Rename implies exists|j: int|
        0 <= j < k && #[trigger] found_absent(
            sizes,
            total,
            s,
            es,
            j,
            replay_state(sizes, total, s, es, k).index,
        ) by {
        lemma_replay_at(sizes, total, s, es, k);
        lemma_rename_only_after_digest(sizes, total, replay_state(sizes, total, s, es, k), es[k]);
        lemma_work_follows_absent_check(sizes, total, s, es, k);
    }
}

/// The events of a download whose `n` files are all already in place and
/// verified: the lock, a matching final file each, and the end.
pub open spec fn all_verified_events(n: nat) -> Seq<EventView> {
    seq![EventView::Locked] + Seq::new(
        n,
        |i: int| EventView::FinalChecked { verification: Verification::Digest(true), exists: true },
    ) + seq![EventView::Finished]
}

/// An action that only checks or finishes, and so neither sends a request nor
/// writes a model file.
pub open spec fn checks_only(a: Action) -> bool {
    a == Action::CheckFinal || a == Action::Finish || a == Action::Done
}

proof fn lemma_verified_tail(sizes: Seq<u64>, total: u128, i: nat)
    requires
        i <= sizes.len(),
        sizes.len() <= usize::MAX,
    ensures
        ({
            let n = sizes.len();
            let start = begin_file_spec(sizes, total, i as int, prefix_total(sizes, i as int)).0;
            let es = Seq::new(
                (n - i) as nat,
                |k: int| EventView::FinalChecked { verification: Verification::Digest(true), exists: true },
            ) + seq![EventView::Finished];
            let (u, acts) = replay(sizes, total, start, es);
            &&& u.phase == Phase::Done
            &&& forall|k: int| 0 <= k < acts.len() ==> checks_only(#[trigger] acts[k])
        }),
    decreases sizes.len() - i,
{
    let n = sizes.len();
    lemma_prefix_total_bound(sizes, i as int);
    assert(i * 0xFFFF_FFFF_FFFF_FFFF < 0x1_0000_0000_0000_0000_0000_0000_0000_0000) by (nonlinear_arith)
        requires
            0 <= i <= 0xFFFF_FFFF_FFFF_FFFF,
    ;
    let start = begin_file_spec(sizes, total, i as int, prefix_total(sizes, i as int)).0;
    let fc = EventView::FinalChecked { verification: Verification::Digest(true), exists: true };
    let es = Seq::new((n - i) as nat, |k: int| fc) + seq![EventView::Finished];
    if i == n {
        assert(es =~= seq![EventView::Finished]);
        assert(es.drop_first() =~= Seq::<EventView>::empty());
        assert(start.phase == Phase::Finishing);
        let (t, st) = step_spec(sizes, total, start, es[0]);
        assert(t.phase == Phase::Done && st.action == Action::Done);
        assert(replay(sizes, total, t, es.drop_first()) == (t, Seq::<Action>::empty()));
        let (u, acts) = replay(sizes, total, start, es);
        assert(u == t);
        assert(acts =~= seq![Action::Done]);
        assert forall|k: int| 0 <= k < acts.len() implies checks_only(#[trigger] acts[k]) by {
            assert(acts[k] == Action::Done);
        }
    } else {
        lemma_verified_tail(sizes, total, i + 1);
        lemma_prefix_total_bound(sizes, (i + 1) as int);
        assert((i + 1) * 0xFFFF_FFFF_FFFF_FFFF < 0x1_0000_0000_0000_0000_0000_0000_0000_0000) by (nonlinear_arith)
            requires
                0 <= i + 1 <= 0xFFFF_FFFF_FFFF_FFFF,
        ;
        assert(prefix_total(sizes, (i + 1) as int) == prefix_total(sizes, i as int) + sizes[i as int]);
        assert(es[0] == fc);
        assert(es.drop_first() =~= Seq::new((n - (i + 1)) as nat, |k: int| fc) + seq![EventView::Finished]);
        let (t, st) = step_spec(sizes, total, start, es[0]);
        assert(t == begin_file_spec(sizes, total, (i + 1) as int, prefix_total(sizes, (i + 1) as int)).0);
        assert(checks_only(st.action));
        let (u, acts) = replay(sizes, total, t, es.drop_first());
        let (u2, acts2) = replay(sizes, total, start, es);
        assert(acts2 == seq![st.action] + acts);
        assert forall|k: int| 0 <= k < acts2.len() implies checks_only(#[trigger] acts2[k]) by {
            if k > 0 {
                assert(acts2[k] == acts[k - 1]);
            }
        }
    }
}

/// Downloading a checkpoint whose files are all in place and verified sends
/// no request and writes no model file: the protocol only checks each file
/// and finishes.
pub proof fn lemma_verified_files_fetch_nothing(sizes: Seq<u64>, total: u128)
    requires
        sizes.len() <= usize::MAX,
    ensures
        ({
            let init = DownloadState {
                phase: Phase::Locking,
                index: 0,
                completed: 0,
                offset: 0,
                pending: 0,
            };
            let (u, acts) = replay(sizes, total, init, all_verified_events(sizes.len()));
            &&& u.phase == Phase::Done
            &&& forall|k: int| 0 <= k < acts.len() ==> checks_only(#[trigger] acts[k])
        }),
{
    let n = sizes.len();
    let init = DownloadState { phase: Phase::Locking, index: 0, completed: 0, offset: 0, pending: 0 };
    let es = all_verified_events(n);
    let fc = EventView::FinalChecked { verification: Verification::Digest(true), exists: true };
    lemma_verified_tail(sizes, total, 0);
    let tail = Seq::new(n, |k: int| fc) + seq![EventView::Finished];
    assert(es[0] == EventView::Locked);
    assert(es.drop_first() =~= tail);
    let (t, st) = step_spec(sizes, total, init, es[0]);
    assert(t == begin_file_spec(sizes, total, 0, prefix_total(sizes, 0)).0);
    let (u, acts) = replay(sizes, total, t, tail);
    let (u2, acts2) = replay(sizes, total, init, es);
    assert(acts2 == seq![st.action] + acts);
    assert forall|k: int| 0 <= k < acts2.len() implies checks_only(#[trigger] acts2[k]) by {
        if k > 0 {
            assert(acts2[k] == acts[k - 1]);
        }
    }
}

/// A finished download has verified or written every file of the manifest.
pub proof fn lemma_done_accounts_for_every_file(sizes: Seq<u64>, s: DownloadState)
    requires
        state_inv(sizes, s),
        s.phase == Phase::Done,
    ensures
        s.completed == prefix_total(sizes, sizes.len() as int),
{
}

/// A download of the files of a validated manifest.
pub struct DownloadMachine {
    files: Vec<FileEntry>,
    total: u128,
    origin: String,
    repo: String,
    revision: String,
    state: DownloadState,
}

impl DownloadMachine {
    pub closed spec fn sizes(&self) -> Seq<u64> {
        self.files@.map_values(|f: FileEntry| f.size)
    }

    pub closed spec fn total(&self) -> u128 {
        self.total
    }

    pub closed spec fn state(&self) -> DownloadState {
        self.state
    }

    /// The names of the files to download, in order.
    pub closed spec fn names(&self) -> Seq<Seq<char>> {
        self.files@.map_values(|f: FileEntry| f.name@)
    }

    /// Where the files come from and what they must hash to: the source of
    /// each file, the pinned digest of each file, the origin, the repository
    /// and the revision.
    pub closed spec fn setup(&self) -> (
        Seq<Seq<char>>,
        Seq<Seq<char>>,
        Seq<char>,
        Seq<char>,
        Seq<char>,
    ) {
        (
            self.files@.map_values(|f: FileEntry| f.source@),
            self.files@.map_values(|f: FileEntry| f.sha256@),
            self.origin@,
            self.repo@,
            self.revision@,
        )
    }

    pub closed spec fn wf(&self) -> bool {
        &&& self.files@.len() <= usize::MAX
        &&& state_inv(self.sizes(), self.state)
    }

    /// A download of `m` from `origin`, or `InvalidManifest` when an entry is
    /// invalid; it begins by taking the lock.
    pub fn new(m: &Manifest, origin: &str) -> (r: Result<(DownloadMachine, Step), Failure>)
        ensures
            match r {
                Err(f) => f == Failure::InvalidManifest && !manifest_valid(*m),
                Ok((dm, step)) => {
                    &&& manifest_valid(*m)
                    &&& dm.wf()
                    &&& dm.state().phase == Phase::Locking
                    &&& dm.total() == sizes_total(m.sizes@)
                    &&& dm.names() == m.files@.map_values(|s: String| s@)
                    &&& dm.sizes().len() == m.files@.len()
                    &&& forall|i: int|
                        0 <= i < m.files@.len() ==> lookup(m.sizes@, m.files@[i]@) == Some(
                            #[trigger] dm.sizes()[i],
                        )
                    &&& dm.setup().2 == origin@
                    &&& dm.setup().3 == m.repo@
                    &&& dm.setup().4 == m.revision@
                    &&& forall|i: int|
                        0 <= i < m.files@.len() ==> #[trigger] dm.setup().0[i] == source_of(
                            *m,
                            m.files@[i]@,
                        ) && (lookup(m.sha256@, m.files@[i]@) matches Some(h) && dm.setup().1[i]
                            == h@)
                    &&& step == Step { progress: None, action: Action::Lock }
                },
            },
    {
        let files = match validate_manifest(m) {
            None => return Err(Failure::InvalidManifest),
            Some(f) => f,
        };
        let count = files.len();
        assert(files@.len() == count);
        let total = manifest_total(&m.sizes);
        let dm = DownloadMachine {
            files,
            total,
            origin: origin.to_owned(),
            repo: m.repo.clone(),
            revision: m.revision.clone(),
            state: DownloadState {
                phase: Phase::Locking,
                index: 0,
                completed: 0,
                offset: 0,
                pending: 0,
            },
        };
        assert(dm.names() =~= m.files@.map_values(|s: String| s@));
        assert(dm.sizes().len() == m.files@.len());
        assert forall|i: int| 0 <= i < m.files@.len() implies lookup(m.sizes@, m.files@[i]@) == Some(
            #[trigger] dm.sizes()[i],
        ) by {
            assert(entry_matches(*m, m.files@[i]@, dm.files@[i]));
        }
        assert forall|i: int| 0 <= i < m.files@.len() implies #[trigger] dm.setup().0[i] == source_of(
            *m,
            m.files@[i]@,
        ) && (lookup(m.sha256@, m.files@[i]@) matches Some(h) && dm.setup().1[i] == h@) by {
            assert(entry_matches(*m, m.files@[i]@, dm.files@[i]));
        }
        Ok((dm, Step { progress: None, action: Action::Lock }))
    }

    fn begin_file(&mut self, i: usize, completed: u128) -> (step: Step)
        requires
            i <= old(self).files@.len(),
            old(self).files@.len() <= usize::MAX,
        ensures
            (final(self).state, step) == begin_file_spec(old(self).sizes(), old(self).total, i as int, completed as int),
            final(self).files == old(self).files,
            final(self).total == old(self).total,
            final(self).origin == old(self).origin,
            final(self).repo == old(self).repo,
            final(self).revision == old(self).revision,
    {
        if i < self.files.len() {
            self.state = DownloadState {
                phase: Phase::CheckingFinal,
                index: i,
                completed,
                offset: 0,
                pending: 0,
            };
            Step {
                progress: Some(Progress::Verifying { index: i, completed, total: self.total }),
                action: Action::CheckFinal,
            }
        } else {
            self.state = DownloadState {
                phase: Phase::Finishing,
                index: i,
                completed,
                offset: 0,
                pending: 0,
            };
            Step { progress: None, action: Action::Finish }
        }
    }

    fn resume(&mut self, offset: u64) -> (step: Step)
        requires
            old(self).state.index < old(self).files@.len(),
        ensures
            (final(self).state, step) == resume_spec(old(self).sizes(), old(self).state, offset),
            final(self).files == old(self).files,
            final(self).total == old(self).total,
            final(self).origin == old(self).origin,
            final(self).repo == old(self).repo,
            final(self).revision == old(self).revision,
    {
        let size = self.files[self.state.index].size;
        if offset < size {
            self.state = DownloadState { phase: Phase::Fetching, offset, pending: 0, ..self.state };
            Step { progress: None, action: Action::Fetch { resume_from: offset } }
        } else {
            self.state = DownloadState {
                phase: Phase::CheckingPart,
                offset,
                pending: 0,
                ..self.state
            };
            Step {
                progress: Some(Progress::VerifyingDigest { index: self.state.index }),
                action: Action::CheckPart,
            }
        }
    }

    fn fail(&mut self, f: Failure) -> (step: Step)
        ensures
            (final(self).state, step) == fail_spec(old(self).state, f),
            final(self).files == old(self).files,
            final(self).total == old(self).total,
            final(self).origin == old(self).origin,
            final(self).repo == old(self).repo,
            final(self).revision == old(self).revision,
    {
        self.state = DownloadState { phase: Phase::Failed, ..self.state };
        Step { progress: None, action: Action::Fail(f) }
    }

    /// Advances the download by one event, as `step_spec` states.
    pub fn step(&mut self, e: Event) -> (step: Step)
        requires
            old(self).wf(),
        ensures
            final(self).wf(),
            (final(self).state(), step) == step_spec(
                old(self).sizes(),
                old(self).total(),
                old(self).state(),
                e@,
            ),
            final(self).sizes() == old(self).sizes(),
            final(self).names() == old(self).names(),
            final(self).total() == old(self).total(),
            final(self).setup() == old(self).setup(),
    {
        proof {
            lemma_step_keeps_invariant(self.sizes(), self.total, self.state, e@);
            if self.state.index < self.files@.len() {
                lemma_prefix_total_bound(self.sizes(), self.state.index + 1);
                assert(self.sizes()[self.state.index as int] == self.files@[self.state.index as int].size);
            }
        }
        let ghost sizes = self.sizes();
        let s = self.state;
        match (s.phase, e) {
            (Phase::Locking, Event::Locked) => self.begin_file(0, 0),
            (Phase::CheckingFinal, Event::FinalChecked { verification, exists }) => {
                let size = self.files[s.index].size;
                if verification == Verification::Digest(true) {
                    self.begin_file(s.index + 1, s.completed + size as u128)
                } else if verification == Verification::NotRegular {
                    self.fail(Failure::NotRegularFile)
                } else if exists {
                    self.fail(Failure::ExistingFileCorrupt)
                } else {
                    self.state = DownloadState { phase: Phase::PreparingPart, ..s };
                    Step { progress: None, action: Action::PreparePart }
                }
            },
            (Phase::PreparingPart, Event::PartFound(p)) => match p {
                PartState::NotRegular => self.fail(Failure::PartNotRegular),
                PartState::Absent => self.resume(0),
                PartState::Regular(len) => {
                    if len > self.files[s.index].size {
                        self.state = DownloadState { phase: Phase::RemovingPart, ..s };
                        Step { progress: None, action: Action::RemovePart }
                    } else {
                        self.resume(len)
                    }
                },
            },
            (Phase::RemovingPart, Event::PartRemoved) => self.resume(0),
            (Phase::Fetching, Event::Responded { status, content_range: received }) => {
                if status == 200 {
                    self.state = DownloadState { phase: Phase::Opening, offset: 0, ..s };
                    Step { progress: None, action: Action::OpenPart { truncate: true } }
                } else if status == 206 {
                    let size = self.files[s.index].size;
                    let expected = content_range(s.offset, size);
                    let ok = match &received {
                        Some(c) => {
                            let a = chars_of(c.as_str());
                            let b = chars_of(expected.as_str());
                            chars_eq(a.as_slice(), b.as_slice())
                        },
                        None => false,
                    };
                    if ok {
                        self.state = DownloadState { phase: Phase::Opening, ..s };
                        Step { progress: None, action: Action::OpenPart { truncate: s.offset == 0 } }
                    } else {
                        self.fail(Failure::UnexpectedContentRange)
                    }
                } else {
                    self.fail(Failure::HttpStatus(status))
                }
            },
            (Phase::Opening, Event::Opened) => {
                self.state = DownloadState { phase: Phase::Receiving, ..s };
                Step { progress: None, action: Action::ReadChunk }
            },
            (Phase::Receiving, Event::Chunk(c)) => match c {
                None => {
                    self.state = DownloadState { phase: Phase::Syncing, ..s };
                    Step { progress: None, action: Action::SyncPart }
                },
                Some(n) => {
                    let size = self.files[s.index].size;
                    if n > size - s.offset {
                        self.fail(Failure::ExceedsPinnedSize)
                    } else {
                        self.state = DownloadState { phase: Phase::Writing, pending: n, ..s };
                        Step { progress: None, action: Action::WriteChunk }
                    }
                },
            },
            (Phase::Writing, Event::Written) => {
                let offset = s.offset + s.pending;
                self.state = DownloadState { phase: Phase::Receiving, offset, pending: 0, ..s };
                Step {
                    progress: Some(
                        Progress::Downloading {
                            index: s.index,
                            done: s.completed + offset as u128,
                            total: self.total,
                        },
                    ),
                    action: Action::ReadChunk,
                }
            },
            (Phase::Syncing, Event::Synced) => {
                self.state = DownloadState { phase: Phase::CheckingPart, ..s };
                Step {
                    progress: Some(Progress::VerifyingDigest { index: s.index }),
                    action: Action::CheckPart,
                }
            },
            (Phase::CheckingPart, Event::PartChecked(v)) => {
                if v == Verification::Digest(true) {
                    self.state = DownloadState { phase: Phase::Renaming, ..s };
                    Step { progress: None, action: Action::Rename }
                } else if v == Verification::NotRegular {
                    self.fail(Failure::NotRegularFile)
                } else {
                    self.state = DownloadState { phase: Phase::Discarding, ..s };
                    Step { progress: None, action: Action::DiscardPart }
                }
            },
            (Phase::Discarding, Event::PartDiscarded) => self.fail(Failure::IntegrityFailed),
            (Phase::Renaming, Event::Renamed) => {
                let size = self.files[s.index].size;
                self.begin_file(s.index + 1, s.completed + size as u128)
            },
            (Phase::Finishing, Event::Finished) => {
                self.state = DownloadState { phase: Phase::Done, ..s };
                Step { progress: Some(Progress::Ready), action: Action::Done }
            },
            _ => self.fail(Failure::OutOfOrder),
        }
    }

    /// The file the download is at: the one being worked on, or the number
    /// of files once all are done.
    pub fn current_index(&self) -> (i: usize)
        ensures
            i == self.state().index,
    {
        self.state.index
    }

    /// The number of files to download.
    pub fn file_count(&self) -> (n: usize)
        ensures
            n == self.names().len(),
    {
        self.files.len()
    }

    /// The name of file `i`.
    pub fn file_name(&self, i: usize) -> (r: String)
        requires
            i < self.names().len(),
        ensures
            r@ == self.names()[i as int],
    {
        self.files[i].name.clone()
    }

    /// The partial file of file `i`.
    pub fn part_name(&self, i: usize) -> (r: String)
        requires
            i < self.names().len(),
        ensures
            r@ == part_name_spec(self.names()[i as int]),
    {
        let mut s = self.files[i].name.clone();
        append_str(&mut s, ".part");
        s
    }

    /// The URL of file `i`'s source at the pinned revision.
    pub fn source_url(&self, i: usize) -> (r: String)
        requires
            i < self.names().len(),
        ensures
            r@ == source_url_spec(self.setup().2, self.setup().3, self.setup().4, self.setup().0[i as int]),
    {
        let mut s = self.origin.clone();
        append_str(&mut s, "/");
        append_str(&mut s, self.repo.as_str());
        append_str(&mut s, "/resolve/");
        append_str(&mut s, self.revision.as_str());
        append_str(&mut s, "/");
        append_str(&mut s, self.files[i].source.as_str());
        s
    }

    /// The pinned size of file `i`.
    pub fn size(&self, i: usize) -> (r: u64)
        requires
            i < self.names().len(),
        ensures
            r == self.sizes()[i as int],
    {
        self.files[i].size
    }

    /// The pinned SHA-256 of file `i`, in hexadecimal.
    pub fn sha256(&self, i: usize) -> (r: String)
        requires
            i < self.names().len(),
        ensures
            r@ == self.setup().1[i as int],
    {
        self.files[i].sha256.clone()
    }

    /// The revision written into the incomplete marker.
    pub fn revision(&self) -> (r: String)
        ensures
            r@ == self.setup().4,
    {
        self.revision.clone()
    }
}

/// The message of a failure about file `name`.
pub open spec fn failure_message_spec(f: Failure, name: Seq<char>) -> Seq<char> {
    match f {
        Failure::InvalidManifest => "Invalid pinned model manifest"@,
        Failure::ExistingFileCorrupt => "Existing file "@ + name
                + " failed verification. Move it aside before retrying; it has not been overwritten."@,
        Failure::NotRegularFile => "Model files must be regular files, not symlinks"@,
        Failure::PartNotRegular => "Partial download must be a regular file"@,
        Failure::UnexpectedContentRange => "Unexpected Content-Range; partial file preserved"@,
        Failure::HttpStatus(code) => "Model download returned HTTP "@ + crate::served::status_text_spec(code),
        Failure::ExceedsPinnedSize => "Download exceeds pinned size"@,
        Failure::IntegrityFailed => "Integrity check failed for "@ + name + "; retry the download"@,
        Failure::OutOfOrder => "Download protocol received an unexpected event"@,
    }
}

pub fn failure_message(f: Failure, name: &str) -> (r: String)
    ensures
        r@ == failure_message_spec(f, name@),
{
    match f {
        Failure::InvalidManifest => "Invalid pinned model manifest".to_owned(),
        Failure::ExistingFileCorrupt => {
            let mut t = "Existing file ".to_owned();
            append_str(&mut t, name);
            append_str(
                &mut t,
                " failed verification. Move it aside before retrying; it has not been overwritten.",
            );
            t
        },
        Failure::NotRegularFile => "Model files must be regular files, not symlinks".to_owned(),
        Failure::PartNotRegular => "Partial download must be a regular file".to_owned(),
        Failure::UnexpectedContentRange => "Unexpected Content-Range; partial file preserved".to_owned(),
        Failure::HttpStatus(code) => {
            let mut t = "Model download returned HTTP ".to_owned();
            let text = crate::served::status_text(code);
            append_str(&mut t, text.as_str());
            t
        },
        Failure::ExceedsPinnedSize => "Download exceeds pinned size".to_owned(),
        Failure::IntegrityFailed => {
            let mut t = "Integrity check failed for ".to_owned();
            append_str(&mut t, name);
            append_str(&mut t, "; retry the download");
            t
        },
        Failure::OutOfOrder => "Download protocol received an unexpected event".to_owned(),
    }
}

} // verus!
