//! Pinned, built-in model downloads: users never need to maintain a catalog.
//! Which selections are downloadable, how they are listed before they are
//! installed, and the checks that precede a download.
use crate::local_models::DEFAULT_CONTEXT;
use crate::model_download::{sizes_total, manifest_total, Manifest};
use crate::model_info::{local_model_info, local_model_view, model_views, ModelInfo, ModelInfoView};
use crate::path::{join, join_spec, path_eq, paths_equal};
use crate::text::{chars_of, decimal, lines, parse_u64_range, parse_u64_spec, push_char, push_decimal, push_decimal_u128, tokens, trim, trim_range, line_ranges, token_ranges, range_texts, digit_char};
use vstd::prelude::*;

verus! {

/// The number of checkpoints in the built-in catalog.
pub const CATALOG_LEN: usize = 5;

/// The names of the built-in checkpoints, in catalog order.
pub open spec fn catalog_names() -> Seq<Seq<char>> {
    seq![
        "Qwen3.5-2B-4bit"@,
        "Qwen3.5-4B-4bit"@,
        "Qwen3.8-27B-Uncensored-MLX-4bit"@,
        "Qwen3.8-27B-Uncensored-MLX-6bit"@,
        "Qwen3.8-27B-Uncensored-MLX-8bit"@,
    ]
}

/// The RAM, in GiB, that each built-in checkpoint needs at least.
pub open spec fn catalog_ram() -> Seq<u64> {
    seq![4, 6, 20, 32, 40]
}

/// The name and minimum RAM of catalog entry `i`.
pub fn catalog_entry(i: usize) -> (r: (String, u64))
    requires
        i < CATALOG_LEN,
    ensures
        r.0@ == catalog_names()[i as int],
        r.1 == catalog_ram()[i as int],
{
    if i == 0 {
        ("Qwen3.5-2B-4bit".to_owned(), 4)
    } else if i == 1 {
        ("Qwen3.5-4B-4bit".to_owned(), 6)
    } else if i == 2 {
        ("Qwen3.8-27B-Uncensored-MLX-4bit".to_owned(), 20)
    } else if i == 3 {
        ("Qwen3.8-27B-Uncensored-MLX-6bit".to_owned(), 32)
    } else {
        ("Qwen3.8-27B-Uncensored-MLX-8bit".to_owned(), 40)
    }
}

/// Catalog entry `i` is installed at `model` below `root`.
pub open spec fn entry_at(root: Seq<char>, i: int, model: Seq<char>) -> bool {
    path_eq(join_spec(root, catalog_names()[i]), model)
}

/// The first catalog entry whose path below `root` is `model`, if any.
pub open spec fn catalog_index_spec(root: Seq<char>, model: Seq<char>) -> Option<int> {
    if exists|i: int| 0 <= i < CATALOG_LEN && entry_at(root, i, model) && forall|j: int|
        0 <= j < i ==> !entry_at(root, j, model) {
        Some(
            choose|i: int|
                0 <= i < CATALOG_LEN && entry_at(root, i, model) && forall|j: int|
                    0 <= j < i ==> !entry_at(root, j, model),
        )
    } else {
        None
    }
}

/// The catalog entry that `model` names below `root`.
pub fn catalog_index(root: &str, model: &str) -> (r: Option<usize>)
    ensures
        match r {
            Some(i) => catalog_index_spec(root@, model@) == Some(i as int),
            None => catalog_index_spec(root@, model@) is None && forall|i: int|
                0 <= i < CATALOG_LEN ==> !entry_at(root@, i, model@),
        },
{
    let mut i: usize = 0;
    while i < CATALOG_LEN
        invariant
            i <= CATALOG_LEN,
            forall|j: int| 0 <= j < i ==> !entry_at(root@, j, model@),
        decreases CATALOG_LEN - i,
    {
        let (name, _) = catalog_entry(i);
        let path = join(root, name.as_str());
        if paths_equal(path.as_str(), model) {
            assert(entry_at(root@, i as int, model@));
            assert(0 <= i < CATALOG_LEN && entry_at(root@, i as int, model@) && forall|j: int|
                0 <= j < i ==> !entry_at(root@, j, model@));
            proof {
                let c = choose|c: int|
                    0 <= c < CATALOG_LEN && entry_at(root@, c, model@) && forall|j: int|
                        0 <= j < c ==> !entry_at(root@, j, model@);
                if c < i {
                } else if c > i {
                    assert(!entry_at(root@, i as int, model@));
                }
            }
            return Some(i);
        }
        i = i + 1;
    }
    None
}

/// Whether `model` refers to a checkpoint of the built-in download catalog in
/// the model directory `root` (none when no directory is configured).
pub fn is_downloadable_mlx_model(root: Option<String>, model: &str) -> (b: bool)
    ensures
        b == (root matches Some(r) && exists|i: int| 0 <= i < CATALOG_LEN && entry_at(r@, i, model@)),
{
    match root {
        None => false,
        Some(r) => catalog_index(r.as_str(), model).is_some(),
    }
}

/// `total` bytes in tenths of a GiB, rounded to nearest with ties to even,
/// which is how `{:.1}` writes a byte count divided by 2^30.
pub open spec fn gib_tenths(total: int) -> int {
    let n = total * 10;
    let q = n / 1_073_741_824;
    let r = n % 1_073_741_824;
    if r > 536_870_912 || (r == 536_870_912 && q % 2 == 1) {
        q + 1
    } else {
        q
    }
}

/// A size in GiB with one decimal.
pub open spec fn gib_text(total: int) -> Seq<char> {
    let t = gib_tenths(total);
    decimal((t / 10) as nat).push('.').push(digit_char((t % 10) as nat))
}

/// How a downloadable checkpoint describes itself.
pub open spec fn download_description(total: int, ram: u64) -> Seq<char> {
    "Download "@ + gib_text(total) + " GiB · at least "@ + decimal(ram as nat)
        + " GiB RAM · Apple Silicon / MLX"@
}

pub fn push_gib(s: &mut String, total: u128)
    requires
        total < 0x1_0000_0000_0000_0000_0000_0000,
    ensures
        final(s)@ == old(s)@ + gib_text(total as int),
{
    let n = total * 10;
    let q = n / 1_073_741_824;
    let r = n % 1_073_741_824;
    let t = if r > 536_870_912 || (r == 536_870_912 && q % 2 == 1) {
        q + 1
    } else {
        q
    };
    assert(t == gib_tenths(total as int));
    push_decimal_u128(s, t / 10);
    push_char(s, '.');
    let d = ((t % 10) as u8 + 48) as char;
    assert(d == digit_char((t % 10) as nat));
    push_char(s, d);
}

/// The catalog entry of checkpoint `i` before it is installed: the local
/// profile at its path below `root`, named after the checkpoint, with the MLX
/// context window and a description of its download size and RAM needs.
pub open spec fn download_view(root: Seq<char>, i: int, total: int) -> ModelInfoView {
    ModelInfoView {
        display_name: catalog_names()[i],
        context_window: Some(DEFAULT_CONTEXT),
        description: Some(download_description(total, catalog_ram()[i])),
        ..local_model_view(join_spec(root, catalog_names()[i]))
    }
}

/// Some listed model is at `path`.
pub open spec fn listed_at(ms: Seq<ModelInfoView>, path: Seq<char>) -> bool {
    exists|j: int| 0 <= j < ms.len() && path_eq(#[trigger] ms[j].slug, path)
}

/// The catalog after considering entries `0..n`: each entry not yet listed
/// (by path) whose manifest could be read is added, in order.
pub open spec fn add_downloads_spec(
    root: Seq<char>,
    ms: Seq<ModelInfoView>,
    totals: Seq<Option<int>>,
    n: int,
) -> Seq<ModelInfoView>
    decreases n,
{
    if n <= 0 {
        ms
    } else {
        let prev = add_downloads_spec(root, ms, totals, n - 1);
        let path = join_spec(root, catalog_names()[n - 1]);
        if listed_at(prev, path) {
            prev
        } else {
            match totals[n - 1] {
                None => prev,
                Some(t) => prev.push(download_view(root, n - 1, t)),
            }
        }
    }
}

/// The manifest totals, `None` where a manifest could not be read.
pub open spec fn manifest_totals(ms: Seq<Option<Manifest>>) -> Seq<Option<int>> {
    ms.map_values(|m: Option<Manifest>| match m {
        Some(m) => Some(sizes_total(m.sizes@)),
        None => None,
    })
}

fn listed(ms: &Vec<ModelInfo>, path: &str) -> (b: bool)
    ensures
        b == listed_at(model_views(ms@), path@),
{
    let mut j: usize = 0;
    while j < ms.len()
        invariant
            j <= ms@.len(),
            forall|k: int| 0 <= k < j ==> !path_eq(#[trigger] model_views(ms@)[k].slug, path@),
        decreases ms@.len() - j,
    {
        if paths_equal(ms[j].slug.as_str(), path) {
            assert(path_eq(model_views(ms@)[j as int].slug, path@));
            return true;
        }
        j = j + 1;
    }
    false
}

/// Adds every catalog checkpoint that is not installed to the catalog, below
/// `root`. `manifests[i]` is the parsed manifest of entry `i`; an entry whose
/// manifest could not be read is left out. A checkpoint already listed at the
/// same path is never added twice.
pub fn add_downloads(root: &str, models: &mut Vec<ModelInfo>, manifests: &Vec<Option<Manifest>>)
    requires
        manifests@.len() == CATALOG_LEN,
        forall|i: int|
            0 <= i < CATALOG_LEN ==> (#[trigger] manifests@[i] matches Some(m) ==> m.sizes@.len()
                < 0x1_0000_0000),
    ensures
        model_views(final(models)@) == add_downloads_spec(
            root@,
            model_views(old(models)@),
            manifest_totals(manifests@),
            CATALOG_LEN as int,
        ),
{
    let ghost orig = model_views(models@);
    let ghost totals = manifest_totals(manifests@);
    let mut i: usize = 0;
    while i < CATALOG_LEN
        invariant
            i <= CATALOG_LEN,
            manifests@.len() == CATALOG_LEN,
            totals == manifest_totals(manifests@),
            forall|k: int|
                0 <= k < CATALOG_LEN ==> (#[trigger] manifests@[k] matches Some(m) ==> m.sizes@.len()
                    < 0x1_0000_0000),
            model_views(models@) == add_downloads_spec(root@, orig, totals, i as int),
        decreases CATALOG_LEN - i,
    {
        let (name, ram) = catalog_entry(i);
        let path = join(root, name.as_str());
        if !listed(models, path.as_str()) {
            match &manifests[i] {
                None => {},
                Some(m) => {
                    let total = manifest_total(&m.sizes);
                    proof {
                        crate::model_download::lemma_manifest_total_bound(m.sizes@);
                    }
                    let mut model = local_model_info(path.as_str());
                    model.display_name = name;
                    model.context_window = Some(DEFAULT_CONTEXT);
                    let mut d = "Download ".to_owned();
                    push_gib(&mut d, total);
                    d.append(" GiB · at least ");
                    push_decimal(&mut d, ram);
                    d.append(" GiB RAM · Apple Silicon / MLX");
                    model.description = Some(d);
                    let ghost before = model_views(models@);
                    models.push(model);
                    assert(totals[i as int] == Some(sizes_total(m.sizes@)));
                    assert(model_views(models@) =~= before.push(
                        download_view(root@, i as int, sizes_total(m.sizes@)),
                    ));
                },
            }
        }
        i = i + 1;
    }
}

/// Checkpoints added to the catalog never duplicate a model already listed
/// at the same path, nor each other.
pub proof fn lemma_downloads_never_duplicate(
    root: Seq<char>,
    ms: Seq<ModelInfoView>,
    totals: Seq<Option<int>>,
    n: int,
)
    requires
        0 <= n <= CATALOG_LEN,
    ensures
        ({
            let r = add_downloads_spec(root, ms, totals, n);
            &&& r.len() >= ms.len()
            &&& r.subrange(0, ms.len() as int) == ms
            &&& forall|i: int, j: int|
                0 <= i < j < r.len() && j >= ms.len() ==> !path_eq(#[trigger] r[i].slug, #[trigger] r[j].slug)
        }),
    decreases n,
{
    if n > 0 {
        lemma_downloads_never_duplicate(root, ms, totals, n - 1);
        let prev = add_downloads_spec(root, ms, totals, n - 1);
        let r = add_downloads_spec(root, ms, totals, n);
        let path = join_spec(root, catalog_names()[n - 1]);
        if !listed_at(prev, path) && totals[n - 1] is Some {
            assert(r == prev.push(download_view(root, n - 1, totals[n - 1].unwrap())));
            assert(r[prev.len() as int].slug == path);
            assert(r.subrange(0, ms.len() as int) =~= prev.subrange(0, ms.len() as int));
            assert forall|i: int, j: int|
                0 <= i < j < r.len() && j >= ms.len() implies !path_eq(#[trigger] r[i].slug, #[trigger] r[j].slug) by {
                if j < prev.len() {
                    assert(r[i] == prev[i] && r[j] == prev[j]);
                } else {
                    assert(r[i] == prev[i]);
                    if path_eq(prev[i].slug, path) {
                        assert(listed_at(prev, path));
                    }
                }
            }
        }
    } else {
        assert(ms.subrange(0, ms.len() as int) =~= ms);
    }
}

/// Why a download cannot begin.
#[derive(Clone, Copy, Debug, PartialEq, Eq, Structural)]
pub enum PrepareFailure {
    NoModelDirectory,
    NotInCatalog,
    NeedsAppleSilicon,
    MemoryUnknown,
    /// The model needs at least this many GiB of RAM.
    InsufficientMemory(u64),
    DiskUnknown,
    InsufficientDisk,
}

pub open spec fn prepare_failure_message_spec(f: PrepareFailure) -> Seq<char> {
    match f {
        PrepareFailure::NoModelDirectory => "Local model directory is not configured"@,
        PrepareFailure::NotInCatalog => "Model is not in the built-in download catalog"@,
        PrepareFailure::NeedsAppleSilicon => "These MLX checkpoints require Apple Silicon. Use Ollama or LM Studio on other systems."@,
        PrepareFailure::MemoryUnknown => "Cannot determine installed RAM"@,
        PrepareFailure::InsufficientMemory(ram) => "This model requires at least "@ + decimal(
            ram as nat,
        ) + " GiB RAM; choose a smaller model."@,
        PrepareFailure::DiskUnknown => "Cannot determine available disk space"@,
        PrepareFailure::InsufficientDisk => "Insufficient disk space for this model and a 512 MiB reserve."@,
    }
}

pub fn prepare_failure_message(f: PrepareFailure) -> (r: String)
    ensures
        r@ == prepare_failure_message_spec(f),
{
    match f {
        PrepareFailure::NoModelDirectory => "Local model directory is not configured".to_owned(),
        PrepareFailure::NotInCatalog => "Model is not in the built-in download catalog".to_owned(),
        PrepareFailure::NeedsAppleSilicon => "These MLX checkpoints require Apple Silicon. Use Ollama or LM Studio on other systems.".to_owned(),
        PrepareFailure::MemoryUnknown => "Cannot determine installed RAM".to_owned(),
        PrepareFailure::InsufficientMemory(ram) => {
            let mut t = "This model requires at least ".to_owned();
            push_decimal(&mut t, ram);
            t.append(" GiB RAM; choose a smaller model.");
            t
        },
        PrepareFailure::DiskUnknown => "Cannot determine available disk space".to_owned(),
        PrepareFailure::InsufficientDisk => "Insufficient disk space for this model and a 512 MiB reserve.".to_owned(),
    }
}

/// Disk space kept free beyond what a download still needs.
pub const DISK_RESERVE: u64 = 512 * 1024 * 1024;

/// Bytes per GiB.
pub const GIB: u64 = 1_073_741_824;

/// A file of the manifest, as found in the checkpoint directory.
#[derive(Clone, Copy, Debug, PartialEq, Eq, Structural)]
pub struct PendingFile {
    pub size: u64,
    /// The file is already at its final name.
    pub installed: bool,
    /// The length of its partial file, if there is one.
    pub part_len: Option<u64>,
}

/// The bytes a file still needs: none when installed, otherwise its size less
/// the part already downloaded (at most the size).
pub open spec fn still_needed(f: PendingFile) -> int {
    if f.installed {
        0
    } else {
        match f.part_len {
            Some(p) => if p < f.size {
                f.size - p
            } else {
                0
            },
            None => f.size as int,
        }
    }
}

pub open spec fn needed_total(fs: Seq<PendingFile>) -> int
    decreases fs.len(),
{
    if fs.len() == 0 {
        0
    } else {
        needed_total(fs.drop_last()) + still_needed(fs.last())
    }
}

proof fn lemma_needed_total_monotone(fs: Seq<PendingFile>, k: int)
    requires
        0 <= k <= fs.len(),
    ensures
        0 <= needed_total(fs.subrange(0, k)) <= needed_total(fs),
    decreases fs.len() - k,
{
    if k < fs.len() {
        lemma_needed_total_monotone(fs, k + 1);
        lemma_needed_total_nonneg(fs.subrange(0, k));
        assert(fs.subrange(0, k + 1).drop_last() =~= fs.subrange(0, k));
        assert(fs.subrange(0, k + 1).last() == fs[k]);
    } else {
        assert(fs.subrange(0, k) =~= fs);
        lemma_needed_total_nonneg(fs);
    }
}

proof fn lemma_needed_total_nonneg(fs: Seq<PendingFile>)
    ensures
        needed_total(fs) >= 0,
    decreases fs.len(),
{
    if fs.len() > 0 {
        lemma_needed_total_nonneg(fs.drop_last());
    }
}

/// Where a preparation stands.
#[derive(Clone, Copy, Debug, PartialEq, Eq, Structural)]
pub enum PrepareStage {
    /// Next: read the installed RAM.
    ReadMemory,
    /// Next: parse the manifest and look at the files on disk.
    InspectFiles,
    /// Next: read the free disk space.
    ReadDisk,
    /// Everything is checked: download.
    Download,
}

/// The checks before downloading a catalog checkpoint: the selection, the
/// machine, the RAM and the disk space, in that order.
pub struct MlxPreparation {
    pub entry: usize,
    pub ram_gib: u64,
    pub remaining: u64,
    pub stage: PrepareStage,
}

/// Selects what to download for `model`: it must be a catalog checkpoint
/// below the configured model directory `root`, on Apple Silicon. The RAM is
/// read next.
pub fn prepare_mlx_model(root: Option<String>, model: &str, apple_silicon: bool) -> (r: Result<
    MlxPreparation,
    PrepareFailure,
>)
    ensures
        match root {
            None => r == Err::<MlxPreparation, PrepareFailure>(PrepareFailure::NoModelDirectory),
            Some(d) => match catalog_index_spec(d@, model@) {
                None => r == Err::<MlxPreparation, PrepareFailure>(PrepareFailure::NotInCatalog),
                Some(i) => if !apple_silicon {
                    r == Err::<MlxPreparation, PrepareFailure>(PrepareFailure::NeedsAppleSilicon)
                } else {
                    r matches Ok(p) && p.entry == i && p.ram_gib == catalog_ram()[i]
                        && p.stage == PrepareStage::ReadMemory && p.remaining == 0
                },
            },
        },
{
    let d = match root {
        None => return Err(PrepareFailure::NoModelDirectory),
        Some(d) => d,
    };
    let i = match catalog_index(d.as_str(), model) {
        None => return Err(PrepareFailure::NotInCatalog),
        Some(i) => i,
    };
    if !apple_silicon {
        return Err(PrepareFailure::NeedsAppleSilicon);
    }
    let (_, ram) = catalog_entry(i);
    Ok(MlxPreparation { entry: i, ram_gib: ram, remaining: 0, stage: PrepareStage::ReadMemory })
}

/// The installed RAM that `sysctl -n hw.memsize` printed, in bytes.
pub open spec fn installed_memory_spec(stdout: Seq<char>) -> Option<u64> {
    parse_u64_spec(trim(stdout))
}

impl MlxPreparation {
    /// Takes the output of `sysctl -n hw.memsize`: the model must fit in RAM.
    /// The files are inspected next.
    pub fn memory_read(&mut self, stdout: &str) -> (r: Result<(), PrepareFailure>)
        requires
            old(self).stage == PrepareStage::ReadMemory,
            old(self).ram_gib * GIB <= u64::MAX,
        ensures
            match installed_memory_spec(stdout@) {
                None => r == Err::<(), PrepareFailure>(PrepareFailure::MemoryUnknown),
                Some(bytes) => if bytes < old(self).ram_gib * GIB {
                    r == Err::<(), PrepareFailure>(
                        PrepareFailure::InsufficientMemory(old(self).ram_gib),
                    )
                } else {
                    r is Ok && final(self).stage == PrepareStage::InspectFiles
                },
            },
            final(self).entry == old(self).entry,
            final(self).ram_gib == old(self).ram_gib,
    {
        let c = chars_of(stdout);
        let (a, b) = trim_range(c.as_slice(), 0, c.len());
        assert(c@.subrange(0, c@.len() as int) =~= c@);
        let bytes = match parse_u64_range(c.as_slice(), a, b) {
            None => return Err(PrepareFailure::MemoryUnknown),
            Some(v) => v,
        };
        if bytes < self.ram_gib * GIB {
            return Err(PrepareFailure::InsufficientMemory(self.ram_gib));
        }
        self.stage = PrepareStage::InspectFiles;
        Ok(())
    }

    /// Takes the files of the manifest as found on disk: what remains to be
    /// downloaded. The free disk space is read next.
    pub fn files_inspected(&mut self, files: &Vec<PendingFile>)
        requires
            old(self).stage == PrepareStage::InspectFiles,
            needed_total(files@) <= u64::MAX,
        ensures
            final(self).remaining == needed_total(files@),
            final(self).stage == PrepareStage::ReadDisk,
            final(self).entry == old(self).entry,
            final(self).ram_gib == old(self).ram_gib,
    {
        let mut total: u64 = 0;
        let mut i: usize = 0;
        while i < files.len()
            invariant
                i <= files@.len(),
                needed_total(files@) <= u64::MAX,
                total == needed_total(files@.subrange(0, i as int)),
            decreases files@.len() - i,
        {
            let f = files[i];
            let need: u64 = if f.installed {
                0
            } else {
                match f.part_len {
                    Some(p) => if p < f.size {
                        f.size - p
                    } else {
                        0
                    },
                    None => f.size,
                }
            };
            proof {
                assert(files@.subrange(0, i + 1).drop_last() =~= files@.subrange(0, i as int));
                lemma_needed_total_monotone(files@, i + 1);
            }
            total = total + need;
            i = i + 1;
        }
        assert(files@.subrange(0, files@.len() as int) =~= files@);
        self.remaining = total;
        self.stage = PrepareStage::ReadDisk;
    }

    /// Takes the free disk space in KiB (from `df`): the remaining download
    /// and a 512 MiB reserve must fit. Then the download begins.
    pub fn disk_read(&mut self, available_kib: Option<u64>) -> (r: Result<(), PrepareFailure>)
        requires
            old(self).stage == PrepareStage::ReadDisk,
            available_kib matches Some(k) ==> k * 1024 <= u64::MAX,
        ensures
            match available_kib {
                None => r == Err::<(), PrepareFailure>(PrepareFailure::DiskUnknown),
                Some(k) => {
                    let reserve_needed = if old(self).remaining + DISK_RESERVE > u64::MAX {
                        u64::MAX as int
                    } else {
                        old(self).remaining + DISK_RESERVE
                    };
                    if k * 1024 < reserve_needed {
                        r == Err::<(), PrepareFailure>(PrepareFailure::InsufficientDisk)
                    } else {
                        r is Ok && final(self).stage == PrepareStage::Download
                    }
                },
            },
            final(self).entry == old(self).entry,
            final(self).remaining == old(self).remaining,
    {
        let k = match available_kib {
            None => return Err(PrepareFailure::DiskUnknown),
            Some(k) => k,
        };
        let free = k * 1024;
        if free < self.remaining.saturating_add(DISK_RESERVE) {
            return Err(PrepareFailure::InsufficientDisk);
        }
        self.stage = PrepareStage::Download;
        Ok(())
    }
}

/// The free space `df -Pk` reports: the fourth field of its last line, in KiB.
pub open spec fn df_available_kib_spec(stdout: Seq<char>) -> Option<u64> {
    let ls = lines(stdout);
    if ls.len() == 0 {
        None
    } else {
        let ts = tokens(ls.last());
        if ts.len() < 4 {
            None
        } else {
            parse_u64_spec(ts[3])
        }
    }
}

pub fn df_available_kib(stdout: &str) -> (r: Option<u64>)
    ensures
        r == df_available_kib_spec(stdout@),
{
    let c = chars_of(stdout);
    let ls = line_ranges(c.as_slice(), 0, c.len());
    assert(c@.subrange(0, c@.len() as int) =~= c@);
    if ls.len() == 0 {
        return None;
    }
    let (lo, hi) = ls[ls.len() - 1];
    assert(range_texts(c@, ls@)[ls@.len() - 1] == c@.subrange(lo as int, hi as int));
    let ts = token_ranges(c.as_slice(), lo, hi);
    if ts.len() < 4 {
        return None;
    }
    let (a, b) = ts[3];
    assert(range_texts(c@, ts@)[3] == c@.subrange(a as int, b as int));
    parse_u64_range(c.as_slice(), a, b)
}

} // verus!
