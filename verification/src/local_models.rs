//! Local OpenAI-compatible model discovery: which served model IDs are kept,
//! how they merge with checkpoints found on disk, and the cached catalog.
use crate::model_info::{duplicate_models, local_model_info, local_model_view, model_views, ModelInfo, ModelInfoView};
use crate::sorting::{has_slug, lemma_sort_by_slug_sorted_permutation, sort_by_slug, sort_by_slug_spec, sort_unique_by_slug, sorted_by_slug, strictly_sorted_by_slug};
use crate::text::{chars_of, is_control, is_control_exec, trim, trim_range, utf8_len, utf8_len_at_most};
use vstd::prelude::*;

verus! {

/// Served model IDs longer than this many bytes are ignored.
pub const MAX_MODEL_ID_BYTES: usize = 512;

/// A `/models` response larger than this is refused.
pub const MAX_CATALOG_BYTES: usize = 1024 * 1024;

/// A `/health` response larger than this is ignored.
pub const MAX_HEALTH_BYTES: usize = 64 * 1024;

/// The context window of local MLX checkpoints.
pub const DEFAULT_CONTEXT: i64 = 32_768;

/// A served model ID is kept when it is not blank, at most 512 bytes long and
/// free of control characters. Names are not otherwise filtered: fine-tuned and
/// uncensored variants remain selectable.
pub open spec fn valid_model_id(s: Seq<char>) -> bool {
    &&& trim(s).len() > 0
    &&& utf8_len(s) <= MAX_MODEL_ID_BYTES
    &&& forall|i: int| 0 <= i < s.len() ==> !is_control(#[trigger] s[i])
}

pub fn is_valid_model_id(id: &str) -> (b: bool)
    ensures
        b == valid_model_id(id@),
{
    let chars = chars_of(id);
    let (a, z) = trim_range(chars.as_slice(), 0, chars.len());
    assert(chars@.subrange(0, chars@.len() as int) =~= chars@);
    if a == z || !utf8_len_at_most(chars.as_slice(), MAX_MODEL_ID_BYTES) {
        return false;
    }
    let mut i: usize = 0;
    while i < chars.len()
        invariant
            chars@ == id@,
            i <= chars@.len(),
            trim(id@).len() > 0,
            utf8_len(id@) <= MAX_MODEL_ID_BYTES,
            forall|j: int| 0 <= j < i ==> !is_control(#[trigger] chars@[j]),
        decreases chars@.len() - i,
    {
        if is_control_exec(chars[i]) {
            return false;
        }
        i = i + 1;
    }
    true
}

/// Some served ID equals `k` and is kept.
pub open spec fn served_id(ids: Seq<String>, k: Seq<char>) -> bool {
    exists|i: int| 0 <= i < ids.len() && valid_model_id(#[trigger] ids[i]@) && ids[i]@ == k
}

/// The models of a `/models` catalog, from the IDs it lists: invalid IDs are
/// dropped, duplicates collapse, the slugs are sorted, and every model gets
/// the conservative local profile.
pub fn served_models(ids: Vec<String>) -> (r: Vec<ModelInfo>)
    ensures
        strictly_sorted_by_slug(model_views(r@)),
        forall|k: Seq<char>| has_slug(model_views(r@), k) <==> served_id(ids@, k),
        forall|i: int|
            0 <= i < r@.len() ==> #[trigger] model_views(r@)[i] == local_model_view(
                model_views(r@)[i].slug,
            ),
{
    let mut models: Vec<ModelInfo> = Vec::new();
    let mut i: usize = 0;
    while i < ids.len()
        invariant
            i <= ids@.len(),
            forall|j: int|
                0 <= j < models@.len() ==> #[trigger] model_views(models@)[j] == local_model_view(
                    model_views(models@)[j].slug,
                ) && served_id(ids@, model_views(models@)[j].slug),
            forall|j: int|
                0 <= j < i && valid_model_id(#[trigger] ids@[j]@) ==> has_slug(
                    model_views(models@),
                    ids@[j]@,
                ),
        decreases ids@.len() - i,
    {
        if is_valid_model_id(ids[i].as_str()) {
            let m = local_model_info(ids[i].as_str());
            let ghost before = models@;
            models.push(m);
            proof {
                let after = model_views(models@);
                assert(after =~= model_views(before).push(m@));
                assert(after[after.len() - 1].slug == ids@[i as int]@);
                assert forall|j: int|
                    0 <= j < i + 1 && valid_model_id(#[trigger] ids@[j]@) implies has_slug(
                    after,
                    ids@[j]@,
                ) by {
                    if j < i {
                        let k = choose|k: int|
                            0 <= k < model_views(before).len() && #[trigger] model_views(before)[k].slug
                                == ids@[j]@;
                        assert(after[k] == model_views(before)[k]);
                    }
                }
            }
        }
        i = i + 1;
    }
    let ghost input = model_views(models@);
    let r = sort_unique_by_slug(models);
    proof {
        let rv = model_views(r@);
        assert forall|k: Seq<char>| has_slug(rv, k) <==> served_id(ids@, k) by {
            if served_id(ids@, k) {
                let j = choose|j: int| 0 <= j < ids@.len() && valid_model_id(#[trigger] ids@[j]@) && ids@[j]@ == k;
                assert(has_slug(input, ids@[j]@));
            }
            if has_slug(rv, k) {
                assert(has_slug(input, k));
                let j = choose|j: int| 0 <= j < input.len() && #[trigger] input[j].slug == k;
                assert(served_id(ids@, input[j].slug));
            }
        }
        assert forall|i: int| 0 <= i < rv.len() implies #[trigger] rv[i] == local_model_view(
            rv[i].slug,
        ) by {
            let j = choose|j: int|
                0 <= j < input.len() && #[trigger] input[j] == rv[i] && forall|k: int|
                    0 <= k < j ==> #[trigger] input[k].slug != rv[i].slug;
            assert(input[j] == local_model_view(input[j].slug));
        }
    }
    r
}

/// Whether `v` is the catalog of the listed IDs `ids`: sorted by slug without
/// repeats, holding exactly the valid IDs, each with the local profile.
pub open spec fn catalog_of(ids: Seq<Seq<char>>, v: Seq<ModelInfoView>) -> bool {
    &&& strictly_sorted_by_slug(v)
    &&& forall|k: Seq<char>|
        has_slug(v, k) <==> exists|i: int| 0 <= i < ids.len() && valid_model_id(#[trigger] ids[i]) && ids[i] == k
    &&& forall|i: int| 0 <= i < v.len() ==> #[trigger] v[i] == local_model_view(v[i].slug)
}

/// The views of a list of strings.
pub open spec fn id_views(ids: Seq<String>) -> Seq<Seq<char>> {
    ids.map_values(|s: String| s@)
}

/// The models of a `/models` response, given the IDs of its `data` list, or
/// `None` when the body is not such a catalog, which is reported.
pub fn decode_models(ids: Option<Vec<String>>) -> (r: Result<Vec<ModelInfo>, String>)
    ensures
        ids is None ==> (r matches Err(e) && e@ == "Invalid local /models response"@),
        ids matches Some(ids) ==> (r matches Ok(v) && catalog_of(id_views(ids@), model_views(v@))),
{
    match ids {
        None => Err("Invalid local /models response".to_owned()),
        Some(ids) => {
            let ghost idv = id_views(ids@);
            let v = served_models(ids);
            proof {
                assert forall|k: Seq<char>|
                    has_slug(model_views(v@), k) <==> exists|i: int|
                        0 <= i < idv.len() && valid_model_id(#[trigger] idv[i]) && idv[i] == k by {
                    if has_slug(model_views(v@), k) {
                        assert(served_id(ids@, k));
                        let i = choose|i: int| 0 <= i < ids@.len() && valid_model_id(#[trigger] ids@[i]@) && ids@[i]@ == k;
                        assert(idv[i] == ids@[i]@);
                    }
                    if exists|i: int| 0 <= i < idv.len() && valid_model_id(#[trigger] idv[i]) && idv[i] == k {
                        let i = choose|i: int| 0 <= i < idv.len() && valid_model_id(#[trigger] idv[i]) && idv[i] == k;
                        assert(idv[i] == ids@[i]@);
                        assert(served_id(ids@, k));
                    }
                }
            }
            Ok(v)
        },
    }
}

/// The description given to models that the MLX server reports.
pub open spec fn mlx_served_description() -> Seq<char> {
    "Available from the MLX server"@
}

/// A served model as it is listed: MLX models say that the server offers them.
pub open spec fn served_view(m: ModelInfoView, is_mlx: bool) -> ModelInfoView {
    if is_mlx {
        ModelInfoView { description: Some(mlx_served_description()), ..m }
    } else {
        m
    }
}

/// `i` is the first position of `s` holding slug `k`.
pub open spec fn is_first_slug_index(s: Seq<ModelInfoView>, k: Seq<char>, i: int) -> bool {
    0 <= i < s.len() && s[i].slug == k && forall|j: int| 0 <= j < i ==> #[trigger] s[j].slug != k
}

/// The first position of `s` holding slug `k`, or -1.
pub open spec fn first_slug_index(s: Seq<ModelInfoView>, k: Seq<char>) -> int {
    if exists|i: int| is_first_slug_index(s, k, i) {
        choose|i: int| is_first_slug_index(s, k, i)
    } else {
        -1
    }
}

/// A served model takes the place of the first listed model with its slug,
/// keeping that model's display name, or is appended when there is none.
pub open spec fn merge_one(acc: Seq<ModelInfoView>, m: ModelInfoView) -> Seq<ModelInfoView> {
    let i = first_slug_index(acc, m.slug);
    if i >= 0 {
        acc.update(i, ModelInfoView { display_name: acc[i].display_name, ..m })
    } else {
        acc.push(m)
    }
}

/// The served models merged, in order, into the models found on disk.
pub open spec fn merge_served(disk: Seq<ModelInfoView>, served: Seq<ModelInfoView>) -> Seq<
    ModelInfoView,
>
    decreases served.len(),
{
    if served.len() == 0 {
        disk
    } else {
        merge_one(merge_served(disk, served.drop_last()), served.last())
    }
}

/// Every model gets the server's context limit, when the server reports one.
pub open spec fn with_context(s: Seq<ModelInfoView>, limit: Option<i64>) -> Seq<ModelInfoView> {
    match limit {
        Some(l) => s.map_values(|m: ModelInfoView| ModelInfoView { context_window: Some(l), ..m }),
        None => s,
    }
}

/// The catalog that discovery reports for the models found on disk and what
/// the server answered (its models and context limit, or an error).
pub open spec fn discovered_spec(
    disk: Seq<ModelInfoView>,
    served: Result<(Seq<ModelInfoView>, Option<i64>), Seq<char>>,
    is_mlx: bool,
) -> Result<Seq<ModelInfoView>, Seq<char>> {
    match served {
        Err(e) => if disk.len() > 0 {
            Ok(disk)
        } else {
            Err(e)
        },
        Ok((models, limit)) => Ok(
            sort_by_slug_spec(
                with_context(
                    merge_served(disk, models.map_values(|m: ModelInfoView| served_view(m, is_mlx))),
                    limit,
                ),
            ),
        ),
    }
}

pub open spec fn served_result_view(served: Result<(Vec<ModelInfo>, Option<i64>), String>) -> Result<
    (Seq<ModelInfoView>, Option<i64>),
    Seq<char>,
> {
    match served {
        Ok((models, limit)) => Ok((model_views(models@), limit)),
        Err(e) => Err(e@),
    }
}

pub open spec fn result_view(r: Result<Vec<ModelInfo>, String>) -> Result<Seq<ModelInfoView>, Seq<char>> {
    match r {
        Ok(models) => Ok(model_views(models@)),
        Err(e) => Err(e@),
    }
}

fn slug_position(acc: &Vec<ModelInfo>, m: &ModelInfo) -> (r: Option<usize>)
    ensures
        match r {
            Some(i) => is_first_slug_index(model_views(acc@), m@.slug, i as int),
            None => forall|j: int| 0 <= j < acc@.len() ==> #[trigger] model_views(acc@)[j].slug != m@.slug,
        },
{
    let k = chars_of(m.slug.as_str());
    let mut i: usize = 0;
    while i < acc.len()
        invariant
            k@ == m@.slug,
            i <= acc@.len(),
            forall|j: int| 0 <= j < i ==> #[trigger] model_views(acc@)[j].slug != m@.slug,
        decreases acc@.len() - i,
    {
        let s = chars_of(acc[i].slug.as_str());
        if crate::order::chars_eq(s.as_slice(), k.as_slice()) {
            return Some(i);
        }
        i = i + 1;
    }
    None
}

proof fn lemma_first_slug_index(s: Seq<ModelInfoView>, k: Seq<char>, i: int)
    requires
        is_first_slug_index(s, k, i),
    ensures
        first_slug_index(s, k) == i,
{
    let c = choose|c: int| is_first_slug_index(s, k, c);
    if c < i {
        assert(s[c].slug != k);
    } else if c > i {
        assert(s[i].slug != k);
    }
}

/// Merges the models a local server reports into the models found on disk.
/// When the server could not be queried, the disk models are shown if there
/// are any; otherwise the error is reported. Served models replace disk models
/// with the same slug (keeping their display name), MLX-served models say so
/// in their description, a server context limit applies to every model, and
/// the catalog is stably sorted by slug.
pub fn discover_local_models(
    disk_models: Vec<ModelInfo>,
    served: Result<(Vec<ModelInfo>, Option<i64>), String>,
    is_mlx: bool,
) -> (r: Result<Vec<ModelInfo>, String>)
    ensures
        result_view(r) == discovered_spec(
            model_views(disk_models@),
            served_result_view(served),
            is_mlx,
        ),
{
    let (served_models, context_limit) = match served {
        Ok(pair) => pair,
        Err(error) => {
            if disk_models.len() > 0 {
                return Ok(disk_models);
            }
            return Err(error);
        },
    };
    let ghost disk = model_views(disk_models@);
    let ghost served_views = model_views(served_models@).map_values(
        |m: ModelInfoView| served_view(m, is_mlx),
    );
    let mut acc = disk_models;
    let mut rest = served_models;
    let ghost taken: int = 0;
    while rest.len() > 0
        invariant
            0 <= taken <= served_views.len(),
            rest@.len() == served_views.len() - taken,
            forall|j: int|
                0 <= j < rest@.len() ==> served_view(#[trigger] model_views(rest@)[j], is_mlx)
                    == served_views[taken + j],
            model_views(acc@) == merge_served(disk, served_views.subrange(0, taken)),
        decreases rest@.len(),
    {
        let ghost old_rest = rest@;
        assert(served_view(model_views(old_rest)[0], is_mlx) == served_views[taken]);
        let mut model = rest.remove(0);
        if is_mlx {
            model.description = Some("Available from the MLX server".to_owned());
            proof {
                reveal_strlit("Available from the MLX server");
            }
        }
        let ghost mv = model@;
        assert(mv == served_views[taken]);
        let ghost before = model_views(acc@);
        match slug_position(&acc, &model) {
            Some(index) => {
                proof {
                    lemma_first_slug_index(before, mv.slug, index as int);
                }
                model.display_name = acc[index].display_name.clone();
                let ghost nv = model@;
                acc.set(index, model);
                assert(model_views(acc@) =~= before.update(index as int, nv));
                assert(nv == ModelInfoView { display_name: before[index as int].display_name, ..mv });
            },
            None => {
                proof {
                    if exists|i: int| is_first_slug_index(before, mv.slug, i) {
                        let i = choose|i: int| is_first_slug_index(before, mv.slug, i);
                        assert(before[i].slug != mv.slug);
                    }
                }
                acc.push(model);
                assert(model_views(acc@) =~= before.push(mv));
            },
        }
        proof {
            let next = served_views.subrange(0, taken + 1);
            assert(next.drop_last() =~= served_views.subrange(0, taken));
            assert(next.last() == mv);
            assert forall|j: int| 0 <= j < rest@.len() implies served_view(
                #[trigger] model_views(rest@)[j],
                is_mlx,
            ) == served_views[taken + 1 + j] by {
                assert(rest@[j] == old_rest[j + 1]);
                assert(model_views(old_rest)[j + 1] == old_rest[j + 1]@);
            }
            taken = taken + 1;
        }
    }
    assert(served_views.subrange(0, served_views.len() as int) =~= served_views);
    let ghost merged = model_views(acc@);
    let mut limited: Vec<ModelInfo>;
    match context_limit {
        Some(limit) => {
            limited = Vec::new();
            let mut src = acc;
            let ghost done: int = 0;
            while src.len() > 0
                invariant
                    0 <= done <= merged.len(),
                    src@.len() == merged.len() - done,
                    forall|j: int| 0 <= j < src@.len() ==> #[trigger] model_views(src@)[j] == merged[done + j],
                    model_views(limited@) == with_context(merged.subrange(0, done), Some(limit)),
                decreases src@.len(),
            {
                let ghost old_src = src@;
                assert(model_views(old_src)[0] == old_src[0]@);
                let mut m = src.remove(0);
                let ghost prior = m@;
                assert(prior == merged[done]);
                m.context_window = Some(limit);
                assert(m@ == ModelInfoView { context_window: Some(limit), ..prior });
                let ghost before = model_views(limited@);
                limited.push(m);
                proof {
                    assert(model_views(limited@) =~= before.push(m@));
                    assert(merged.subrange(0, done + 1) =~= merged.subrange(0, done).push(prior));
                    assert(model_views(limited@) =~= with_context(merged.subrange(0, done + 1), Some(limit)));
                    assert forall|j: int| 0 <= j < src@.len() implies #[trigger] model_views(src@)[j]
                        == merged[done + 1 + j] by {
                        assert(src@[j] == old_src[j + 1]);
                        assert(model_views(old_src)[j + 1] == old_src[j + 1]@);
                    }
                    done = done + 1;
                }
            }
            assert(merged.subrange(0, merged.len() as int) =~= merged);
        },
        None => {
            limited = acc;
        },
    }
    Ok(sort_by_slug(limited))
}

proof fn lemma_merge_one_keeps(acc: Seq<ModelInfoView>, m: ModelInfoView, k: Seq<char>)
    ensures
        has_slug(merge_one(acc, m), k) <==> (has_slug(acc, k) || k == m.slug),
{
    let i = first_slug_index(acc, m.slug);
    let r = merge_one(acc, m);
    if exists|c: int| is_first_slug_index(acc, m.slug, c) {
        let c = choose|c: int| is_first_slug_index(acc, m.slug, c);
        assert(i == c);
        assert(r[c].slug == m.slug);
        if has_slug(acc, k) {
            let j = choose|j: int| 0 <= j < acc.len() && #[trigger] acc[j].slug == k;
            if j != c {
                assert(r[j] == acc[j]);
            }
        }
        if has_slug(r, k) {
            let j = choose|j: int| 0 <= j < r.len() && #[trigger] r[j].slug == k;
            if j != c {
                assert(r[j] == acc[j]);
            }
        }
    } else {
        assert(r == acc.push(m));
        assert(r[acc.len() as int].slug == m.slug);
        if has_slug(acc, k) {
            let j = choose|j: int| 0 <= j < acc.len() && #[trigger] acc[j].slug == k;
            assert(r[j] == acc[j]);
        }
        if has_slug(r, k) {
            let j = choose|j: int| 0 <= j < r.len() && #[trigger] r[j].slug == k;
            if j < acc.len() {
                assert(r[j] == acc[j]);
            }
        }
    }
}

proof fn lemma_merge_served_slugs(disk: Seq<ModelInfoView>, served: Seq<ModelInfoView>, k: Seq<char>)
    ensures
        has_slug(merge_served(disk, served), k) <==> (has_slug(disk, k) || has_slug(served, k)),
    decreases served.len(),
{
    if served.len() > 0 {
        lemma_merge_served_slugs(disk, served.drop_last(), k);
        lemma_merge_one_keeps(merge_served(disk, served.drop_last()), served.last(), k);
        if has_slug(served, k) {
            let j = choose|j: int| 0 <= j < served.len() && #[trigger] served[j].slug == k;
            if j < served.len() - 1 {
                assert(served.drop_last()[j] == served[j]);
            }
        }
        if has_slug(served.drop_last(), k) {
            let j = choose|j: int| 0 <= j < served.drop_last().len() && #[trigger] served.drop_last()[j].slug == k;
            assert(served[j] == served.drop_last()[j]);
        }
    }
}

proof fn lemma_sorted_keeps_slugs(s: Seq<ModelInfoView>, k: Seq<char>)
    ensures
        has_slug(sort_by_slug_spec(s), k) <==> has_slug(s, k),
{
    broadcast use vstd::seq_lib::group_to_multiset_ensures;
    lemma_sort_by_slug_sorted_permutation(s);
    let t = sort_by_slug_spec(s);
    if has_slug(s, k) {
        let j = choose|j: int| 0 <= j < s.len() && #[trigger] s[j].slug == k;
        assert(s.to_multiset().count(s[j]) > 0);
        assert(t.contains(s[j]));
    }
    if has_slug(t, k) {
        let j = choose|j: int| 0 <= j < t.len() && #[trigger] t[j].slug == k;
        assert(t.to_multiset().count(t[j]) > 0);
        assert(s.contains(t[j]));
    }
}

/// Discovery never loses a model: every model found on disk and every model
/// the server lists appears in the catalog, which is sorted by slug, and a
/// server context limit applies to every entry.
pub proof fn lemma_discovery_keeps_every_model(
    disk: Seq<ModelInfoView>,
    served: Seq<ModelInfoView>,
    limit: Option<i64>,
    is_mlx: bool,
    k: Seq<char>,
)
    ensures
        discovered_spec(disk, Ok((served, limit)), is_mlx) matches Ok(r) && sorted_by_slug(r) && (
        has_slug(r, k) <==> (has_slug(disk, k) || has_slug(served, k))) && (limit matches Some(l)
            ==> forall|i: int| 0 <= i < r.len() ==> (#[trigger] r[i]).context_window == Some(l)),
{
    broadcast use vstd::seq_lib::group_to_multiset_ensures;
    let sv = served.map_values(|m: ModelInfoView| served_view(m, is_mlx));
    let merged = merge_served(disk, sv);
    let lim = with_context(merged, limit);
    lemma_merge_served_slugs(disk, sv, k);
    assert(has_slug(sv, k) <==> has_slug(served, k)) by {
        if has_slug(sv, k) {
            let j = choose|j: int| 0 <= j < sv.len() && #[trigger] sv[j].slug == k;
            assert(served[j].slug == sv[j].slug);
        }
        if has_slug(served, k) {
            let j = choose|j: int| 0 <= j < served.len() && #[trigger] served[j].slug == k;
            assert(served[j].slug == sv[j].slug);
        }
    }
    assert(has_slug(lim, k) <==> has_slug(merged, k)) by {
        if has_slug(lim, k) {
            let j = choose|j: int| 0 <= j < lim.len() && #[trigger] lim[j].slug == k;
            assert(merged[j].slug == lim[j].slug);
        }
        if has_slug(merged, k) {
            let j = choose|j: int| 0 <= j < merged.len() && #[trigger] merged[j].slug == k;
            assert(merged[j].slug == lim[j].slug);
        }
    }
    lemma_sorted_keeps_slugs(lim, k);
    lemma_sort_by_slug_sorted_permutation(lim);
    let r = sort_by_slug_spec(lim);
    if let Some(l) = limit {
        assert forall|i: int| 0 <= i < r.len() implies (#[trigger] r[i]).context_window == Some(l) by {
            assert(r.to_multiset().count(r[i]) > 0);
            assert(lim.contains(r[i]));
        }
    }
}

/// When the server cannot be reached, models already on disk stay selectable;
/// only with nothing on disk is the error reported.
pub proof fn lemma_offline_keeps_disk_models(
    disk: Seq<ModelInfoView>,
    error: Seq<char>,
    is_mlx: bool,
)
    ensures
        disk.len() > 0 ==> discovered_spec(disk, Err(error), is_mlx) == Ok::<
            Seq<ModelInfoView>,
            Seq<char>,
        >(disk),
        disk.len() == 0 ==> discovered_spec(disk, Err(error), is_mlx) == Err::<
            Seq<ModelInfoView>,
            Seq<char>,
        >(error),
{
}

/// The context limit reported by an MLX server's `/health`: a positive
/// `configured_context_limit`, capped at `DEFAULT_CONTEXT`.
pub fn health_context_limit(configured: Option<i64>) -> (r: Option<i64>)
    ensures
        r == (match configured {
            Some(l) => if l > 0 {
                Some(if l < DEFAULT_CONTEXT {
                    l
                } else {
                    DEFAULT_CONTEXT
                })
            } else {
                None
            },
            None => None,
        }),
{
    match configured {
        Some(l) => if l > 0 {
            Some(if l < DEFAULT_CONTEXT {
                l
            } else {
                DEFAULT_CONTEXT
            })
        } else {
            None
        },
        None => None,
    }
}

/// Whether another chunk of `chunk` bytes keeps a response body of `current`
/// bytes within `cap` bytes.
pub fn body_chunk_fits(current: usize, chunk: usize, cap: usize) -> (b: bool)
    ensures
        b == (current + chunk <= cap),
{
    chunk <= cap && current <= cap - chunk
}

/// How a model catalog is refreshed.
#[derive(Clone, Copy, Debug, PartialEq, Eq, Structural)]
pub enum RefreshStrategy {
    Online,
    Offline,
    OnlineIfUncached,
}

/// The catalog of a local provider, as last discovered.
pub struct LocalModelsManager {
    models: Vec<ModelInfo>,
}

impl LocalModelsManager {
    /// The models currently cached.
    pub closed spec fn cached(&self) -> Seq<ModelInfoView> {
        model_views(self.models@)
    }

    /// A manager with nothing cached yet.
    pub fn new() -> (m: LocalModelsManager)
        ensures
            m.cached() == Seq::<ModelInfoView>::empty(),
    {
        let m = LocalModelsManager { models: Vec::new() };
        assert(m.cached() =~= Seq::<ModelInfoView>::empty());
        m
    }

    /// Whether a catalog request with `strategy` queries the server: always
    /// online, and online-if-uncached while nothing is cached.
    pub fn should_discover(&self, strategy: RefreshStrategy) -> (b: bool)
        ensures
            b == (strategy == RefreshStrategy::Online || (strategy
                == RefreshStrategy::OnlineIfUncached && self.cached().len() == 0)),
    {
        match strategy {
            RefreshStrategy::Online => true,
            RefreshStrategy::OnlineIfUncached => self.models.len() == 0,
            RefreshStrategy::Offline => false,
        }
    }

    /// Records the outcome of a discovery: a successful one replaces the cache,
    /// a failed one leaves it as it was.
    pub fn record_discovery(&mut self, result: Result<Vec<ModelInfo>, String>)
        ensures
            final(self).cached() == (match result {
                Ok(models) => model_views(models@),
                Err(_) => old(self).cached(),
            }),
    {
        match result {
            Ok(models) => {
                self.models = models;
            },
            Err(_) => {},
        }
    }

    /// The cached catalog.
    pub fn remote_models(&self) -> (r: Vec<ModelInfo>)
        ensures
            model_views(r@) == self.cached(),
    {
        duplicate_models(&self.models)
    }

    /// The metadata used for `model`: the cached entry with that slug, or the
    /// conservative local profile for a slug the server never listed; a
    /// configured context window overrides either.
    pub fn get_model_info(&self, model: &str, context_window: Option<i64>) -> (r: ModelInfo)
        ensures
            ({
                let base = if exists|i: int| is_first_slug_index(self.cached(), model@, i) {
                    self.cached()[first_slug_index(self.cached(), model@)]
                } else {
                    local_model_view(model@)
                };
                r@ == (match context_window {
                    Some(c) => ModelInfoView { context_window: Some(c), ..base },
                    None => base,
                })
            }),
    {
        let probe = local_model_info(model);
        let mut info = match slug_position(&self.models, &probe) {
            Some(i) => {
                proof {
                    lemma_first_slug_index(self.cached(), model@, i as int);
                }
                self.models[i].duplicate()
            },
            None => {
                proof {
                    if exists|i: int| is_first_slug_index(self.cached(), model@, i) {
                        let i = choose|i: int| is_first_slug_index(self.cached(), model@, i);
                        assert(self.cached()[i].slug != model@);
                    }
                }
                probe
            },
        };
        if let Some(c) = context_window {
            info.context_window = Some(c);
        }
        info
    }
}

} // verus!
