//! Model lists ordered by slug: a stable sort, and a sort that keeps only the
//! first model of each slug.
use crate::model_info::{model_views, ModelInfo, ModelInfoView};
use crate::order::{chars_eq, chars_lt, le, lemma_lt_asymmetric, lemma_lt_irreflexive, lemma_lt_total, lemma_lt_transitive, lt};
use crate::text::chars_of;
use vstd::prelude::*;

verus! {

/// `x` inserted after every model whose slug does not sort after its own.
pub open spec fn ins(s: Seq<ModelInfoView>, x: ModelInfoView) -> Seq<ModelInfoView>
    decreases s.len(),
{
    if s.len() == 0 {
        seq![x]
    } else if lt(x.slug, s[0].slug) {
        seq![x] + s
    } else {
        seq![s[0]] + ins(s.drop_first(), x)
    }
}

/// The stable sort of `s` by slug: models with equal slugs keep their order.
pub open spec fn sort_by_slug_spec(s: Seq<ModelInfoView>) -> Seq<ModelInfoView>
    decreases s.len(),
{
    if s.len() == 0 {
        seq![]
    } else {
        ins(sort_by_slug_spec(s.drop_last()), s.last())
    }
}

/// Slugs never decrease along `s`.
pub open spec fn sorted_by_slug(s: Seq<ModelInfoView>) -> bool {
    forall|i: int, j: int| 0 <= i < j < s.len() ==> le(#[trigger] s[i].slug, #[trigger] s[j].slug)
}

/// Slugs strictly increase along `s`, so no slug occurs twice.
pub open spec fn strictly_sorted_by_slug(s: Seq<ModelInfoView>) -> bool {
    forall|i: int, j: int| 0 <= i < j < s.len() ==> lt(#[trigger] s[i].slug, #[trigger] s[j].slug)
}

pub open spec fn has_slug(s: Seq<ModelInfoView>, k: Seq<char>) -> bool {
    exists|i: int| 0 <= i < s.len() && #[trigger] s[i].slug == k
}

/// `m` is the first model of `s` with its slug.
pub open spec fn first_with_slug(s: Seq<ModelInfoView>, m: ModelInfoView) -> bool {
    exists|j: int|
        0 <= j < s.len() && #[trigger] s[j] == m && forall|k: int|
            0 <= k < j ==> #[trigger] s[k].slug != m.slug
}

fn slug_lt(a: &ModelInfo, b: &ModelInfo) -> (r: bool)
    ensures
        r == lt(a@.slug, b@.slug),
{
    let x = chars_of(a.slug.as_str());
    let y = chars_of(b.slug.as_str());
    chars_lt(x.as_slice(), y.as_slice())
}

fn slug_eq(a: &ModelInfo, b: &ModelInfo) -> (r: bool)
    ensures
        r == (a@.slug == b@.slug),
{
    let x = chars_of(a.slug.as_str());
    let y = chars_of(b.slug.as_str());
    chars_eq(x.as_slice(), y.as_slice())
}

proof fn lemma_views_insert(v: Seq<ModelInfo>, p: int, m: ModelInfo)
    requires
        0 <= p <= v.len(),
    ensures
        model_views(v.insert(p, m)) == model_views(v).insert(p, m@),
{
    assert(model_views(v.insert(p, m)) =~= model_views(v).insert(p, m@));
}

proof fn lemma_ins_split(s: Seq<ModelInfoView>, x: ModelInfoView, p: int)
    requires
        0 <= p <= s.len(),
        forall|k: int| 0 <= k < p ==> !lt(x.slug, #[trigger] s[k].slug),
    ensures
        ins(s, x) == s.subrange(0, p) + ins(s.subrange(p, s.len() as int), x),
    decreases p,
{
    if p > 0 {
        lemma_ins_split(s.drop_first(), x, p - 1);
        assert(s.drop_first().subrange(0, p - 1) =~= s.subrange(1, p));
        assert(s.drop_first().subrange(p - 1, s.len() - 1) =~= s.subrange(p, s.len() as int));
        assert(s.subrange(0, p) =~= seq![s[0]] + s.subrange(1, p));
    } else {
        assert(s.subrange(0, 0) =~= Seq::<ModelInfoView>::empty());
        assert(s.subrange(0, s.len() as int) =~= s);
    }
}

/// Inserts `m` after every model whose slug does not sort after `m`'s.
fn insert_stable(v: &mut Vec<ModelInfo>, m: ModelInfo)
    ensures
        model_views(final(v)@) == ins(model_views(old(v)@), m@),
{
    let mut p: usize = 0;
    while p < v.len() && !slug_lt(&m, &v[p])
        invariant
            p <= v@.len(),
            v@ == old(v)@,
            forall|k: int| 0 <= k < p ==> !lt(m@.slug, #[trigger] model_views(v@)[k].slug),
        decreases v@.len() - p,
    {
        p = p + 1;
    }
    let ghost s = model_views(v@);
    proof {
        lemma_ins_split(s, m@, p as int);
        if (p as int) < s.len() {
            assert(lt(m@.slug, s.subrange(p as int, s.len() as int)[0].slug));
        }
        assert(s.subrange(0, p as int) + ins(s.subrange(p as int, s.len() as int), m@) =~= s.insert(
            p as int,
            m@,
        ));
        lemma_views_insert(v@, p as int, m);
    }
    v.insert(p, m);
}

/// The models of `v`, stably sorted by slug.
pub fn sort_by_slug(v: Vec<ModelInfo>) -> (r: Vec<ModelInfo>)
    ensures
        model_views(r@) == sort_by_slug_spec(model_views(v@)),
{
    let ghost input = model_views(v@);
    let mut rest = v;
    let mut out: Vec<ModelInfo> = Vec::new();
    let ghost taken: int = 0;
    while rest.len() > 0
        invariant
            0 <= taken <= input.len(),
            rest@.len() == input.len() - taken,
            model_views(rest@) == input.subrange(taken, input.len() as int),
            model_views(out@) == sort_by_slug_spec(input.subrange(0, taken)),
        decreases rest@.len(),
    {
        let ghost old_rest = rest@;
        assert(model_views(old_rest)[0] == old_rest[0]@);
        let m = rest.remove(0);
        proof {
            assert(input.subrange(0, taken + 1).drop_last() =~= input.subrange(0, taken));
            assert(m@ == input[taken]);
            assert forall|i: int| 0 <= i < rest@.len() implies #[trigger] model_views(rest@)[i]
                == input.subrange(taken + 1, input.len() as int)[i] by {
                assert(rest@[i] == old_rest[i + 1]);
                assert(model_views(old_rest)[i + 1] == input.subrange(taken, input.len() as int)[i
                    + 1]);
            }
            assert(model_views(rest@) =~= input.subrange(taken + 1, input.len() as int));
        }
        insert_stable(&mut out, m);
        proof {
            taken = taken + 1;
        }
    }
    assert(input.subrange(0, input.len() as int) =~= input);
    out
}

proof fn lemma_ins_facts(s: Seq<ModelInfoView>, x: ModelInfoView)
    requires
        sorted_by_slug(s),
    ensures
        sorted_by_slug(ins(s, x)),
        ins(s, x).to_multiset() == s.to_multiset().insert(x),
        ins(s, x).len() == s.len() + 1,
    decreases s.len(),
{
    broadcast use vstd::seq_lib::group_to_multiset_ensures;
    if s.len() == 0 {
        assert(ins(s, x) =~= seq![x]);
        assert(seq![x] =~= Seq::<ModelInfoView>::empty().push(x));
    } else if lt(x.slug, s[0].slug) {
        let r = seq![x] + s;
        assert forall|i: int, j: int| 0 <= i < j < r.len() implies le(#[trigger] r[i].slug, #[trigger] r[j].slug) by {
            if i == 0 {
                if j > 1 {
                    if lt(s[0].slug, s[j - 1].slug) {
                        lemma_lt_transitive(x.slug, s[0].slug, s[j - 1].slug);
                    }
                }
            } else {
                assert(r[i] == s[i - 1] && r[j] == s[j - 1]);
            }
        }
        vstd::seq_lib::lemma_multiset_commutative(seq![x], s);
        assert(seq![x] =~= Seq::<ModelInfoView>::empty().push(x));
    } else {
        let t = s.drop_first();
        assert(sorted_by_slug(t)) by {
            assert forall|i: int, j: int| 0 <= i < j < t.len() implies le(#[trigger] t[i].slug, #[trigger] t[j].slug) by {
                assert(t[i] == s[i + 1] && t[j] == s[j + 1]);
            }
        }
        lemma_ins_facts(t, x);
        let it = ins(t, x);
        let r = seq![s[0]] + it;
        lemma_lt_total(x.slug, s[0].slug);
        assert(le(s[0].slug, x.slug));
        assert forall|k: int| 0 <= k < it.len() implies le(s[0].slug, #[trigger] it[k].slug) by {
            assert(it.to_multiset().count(it[k]) > 0);
            assert(t.to_multiset().insert(x).count(it[k]) > 0);
            if it[k] != x {
                assert(t.to_multiset().count(it[k]) > 0);
                assert(t.contains(it[k]));
                let j = choose|j: int| 0 <= j < t.len() && t[j] == it[k];
                assert(s[j + 1] == t[j]);
            }
        }
        assert forall|i: int, j: int| 0 <= i < j < r.len() implies le(#[trigger] r[i].slug, #[trigger] r[j].slug) by {
            if i == 0 {
                assert(r[j] == it[j - 1]);
            } else {
                assert(r[i] == it[i - 1] && r[j] == it[j - 1]);
            }
        }
        vstd::seq_lib::lemma_multiset_commutative(seq![s[0]], it);
        vstd::seq_lib::lemma_multiset_commutative(seq![s[0]], t);
        assert(s =~= seq![s[0]] + t);
        assert(seq![s[0]] =~= Seq::<ModelInfoView>::empty().push(s[0]));
    }
}

/// The stable sort by slug orders the models and keeps every one of them.
pub proof fn lemma_sort_by_slug_sorted_permutation(s: Seq<ModelInfoView>)
    ensures
        sorted_by_slug(sort_by_slug_spec(s)),
        sort_by_slug_spec(s).to_multiset() == s.to_multiset(),
        sort_by_slug_spec(s).len() == s.len(),
    decreases s.len(),
{
    broadcast use vstd::seq_lib::group_to_multiset_ensures;
    if s.len() > 0 {
        lemma_sort_by_slug_sorted_permutation(s.drop_last());
        lemma_ins_facts(sort_by_slug_spec(s.drop_last()), s.last());
        assert(s =~= s.drop_last().push(s.last()));
    }
}

/// Inserts `m` unless a model with its slug is already present.
fn insert_unique(v: &mut Vec<ModelInfo>, m: ModelInfo)
    requires
        strictly_sorted_by_slug(model_views(old(v)@)),
    ensures
        strictly_sorted_by_slug(model_views(final(v)@)),
        forall|k: Seq<char>|
            has_slug(model_views(final(v)@), k) <==> (has_slug(model_views(old(v)@), k) || k
                == m@.slug),
        forall|i: int|
            0 <= i < final(v)@.len() ==> #[trigger] model_views(final(v)@)[i] == m@ || (exists|j: int|
                0 <= j < old(v)@.len() && model_views(old(v)@)[j] == model_views(final(v)@)[i]),
        !has_slug(model_views(old(v)@), m@.slug) ==> exists|i: int|
            0 <= i < final(v)@.len() && #[trigger] model_views(final(v)@)[i] == m@,
        has_slug(model_views(old(v)@), m@.slug) ==> final(v)@ == old(v)@,
{
    let ghost s = model_views(v@);
    let mut p: usize = 0;
    while p < v.len() && !slug_lt(&m, &v[p])
        invariant
            p <= v@.len(),
            v@ == old(v)@,
            s == model_views(v@),
            strictly_sorted_by_slug(model_views(old(v)@)),
            forall|k: int| 0 <= k < p ==> !lt(m@.slug, #[trigger] s[k].slug),
            forall|k: int| 0 <= k < p ==> #[trigger] s[k].slug != m@.slug,
        decreases v@.len() - p,
    {
        if slug_eq(&m, &v[p]) {
            assert(s[p as int].slug == m@.slug);
            return;
        }
        p = p + 1;
    }
    proof {
        assert forall|k: int| 0 <= k < s.len() implies #[trigger] s[k].slug != m@.slug by {
            if k < p {
            } else {
                if k > p {
                    assert(lt(s[p as int].slug, s[k].slug));
                    if s[k].slug == m@.slug {
                        lemma_lt_asymmetric(s[p as int].slug, m@.slug);
                    }
                } else {
                    lemma_lt_irreflexive(m@.slug);
                }
            }
        }
        lemma_views_insert(v@, p as int, m);
    }
    v.insert(p, m);
    proof {
        let r = model_views(v@);
        assert(r == s.insert(p as int, m@));
        assert forall|i: int, j: int| 0 <= i < j < r.len() implies lt(#[trigger] r[i].slug, #[trigger] r[j].slug) by {
            if j < p {
                assert(r[i] == s[i] && r[j] == s[j]);
            } else if j == p {
                assert(r[i] == s[i]);
                lemma_lt_total(m@.slug, s[i].slug);
            } else if i == p {
                assert(r[j] == s[j - 1]);
                if j - 1 > p {
                    lemma_lt_transitive(m@.slug, s[p as int].slug, s[j - 1].slug);
                }
            } else if i < p {
                assert(r[i] == s[i] && r[j] == s[j - 1]);
            } else {
                assert(r[i] == s[i - 1] && r[j] == s[j - 1]);
            }
        }
        assert forall|k: Seq<char>| has_slug(r, k) <==> (has_slug(s, k) || k == m@.slug) by {
            if has_slug(r, k) {
                let i = choose|i: int| 0 <= i < r.len() && #[trigger] r[i].slug == k;
                if i < p {
                    assert(r[i] == s[i]);
                } else if i > p {
                    assert(r[i] == s[i - 1]);
                }
            }
            if has_slug(s, k) {
                let i = choose|i: int| 0 <= i < s.len() && #[trigger] s[i].slug == k;
                if i < p {
                    assert(r[i] == s[i]);
                } else {
                    assert(r[i + 1] == s[i]);
                }
            }
            if k == m@.slug {
                assert(r[p as int] == m@);
            }
        }
        assert forall|i: int| 0 <= i < r.len() implies #[trigger] r[i] == m@ || (exists|j: int|
            0 <= j < s.len() && s[j] == r[i]) by {
            if i < p {
                assert(s[i] == r[i]);
            } else if i > p {
                assert(s[i - 1] == r[i]);
            }
        }
        assert(r[p as int] == m@);
    }
}

/// The models of `v` sorted by slug, keeping only the first model of each slug:
/// slugs strictly increase, every slug of `v` occurs, and each model kept is
/// the first one of `v` with its slug.
pub fn sort_unique_by_slug(v: Vec<ModelInfo>) -> (r: Vec<ModelInfo>)
    ensures
        strictly_sorted_by_slug(model_views(r@)),
        forall|k: Seq<char>| has_slug(model_views(r@), k) <==> has_slug(model_views(v@), k),
        forall|i: int|
            0 <= i < r@.len() ==> first_with_slug(model_views(v@), #[trigger] model_views(r@)[i]),
{
    let ghost input = model_views(v@);
    let mut rest = v;
    let mut out: Vec<ModelInfo> = Vec::new();
    let ghost taken: int = 0;
    while rest.len() > 0
        invariant
            0 <= taken <= input.len(),
            rest@.len() == input.len() - taken,
            model_views(rest@) == input.subrange(taken, input.len() as int),
            strictly_sorted_by_slug(model_views(out@)),
            forall|k: Seq<char>|
                has_slug(model_views(out@), k) <==> has_slug(input.subrange(0, taken), k),
            forall|i: int|
                0 <= i < out@.len() ==> first_with_slug(
                    input.subrange(0, taken),
                    #[trigger] model_views(out@)[i],
                ),
        decreases rest@.len(),
    {
        let ghost old_rest = rest@;
        assert(model_views(old_rest)[0] == old_rest[0]@);
        let m = rest.remove(0);
        let ghost before = model_views(out@);
        let ghost pre = input.subrange(0, taken);
        let ghost next = input.subrange(0, taken + 1);
        proof {
            assert(m@ == input[taken]);
            assert forall|i: int| 0 <= i < rest@.len() implies #[trigger] model_views(rest@)[i]
                == input.subrange(taken + 1, input.len() as int)[i] by {
                assert(rest@[i] == old_rest[i + 1]);
                assert(model_views(old_rest)[i + 1] == input.subrange(taken, input.len() as int)[i
                    + 1]);
            }
            assert(model_views(rest@) =~= input.subrange(taken + 1, input.len() as int));
            assert(next =~= pre.push(m@));
        }
        insert_unique(&mut out, m);
        proof {
            let after = model_views(out@);
            assert forall|k: Seq<char>| has_slug(after, k) <==> has_slug(next, k) by {
                if has_slug(pre, k) {
                    let i = choose|i: int| 0 <= i < pre.len() && #[trigger] pre[i].slug == k;
                    assert(next[i] == pre[i]);
                }
                if has_slug(next, k) {
                    let i = choose|i: int| 0 <= i < next.len() && #[trigger] next[i].slug == k;
                    if i < pre.len() {
                        assert(pre[i] == next[i]);
                    }
                }
                assert(next[taken] == m@);
            }
            assert forall|i: int| 0 <= i < after.len() implies first_with_slug(
                next,
                #[trigger] after[i],
            ) by {
                let ghost use_old = has_slug(before, m@.slug) || after[i] != m@;
                if !use_old {
                    assert(!has_slug(pre, m@.slug));
                    assert forall|k: int| 0 <= k < taken implies #[trigger] next[k].slug != m@.slug by {
                        assert(next[k] == pre[k]);
                        assert(pre[k].slug != m@.slug);
                    }
                    assert(next[taken] == m@);
                } else {
                    let j = if has_slug(before, m@.slug) {
                        assert(after[i] == before[i]);
                        i
                    } else {
                        choose|j: int| 0 <= j < before.len() && before[j] == after[i]
                    };
                    assert(0 <= j < before.len() && before[j] == after[i]);
                    assert(first_with_slug(pre, before[j]));
                    let jj = choose|jj: int|
                        0 <= jj < pre.len() && #[trigger] pre[jj] == before[j] && forall|k: int|
                            0 <= k < jj ==> #[trigger] pre[k].slug != before[j].slug;
                    assert(next[jj] == pre[jj]);
                    assert forall|k: int| 0 <= k < jj implies #[trigger] next[k].slug != after[i].slug by {
                        assert(next[k] == pre[k]);
                    }
                }
            }
            taken = taken + 1;
        }
    }
    assert(input.subrange(0, input.len() as int) =~= input);
    out
}

} // verus!
