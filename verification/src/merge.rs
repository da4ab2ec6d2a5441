//! Merges the two scan results into one sorted, deduplicated list.
//!
//! Registry records come first, directory records are appended; the combined
//! list is then sorted by display name, case-insensitively and stably, and
//! adjacent records with an equal internal name are collapsed to the first.
//! Because the sort key is the display name and not the name, only
//! duplicates that happen to sort next to each other are caught; that
//! limitation is part of the behaviour and is kept.

use vstd::prelude::*;
use crate::apps::AppModel;
use crate::apps::InstalledApp;
use crate::apps::app_le;
use crate::apps::sort_key;
use crate::apps::models_of;
use crate::casefold::lowercase;
use crate::text::lex_le_str;
use crate::text::lemma_lex_le_total;
use crate::text::lemma_lex_le_trans;

verus! {

/// `x` placed into `s` at the first position whose element does not sort at
/// or before `x`; an element that ties with `x` stays in front of it, which
/// keeps the overall sort stable.
pub open spec fn insert_sorted(x: AppModel, s: Seq<AppModel>) -> Seq<AppModel>
    decreases s.len(),
{
    if s.len() == 0 {
        seq![x]
    } else if !app_le(s[0], x) {
        seq![x] + s
    } else {
        seq![s[0]] + insert_sorted(x, s.drop_first())
    }
}

/// The stable sort of `s` by display name: each element inserted in turn,
/// after any earlier element it ties with.
pub open spec fn sort_by_display(s: Seq<AppModel>) -> Seq<AppModel>
    decreases s.len(),
{
    if s.len() == 0 {
        s
    } else {
        insert_sorted(s.last(), sort_by_display(s.drop_last()))
    }
}

/// Adjacent records with an equal internal name collapsed to the first:
/// each record is kept unless its name equals the name of the record kept
/// just before it.
pub open spec fn dedup_by_name(s: Seq<AppModel>) -> Seq<AppModel>
    decreases s.len(),
{
    if s.len() == 0 {
        s
    } else {
        let d = dedup_by_name(s.drop_last());
        if d.len() > 0 && s.last().name == d.last().name {
            d
        } else {
            d.push(s.last())
        }
    }
}

/// The merged scan result: the concatenation, sorted, then deduplicated.
pub open spec fn merged(s: Seq<AppModel>) -> Seq<AppModel> {
    dedup_by_name(sort_by_display(s))
}

/// Every adjacent pair is in order.
pub open spec fn sorted_by_display(s: Seq<AppModel>) -> bool {
    forall|i: int| 0 <= i && i + 1 < s.len() ==> app_le(#[trigger] s[i], s[i + 1])
}

/// Every pair is in order, adjacent or not.
pub open spec fn sorted_all(s: Seq<AppModel>) -> bool {
    forall|i: int, j: int| 0 <= i <= j < s.len() ==> app_le(#[trigger] s[i], #[trigger] s[j])
}

/// No two adjacent records share an internal name.
pub open spec fn adjacent_names_distinct(s: Seq<AppModel>) -> bool {
    forall|i: int| 0 <= i && i + 1 < s.len() ==> (#[trigger] s[i]).name != s[i + 1].name
}

/// Decides the sort order of two records.
fn display_le(a: &InstalledApp, b: &InstalledApp) -> (r: bool)
    ensures
        r == app_le(a@, b@),
{
    let la = lowercase(a.display_name.as_str());
    let lb = lowercase(b.display_name.as_str());
    lex_le_str(la.as_str(), lb.as_str())
}

proof fn lemma_insert_sorted_at(s: Seq<AppModel>, x: AppModel, pos: int)
    requires
        0 <= pos <= s.len(),
        forall|j: int| 0 <= j < pos ==> app_le(#[trigger] s[j], x),
        pos < s.len() ==> !app_le(s[pos], x),
    ensures
        insert_sorted(x, s) == s.insert(pos, x),
    decreases s.len(),
{
    if pos == 0 {
        if s.len() == 0 {
            assert(insert_sorted(x, s) =~= s.insert(0, x));
        } else {
            assert(!app_le(s[0], x));
            assert(seq![x] + s =~= s.insert(0, x));
        }
    } else {
        assert(app_le(s[0], x));
        assert(forall|j: int| 0 <= j < pos - 1 ==> app_le(#[trigger] s.drop_first()[j], x)) by {
            assert(forall|j: int|
                0 <= j < pos - 1 ==> #[trigger] s.drop_first()[j] == s[j + 1]);
        }
        assert(pos - 1 < s.drop_first().len() ==> !app_le(s.drop_first()[pos - 1], x));
        lemma_insert_sorted_at(s.drop_first(), x, pos - 1);
        assert(seq![s[0]] + s.drop_first().insert(pos - 1, x) =~= s.insert(pos, x));
    }
}

proof fn lemma_insert_sorted_keeps_order(x: AppModel, s: Seq<AppModel>)
    requires
        sorted_by_display(s),
    ensures
        sorted_by_display(insert_sorted(x, s)),
    decreases s.len(),
{
    if s.len() == 0 {
    } else if !app_le(s[0], x) {
        lemma_lex_le_total(sort_key(s[0]), sort_key(x));
        assert(app_le(x, s[0]));
        let r = seq![x] + s;
        assert(forall|i: int| 1 <= i && i + 1 < r.len() ==> #[trigger] r[i] == s[i - 1] && r[i + 1] == s[i]);
        assert(sorted_by_display(r));
    } else {
        assert(forall|i: int|
            0 <= i && i + 1 < s.drop_first().len() ==> #[trigger] s.drop_first()[i] == s[i + 1]
                && s.drop_first()[i + 1] == s[i + 2]);
        assert(sorted_by_display(s.drop_first()));
        lemma_insert_sorted_keeps_order(x, s.drop_first());
        let inner = insert_sorted(x, s.drop_first());
        let r = seq![s[0]] + inner;
        assert(forall|i: int|
            1 <= i && i + 1 < r.len() ==> #[trigger] r[i] == inner[i - 1] && r[i + 1] == inner[i]);
        // the junction pair: s[0] against the head of the inserted tail
        if s.drop_first().len() == 0 {
            assert(inner[0] == x);
        } else if !app_le(s.drop_first()[0], x) {
            assert(inner[0] == x);
        } else {
            assert(inner[0] == s.drop_first()[0]);
            assert(app_le(s[0], s[1]));
        }
        assert(sorted_by_display(r));
    }
}

proof fn lemma_sort_keeps_order(s: Seq<AppModel>)
    ensures
        sorted_by_display(sort_by_display(s)),
    decreases s.len(),
{
    if s.len() > 0 {
        lemma_sort_keeps_order(s.drop_last());
        lemma_insert_sorted_keeps_order(s.last(), sort_by_display(s.drop_last()));
    }
}

proof fn lemma_sorted_pair(s: Seq<AppModel>, i: int, j: int)
    requires
        sorted_by_display(s),
        0 <= i <= j < s.len(),
    ensures
        app_le(s[i], s[j]),
    decreases j - i,
{
    if i < j {
        lemma_sorted_pair(s, i, j - 1);
        assert(app_le(s[j - 1], s[j]));
        lemma_lex_le_trans(
            sort_key(s[i]),
            sort_key(s[j - 1]),
            sort_key(s[j]),
        );
    } else {
        lemma_lex_le_total(sort_key(s[i]), sort_key(s[i]));
    }
}

proof fn lemma_sorted_all(s: Seq<AppModel>)
    requires
        sorted_by_display(s),
    ensures
        sorted_all(s),
{
    assert forall|i: int, j: int| 0 <= i <= j < s.len() implies app_le(
        #[trigger] s[i],
        #[trigger] s[j],
    ) by {
        lemma_sorted_pair(s, i, j);
    }
}

proof fn lemma_dedup_keeps_order(s: Seq<AppModel>)
    requires
        sorted_all(s),
    ensures
        sorted_by_display(dedup_by_name(s)),
        dedup_by_name(s).len() > 0 ==> s.len() > 0 && app_le(dedup_by_name(s).last(), s.last()),
    decreases s.len(),
{
    if s.len() > 0 {
        assert(forall|i: int, j: int|
            0 <= i <= j < s.drop_last().len() ==> app_le(
                #[trigger] s.drop_last()[i],
                #[trigger] s.drop_last()[j],
            )) by {
            assert(forall|i: int|
                0 <= i < s.drop_last().len() ==> #[trigger] s.drop_last()[i] == s[i]);
        }
        lemma_dedup_keeps_order(s.drop_last());
        let d = dedup_by_name(s.drop_last());
        if d.len() > 0 && s.last().name == d.last().name {
            // the last record is dropped; the order of what is kept is unchanged,
            // and its last element still sorts at or before s.last()
            assert(app_le(d.last(), s.drop_last().last()));
            assert(app_le(s.drop_last().last(), s.last())) by {
                assert(s.drop_last()[s.len() - 2] == s[s.len() - 2]);
                assert(app_le(s[s.len() - 2], s[s.len() - 1]));
            }
            lemma_lex_le_trans(
                sort_key(d.last()),
                sort_key(s.drop_last().last()),
                sort_key(s.last()),
            );
        } else {
            let r = d.push(s.last());
            if d.len() > 0 {
                assert(app_le(d.last(), s.drop_last().last()));
                assert(app_le(s.drop_last().last(), s.last())) by {
                    assert(s.drop_last()[s.len() - 2] == s[s.len() - 2]);
                    assert(app_le(s[s.len() - 2], s[s.len() - 1]));
                }
                lemma_lex_le_trans(
                    sort_key(d.last()),
                    sort_key(s.drop_last().last()),
                    sort_key(s.last()),
                );
            }
            assert(forall|i: int| 0 <= i && i + 1 < d.len() ==> #[trigger] r[i] == d[i] && r[i
                + 1] == d[i + 1]);
            assert(sorted_by_display(r));
        }
    }
}

proof fn lemma_dedup_names_distinct(s: Seq<AppModel>)
    ensures
        adjacent_names_distinct(dedup_by_name(s)),
    decreases s.len(),
{
    if s.len() > 0 {
        lemma_dedup_names_distinct(s.drop_last());
        let d = dedup_by_name(s.drop_last());
        if d.len() > 0 && s.last().name == d.last().name {
        } else {
            let r = d.push(s.last());
            assert(forall|i: int| 0 <= i && i + 1 < d.len() ==> #[trigger] r[i] == d[i] && r[i
                + 1] == d[i + 1]);
            assert(adjacent_names_distinct(r));
        }
    }
}

/// The merged list is sorted: for every adjacent pair, the earlier record's
/// case-folded display name is at or before the later one's.
pub proof fn lemma_merged_sorted(s: Seq<AppModel>)
    ensures
        sorted_by_display(merged(s)),
{
    lemma_sort_keeps_order(s);
    lemma_sorted_all(sort_by_display(s));
    lemma_dedup_keeps_order(sort_by_display(s));
}

/// Of several records with an equal internal name that sort next to each
/// other, only the first survives: in the merged list no two adjacent
/// records share a name.
pub proof fn lemma_merged_names_distinct(s: Seq<AppModel>)
    ensures
        adjacent_names_distinct(merged(s)),
{
    lemma_dedup_names_distinct(sort_by_display(s));
}

fn insert_by_display(v: Vec<InstalledApp>, x: InstalledApp) -> (r: Vec<InstalledApp>)
    ensures
        models_of(r@) == insert_sorted(x@, models_of(v@)),
{
    let mut v = v;
    let mut pos: usize = 0;
    loop
        invariant
            pos <= v@.len(),
            forall|j: int| 0 <= j < pos ==> app_le(#[trigger] models_of(v@)[j], x@),
        ensures
            pos <= v@.len(),
            forall|j: int| 0 <= j < pos ==> app_le(#[trigger] models_of(v@)[j], x@),
            pos < v@.len() ==> !app_le(models_of(v@)[pos as int], x@),
        decreases v@.len() - pos,
    {
        if pos == v.len() {
            break ;
        }
        if !display_le(&v[pos], &x) {
            break ;
        }
        pos += 1;
    }
    proof {
        lemma_insert_sorted_at(models_of(v@), x@, pos as int);
    }
    let ghost before = v@;
    v.insert(pos, x);
    assert(models_of(v@) =~= models_of(before).insert(pos as int, x@));
    v
}

/// Sorts records by display name, case-insensitively and stably.
fn sort_apps(v: Vec<InstalledApp>) -> (r: Vec<InstalledApp>)
    ensures
        models_of(r@) == sort_by_display(models_of(v@)),
{
    let ghost vorig = v@;
    let ghost orig = models_of(v@);
    let mut v = v;
    let mut out: Vec<InstalledApp> = Vec::new();
    let ghost mut k: int = 0;
    proof {
        assert(models_of(out@) =~= orig.take(0));
        assert(sort_by_display(orig.take(0)) =~= models_of(out@));
    }
    while v.len() > 0
        invariant
            0 <= k <= vorig.len(),
            orig == models_of(vorig),
            orig.len() == vorig.len(),
            v@ =~= vorig.skip(k),
            models_of(out@) == sort_by_display(orig.take(k)),
        decreases v@.len(),
    {
        let x = v.remove(0);
        assert(x == vorig[k]);
        assert(x@ == orig[k]) by {
            assert(models_of(vorig)[k] == vorig[k]@);
        }
        assert(v@ =~= vorig.skip(k + 1));
        out = insert_by_display(out, x);
        proof {
            assert(orig.take(k + 1).drop_last() =~= orig.take(k));
            assert(orig.take(k + 1).last() == orig[k]);
            k = k + 1;
        }
    }
    proof {
        assert(orig.take(k) =~= orig);
    }
    out
}

/// Collapses adjacent records that share an internal name, keeping the
/// first.
fn dedup_apps(v: Vec<InstalledApp>) -> (r: Vec<InstalledApp>)
    ensures
        models_of(r@) == dedup_by_name(models_of(v@)),
{
    let ghost vorig = v@;
    let ghost orig = models_of(v@);
    let mut v = v;
    let mut out: Vec<InstalledApp> = Vec::new();
    let ghost mut k: int = 0;
    proof {
        assert(models_of(out@) =~= orig.take(0));
        assert(dedup_by_name(orig.take(0)) =~= models_of(out@));
    }
    while v.len() > 0
        invariant
            0 <= k <= vorig.len(),
            orig == models_of(vorig),
            orig.len() == vorig.len(),
            v@ =~= vorig.skip(k),
            models_of(out@) == dedup_by_name(orig.take(k)),
        decreases v@.len(),
    {
        let ghost out_before = out@;
        let x = v.remove(0);
        assert(x == vorig[k]);
        assert(x@ == orig[k]) by {
            assert(models_of(vorig)[k] == vorig[k]@);
        }
        assert(v@ =~= vorig.skip(k + 1));
        proof {
            assert(orig.take(k + 1).drop_last() =~= orig.take(k));
            assert(orig.take(k + 1).last() == orig[k]);
        }
        let keep: bool = if out.len() == 0 {
            true
        } else {
            assert(models_of(out@).last() == out@[out@.len() - 1]@);
            !(out[out.len() - 1].name == x.name)
        };
        if keep {
            out.push(x);
            assert(models_of(out@) =~= models_of(out_before).push(orig[k]));
        }
        proof {
            k = k + 1;
        }
    }
    proof {
        assert(orig.take(k) =~= orig);
    }
    out
}

/// Merges the registry and directory scan results: concatenates them,
/// sorts by display name case-insensitively, and collapses adjacent
/// records with an equal internal name.
pub fn merge_apps(registry_apps: Vec<InstalledApp>, directory_apps: Vec<InstalledApp>) -> (r: Vec<
    InstalledApp,
>)
    ensures
        models_of(r@) == merged(models_of(registry_apps@) + models_of(directory_apps@)),
{
    let ghost ra = registry_apps@;
    let ghost da = directory_apps@;
    let mut all = registry_apps;
    let mut directory_apps = directory_apps;
    all.append(&mut directory_apps);
    assert(models_of(all@) =~= models_of(ra) + models_of(da));
    let sorted = sort_apps(all);
    dedup_apps(sorted)
}

} // verus!
