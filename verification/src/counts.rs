//! How large the counts of null and missing values can grow under merging.
//!
//! Merging adds example counts up, so a merge can overflow a `usize`.
//! The largest example count of a merge is at most the sum of the largest
//! counts of its two sides plus one, so a caller can rule out overflow by
//! checking `max_example_count` on both sides before merging.

use vstd::prelude::*;
use crate::stats::{
    TypeKey, CollModel, CollectionStats, StatsModel, TypeStats, coll_view, fits_coll, fits_items, fits_opt,
    fits_stats, items_view, lemma_size_items_elem, size_coll, size_items, size_opt, size_stats,
};
use crate::merge::{
    lemma_fits_items_cons, mark_missing, merge_coll_model, merge_items_model,
    merge_model, merge_slot_model, merge_value_model, nat_max, usize_max, put_model, undefined_coll,
    zero_min,
};
use crate::text::seq_less;

verus! {

/// The largest example count of a `null` or missing value anywhere in `s`.
pub open spec fn max_count(s: StatsModel) -> nat
    decreases s,
{
    match s {
        StatsModel::Null { example_count, .. } => example_count,
        StatsModel::Undefined { example_count, .. } => example_count,
        StatsModel::Object { items } => max_count_items(items),
        StatsModel::Array { items, .. } => max_count_coll(*items),
        _ => 0,
    }
}

pub open spec fn max_count_opt(o: Option<StatsModel>) -> nat
    decreases o,
{
    match o {
        Some(s) => max_count(s),
        None => 0,
    }
}

pub open spec fn max_count_coll(c: CollModel) -> nat
    decreases c,
{
    nat_max(
        nat_max(
            nat_max(max_count_opt(c.string), max_count_opt(c.number)),
            nat_max(max_count_opt(c.boolean), max_count_opt(c.null)),
        ),
        nat_max(
            nat_max(max_count_opt(c.object), max_count_opt(c.array)),
            max_count_opt(c.undefined),
        ),
    )
}

pub open spec fn max_count_items(items: Seq<(Seq<char>, CollModel)>) -> nat
    decreases items,
{
    if items.len() == 0 {
        0
    } else {
        nat_max(max_count_coll(items[0].1), max_count_items(items.drop_first()))
    }
}

proof fn lemma_max_count_items_cons(x: (Seq<char>, CollModel), rest: Seq<(Seq<char>, CollModel)>)
    ensures
        max_count_items(seq![x] + rest) == nat_max(max_count_coll(x.1), max_count_items(rest)),
{
    assert((seq![x] + rest).drop_first() =~= rest);
}

proof fn lemma_zero_min_bound(s: StatsModel)
    requires
        fits_stats(s),
    ensures
        fits_stats(zero_min(s)),
        max_count(zero_min(s)) == max_count(s),
{
}

proof fn lemma_mark_missing_bound(c: CollModel)
    requires
        fits_coll(c),
        max_count_coll(c) < usize::MAX,
    ensures
        fits_coll(mark_missing(c)),
        max_count_coll(mark_missing(c)) <= max_count_coll(c) + 1,
{
}

proof fn lemma_undefined_then_bound(v: CollModel)
    requires
        fits_coll(v),
        max_count_coll(v) < usize::MAX,
    ensures
        fits_coll(merge_coll_model(undefined_coll(), v)),
        max_count_coll(merge_coll_model(undefined_coll(), v)) <= max_count_coll(v) + 1,
{
    if let Some(s) = v.string {
        lemma_zero_min_bound(s);
    }
    if let Some(s) = v.number {
        lemma_zero_min_bound(s);
    }
    if let Some(s) = v.boolean {
        lemma_zero_min_bound(s);
    }
    if let Some(s) = v.null {
        lemma_zero_min_bound(s);
    }
    if let Some(s) = v.object {
        lemma_zero_min_bound(s);
    }
    if let Some(s) = v.array {
        lemma_zero_min_bound(s);
    }
}

/// Merging two statistics never makes a count larger than the largest
/// counts of the two sides together, plus one.
pub proof fn lemma_merge_bound(a: StatsModel, b: StatsModel)
    requires
        fits_stats(a),
        fits_stats(b),
        max_count(a) + max_count(b) < usize::MAX,
    ensures
        fits_stats(merge_model(a, b)),
        max_count(merge_model(a, b)) <= max_count(a) + max_count(b) + 1,
    decreases size_stats(b), 0nat,
{
    match a {
        StatsModel::Object { items } => {
            if let StatsModel::Object { items: oitems } = b {
                lemma_merge_items_bound(items, oitems);
            }
        },
        StatsModel::Array { items, .. } => {
            if let StatsModel::Array { items: oitems, .. } = b {
                lemma_merge_coll_bound(*items, *oitems);
            }
        },
        _ => {},
    }
}

proof fn lemma_merge_slot_bound(x: Option<StatsModel>, y: Option<StatsModel>)
    requires
        fits_opt(x),
        fits_opt(y),
        max_count_opt(x) + max_count_opt(y) < usize::MAX,
    ensures
        fits_opt(merge_slot_model(x, y)),
        max_count_opt(merge_slot_model(x, y)) <= max_count_opt(x) + max_count_opt(y) + 1,
    decreases size_opt(y), 1nat,
{
    match x {
        Some(p) => match y {
            Some(q) => lemma_merge_bound(p, q),
            None => lemma_zero_min_bound(p),
        },
        None => match y {
            Some(q) => lemma_zero_min_bound(q),
            None => {},
        },
    }
}

/// Merging two collections never makes a count larger than the largest
/// counts of the two sides together, plus one.
pub proof fn lemma_merge_coll_bound(a: CollModel, b: CollModel)
    requires
        fits_coll(a),
        fits_coll(b),
        max_count_coll(a) + max_count_coll(b) < usize::MAX,
    ensures
        fits_coll(merge_coll_model(a, b)),
        max_count_coll(merge_coll_model(a, b)) <= max_count_coll(a) + max_count_coll(b) + 1,
    decreases size_coll(b), 0nat,
{
    lemma_merge_slot_bound(a.string, b.string);
    lemma_merge_slot_bound(a.number, b.number);
    lemma_merge_slot_bound(a.boolean, b.boolean);
    lemma_merge_slot_bound(a.null, b.null);
    lemma_merge_slot_bound(a.object, b.object);
    lemma_merge_slot_bound(a.array, b.array);
    lemma_merge_slot_bound(a.undefined, b.undefined);
}

proof fn lemma_merge_items_bound(a: Seq<(Seq<char>, CollModel)>, b: Seq<(Seq<char>, CollModel)>)
    requires
        fits_items(a),
        fits_items(b),
        max_count_items(a) + max_count_items(b) < usize::MAX,
    ensures
        fits_items(merge_items_model(a, b)),
        max_count_items(merge_items_model(a, b)) <= max_count_items(a) + max_count_items(b) + 1,
    decreases size_items(b), a.len(),
{
    if a.len() == 0 && b.len() == 0 {
    } else if b.len() == 0 || (a.len() > 0 && seq_less(a[0].0, b[0].0)) {
        let x = (a[0].0, mark_missing(a[0].1));
        lemma_mark_missing_bound(a[0].1);
        lemma_merge_items_bound(a.drop_first(), b);
        lemma_fits_items_cons(x, merge_items_model(a.drop_first(), b));
        lemma_max_count_items_cons(x, merge_items_model(a.drop_first(), b));
    } else if a.len() == 0 || seq_less(b[0].0, a[0].0) {
        let x = (b[0].0, merge_coll_model(undefined_coll(), b[0].1));
        lemma_undefined_then_bound(b[0].1);
        lemma_merge_items_bound(a, b.drop_first());
        lemma_fits_items_cons(x, merge_items_model(a, b.drop_first()));
        lemma_max_count_items_cons(x, merge_items_model(a, b.drop_first()));
    } else {
        let x = (a[0].0, merge_coll_model(a[0].1, b[0].1));
        lemma_merge_coll_bound(a[0].1, b[0].1);
        lemma_merge_items_bound(a.drop_first(), b.drop_first());
        lemma_fits_items_cons(x, merge_items_model(a.drop_first(), b.drop_first()));
        lemma_max_count_items_cons(x, merge_items_model(a.drop_first(), b.drop_first()));
    }
}

/// Merging a value into a collection never makes a count larger than the
/// largest counts of the two together, plus one.
pub proof fn lemma_merge_value_bound(c: CollModel, s: StatsModel)
    requires
        fits_coll(c),
        fits_stats(s),
        max_count_coll(c) + max_count(s) < usize::MAX,
    ensures
        fits_coll(merge_value_model(c, s)),
        max_count_coll(merge_value_model(c, s)) <= max_count_coll(c) + max_count(s) + 1,
{
    match crate::merge::key_of(s) {
        TypeKey::String => lemma_put_bound(c.string, s),
        TypeKey::Number => lemma_put_bound(c.number, s),
        TypeKey::Bool => lemma_put_bound(c.boolean, s),
        TypeKey::Null => lemma_put_bound(c.null, s),
        TypeKey::Object => lemma_put_bound(c.object, s),
        TypeKey::Array => lemma_put_bound(c.array, s),
        TypeKey::Undefined => lemma_put_bound(c.undefined, s),
    }
}

proof fn lemma_put_bound(o: Option<StatsModel>, s: StatsModel)
    requires
        fits_opt(o),
        fits_stats(s),
        max_count_opt(o) + max_count(s) < usize::MAX,
    ensures
        fits_opt(put_model(o, s)),
        max_count_opt(put_model(o, s)) <= max_count_opt(o) + max_count(s) + 1,
{
    if let Some(p) = o {
        lemma_merge_bound(p, s);
    }
}

/// The model of any value of `TypeStats` fits in `usize`s.
pub proof fn lemma_stats_view_fits(s: TypeStats)
    ensures
        fits_stats(s@),
    decreases s,
{
    match s {
        TypeStats::Object { items } => lemma_items_view_fits(items.entries@),
        TypeStats::Array { items, .. } => lemma_coll_view_fits(*items),
        _ => {},
    }
}

/// The model of any value of `CollectionStats` fits in `usize`s.
pub proof fn lemma_coll_view_fits(c: CollectionStats)
    ensures
        fits_coll(c@),
    decreases c,
{
    if let Some(s) = c.string {
        lemma_stats_view_fits(s);
    }
    if let Some(s) = c.number {
        lemma_stats_view_fits(s);
    }
    if let Some(s) = c.boolean {
        lemma_stats_view_fits(s);
    }
    if let Some(s) = c.null {
        lemma_stats_view_fits(s);
    }
    if let Some(s) = c.object {
        lemma_stats_view_fits(s);
    }
    if let Some(s) = c.array {
        lemma_stats_view_fits(s);
    }
    if let Some(s) = c.undefined {
        lemma_stats_view_fits(s);
    }
}

proof fn lemma_items_view_fits(items: Seq<(String, CollectionStats)>)
    ensures
        fits_items(items_view(items)),
    decreases items,
{
    if items.len() > 0 {
        lemma_coll_view_fits(items[0].1);
        lemma_items_view_fits(items.drop_first());
        assert(items_view(items).drop_first() =~= items_view(items.drop_first()));
    }
}

fn opt_max_count(o: &Option<TypeStats>) -> (r: usize)
    ensures
        r as nat == max_count_opt(crate::stats::opt_view(*o)),
    decreases size_opt(crate::stats::opt_view(*o)), 1nat,
{
    match o {
        Some(s) => s.max_example_count(),
        None => 0,
    }
}

impl TypeStats {
    /// The largest example count of a `null` or missing value anywhere below.
    pub fn max_example_count(&self) -> (r: usize)
        ensures
            r as nat == max_count(self@),
        decreases size_stats(self@), 0nat,
    {
        match self {
            TypeStats::Null { example_count, .. } => *example_count,
            TypeStats::Undefined { example_count, .. } => *example_count,
            TypeStats::Array { items, .. } => items.max_example_count(),
            TypeStats::Object { items } => {
                let items = &items.entries;
                let ghost iv = items_view(items@);
                let mut m: usize = 0;
                let mut i: usize = 0;
                assert(iv.skip(0) =~= iv);
                while i < items.len()
                    invariant
                        i <= items@.len(),
                        iv == items_view(items@),
                        size_items(iv) < size_stats(self@),
                        nat_max(m as nat, max_count_items(iv.skip(i as int))) == max_count_items(iv),
                    decreases items@.len() - i,
                {
                    assert(iv.skip(i as int).drop_first() =~= iv.skip(i + 1));
                    proof {
                        lemma_size_items_elem(iv, i as int);
                        assert(iv[i as int].1 == coll_view(items@[i as int].1));
                        assert(size_coll(items@[i as int].1@) < size_stats(self@));
                    }
                    let c = items[i].1.max_example_count();
                    m = usize_max(m, c);
                    i = i + 1;
                }
                assert(iv.skip(i as int) =~= Seq::<(Seq<char>, CollModel)>::empty());
                m
            },
            _ => 0,
        }
    }

    /// Whether `other` can be merged into `self` with no count overflowing.
    /// Where it returns `true`, the requirement of `merge` holds.
    pub fn can_merge(&self, other: &TypeStats) -> (r: bool)
        ensures
            r ==> fits_stats(merge_model(self@, other@)),
            r == (max_count(self@) + max_count(other@) < usize::MAX),
    {
        let a = self.max_example_count();
        let b = other.max_example_count();
        if a < usize::MAX - b {
            proof {
                lemma_stats_view_fits(*self);
                lemma_stats_view_fits(*other);
                lemma_merge_bound(self@, other@);
            }
            true
        } else {
            false
        }
    }
}

impl CollectionStats {
    /// The largest example count of a `null` or missing value anywhere below.
    pub fn max_example_count(&self) -> (r: usize)
        ensures
            r as nat == max_count_coll(self@),
        decreases size_coll(self@), 0nat,
    {
        let a = usize_max(opt_max_count(&self.string), opt_max_count(&self.number));
        let b = usize_max(opt_max_count(&self.boolean), opt_max_count(&self.null));
        let c = usize_max(opt_max_count(&self.object), opt_max_count(&self.array));
        let d = opt_max_count(&self.undefined);
        usize_max(usize_max(a, b), usize_max(c, d))
    }

    /// Whether `stats` can be merged into `self` with no count overflowing.
    /// Where it returns `true`, the requirement of `merge_value` holds.
    pub fn can_merge_value(&self, stats: &TypeStats) -> (r: bool)
        ensures
            r ==> fits_coll(merge_value_model(self@, stats@)),
            r == (max_count_coll(self@) + max_count(stats@) < usize::MAX),
    {
        let a = self.max_example_count();
        let b = stats.max_example_count();
        if a < usize::MAX - b {
            proof {
                lemma_coll_view_fits(*self);
                lemma_stats_view_fits(*stats);
                lemma_merge_value_bound(self@, stats@);
            }
            true
        } else {
            false
        }
    }

    /// Whether `other` can be merged into `self` with no count overflowing.
    /// Where it returns `true`, the requirement of `merge` holds.
    pub fn can_merge(&self, other: &CollectionStats) -> (r: bool)
        ensures
            r ==> fits_coll(merge_coll_model(self@, other@)),
            r == (max_count_coll(self@) + max_count_coll(other@) < usize::MAX),
    {
        let a = self.max_example_count();
        let b = other.max_example_count();
        if a < usize::MAX - b {
            proof {
                lemma_coll_view_fits(*self);
                lemma_coll_view_fits(*other);
                lemma_merge_coll_bound(self@, other@);
            }
            true
        } else {
            false
        }
    }
}

} // verus!
