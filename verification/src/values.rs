//! The statistics of single values, as a parser hands them over one by one.

use vstd::prelude::*;
use vstd::string::*;
use crate::stats::{CollModel, CollectionStats, Fields, StatsModel, TypeStats, coll_view, items_view};
use crate::text::{seq_less, str_less};
use crate::laws::{
    lemma_insert_sorted_wf, lemma_single_values_wf, sorted_keys,
    wf_coll, wf_items, wf_stats,
};

verus! {

/// `items` with the field `k` set to `c`: fields stay in increasing order
/// of name, and a field of the same name is replaced.
pub open spec fn insert_sorted(
    items: Seq<(Seq<char>, CollModel)>,
    k: Seq<char>,
    c: CollModel,
) -> Seq<(Seq<char>, CollModel)>
    decreases items.len(),
{
    if items.len() == 0 {
        seq![(k, c)]
    } else if items[0].0 == k {
        seq![(k, c)] + items.drop_first()
    } else if seq_less(k, items[0].0) {
        seq![(k, c)] + items
    } else {
        seq![items[0]] + insert_sorted(items.drop_first(), k, c)
    }
}

impl TypeStats {
    /// The statistics of one string.
    pub fn of_str(v: &str) -> (r: TypeStats)
        ensures
            r@ == (StatsModel::Str { example: v@, min: v@, max: v@ }),
            wf_stats(r@),
    {
        proof {
            lemma_single_values_wf(v@, true, 0, false);
        }
        TypeStats::String {
            example: String::from_str(v),
            min_val: String::from_str(v),
            max_val: String::from_str(v),
        }
    }

    /// The statistics of one boolean.
    pub fn of_bool(v: bool) -> (r: TypeStats)
        ensures
            r@ == (StatsModel::Bool { example: v, has_true: v, has_false: !v }),
            wf_stats(r@),
    {
        TypeStats::Bool { example: v, has_true: v, has_false: !v }
    }

    /// The statistics of one number, given by its order key and whether it
    /// has a fractional part.
    pub fn of_number(key: u64, is_float: bool) -> (r: TypeStats)
        ensures
            r@ == (StatsModel::Num { example: key, min: key, max: key, is_float }),
            wf_stats(r@),
    {
        TypeStats::Number { example: key, min: key, max: key, is_float }
    }

    /// The statistics of one `null`.
    pub fn null() -> (r: TypeStats)
        ensures
            r@ == (StatsModel::Null { example_count: 1, min_count: 1, max_count: 1 }),
            wf_stats(r@),
    {
        TypeStats::Null { example_count: 1, min_count: 1, max_count: 1 }
    }

    /// The statistics of one array of `len` elements, whose elements gave `items`.
    pub fn of_array(items: CollectionStats, len: usize) -> (r: TypeStats)
        ensures
            r@ == (StatsModel::Array {
                example_len: len as nat,
                min_len: len as nat,
                max_len: len as nat,
                items: Box::new(items@),
            }),
            wf_coll(items@) ==> wf_stats(r@),
    {
        TypeStats::Array { example_len: len, min_len: len, max_len: len, items: Box::new(items) }
    }

    /// The statistics of one object whose fields gave `items`.
    pub fn of_object(items: Fields) -> (r: TypeStats)
        ensures
            r@ == (StatsModel::Object { items: items@ }),
            sorted_keys(items@),
            wf_items(items@) ==> wf_stats(r@),
    {
        proof {
            use_type_invariant(&items);
        }
        TypeStats::Object { items }
    }
}

impl Fields {
    /// An object with no fields.
    pub fn new() -> (r: Fields)
        ensures
            r@ == Seq::<(Seq<char>, CollModel)>::empty(),
    {
        let r = Fields { entries: Vec::new() };
        assert(r@ =~= Seq::<(Seq<char>, CollModel)>::empty());
        r
    }

    /// The fields, in increasing order of name.
    pub fn entries(&self) -> (r: &Vec<(String, CollectionStats)>)
        ensures
            items_view(r@) == self@,
            sorted_keys(self@),
    {
        proof {
            use_type_invariant(self);
        }
        &self.entries
    }

    /// Records the field `key` of an object, whose value gave `stats`; a
    /// field of the same name seen before is replaced.
    pub fn insert(&mut self, key: String, stats: CollectionStats)
        ensures
            final(self)@ == insert_sorted(old(self)@, key@, stats@),
            sorted_keys(final(self)@),
            wf_items(old(self)@) && wf_coll(stats@) ==> wf_items(final(self)@),
    {
        proof {
            use_type_invariant(&*self);
            lemma_insert_sorted_wf(self@, key@, stats@);
        }
        let mut entries: Vec<(String, CollectionStats)> = Vec::new();
        assert(sorted_keys(items_view(entries@))) by {
            assert(items_view(entries@) =~= Seq::<(Seq<char>, CollModel)>::empty());
        }
        std::mem::swap(&mut entries, &mut self.entries);
        insert_into(&mut entries, key, stats);
        self.entries = entries;
    }
}

fn insert_into(items: &mut Vec<(String, CollectionStats)>, key: String, stats: CollectionStats)
    ensures
        items_view(final(items)@) == insert_sorted(items_view(old(items)@), key@, stats@),
{
    let ghost orig = items_view(items@);
    let mut i: usize = 0;
    assert(orig.skip(0) =~= orig);
    assert(orig.take(0) + insert_sorted(orig, key@, stats@) =~= insert_sorted(orig, key@, stats@));
    while i < items.len() && !(items[i].0 == key) && !str_less(key.as_str(), items[i].0.as_str())
        invariant
            i <= items.len(),
            items_view(items@) == orig,
            insert_sorted(orig, key@, stats@) == orig.take(i as int) + insert_sorted(
                orig.skip(i as int),
                key@,
                stats@,
            ),
        decreases items.len() - i,
    {
        proof {
            let rest = orig.skip(i as int);
            assert(rest[0] == orig[i as int]);
            assert(rest.drop_first() =~= orig.skip(i + 1));
            assert(orig.take(i as int) + seq![orig[i as int]] =~= orig.take(i + 1));
            assert(orig.take(i as int) + (seq![rest[0]] + insert_sorted(rest.drop_first(), key@, stats@))
                =~= orig.take(i + 1) + insert_sorted(orig.skip(i + 1), key@, stats@));
        }
        i = i + 1;
    }
    let ghost rest = orig.skip(i as int);
    let ghost ck = coll_view(stats);
    if i < items.len() && items[i].0 == key {
        let _old = items.remove(i);
        items.insert(i, (key, stats));
        assert(rest.drop_first() =~= orig.skip(i + 1));
        assert(items_view(items@) =~= orig.take(i as int) + (seq![(key@, ck)] + rest.drop_first()));
    } else {
        items.insert(i, (key, stats));
        assert(items_view(items@) =~= orig.take(i as int) + (seq![(key@, ck)] + rest));
    }
}

} // verus!
