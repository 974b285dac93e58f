//! What every operation keeps: the invariant of the statistics, and what
//! merging does to examples, ranges and fields.

use vstd::prelude::*;
use vstd::string::*;
use crate::stats::{CollModel, StatsModel, TypeKey, empty_coll, size_coll, size_items, size_opt, size_stats};
use crate::merge::{
    key_of, mark_missing, merge_coll_model, merge_items_model, merge_model,
    merge_slot_model, merge_value_model, nat_max, nat_min, undefined_coll, undefined_once, zero_min,
};
use crate::values::insert_sorted;
use crate::render::{
    ShownModel, array_entry_model, entries, name_of, opt_name, opt_seq, render_coll, render_node,
    render_options, shown_value, summary_names,
};
use crate::text::{
    lemma_less_asymmetric, lemma_less_irreflexive, lemma_less_total, lemma_less_transitive,
    seq_less,
};

verus! {

/// Field names in strictly increasing order.
pub open spec fn sorted_keys(items: Seq<(Seq<char>, CollModel)>) -> bool {
    forall|i: int, j: int| 0 <= i < j < items.len() ==> seq_less(#[trigger] items[i].0, #[trigger] items[j].0)
}

/// Every name of `items` comes after `k`.
pub open spec fn keys_after(items: Seq<(Seq<char>, CollModel)>, k: Seq<char>) -> bool {
    forall|i: int| 0 <= i < items.len() ==> seq_less(k, #[trigger] items[i].0)
}

/// The invariant of statistics: the example lies in the range, a boolean
/// example was seen, counts are ordered, and every slot of a collection
/// holds statistics of its own type. (That field names are sorted is the
/// invariant of `Fields`, kept by the type itself.)
pub open spec fn wf_stats(s: StatsModel) -> bool
    decreases s,
{
    match s {
        StatsModel::Str { example, min, max } => !seq_less(example, min) && !seq_less(max, example),
        StatsModel::Num { example, min, max, .. } => min <= example <= max,
        StatsModel::Bool { example, has_true, has_false } => (example ==> has_true) && (!example
            ==> has_false),
        StatsModel::Null { example_count, min_count, max_count } => min_count <= max_count
            <= example_count,
        StatsModel::Undefined { example_count, min_count, max_count } => min_count <= max_count
            <= example_count,
        StatsModel::Object { items } => wf_items(items),
        StatsModel::Array { example_len, min_len, max_len, items } => min_len <= example_len
            <= max_len && wf_coll(*items),
    }
}

pub open spec fn wf_slot(o: Option<StatsModel>, k: TypeKey) -> bool
    decreases o,
{
    match o {
        Some(s) => key_of(s) == k && wf_stats(s),
        None => true,
    }
}

pub open spec fn wf_coll(c: CollModel) -> bool
    decreases c,
{
    wf_slot(c.string, TypeKey::String) && wf_slot(c.number, TypeKey::Number) && wf_slot(
        c.boolean,
        TypeKey::Bool,
    ) && wf_slot(c.null, TypeKey::Null) && wf_slot(c.object, TypeKey::Object) && wf_slot(
        c.array,
        TypeKey::Array,
    ) && wf_slot(c.undefined, TypeKey::Undefined)
}

pub open spec fn wf_items(items: Seq<(Seq<char>, CollModel)>) -> bool
    decreases items,
{
    items.len() == 0 || (wf_coll(items[0].1) && wf_items(items.drop_first()))
}

proof fn lemma_wf_items_cons(x: (Seq<char>, CollModel), rest: Seq<(Seq<char>, CollModel)>)
    ensures
        wf_items(seq![x] + rest) == (wf_coll(x.1) && wf_items(rest)),
{
    assert((seq![x] + rest).drop_first() =~= rest);
}

proof fn lemma_sorted_cons(x: (Seq<char>, CollModel), rest: Seq<(Seq<char>, CollModel)>)
    requires
        keys_after(rest, x.0),
        sorted_keys(rest),
    ensures
        sorted_keys(seq![x] + rest),
{
    let s = seq![x] + rest;
    assert forall|i: int, j: int| 0 <= i < j < s.len() implies seq_less(
        #[trigger] s[i].0,
        #[trigger] s[j].0,
    ) by {
        if i == 0 {
            assert(s[j] == rest[j - 1]);
        } else {
            assert(s[i] == rest[i - 1]);
            assert(s[j] == rest[j - 1]);
        }
    }
}

proof fn lemma_sorted_tail(items: Seq<(Seq<char>, CollModel)>)
    requires
        sorted_keys(items),
        items.len() > 0,
    ensures
        sorted_keys(items.drop_first()),
        keys_after(items.drop_first(), items[0].0),
{
    let t = items.drop_first();
    assert forall|i: int| 0 <= i < t.len() implies seq_less(items[0].0, #[trigger] t[i].0) by {
        assert(t[i] == items[i + 1]);
    }
    assert forall|i: int, j: int| 0 <= i < j < t.len() implies seq_less(
        #[trigger] t[i].0,
        #[trigger] t[j].0,
    ) by {
        assert(t[i] == items[i + 1]);
        assert(t[j] == items[j + 1]);
    }
}

proof fn lemma_keys_after_weaken(items: Seq<(Seq<char>, CollModel)>, k: Seq<char>, k2: Seq<char>)
    requires
        keys_after(items, k),
        seq_less(k2, k),
    ensures
        keys_after(items, k2),
{
    assert forall|i: int| 0 <= i < items.len() implies seq_less(k2, #[trigger] items[i].0) by {
        lemma_less_transitive(k2, k, items[i].0);
    }
}

/// Every name of a merge of fields comes after `k` where every name of both sides does.
proof fn lemma_merge_items_after(
    a: Seq<(Seq<char>, CollModel)>,
    b: Seq<(Seq<char>, CollModel)>,
    k: Seq<char>,
)
    requires
        keys_after(a, k),
        keys_after(b, k),
    ensures
        keys_after(merge_items_model(a, b), k),
    decreases size_items(b), a.len(),
{
    let r = merge_items_model(a, b);
    if a.len() == 0 && b.len() == 0 {
    } else if b.len() == 0 || (a.len() > 0 && seq_less(a[0].0, b[0].0)) {
        let x = (a[0].0, mark_missing(a[0].1));
        assert(keys_after(a.drop_first(), k)) by {
            assert forall|i: int| 0 <= i < a.drop_first().len() implies seq_less(
                k,
                #[trigger] a.drop_first()[i].0,
            ) by {
                assert(a.drop_first()[i] == a[i + 1]);
            }
        }
        lemma_merge_items_after(a.drop_first(), b, k);
        let t = merge_items_model(a.drop_first(), b);
        assert forall|i: int| 0 <= i < r.len() implies seq_less(k, #[trigger] r[i].0) by {
            if i > 0 {
                assert(r[i] == t[i - 1]);
            }
        }
    } else if a.len() == 0 || seq_less(b[0].0, a[0].0) {
        assert(keys_after(b.drop_first(), k)) by {
            assert forall|i: int| 0 <= i < b.drop_first().len() implies seq_less(
                k,
                #[trigger] b.drop_first()[i].0,
            ) by {
                assert(b.drop_first()[i] == b[i + 1]);
            }
        }
        lemma_merge_items_after(a, b.drop_first(), k);
        let t = merge_items_model(a, b.drop_first());
        assert forall|i: int| 0 <= i < r.len() implies seq_less(k, #[trigger] r[i].0) by {
            if i > 0 {
                assert(r[i] == t[i - 1]);
            }
        }
    } else {
        assert(keys_after(a.drop_first(), k)) by {
            assert forall|i: int| 0 <= i < a.drop_first().len() implies seq_less(
                k,
                #[trigger] a.drop_first()[i].0,
            ) by {
                assert(a.drop_first()[i] == a[i + 1]);
            }
        }
        assert(keys_after(b.drop_first(), k)) by {
            assert forall|i: int| 0 <= i < b.drop_first().len() implies seq_less(
                k,
                #[trigger] b.drop_first()[i].0,
            ) by {
                assert(b.drop_first()[i] == b[i + 1]);
            }
        }
        lemma_merge_items_after(a.drop_first(), b.drop_first(), k);
        let t = merge_items_model(a.drop_first(), b.drop_first());
        assert forall|i: int| 0 <= i < r.len() implies seq_less(k, #[trigger] r[i].0) by {
            if i > 0 {
                assert(r[i] == t[i - 1]);
            }
        }
    }
}

proof fn lemma_zero_min_wf(s: StatsModel)
    requires
        wf_stats(s),
    ensures
        wf_stats(zero_min(s)),
        key_of(zero_min(s)) == key_of(s),
{
}

proof fn lemma_mark_missing_wf(c: CollModel)
    requires
        wf_coll(c),
    ensures
        wf_coll(mark_missing(c)),
{
}

proof fn lemma_undefined_coll_wf()
    ensures
        wf_coll(undefined_coll()),
{
}

/// Merging statistics of one type keeps the invariant and the type.
pub proof fn lemma_merge_wf(a: StatsModel, b: StatsModel)
    requires
        wf_stats(a),
        wf_stats(b),
        key_of(a) == key_of(b),
    ensures
        wf_stats(merge_model(a, b)),
        key_of(merge_model(a, b)) == key_of(a),
    decreases size_stats(b), 0nat,
{
    match a {
        StatsModel::Str { example, min, max } => {
            if let StatsModel::Str { min: omin, max: omax, .. } = b {
                if seq_less(omin, min) {
                    lemma_less_total(example, min);
                    if seq_less(example, omin) {
                        lemma_less_transitive(example, omin, min);
                    }
                    lemma_less_asymmetric(example, omin);
                    if example != min {
                        lemma_less_transitive(omin, min, example);
                        lemma_less_asymmetric(omin, example);
                    }
                }
                if seq_less(max, omax) {
                    if seq_less(omax, example) {
                        lemma_less_transitive(max, omax, example);
                    }
                    lemma_less_total(max, example);
                    if max != example {
                        lemma_less_transitive(example, max, omax);
                        lemma_less_asymmetric(example, omax);
                    } else {
                        lemma_less_asymmetric(example, omax);
                    }
                }
            }
        },
        StatsModel::Object { items } => {
            if let StatsModel::Object { items: oitems } = b {
                lemma_merge_items_wf(items, oitems);
            }
        },
        StatsModel::Array { items, .. } => {
            if let StatsModel::Array { items: oitems, .. } = b {
                lemma_merge_coll_wf(*items, *oitems);
            }
        },
        _ => {},
    }
}

proof fn lemma_merge_slot_wf(x: Option<StatsModel>, y: Option<StatsModel>, k: TypeKey)
    requires
        wf_slot(x, k),
        wf_slot(y, k),
    ensures
        wf_slot(merge_slot_model(x, y), k),
    decreases size_opt(y), 1nat,
{
    match x {
        Some(p) => match y {
            Some(q) => lemma_merge_wf(p, q),
            None => lemma_zero_min_wf(p),
        },
        None => match y {
            Some(q) => lemma_zero_min_wf(q),
            None => {},
        },
    }
}

/// Merging collections keeps the invariant.
pub proof fn lemma_merge_coll_wf(a: CollModel, b: CollModel)
    requires
        wf_coll(a),
        wf_coll(b),
    ensures
        wf_coll(merge_coll_model(a, b)),
    decreases size_coll(b), 0nat,
{
    lemma_merge_slot_wf(a.string, b.string, TypeKey::String);
    lemma_merge_slot_wf(a.number, b.number, TypeKey::Number);
    lemma_merge_slot_wf(a.boolean, b.boolean, TypeKey::Bool);
    lemma_merge_slot_wf(a.null, b.null, TypeKey::Null);
    lemma_merge_slot_wf(a.object, b.object, TypeKey::Object);
    lemma_merge_slot_wf(a.array, b.array, TypeKey::Array);
    lemma_merge_slot_wf(a.undefined, b.undefined, TypeKey::Undefined);
}

/// Merging the fields of two objects keeps the invariant.
pub proof fn lemma_merge_items_wf(a: Seq<(Seq<char>, CollModel)>, b: Seq<(Seq<char>, CollModel)>)
    requires
        wf_items(a),
        wf_items(b),
    ensures
        wf_items(merge_items_model(a, b)),
    decreases size_items(b), a.len(),
{
    if a.len() == 0 && b.len() == 0 {
    } else if b.len() == 0 || (a.len() > 0 && seq_less(a[0].0, b[0].0)) {
        let x = (a[0].0, mark_missing(a[0].1));
        lemma_mark_missing_wf(a[0].1);
        lemma_merge_items_wf(a.drop_first(), b);
        lemma_wf_items_cons(x, merge_items_model(a.drop_first(), b));
    } else if a.len() == 0 || seq_less(b[0].0, a[0].0) {
        let x = (b[0].0, merge_coll_model(undefined_coll(), b[0].1));
        lemma_undefined_coll_wf();
        lemma_merge_coll_wf(undefined_coll(), b[0].1);
        lemma_merge_items_wf(a, b.drop_first());
        lemma_wf_items_cons(x, merge_items_model(a, b.drop_first()));
    } else {
        let x = (a[0].0, merge_coll_model(a[0].1, b[0].1));
        lemma_merge_coll_wf(a[0].1, b[0].1);
        lemma_merge_items_wf(a.drop_first(), b.drop_first());
        lemma_wf_items_cons(x, merge_items_model(a.drop_first(), b.drop_first()));
    }
}

/// Merging the fields of two objects, each sorted by name, gives fields sorted by name.
pub proof fn lemma_merge_items_sorted(a: Seq<(Seq<char>, CollModel)>, b: Seq<(Seq<char>, CollModel)>)
    requires
        sorted_keys(a),
        sorted_keys(b),
    ensures
        sorted_keys(merge_items_model(a, b)),
    decreases size_items(b), a.len(),
{
    if a.len() == 0 && b.len() == 0 {
    } else if b.len() == 0 || (a.len() > 0 && seq_less(a[0].0, b[0].0)) {
        let x = (a[0].0, mark_missing(a[0].1));
        lemma_sorted_tail(a);
        lemma_merge_items_sorted(a.drop_first(), b);
        if b.len() > 0 {
            lemma_sorted_tail(b);
            lemma_keys_after_weaken(b.drop_first(), b[0].0, a[0].0);
            assert(keys_after(b, a[0].0)) by {
                assert forall|i: int| 0 <= i < b.len() implies seq_less(a[0].0, #[trigger] b[i].0) by {
                    if i > 0 {
                        assert(b[i] == b.drop_first()[i - 1]);
                    }
                }
            }
        }
        lemma_merge_items_after(a.drop_first(), b, a[0].0);
        lemma_sorted_cons(x, merge_items_model(a.drop_first(), b));
    } else if a.len() == 0 || seq_less(b[0].0, a[0].0) {
        let x = (b[0].0, merge_coll_model(undefined_coll(), b[0].1));
        lemma_sorted_tail(b);
        lemma_merge_items_sorted(a, b.drop_first());
        if a.len() > 0 {
            lemma_sorted_tail(a);
            lemma_keys_after_weaken(a.drop_first(), a[0].0, b[0].0);
            assert(keys_after(a, b[0].0)) by {
                assert forall|i: int| 0 <= i < a.len() implies seq_less(b[0].0, #[trigger] a[i].0) by {
                    if i > 0 {
                        assert(a[i] == a.drop_first()[i - 1]);
                    }
                }
            }
        }
        lemma_merge_items_after(a, b.drop_first(), b[0].0);
        lemma_sorted_cons(x, merge_items_model(a, b.drop_first()));
    } else {
        let x = (a[0].0, merge_coll_model(a[0].1, b[0].1));
        lemma_less_total(a[0].0, b[0].0);
        lemma_sorted_tail(a);
        lemma_sorted_tail(b);
        lemma_merge_items_sorted(a.drop_first(), b.drop_first());
        lemma_merge_items_after(a.drop_first(), b.drop_first(), a[0].0);
        lemma_sorted_cons(x, merge_items_model(a.drop_first(), b.drop_first()));
    }
}

/// Merging a value into a collection keeps the invariant.
pub proof fn lemma_merge_value_wf(c: CollModel, s: StatsModel)
    requires
        wf_coll(c),
        wf_stats(s),
    ensures
        wf_coll(merge_value_model(c, s)),
{
    match key_of(s) {
        TypeKey::String => if let Some(p) = c.string { lemma_merge_wf(p, s) },
        TypeKey::Number => if let Some(p) = c.number { lemma_merge_wf(p, s) },
        TypeKey::Bool => if let Some(p) = c.boolean { lemma_merge_wf(p, s) },
        TypeKey::Null => if let Some(p) = c.null { lemma_merge_wf(p, s) },
        TypeKey::Object => if let Some(p) = c.object { lemma_merge_wf(p, s) },
        TypeKey::Array => if let Some(p) = c.array { lemma_merge_wf(p, s) },
        TypeKey::Undefined => if let Some(p) = c.undefined { lemma_merge_wf(p, s) },
    }
}

/// The statistics of single values satisfy the invariant.
pub proof fn lemma_single_values_wf(text: Seq<char>, flag: bool, key: u64, is_float: bool)
    ensures
        wf_stats(StatsModel::Str { example: text, min: text, max: text }),
        wf_stats(StatsModel::Bool { example: flag, has_true: flag, has_false: !flag }),
        wf_stats(StatsModel::Num { example: key, min: key, max: key, is_float }),
        wf_stats(StatsModel::Null { example_count: 1, min_count: 1, max_count: 1 }),
        wf_stats(undefined_once()),
        wf_coll(empty_coll()),
{
    lemma_less_irreflexive(text);
}

/// The statistics of an array or object built from wellformed parts satisfy the invariant.
pub proof fn lemma_composite_values_wf(items: CollModel, len: nat, fields: Seq<(Seq<char>, CollModel)>)
    requires
        wf_coll(items),
        wf_items(fields),
    ensures
        wf_stats(StatsModel::Array { example_len: len, min_len: len, max_len: len, items: Box::new(items) }),
        wf_stats(StatsModel::Object { items: fields }),
{
}

/// The collection of one field in a list of fields, if there is such a field.
pub open spec fn field(items: Seq<(Seq<char>, CollModel)>, k: Seq<char>) -> Option<CollModel>
    decreases items.len(),
{
    if items.len() == 0 {
        None
    } else if items[0].0 == k {
        Some(items[0].1)
    } else {
        field(items.drop_first(), k)
    }
}

proof fn lemma_field_absent(items: Seq<(Seq<char>, CollModel)>, k: Seq<char>)
    requires
        keys_after(items, k),
    ensures
        field(items, k) is None,
    decreases items.len(),
{
    if items.len() > 0 {
        lemma_less_irreflexive(k);
        assert(keys_after(items.drop_first(), k)) by {
            assert forall|i: int| 0 <= i < items.drop_first().len() implies seq_less(
                k,
                #[trigger] items.drop_first()[i].0,
            ) by {
                assert(items.drop_first()[i] == items[i + 1]);
            }
        }
        lemma_field_absent(items.drop_first(), k);
    }
}

proof fn lemma_field_cons(x: (Seq<char>, CollModel), rest: Seq<(Seq<char>, CollModel)>, k: Seq<char>)
    ensures
        field(seq![x] + rest, k) == if x.0 == k {
            Some(x.1)
        } else {
            field(rest, k)
        },
{
    assert((seq![x] + rest).drop_first() =~= rest);
}

/// What a merge of objects holds for field `k`: the merge of both sides'
/// statistics where both objects have it; where one lacks it, the other's
/// statistics with one missing value counted in.
pub open spec fn merged_field(x: Option<CollModel>, y: Option<CollModel>) -> Option<CollModel> {
    match x {
        Some(cx) => match y {
            Some(cy) => Some(merge_coll_model(cx, cy)),
            None => Some(mark_missing(cx)),
        },
        None => match y {
            Some(cy) => Some(merge_coll_model(undefined_coll(), cy)),
            None => None,
        },
    }
}

/// Field by field, the merge of two objects is the merge of their fields.
pub proof fn lemma_merge_field(
    a: Seq<(Seq<char>, CollModel)>,
    b: Seq<(Seq<char>, CollModel)>,
    k: Seq<char>,
)
    requires
        sorted_keys(a),
        sorted_keys(b),
    ensures
        field(merge_items_model(a, b), k) == merged_field(field(a, k), field(b, k)),
    decreases size_items(b), a.len(),
{
    if a.len() == 0 && b.len() == 0 {
    } else if b.len() == 0 || (a.len() > 0 && seq_less(a[0].0, b[0].0)) {
        let x = (a[0].0, mark_missing(a[0].1));
        lemma_sorted_tail(a);
        lemma_merge_field(a.drop_first(), b, k);
        lemma_field_cons(x, merge_items_model(a.drop_first(), b), k);
        if k == a[0].0 && b.len() > 0 {
            lemma_sorted_tail(b);
            lemma_keys_after_weaken(b.drop_first(), b[0].0, a[0].0);
            assert(keys_after(b, a[0].0)) by {
                assert forall|i: int| 0 <= i < b.len() implies seq_less(a[0].0, #[trigger] b[i].0) by {
                    if i > 0 {
                        assert(b[i] == b.drop_first()[i - 1]);
                    }
                }
            }
            lemma_field_absent(b, k);
        }
    } else if a.len() == 0 || seq_less(b[0].0, a[0].0) {
        let x = (b[0].0, merge_coll_model(undefined_coll(), b[0].1));
        lemma_sorted_tail(b);
        lemma_merge_field(a, b.drop_first(), k);
        lemma_field_cons(x, merge_items_model(a, b.drop_first()), k);
        if k == b[0].0 && a.len() > 0 {
            lemma_sorted_tail(a);
            lemma_keys_after_weaken(a.drop_first(), a[0].0, b[0].0);
            assert(keys_after(a, b[0].0)) by {
                assert forall|i: int| 0 <= i < a.len() implies seq_less(b[0].0, #[trigger] a[i].0) by {
                    if i > 0 {
                        assert(a[i] == a.drop_first()[i - 1]);
                    }
                }
            }
            lemma_field_absent(a, k);
        }
    } else {
        let x = (a[0].0, merge_coll_model(a[0].1, b[0].1));
        lemma_less_total(a[0].0, b[0].0);
        lemma_sorted_tail(a);
        lemma_sorted_tail(b);
        lemma_merge_field(a.drop_first(), b.drop_first(), k);
        lemma_field_cons(x, merge_items_model(a.drop_first(), b.drop_first()), k);
    }
}

/// A field shows as optional (has missing values) after a merge of two
/// objects exactly where one object lacks it or already had it optional.
pub proof fn lemma_merge_field_optional(
    a: Seq<(Seq<char>, CollModel)>,
    b: Seq<(Seq<char>, CollModel)>,
    k: Seq<char>,
)
    requires
        sorted_keys(a),
        sorted_keys(b),
        field(a, k) is Some || field(b, k) is Some,
    ensures
        field(merge_items_model(a, b), k) is Some,
        field(merge_items_model(a, b), k)->0.undefined is Some <==> (field(a, k) is None
            || field(b, k) is None || field(a, k)->0.undefined is Some || field(b, k)->0.undefined is Some),
{
    lemma_merge_field(a, b, k);
}

/// Setting a field: the field reads back as what was set, every other
/// field as before.
pub proof fn lemma_insert_field(
    items: Seq<(Seq<char>, CollModel)>,
    k: Seq<char>,
    c: CollModel,
    k2: Seq<char>,
)
    ensures
        field(insert_sorted(items, k, c), k2) == if k2 == k {
            Some(c)
        } else {
            field(items, k2)
        },
    decreases items.len(),
{
    if items.len() == 0 {
        lemma_field_cons((k, c), items, k2);
    } else if items[0].0 == k {
        lemma_field_cons((k, c), items.drop_first(), k2);
    } else if seq_less(k, items[0].0) {
        lemma_field_cons((k, c), items, k2);
    } else {
        lemma_insert_field(items.drop_first(), k, c, k2);
        lemma_field_cons(items[0], insert_sorted(items.drop_first(), k, c), k2);
    }
}

/// Setting a field keeps the fields sorted and keeps the invariant.
pub proof fn lemma_insert_sorted_wf(items: Seq<(Seq<char>, CollModel)>, k: Seq<char>, c: CollModel)
    requires
        sorted_keys(items),
    ensures
        sorted_keys(insert_sorted(items, k, c)),
        wf_items(items) && wf_coll(c) ==> wf_items(insert_sorted(items, k, c)),
        forall|k0: Seq<char>| seq_less(k0, k) && keys_after(items, k0) ==> keys_after(
            #[trigger] insert_sorted(items, k, c),
            k0,
        ),
    decreases items.len(),
{
    let r = insert_sorted(items, k, c);
    if items.len() == 0 {
        lemma_sorted_cons((k, c), items);
        lemma_wf_items_cons((k, c), items);
        assert forall|k0: Seq<char>| seq_less(k0, k) && keys_after(items, k0) implies keys_after(
            #[trigger] insert_sorted(items, k, c),
            k0,
        ) by {
        }
    } else if items[0].0 == k {
        lemma_sorted_tail(items);
        lemma_sorted_cons((k, c), items.drop_first());
        lemma_wf_items_cons((k, c), items.drop_first());
        assert forall|k0: Seq<char>| seq_less(k0, k) && keys_after(items, k0) implies keys_after(
            #[trigger] insert_sorted(items, k, c),
            k0,
        ) by {
            assert forall|i: int| 0 <= i < r.len() implies seq_less(k0, #[trigger] r[i].0) by {
                if i > 0 {
                    assert(r[i] == items[i]);
                }
            }
        }
    } else if seq_less(k, items[0].0) {
        lemma_sorted_tail(items);
        assert(keys_after(items, k)) by {
            assert forall|i: int| 0 <= i < items.len() implies seq_less(k, #[trigger] items[i].0) by {
                if i > 0 {
                    lemma_less_transitive(k, items[0].0, items[i].0);
                }
            }
        }
        lemma_sorted_cons((k, c), items);
        lemma_wf_items_cons((k, c), items);
        assert forall|k0: Seq<char>| seq_less(k0, k) && keys_after(items, k0) implies keys_after(
            #[trigger] insert_sorted(items, k, c),
            k0,
        ) by {
            assert forall|i: int| 0 <= i < r.len() implies seq_less(k0, #[trigger] r[i].0) by {
                if i > 0 {
                    assert(r[i] == items[i - 1]);
                }
            }
        }
    } else {
        let x = items[0];
        lemma_less_total(k, x.0);
        lemma_sorted_tail(items);
        lemma_insert_sorted_wf(items.drop_first(), k, c);
        assert(keys_after(insert_sorted(items.drop_first(), k, c), x.0));
        lemma_sorted_cons(x, insert_sorted(items.drop_first(), k, c));
        lemma_wf_items_cons(x, insert_sorted(items.drop_first(), k, c));
        assert(wf_items(items) ==> wf_coll(x.1) && wf_items(items.drop_first()));
        assert forall|k0: Seq<char>| seq_less(k0, k) && keys_after(items, k0) implies keys_after(
            #[trigger] insert_sorted(items, k, c),
            k0,
        ) by {
            let t = insert_sorted(items.drop_first(), k, c);
            assert(seq_less(k0, x.0));
            assert forall|i: int| 0 <= i < r.len() implies seq_less(k0, #[trigger] r[i].0) by {
                if i > 0 {
                    assert(r[i] == t[i - 1]);
                    lemma_less_transitive(k0, x.0, t[i - 1].0);
                }
            }
        }
    }
}

/// Merging keeps the type, and the example: the example stays the first seen.
pub proof fn lemma_merge_keeps_example(a: StatsModel, b: StatsModel)
    ensures
        key_of(merge_model(a, b)) == key_of(a),
        a matches StatsModel::Str { example, .. } ==> merge_model(a, b) matches StatsModel::Str {
            example: e,
            ..
        } && e == example,
        a matches StatsModel::Num { example, .. } ==> merge_model(a, b) matches StatsModel::Num {
            example: e,
            ..
        } && e == example,
        a matches StatsModel::Bool { example, .. } ==> merge_model(a, b) matches StatsModel::Bool {
            example: e,
            ..
        } && e == example,
        a matches StatsModel::Array { example_len, .. } ==> merge_model(a, b) matches StatsModel::Array {
            example_len: e,
            ..
        } && e == example_len,
{
}

/// Merging numbers of one type: the range of the merge spans both ranges,
/// and the number is a float where either side had one.
pub proof fn lemma_merge_number_range(a: StatsModel, b: StatsModel)
    requires
        a is Num,
        b is Num,
    ensures
        merge_model(a, b) matches StatsModel::Num { min, max, is_float, .. } && min == (if a->Num_min
            <= b->Num_min {
            a->Num_min
        } else {
            b->Num_min
        }) && max == (if a->Num_max >= b->Num_max {
            a->Num_max
        } else {
            b->Num_max
        }) && is_float == (a->Num_is_float || b->Num_is_float),
{
}

/// Merging strings: the least and greatest strings of the merge are the
/// least and greatest of both sides.
pub proof fn lemma_merge_string_range(a: StatsModel, b: StatsModel)
    requires
        a is Str,
        b is Str,
    ensures
        merge_model(a, b) matches StatsModel::Str { min, max, .. } && (min == a->Str_min || min
            == b->Str_min) && !seq_less(a->Str_min, min) && !seq_less(b->Str_min, min) && (max
            == a->Str_max || max == b->Str_max) && !seq_less(max, a->Str_max) && !seq_less(
            max,
            b->Str_max,
        ),
{
    lemma_less_irreflexive(a->Str_min);
    lemma_less_irreflexive(b->Str_min);
    lemma_less_irreflexive(a->Str_max);
    lemma_less_irreflexive(b->Str_max);
    lemma_less_asymmetric(a->Str_min, b->Str_min);
    lemma_less_asymmetric(b->Str_min, a->Str_min);
    lemma_less_asymmetric(a->Str_max, b->Str_max);
    lemma_less_asymmetric(b->Str_max, a->Str_max);
}

/// The counts of a `Null` or `Undefined` model: occurrences, least and greatest.
pub open spec fn occurrences(s: StatsModel) -> (nat, nat, nat) {
    match s {
        StatsModel::Null { example_count, min_count, max_count } => (
            example_count,
            min_count,
            max_count,
        ),
        StatsModel::Undefined { example_count, min_count, max_count } => (
            example_count,
            min_count,
            max_count,
        ),
        _ => (0, 0, 0),
    }
}

/// Merging counts of null or missing values: occurrences add up, and the
/// least and greatest counts span both sides.
pub proof fn lemma_merge_counts(a: StatsModel, b: StatsModel)
    requires
        a is Null || a is Undefined,
        b is Null || b is Undefined,
    ensures
        ({
            let (ea, mina, maxa) = occurrences(a);
            let (eb, minb, maxb) = occurrences(b);
            occurrences(merge_model(a, b)) == (
                ea + eb,
                crate::merge::nat_min(mina, minb),
                crate::merge::nat_max(maxa, maxb),
            )
        }),
{
}

/// The statistics a collection holds for values of type `k`, if any.
pub open spec fn slot(c: CollModel, k: TypeKey) -> Option<StatsModel> {
    match k {
        TypeKey::String => c.string,
        TypeKey::Number => c.number,
        TypeKey::Bool => c.boolean,
        TypeKey::Null => c.null,
        TypeKey::Object => c.object,
        TypeKey::Array => c.array,
        TypeKey::Undefined => c.undefined,
    }
}

/// Merging arrays: the example length stays the first seen, the lengths
/// span both sides, and the statistics of the items merge as collections.
pub proof fn lemma_merge_arrays(a: StatsModel, b: StatsModel)
    requires
        a is Array,
        b is Array,
    ensures
        merge_model(a, b) == (StatsModel::Array {
            example_len: a->Array_example_len,
            min_len: nat_min(a->Array_min_len, b->Array_min_len),
            max_len: nat_max(a->Array_max_len, b->Array_max_len),
            items: Box::new(merge_coll_model(*a->Array_items, *b->Array_items)),
        }),
{
}

/// Merging collections works type by type: a type seen on both sides has
/// the merge of both; a type seen on one side only keeps that side's
/// statistics, except that a minimum count of null or missing values drops
/// to zero; a type seen on neither side stays absent.
pub proof fn lemma_merge_coll_by_type(a: CollModel, b: CollModel, k: TypeKey)
    ensures
        slot(merge_coll_model(a, b), k) is Some <==> (slot(a, k) is Some || slot(b, k) is Some),
        slot(a, k) is Some && slot(b, k) is Some ==> slot(merge_coll_model(a, b), k) == Some(
            merge_model(slot(a, k)->0, slot(b, k)->0),
        ),
        slot(a, k) is Some && slot(b, k) is None ==> slot(merge_coll_model(a, b), k) == Some(
            zero_min(slot(a, k)->0),
        ),
        slot(a, k) is None && slot(b, k) is Some ==> slot(merge_coll_model(a, b), k) == Some(
            zero_min(slot(b, k)->0),
        ),
{
}

/// What a type seen on one side only keeps: everything but the minimum
/// count of null or missing values, which drops to zero.
pub proof fn lemma_zero_min(s: StatsModel)
    ensures
        key_of(zero_min(s)) == key_of(s),
        !(s is Null || s is Undefined) ==> zero_min(s) == s,
        (s is Null || s is Undefined) ==> occurrences(zero_min(s)) == (
            occurrences(s).0,
            0nat,
            occurrences(s).2,
        ),
{
}

/// Merging one value into a collection touches only the slot of its type:
/// that slot merges the value in, or takes it when it was empty; every
/// other slot stays as it was.
pub proof fn lemma_merge_value_by_type(c: CollModel, s: StatsModel, j: TypeKey)
    ensures
        slot(merge_value_model(c, s), key_of(s)) == Some(
            match slot(c, key_of(s)) {
                Some(p) => merge_model(p, s),
                None => s,
            },
        ),
        j != key_of(s) ==> slot(merge_value_model(c, s), j) == slot(c, j),
{
}

/// A field that one object of a merge lacks (its statistics kept by type):
/// it gains one missing value,
/// and its statistics for every type other than null and missing values
/// stay those of the object that has it.
pub proof fn lemma_missing_field(c: CollModel, j: TypeKey)
    requires
        wf_coll(c),
    ensures
        slot(mark_missing(c), TypeKey::Undefined) is Some,
        slot(merge_coll_model(undefined_coll(), c), TypeKey::Undefined) is Some,
        j != TypeKey::Undefined ==> slot(mark_missing(c), j) == slot(c, j),
        j != TypeKey::Undefined && j != TypeKey::Null ==> slot(
            merge_coll_model(undefined_coll(), c),
            j,
        ) == slot(c, j),
        j != TypeKey::Undefined ==> (slot(merge_coll_model(undefined_coll(), c), j) is Some
            <==> slot(c, j) is Some),
{
}

/// A field that the later object lacks gets one more missing value: every
/// missing occurrence is counted, and the least and greatest numbers of
/// missing values per occurrence take in the one of this object.
pub proof fn lemma_missing_later_counted(
    a: Seq<(Seq<char>, CollModel)>,
    b: Seq<(Seq<char>, CollModel)>,
    k: Seq<char>,
)
    requires
        sorted_keys(a),
        sorted_keys(b),
        field(a, k) is Some,
        field(b, k) is None,
    ensures
        field(merge_items_model(a, b), k) is Some,
        field(a, k)->0.undefined matches Some(StatsModel::Undefined { example_count: e, min_count: m, max_count: mx })
            ==> field(merge_items_model(a, b), k)->0.undefined == Some(
            StatsModel::Undefined {
                example_count: e + 1,
                min_count: if m == 0 { 0nat } else { 1nat },
                max_count: if mx == 0 { 1nat } else { mx },
            },
        ),
        field(a, k)->0.undefined is None ==> field(merge_items_model(a, b), k)->0.undefined == Some(
            StatsModel::Undefined { example_count: 1, min_count: 1, max_count: 1 },
        ),
{
    lemma_merge_field(a, b, k);
}

/// A field that the earlier object lacks starts from one missing value,
/// into which the later object's statistics of the field are merged.
pub proof fn lemma_missing_earlier_counted(
    a: Seq<(Seq<char>, CollModel)>,
    b: Seq<(Seq<char>, CollModel)>,
    k: Seq<char>,
)
    requires
        sorted_keys(a),
        sorted_keys(b),
        field(a, k) is None,
        field(b, k) is Some,
    ensures
        field(merge_items_model(a, b), k) is Some,
        field(b, k)->0.undefined matches Some(StatsModel::Undefined { example_count: e, min_count: m, max_count: mx })
            ==> field(merge_items_model(a, b), k)->0.undefined == Some(
            StatsModel::Undefined {
                example_count: e + 1,
                min_count: if m == 0 { 0nat } else { 1nat },
                max_count: if mx == 0 { 1nat } else { mx },
            },
        ),
        field(b, k)->0.undefined is None ==> field(merge_items_model(a, b), k)->0.undefined == Some(
            StatsModel::Undefined { example_count: 1, min_count: 0, max_count: 1 },
        ),
{
    lemma_merge_field(a, b, k);
}

/// Merging booleans: a value seen on either side stays seen, and the
/// example stays the first seen.
pub proof fn lemma_merge_bools(a: StatsModel, b: StatsModel)
    requires
        a is Bool,
        b is Bool,
    ensures
        merge_model(a, b) is Bool,
        merge_model(a, b)->Bool_example == a->Bool_example,
        merge_model(a, b)->Bool_has_true == (a->Bool_has_true || b->Bool_has_true),
        merge_model(a, b)->Bool_has_false == (a->Bool_has_false || b->Bool_has_false),
{
}

/// What is shown of booleans: the example is the text of the example
/// value, and the range `(false - true)` is shown exactly when both values
/// were seen.
pub proof fn lemma_bool_shown(s: StatsModel, max_len: nat)
    requires
        s is Bool,
        wf_stats(s),
    ensures
        shown_value(s, max_len).0 == ShownModel::Text(
            if s->Bool_example {
                "true"@
            } else {
                "false"@
            },
        ),
        (s->Bool_has_true && s->Bool_has_false) ==> shown_value(s, max_len).1 == ShownModel::Text(
            "(false - true)"@,
        ),
        !(s->Bool_has_true && s->Bool_has_false) ==> shown_value(s, max_len).1 == ShownModel::Nothing,
{
}

proof fn lemma_opt_name_is_mapped(o: Option<StatsModel>)
    ensures
        opt_name(o) == opt_seq(o).map_values(|x: StatsModel| name_of(x)),
{
    assert(opt_name(o) =~= opt_seq(o).map_values(|x: StatsModel| name_of(x)));
}

proof fn lemma_map_add(a: Seq<StatsModel>, b: Seq<StatsModel>)
    ensures
        (a + b).map_values(|x: StatsModel| name_of(x)) == a.map_values(|x: StatsModel| name_of(x))
            + b.map_values(|x: StatsModel| name_of(x)),
{
    assert((a + b).map_values(|x: StatsModel| name_of(x)) =~= a.map_values(
        |x: StatsModel| name_of(x),
    ) + b.map_values(|x: StatsModel| name_of(x)));
}

/// The summary of a collection's types names each type it has seen, once:
/// its names are those of its entries, in some order.
pub proof fn lemma_summary_names_entries(c: CollModel)
    ensures
        summary_names(c).to_multiset() == entries(c).map_values(|x: StatsModel| name_of(x)).to_multiset(),
        summary_names(c).len() == entries(c).len(),
{
    broadcast use vstd::seq_lib::lemma_multiset_commutative;
    broadcast use vstd::multiset::group_multiset_axioms;

    let s1 = opt_seq(c.string);
    let s2 = opt_seq(c.number);
    let s3 = opt_seq(c.boolean);
    let s4 = opt_seq(c.null);
    let s5 = opt_seq(c.object);
    let s6 = opt_seq(c.array);
    let s7 = opt_seq(c.undefined);
    lemma_opt_name_is_mapped(c.string);
    lemma_opt_name_is_mapped(c.number);
    lemma_opt_name_is_mapped(c.boolean);
    lemma_opt_name_is_mapped(c.null);
    lemma_opt_name_is_mapped(c.object);
    lemma_opt_name_is_mapped(c.array);
    lemma_opt_name_is_mapped(c.undefined);
    lemma_map_add(s1, s2);
    lemma_map_add(s1 + s2, s3);
    lemma_map_add(s1 + s2 + s3, s4);
    lemma_map_add(s1 + s2 + s3 + s4, s5);
    lemma_map_add(s1 + s2 + s3 + s4 + s5, s6);
    lemma_map_add(s1 + s2 + s3 + s4 + s5 + s6, s7);
    let n1 = opt_name(c.string);
    let n2 = opt_name(c.number);
    let n3 = opt_name(c.boolean);
    let n4 = opt_name(c.null);
    let n5 = opt_name(c.object);
    let n6 = opt_name(c.array);
    let n7 = opt_name(c.undefined);
    assert(entries(c).map_values(|x: StatsModel| name_of(x)) == n1 + n2 + n3 + n4 + n5 + n6 + n7);
    assert(summary_names(c) == n1 + n2 + n3 + n5 + n6 + n4 + n7);
    assert(summary_names(c).to_multiset() =~= entries(c).map_values(|x: StatsModel| name_of(x)).to_multiset());
}

/// Every node has a line of its own.
pub proof fn lemma_node_has_line(
    s: StatsModel,
    ancestors: Seq<bool>,
    is_last: bool,
    label: Seq<char>,
    max_len: nat,
)
    ensures
        render_node(s, ancestors, is_last, label, max_len).len() >= 1,
{
}

/// A list of options has at least one line per option.
pub proof fn lemma_options_lines(es: Seq<StatsModel>, ancestors: Seq<bool>, label: Seq<char>, max_len: nat)
    ensures
        render_options(es, ancestors, label, max_len).len() >= es.len(),
    decreases es.len(),
{
    if es.len() > 0 {
        lemma_node_has_line(es[0], ancestors, es.len() == 1, label, max_len);
        lemma_options_lines(es.drop_first(), ancestors, label, max_len);
    }
}

/// The values of an array show at least one line for every type seen
/// among them.
pub proof fn lemma_array_values_lines(c: CollModel, ancestors: Seq<bool>, max_len: nat)
    ensures
        render_coll(c, ancestors, true, max_len).len() >= entries(c).len(),
{
    let es = entries(c);
    if es.len() > 1 {
        lemma_options_lines(es, ancestors.push(true), "[option]"@, max_len);
    } else if es.len() == 1 {
        lemma_node_has_line(es[0], ancestors, true, "[values]"@, max_len);
    }
}

/// An array node: its own line showing its lengths, then, one level
/// deeper, the lines of its elements' statistics, at least one for every
/// type seen among the elements.
pub proof fn lemma_array_node_lines(
    s: StatsModel,
    ancestors: Seq<bool>,
    is_last: bool,
    label: Seq<char>,
    max_len: nat,
)
    requires
        s is Array,
    ensures
        render_node(s, ancestors, is_last, label, max_len).len() >= 1 + entries(
            *s->Array_items,
        ).len(),
        render_node(s, ancestors, is_last, label, max_len)[0] == array_entry_model(
            ancestors,
            is_last,
            label,
            s->Array_example_len,
            s->Array_min_len,
            s->Array_max_len,
        ),
        render_node(s, ancestors, is_last, label, max_len).drop_first() == render_coll(
            *s->Array_items,
            ancestors.push(is_last),
            true,
            max_len,
        ),
{
    lemma_array_values_lines(*s->Array_items, ancestors.push(is_last), max_len);
    let r = render_node(s, ancestors, is_last, label, max_len);
    assert(r.drop_first() =~= render_coll(*s->Array_items, ancestors.push(is_last), true, max_len));
}

/// In the summary of a collection's types, missing values come last and
/// null just before them; the other types come first.
pub proof fn lemma_summary_null_undefined_last(c: CollModel)
    requires
        wf_coll(c),
    ensures
        c.undefined is Some ==> summary_names(c).last() == "undefined"@,
        c.null is Some && c.undefined is None ==> summary_names(c).last() == "null"@,
        c.null is Some && c.undefined is Some ==> summary_names(c)[summary_names(c).len() - 2]
            == "null"@,
        forall|i: int|
            0 <= i < summary_names(c).len() - (if c.null is Some { 1int } else { 0int }) - (if c.undefined is Some {
                1int
            } else {
                0int
            }) ==> #[trigger] summary_names(c)[i] != "null"@ && summary_names(c)[i] != "undefined"@,
{
    reveal_strlit("null");
    reveal_strlit("undefined");
    reveal_strlit("str");
    reveal_strlit("int");
    reveal_strlit("float");
    reveal_strlit("bool");
    reveal_strlit("obj");
    reveal_strlit("arr");
    let front = opt_name(c.string) + opt_name(c.number) + opt_name(c.boolean) + opt_name(c.object)
        + opt_name(c.array);
    let back = opt_name(c.null) + opt_name(c.undefined);
    assert(summary_names(c) =~= front + back);
    assert forall|i: int| 0 <= i < front.len() implies front[i] != "null"@ && front[i] != "undefined"@ by {
        assert(front[i].len() <= 5);
        assert("undefined"@.len() == 9);
        if front[i] == "null"@ {
            assert(front[i][0] == 'n');
        }
    }
}

} // verus!
