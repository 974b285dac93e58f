//! Merging the statistics of two values seen at the same place.

use vstd::prelude::*;
use std::collections::VecDeque;
use crate::stats::{
    CollModel, CollectionStats, Fields, StatsModel, TypeKey, TypeStats, coll_view, empty_coll, fits_coll,
    fits_items, fits_opt, fits_stats, items_view, opt_view, size_coll, size_items, size_opt,
    size_stats,
};
use crate::text::{seq_less, str_less};
use crate::laws::{field, lemma_merge_field, merged_field, lemma_merge_items_sorted, lemma_merge_coll_wf, lemma_merge_value_wf, lemma_merge_wf, wf_coll, wf_stats};

verus! {

pub open spec fn nat_min(a: nat, b: nat) -> nat {
    if a <= b { a } else { b }
}

pub open spec fn nat_max(a: nat, b: nat) -> nat {
    if a >= b { a } else { b }
}

/// The statistics of one value that was missing where others had it.
pub open spec fn undefined_once() -> StatsModel {
    StatsModel::Undefined { example_count: 1, min_count: 1, max_count: 1 }
}

/// The type key of a model.
pub open spec fn key_of(s: StatsModel) -> TypeKey {
    match s {
        StatsModel::Str { .. } => TypeKey::String,
        StatsModel::Num { .. } => TypeKey::Number,
        StatsModel::Bool { .. } => TypeKey::Bool,
        StatsModel::Null { .. } => TypeKey::Null,
        StatsModel::Undefined { .. } => TypeKey::Undefined,
        StatsModel::Object { .. } => TypeKey::Object,
        StatsModel::Array { .. } => TypeKey::Array,
    }
}

/// The counts of a `Null` or `Undefined` model.
pub open spec fn counts_of(s: StatsModel) -> Option<(nat, nat, nat)> {
    match s {
        StatsModel::Null { example_count, min_count, max_count } => Some(
            (example_count, min_count, max_count),
        ),
        StatsModel::Undefined { example_count, min_count, max_count } => Some(
            (example_count, min_count, max_count),
        ),
        _ => None,
    }
}

/// `a` with the counts of `b` added in: the example counts add up, the
/// minimum and maximum counts take the smaller and the larger.
pub open spec fn merge_counts(a: StatsModel, b: (nat, nat, nat)) -> StatsModel {
    match a {
        StatsModel::Null { example_count, min_count, max_count } => StatsModel::Null {
            example_count: example_count + b.0,
            min_count: nat_min(min_count, b.1),
            max_count: nat_max(max_count, b.2),
        },
        StatsModel::Undefined { example_count, min_count, max_count } => StatsModel::Undefined {
            example_count: example_count + b.0,
            min_count: nat_min(min_count, b.1),
            max_count: nat_max(max_count, b.2),
        },
        _ => a,
    }
}

/// Merge of the statistics `b` into `a`. Both must be of the same type
/// (`Null` and `Undefined` count as one); otherwise `a` is left as it is.
/// The example stays that of `a`, the first seen.
pub open spec fn merge_model(a: StatsModel, b: StatsModel) -> StatsModel
    decreases size_stats(b), 0nat,
{
    match a {
        StatsModel::Str { example, min, max } => match b {
            StatsModel::Str { min: omin, max: omax, .. } => StatsModel::Str {
                example,
                min: if seq_less(omin, min) { omin } else { min },
                max: if seq_less(max, omax) { omax } else { max },
            },
            _ => a,
        },
        StatsModel::Num { example, min, max, is_float } => match b {
            StatsModel::Num { min: omin, max: omax, is_float: ofloat, .. } => StatsModel::Num {
                example,
                min: if omin < min { omin } else { min },
                max: if max < omax { omax } else { max },
                is_float: is_float || ofloat,
            },
            _ => a,
        },
        StatsModel::Bool { example, has_true, has_false } => match b {
            StatsModel::Bool { has_true: ot, has_false: of, .. } => StatsModel::Bool {
                example,
                has_true: has_true || ot,
                has_false: has_false || of,
            },
            _ => a,
        },
        StatsModel::Null { .. } => match counts_of(b) {
            Some(c) => merge_counts(a, c),
            None => a,
        },
        StatsModel::Undefined { .. } => match counts_of(b) {
            Some(c) => merge_counts(a, c),
            None => a,
        },
        StatsModel::Object { items } => match b {
            StatsModel::Object { items: oitems } => StatsModel::Object {
                items: merge_items_model(items, oitems),
            },
            _ => a,
        },
        StatsModel::Array { example_len, min_len, max_len, items } => match b {
            StatsModel::Array { min_len: omin, max_len: omax, items: oitems, .. } => {
                StatsModel::Array {
                    example_len,
                    min_len: nat_min(min_len, omin),
                    max_len: nat_max(max_len, omax),
                    items: Box::new(merge_coll_model(*items, *oitems)),
                }
            },
            _ => a,
        },
    }
}

/// A type seen on one side only: its minimum count, where it has one, drops to zero.
pub open spec fn zero_min(s: StatsModel) -> StatsModel {
    match s {
        StatsModel::Null { example_count, max_count, .. } => StatsModel::Null {
            example_count,
            min_count: 0,
            max_count,
        },
        StatsModel::Undefined { example_count, max_count, .. } => StatsModel::Undefined {
            example_count,
            min_count: 0,
            max_count,
        },
        _ => s,
    }
}

pub open spec fn merge_slot_model(x: Option<StatsModel>, y: Option<StatsModel>) -> Option<
    StatsModel,
>
    decreases size_opt(y), 1nat,
{
    match x {
        Some(p) => match y {
            Some(q) => Some(merge_model(p, q)),
            None => Some(zero_min(p)),
        },
        None => match y {
            Some(q) => Some(zero_min(q)),
            None => None,
        },
    }
}

/// Merge of two collections, type by type.
pub open spec fn merge_coll_model(a: CollModel, b: CollModel) -> CollModel
    decreases size_coll(b), 0nat,
{
    CollModel {
        string: merge_slot_model(a.string, b.string),
        number: merge_slot_model(a.number, b.number),
        boolean: merge_slot_model(a.boolean, b.boolean),
        null: merge_slot_model(a.null, b.null),
        object: merge_slot_model(a.object, b.object),
        array: merge_slot_model(a.array, b.array),
        undefined: merge_slot_model(a.undefined, b.undefined),
    }
}

/// One more `Undefined` occurrence counted into `s`.
pub open spec fn bump_missing(s: StatsModel) -> StatsModel {
    merge_counts(s, (1, 1, 1))
}

/// A field of an object that another object lacks: one more `Undefined`.
pub open spec fn mark_missing(c: CollModel) -> CollModel {
    CollModel {
        undefined: Some(
            match c.undefined {
                Some(u) => bump_missing(u),
                None => undefined_once(),
            },
        ),
        ..c
    }
}

/// A collection that has seen one missing value and nothing else.
pub open spec fn undefined_coll() -> CollModel {
    CollModel { undefined: Some(undefined_once()), ..empty_coll() }
}

/// Merge of the fields of two objects, each in increasing order of name.
/// A field of both merges; a field of `b` alone counts one missing value
/// before its own; a field of `a` alone counts one missing value after.
pub open spec fn merge_items_model(
    a: Seq<(Seq<char>, CollModel)>,
    b: Seq<(Seq<char>, CollModel)>,
) -> Seq<(Seq<char>, CollModel)>
    decreases size_items(b), a.len(),
{
    if a.len() == 0 && b.len() == 0 {
        Seq::empty()
    } else if b.len() == 0 || (a.len() > 0 && seq_less(a[0].0, b[0].0)) {
        seq![(a[0].0, mark_missing(a[0].1))] + merge_items_model(a.drop_first(), b)
    } else if a.len() == 0 || seq_less(b[0].0, a[0].0) {
        seq![(b[0].0, merge_coll_model(undefined_coll(), b[0].1))] + merge_items_model(
            a,
            b.drop_first(),
        )
    } else {
        seq![(a[0].0, merge_coll_model(a[0].1, b[0].1))] + merge_items_model(
            a.drop_first(),
            b.drop_first(),
        )
    }
}

proof fn lemma_items_view_drop_first(s: Seq<(String, CollectionStats)>)
    requires
        s.len() > 0,
    ensures
        items_view(s.subrange(1, s.len() as int)) == items_view(s).drop_first(),
{
    assert(items_view(s.subrange(1, s.len() as int)) =~= items_view(s).drop_first());
}

proof fn lemma_items_view_push(s: Seq<(String, CollectionStats)>, e: (String, CollectionStats))
    ensures
        items_view(s.push(e)) == items_view(s).push((e.0@, coll_view(e.1))),
{
    assert(items_view(s.push(e)) =~= items_view(s).push((e.0@, coll_view(e.1))));
}

pub proof fn lemma_fits_items_cons(x: (Seq<char>, CollModel), rest: Seq<(Seq<char>, CollModel)>)
    ensures
        fits_items(seq![x] + rest) == (fits_coll(x.1) && fits_items(rest)),
{
    assert((seq![x] + rest).drop_first() =~= rest);
}

fn to_deque<T>(v: Vec<T>) -> (d: VecDeque<T>)
    ensures
        d@ == v@,
{
    let ghost orig = v@;
    let mut v = v;
    let mut d: VecDeque<T> = VecDeque::new();
    while v.len() > 0
        invariant
            v@ + d@ == orig,
        decreases v.len(),
    {
        let ghost before = v@;
        let x = v.pop().unwrap();
        d.push_front(x);
        assert(v@ + d@ =~= before + (d@.drop_first()));
    }
    assert(d@ =~= orig);
    d
}

impl TypeStats {
    /// The type of the values these statistics describe.
    pub fn type_key(&self) -> (k: TypeKey)
        ensures
            k == key_of(self@),
    {
        match self {
            TypeStats::String { .. } => TypeKey::String,
            TypeStats::Number { .. } => TypeKey::Number,
            TypeStats::Bool { .. } => TypeKey::Bool,
            TypeStats::Null { .. } => TypeKey::Null,
            TypeStats::Undefined { .. } => TypeKey::Undefined,
            TypeStats::Object { .. } => TypeKey::Object,
            TypeStats::Array { .. } => TypeKey::Array,
        }
    }
}

fn usize_min(a: usize, b: usize) -> (r: usize)
    ensures
        r as nat == nat_min(a as nat, b as nat),
{
    if a <= b {
        a
    } else {
        b
    }
}

pub(crate) fn usize_max(a: usize, b: usize) -> (r: usize)
    ensures
        r as nat == nat_max(a as nat, b as nat),
{
    if a >= b {
        a
    } else {
        b
    }
}

fn merge_stats(a: TypeStats, b: TypeStats) -> (r: TypeStats)
    requires
        fits_stats(merge_model(a@, b@)),
    ensures
        r@ == merge_model(a@, b@),
    decreases size_stats(b@), 0nat,
{
    match a {
        TypeStats::String { example, min_val, max_val } => match b {
            TypeStats::String { min_val: omin, max_val: omax, .. } => {
                let new_min = if str_less(omin.as_str(), min_val.as_str()) {
                    omin
                } else {
                    min_val
                };
                let new_max = if str_less(max_val.as_str(), omax.as_str()) {
                    omax
                } else {
                    max_val
                };
                TypeStats::String { example, min_val: new_min, max_val: new_max }
            },
            _ => TypeStats::String { example, min_val, max_val },
        },
        TypeStats::Number { example, min, max, is_float } => match b {
            TypeStats::Number { min: omin, max: omax, is_float: ofloat, .. } => {
                TypeStats::Number {
                    example,
                    min: if omin < min { omin } else { min },
                    max: if max < omax { omax } else { max },
                    is_float: is_float || ofloat,
                }
            },
            _ => TypeStats::Number { example, min, max, is_float },
        },
        TypeStats::Bool { example, has_true, has_false } => match b {
            TypeStats::Bool { has_true: ot, has_false: of, .. } => TypeStats::Bool {
                example,
                has_true: has_true || ot,
                has_false: has_false || of,
            },
            _ => TypeStats::Bool { example, has_true, has_false },
        },
        TypeStats::Null { example_count, min_count, max_count } => match b {
            TypeStats::Null { example_count: oc, min_count: omin, max_count: omax } => {
                TypeStats::Null {
                    example_count: example_count + oc,
                    min_count: usize_min(min_count, omin),
                    max_count: usize_max(max_count, omax),
                }
            },
            TypeStats::Undefined { example_count: oc, min_count: omin, max_count: omax } => {
                TypeStats::Null {
                    example_count: example_count + oc,
                    min_count: usize_min(min_count, omin),
                    max_count: usize_max(max_count, omax),
                }
            },
            _ => TypeStats::Null { example_count, min_count, max_count },
        },
        TypeStats::Undefined { example_count, min_count, max_count } => match b {
            TypeStats::Null { example_count: oc, min_count: omin, max_count: omax } => {
                TypeStats::Undefined {
                    example_count: example_count + oc,
                    min_count: usize_min(min_count, omin),
                    max_count: usize_max(max_count, omax),
                }
            },
            TypeStats::Undefined { example_count: oc, min_count: omin, max_count: omax } => {
                TypeStats::Undefined {
                    example_count: example_count + oc,
                    min_count: usize_min(min_count, omin),
                    max_count: usize_max(max_count, omax),
                }
            },
            _ => TypeStats::Undefined { example_count, min_count, max_count },
        },
        TypeStats::Object { items } => match b {
            TypeStats::Object { items: oitems } => {
                proof {
                    use_type_invariant(&items);
                    use_type_invariant(&oitems);
                    lemma_merge_items_sorted(items@, oitems@);
                }
                let merged = merge_items(items.entries, oitems.entries);
                TypeStats::Object { items: Fields { entries: merged } }
            },
            _ => TypeStats::Object { items },
        },
        TypeStats::Array { example_len, min_len, max_len, items } => match b {
            TypeStats::Array { min_len: omin, max_len: omax, items: oitems, .. } => {
                TypeStats::Array {
                    example_len,
                    min_len: usize_min(min_len, omin),
                    max_len: usize_max(max_len, omax),
                    items: Box::new(merge_coll(*items, *oitems)),
                }
            },
            _ => TypeStats::Array { example_len, min_len, max_len, items },
        },
    }
}

fn zero_min_exec(s: TypeStats) -> (r: TypeStats)
    ensures
        r@ == zero_min(s@),
{
    match s {
        TypeStats::Null { example_count, max_count, .. } => TypeStats::Null {
            example_count,
            min_count: 0,
            max_count,
        },
        TypeStats::Undefined { example_count, max_count, .. } => TypeStats::Undefined {
            example_count,
            min_count: 0,
            max_count,
        },
        other => other,
    }
}

fn merge_slot(x: Option<TypeStats>, y: Option<TypeStats>) -> (r: Option<TypeStats>)
    requires
        fits_opt(merge_slot_model(opt_view(x), opt_view(y))),
    ensures
        opt_view(r) == merge_slot_model(opt_view(x), opt_view(y)),
    decreases size_opt(opt_view(y)), 1nat,
{
    match x {
        Some(p) => match y {
            Some(q) => Some(merge_stats(p, q)),
            None => Some(zero_min_exec(p)),
        },
        None => match y {
            Some(q) => Some(zero_min_exec(q)),
            None => None,
        },
    }
}

fn merge_coll(a: CollectionStats, b: CollectionStats) -> (r: CollectionStats)
    requires
        fits_coll(merge_coll_model(a@, b@)),
    ensures
        r@ == merge_coll_model(a@, b@),
    decreases size_coll(b@), 0nat,
{
    let CollectionStats { string: a1, number: a2, boolean: a3, null: a4, object: a5, array: a6, undefined: a7 } = a;
    let CollectionStats { string: b1, number: b2, boolean: b3, null: b4, object: b5, array: b6, undefined: b7 } = b;
    CollectionStats {
        string: merge_slot(a1, b1),
        number: merge_slot(a2, b2),
        boolean: merge_slot(a3, b3),
        null: merge_slot(a4, b4),
        object: merge_slot(a5, b5),
        array: merge_slot(a6, b6),
        undefined: merge_slot(a7, b7),
    }
}

fn bump_missing_exec(s: TypeStats) -> (r: TypeStats)
    requires
        fits_stats(bump_missing(s@)),
    ensures
        r@ == bump_missing(s@),
{
    match s {
        TypeStats::Null { example_count, min_count, max_count } => TypeStats::Null {
            example_count: example_count + 1,
            min_count: usize_min(min_count, 1),
            max_count: usize_max(max_count, 1),
        },
        TypeStats::Undefined { example_count, min_count, max_count } => TypeStats::Undefined {
            example_count: example_count + 1,
            min_count: usize_min(min_count, 1),
            max_count: usize_max(max_count, 1),
        },
        other => other,
    }
}

fn mark_missing_exec(c: CollectionStats) -> (r: CollectionStats)
    requires
        fits_coll(mark_missing(c@)),
    ensures
        r@ == mark_missing(c@),
{
    let CollectionStats { string, number, boolean, null, object, array, undefined } = c;
    let u = match undefined {
        Some(u) => bump_missing_exec(u),
        None => TypeStats::Undefined { example_count: 1, min_count: 1, max_count: 1 },
    };
    CollectionStats { string, number, boolean, null, object, array, undefined: Some(u) }
}

impl CollectionStats {
    /// A collection that has seen nothing.
    pub fn new() -> (r: CollectionStats)
        ensures
            r@ == empty_coll(),
    {
        CollectionStats {
            string: None,
            number: None,
            boolean: None,
            null: None,
            object: None,
            array: None,
            undefined: None,
        }
    }
}

impl Default for CollectionStats {
    /// A collection that has seen nothing.
    fn default() -> (r: CollectionStats)
        ensures
            r@ == empty_coll(),
    {
        CollectionStats::new()
    }
}

fn undefined_coll_exec() -> (r: CollectionStats)
    ensures
        r@ == undefined_coll(),
{
    let mut c = CollectionStats::new();
    c.undefined = Some(TypeStats::Undefined { example_count: 1, min_count: 1, max_count: 1 });
    c
}

fn merge_items(a: Vec<(String, CollectionStats)>, b: Vec<(String, CollectionStats)>) -> (r: Vec<
    (String, CollectionStats),
>)
    requires
        fits_items(merge_items_model(items_view(a@), items_view(b@))),
    ensures
        items_view(r@) == merge_items_model(items_view(a@), items_view(b@)),
    decreases size_items(items_view(b@)), 0nat,
{
    let ghost total = merge_items_model(items_view(a@), items_view(b@));
    let ghost bsize = size_items(items_view(b@));
    let mut da = to_deque(a);
    let mut db = to_deque(b);
    let mut out: Vec<(String, CollectionStats)> = Vec::new();
    assert(items_view(out@) =~= Seq::<(Seq<char>, CollModel)>::empty());
    while da.len() > 0 || db.len() > 0
        invariant
            items_view(out@) + merge_items_model(items_view(da@), items_view(db@)) == total,
            fits_items(merge_items_model(items_view(da@), items_view(db@))),
            size_items(items_view(db@)) <= bsize,
            bsize == size_items(items_view(b@)),
        decreases da.len() + db.len(),
    {
        let ghost va = items_view(da@);
        let ghost vb = items_view(db@);
        let ghost vout = items_view(out@);
        let choice: u8 = if db.len() == 0 {
            0
        } else if da.len() == 0 {
            1
        } else if str_less(da[0].0.as_str(), db[0].0.as_str()) {
            0
        } else if str_less(db[0].0.as_str(), da[0].0.as_str()) {
            1
        } else {
            2
        };
        if choice == 0 {
            let ghost da0 = da@;
            let (k, c) = da.pop_front().unwrap();
            proof {
                lemma_items_view_drop_first(da0);
                lemma_fits_items_cons((va[0].0, mark_missing(va[0].1)), merge_items_model(va.drop_first(), vb));
            }
            let e = (k, mark_missing_exec(c));
            proof {
                lemma_items_view_push(out@, e);
            }
            out.push(e);
            assert(items_view(out@) + merge_items_model(items_view(da@), items_view(db@)) =~= total);
        } else if choice == 1 {
            let ghost db0 = db@;
            let (k, c) = db.pop_front().unwrap();
            proof {
                lemma_items_view_drop_first(db0);
                lemma_fits_items_cons(
                    (vb[0].0, merge_coll_model(undefined_coll(), vb[0].1)),
                    merge_items_model(va, vb.drop_first()),
                );
            }
            assert(size_coll(c@) < bsize) by {
                assert(vb[0].1 == coll_view(c));
            }
            let e = (k, merge_coll(undefined_coll_exec(), c));
            proof {
                lemma_items_view_push(out@, e);
            }
            out.push(e);
            assert(items_view(out@) + merge_items_model(items_view(da@), items_view(db@)) =~= total);
        } else {
            let ghost da0 = da@;
            let ghost db0 = db@;
            let (k, ca) = da.pop_front().unwrap();
            let (_kb, cb) = db.pop_front().unwrap();
            proof {
                lemma_items_view_drop_first(da0);
                lemma_items_view_drop_first(db0);
                lemma_fits_items_cons(
                    (va[0].0, merge_coll_model(va[0].1, vb[0].1)),
                    merge_items_model(va.drop_first(), vb.drop_first()),
                );
            }
            assert(size_coll(cb@) < bsize) by {
                assert(vb[0].1 == coll_view(cb));
            }
            let e = (k, merge_coll(ca, cb));
            proof {
                lemma_items_view_push(out@, e);
            }
            out.push(e);
            assert(items_view(out@) + merge_items_model(items_view(da@), items_view(db@)) =~= total);
        }
    }
    assert(items_view(out@) =~= total);
    out
}

/// The collection `c` with `s` merged into the slot of its type, or put
/// there when the slot is empty.
pub open spec fn put_model(o: Option<StatsModel>, s: StatsModel) -> Option<StatsModel> {
    match o {
        Some(p) => Some(merge_model(p, s)),
        None => Some(s),
    }
}

pub open spec fn merge_value_model(c: CollModel, s: StatsModel) -> CollModel {
    match key_of(s) {
        TypeKey::String => CollModel { string: put_model(c.string, s), ..c },
        TypeKey::Number => CollModel { number: put_model(c.number, s), ..c },
        TypeKey::Bool => CollModel { boolean: put_model(c.boolean, s), ..c },
        TypeKey::Null => CollModel { null: put_model(c.null, s), ..c },
        TypeKey::Object => CollModel { object: put_model(c.object, s), ..c },
        TypeKey::Array => CollModel { array: put_model(c.array, s), ..c },
        TypeKey::Undefined => CollModel { undefined: put_model(c.undefined, s), ..c },
    }
}

fn put_exec(o: Option<TypeStats>, s: TypeStats) -> (r: TypeStats)
    requires
        fits_opt(put_model(opt_view(o), s@)),
    ensures
        Some(r@) == put_model(opt_view(o), s@),
{
    match o {
        Some(p) => merge_stats(p, s),
        None => s,
    }
}

impl TypeStats {
    /// Merges the statistics `other`, seen later at the same place, into `self`.
    pub fn merge(&mut self, other: TypeStats)
        requires
            fits_stats(merge_model(old(self)@, other@)),
        ensures
            final(self)@ == merge_model(old(self)@, other@),
            wf_stats(old(self)@) && wf_stats(other@) && key_of(old(self)@) == key_of(other@)
                ==> wf_stats(final(self)@),
            old(self)@ is Object && other@ is Object ==> final(self)@ is Object && forall|
                k: Seq<char>,
            |
                #[trigger] field(final(self)@->Object_items, k) == merged_field(
                    field(old(self)@->Object_items, k),
                    field(other@->Object_items, k),
                ),
    {
        proof {
            if wf_stats(self@) && wf_stats(other@) && key_of(self@) == key_of(other@) {
                lemma_merge_wf(self@, other@);
            }
        }
        if let TypeStats::Object { items } = &*self {
            if let TypeStats::Object { items: oitems } = &other {
                proof {
                    use_type_invariant(items);
                    use_type_invariant(oitems);
                    assert forall|k: Seq<char>|
                        #[trigger] field(merge_items_model(items@, oitems@), k) == merged_field(
                            field(items@, k),
                            field(oitems@, k),
                        ) by {
                        lemma_merge_field(items@, oitems@, k);
                    }
                }
            }
        }
        let mut a = TypeStats::Bool { example: false, has_true: false, has_false: false };
        std::mem::swap(&mut a, self);
        *self = merge_stats(a, other);
    }
}

impl CollectionStats {
    /// Merges one more value's statistics into the slot of its type.
    pub fn merge_value(&mut self, stats: TypeStats)
        requires
            fits_coll(merge_value_model(old(self)@, stats@)),
        ensures
            final(self)@ == merge_value_model(old(self)@, stats@),
            wf_coll(old(self)@) && wf_stats(stats@) ==> wf_coll(final(self)@),
    {
        proof {
            if wf_coll(self@) && wf_stats(stats@) {
                lemma_merge_value_wf(self@, stats@);
            }
        }
        match stats.type_key() {
            TypeKey::String => {
                let o = self.string.take();
                self.string = Some(put_exec(o, stats));
            },
            TypeKey::Number => {
                let o = self.number.take();
                self.number = Some(put_exec(o, stats));
            },
            TypeKey::Bool => {
                let o = self.boolean.take();
                self.boolean = Some(put_exec(o, stats));
            },
            TypeKey::Null => {
                let o = self.null.take();
                self.null = Some(put_exec(o, stats));
            },
            TypeKey::Object => {
                let o = self.object.take();
                self.object = Some(put_exec(o, stats));
            },
            TypeKey::Array => {
                let o = self.array.take();
                self.array = Some(put_exec(o, stats));
            },
            TypeKey::Undefined => {
                let o = self.undefined.take();
                self.undefined = Some(put_exec(o, stats));
            },
        }
    }

    /// Merges the collection `other`, seen later at the same place, into `self`.
    pub fn merge(&mut self, other: CollectionStats)
        requires
            fits_coll(merge_coll_model(old(self)@, other@)),
        ensures
            final(self)@ == merge_coll_model(old(self)@, other@),
            wf_coll(old(self)@) && wf_coll(other@) ==> wf_coll(final(self)@),
    {
        proof {
            if wf_coll(self@) && wf_coll(other@) {
                lemma_merge_coll_wf(self@, other@);
            }
        }
        let mut a = CollectionStats::new();
        std::mem::swap(&mut a, self);
        *self = merge_coll(a, other);
    }
}

} // verus!
