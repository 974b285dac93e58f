//! The statistics kept for JSON values, and their mathematical model.

use vstd::prelude::*;
use crate::laws::sorted_keys;

verus! {

/// The JSON type of a value, in the order in which types are listed.
#[derive(Clone, Copy, PartialEq, Eq, Structural, PartialOrd, Ord, Hash, Debug)]
pub enum TypeKey {
    String,
    Number,
    Bool,
    Null,
    Object,
    Array,
    Undefined,
}

/// Statistics for the values of one JSON type seen at one place of a document.
///
/// Numbers are held by their order key (see `number`): an integer whose order
/// is the order of the numbers it stands for.
#[allow(inconsistent_fields)]
#[derive(Debug)]
pub enum TypeStats {
    String { example: String, min_val: String, max_val: String },
    Number { example: u64, min: u64, max: u64, is_float: bool },
    Bool { example: bool, has_true: bool, has_false: bool },
    Null { example_count: usize, min_count: usize, max_count: usize },
    Undefined { example_count: usize, min_count: usize, max_count: usize },
    /// Fields by name.
    Object { items: Fields },
    Array { example_len: usize, min_len: usize, max_len: usize, items: Box<CollectionStats> },
}

/// The fields of an object and the statistics of each, kept in strictly
/// increasing order of name.
#[derive(Debug)]
pub struct Fields {
    pub(crate) entries: Vec<(String, CollectionStats)>,
}

impl Fields {
    /// Field names are in strictly increasing order.
    #[verifier::type_invariant]
    pub(crate) open spec fn keys_sorted(self) -> bool {
        sorted_keys(items_view(self.entries@))
    }
}

impl View for Fields {
    type V = Seq<(Seq<char>, CollModel)>;

    open(crate) spec fn view(&self) -> Seq<(Seq<char>, CollModel)> {
        items_view(self.entries@)
    }
}

/// The statistics of every type seen at one place, one slot per type.
#[derive(Debug)]
pub struct CollectionStats {
    pub string: Option<TypeStats>,
    pub number: Option<TypeStats>,
    pub boolean: Option<TypeStats>,
    pub null: Option<TypeStats>,
    pub object: Option<TypeStats>,
    pub array: Option<TypeStats>,
    pub undefined: Option<TypeStats>,
}

/// Model of `TypeStats`: strings as character sequences, counts as naturals.
#[allow(inconsistent_fields)]
pub enum StatsModel {
    Str { example: Seq<char>, min: Seq<char>, max: Seq<char> },
    Num { example: u64, min: u64, max: u64, is_float: bool },
    Bool { example: bool, has_true: bool, has_false: bool },
    Null { example_count: nat, min_count: nat, max_count: nat },
    Undefined { example_count: nat, min_count: nat, max_count: nat },
    Object { items: Seq<(Seq<char>, CollModel)> },
    Array { example_len: nat, min_len: nat, max_len: nat, items: Box<CollModel> },
}

/// Model of `CollectionStats`.
pub struct CollModel {
    pub string: Option<StatsModel>,
    pub number: Option<StatsModel>,
    pub boolean: Option<StatsModel>,
    pub null: Option<StatsModel>,
    pub object: Option<StatsModel>,
    pub array: Option<StatsModel>,
    pub undefined: Option<StatsModel>,
}

pub open spec fn empty_coll() -> CollModel {
    CollModel {
        string: None,
        number: None,
        boolean: None,
        null: None,
        object: None,
        array: None,
        undefined: None,
    }
}

pub open(crate) spec fn stats_view(s: TypeStats) -> StatsModel
    decreases s,
{
    match s {
        TypeStats::String { example, min_val, max_val } => StatsModel::Str {
            example: example@,
            min: min_val@,
            max: max_val@,
        },
        TypeStats::Number { example, min, max, is_float } => StatsModel::Num {
            example,
            min,
            max,
            is_float,
        },
        TypeStats::Bool { example, has_true, has_false } => StatsModel::Bool {
            example,
            has_true,
            has_false,
        },
        TypeStats::Null { example_count, min_count, max_count } => StatsModel::Null {
            example_count: example_count as nat,
            min_count: min_count as nat,
            max_count: max_count as nat,
        },
        TypeStats::Undefined { example_count, min_count, max_count } => StatsModel::Undefined {
            example_count: example_count as nat,
            min_count: min_count as nat,
            max_count: max_count as nat,
        },
        TypeStats::Object { items } => StatsModel::Object { items: items_view(items.entries@) },
        TypeStats::Array { example_len, min_len, max_len, items } => StatsModel::Array {
            example_len: example_len as nat,
            min_len: min_len as nat,
            max_len: max_len as nat,
            items: Box::new(coll_view(*items)),
        },
    }
}

pub open spec fn items_view(items: Seq<(String, CollectionStats)>) -> Seq<(Seq<char>, CollModel)>
    decreases items,
{
    Seq::new(
        items.len(),
        |i: int|
            if 0 <= i < items.len() {
                (items[i].0@, coll_view(items[i].1))
            } else {
                (Seq::empty(), empty_coll())
            },
    )
}

pub open spec fn opt_view(o: Option<TypeStats>) -> Option<StatsModel>
    decreases o,
{
    match o {
        Some(s) => Some(stats_view(s)),
        None => None,
    }
}

pub open spec fn coll_view(c: CollectionStats) -> CollModel
    decreases c,
{
    CollModel {
        string: opt_view(c.string),
        number: opt_view(c.number),
        boolean: opt_view(c.boolean),
        null: opt_view(c.null),
        object: opt_view(c.object),
        array: opt_view(c.array),
        undefined: opt_view(c.undefined),
    }
}

impl View for TypeStats {
    type V = StatsModel;

    open spec fn view(&self) -> StatsModel {
        stats_view(*self)
    }
}

impl View for CollectionStats {
    type V = CollModel;

    open spec fn view(&self) -> CollModel {
        coll_view(*self)
    }
}

/// A measure of the size of a model, used for termination.
pub open spec fn size_stats(s: StatsModel) -> nat
    decreases s,
{
    match s {
        StatsModel::Object { items } => 1 + size_items(items),
        StatsModel::Array { items, .. } => 1 + size_coll(*items),
        _ => 1,
    }
}

pub open spec fn size_opt(o: Option<StatsModel>) -> nat
    decreases o,
{
    match o {
        Some(s) => size_stats(s),
        None => 0,
    }
}

pub open spec fn size_coll(c: CollModel) -> nat
    decreases c,
{
    8 + size_opt(c.string) + size_opt(c.number) + size_opt(c.boolean) + size_opt(c.null)
        + size_opt(c.object) + size_opt(c.array) + size_opt(c.undefined)
}

pub open spec fn size_items(items: Seq<(Seq<char>, CollModel)>) -> nat
    decreases items,
{
    if items.len() == 0 {
        0
    } else {
        1 + size_coll(items[0].1) + size_items(items.drop_first())
    }
}

/// The collection of every field is smaller than the list of fields.
pub proof fn lemma_size_items_elem(items: Seq<(Seq<char>, CollModel)>, i: int)
    requires
        0 <= i < items.len(),
    ensures
        size_coll(items[i].1) < size_items(items),
    decreases items.len(),
{
    if i > 0 {
        lemma_size_items_elem(items.drop_first(), i - 1);
    }
}

/// Every count and length of the model fits in a `usize`.
pub open spec fn fits_stats(s: StatsModel) -> bool
    decreases s,
{
    match s {
        StatsModel::Null { example_count, min_count, max_count } => example_count <= usize::MAX
            && min_count <= usize::MAX && max_count <= usize::MAX,
        StatsModel::Undefined { example_count, min_count, max_count } => example_count
            <= usize::MAX && min_count <= usize::MAX && max_count <= usize::MAX,
        StatsModel::Object { items } => fits_items(items),
        StatsModel::Array { example_len, min_len, max_len, items } => example_len <= usize::MAX
            && min_len <= usize::MAX && max_len <= usize::MAX && fits_coll(*items),
        _ => true,
    }
}

pub open spec fn fits_opt(o: Option<StatsModel>) -> bool
    decreases o,
{
    match o {
        Some(s) => fits_stats(s),
        None => true,
    }
}

pub open spec fn fits_coll(c: CollModel) -> bool
    decreases c,
{
    fits_opt(c.string) && fits_opt(c.number) && fits_opt(c.boolean) && fits_opt(c.null)
        && fits_opt(c.object) && fits_opt(c.array) && fits_opt(c.undefined)
}

pub open spec fn fits_items(items: Seq<(Seq<char>, CollModel)>) -> bool
    decreases items,
{
    items.len() == 0 || (fits_coll(items[0].1) && fits_items(items.drop_first()))
}

} // verus!
