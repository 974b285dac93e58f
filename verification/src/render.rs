//! Rendering statistics as a tree of lines, each made of styled pieces.
//!
//! Numbers are rendered as pieces that carry their order key: turning a key
//! back into digits is left to the caller, which holds the number itself.

use vstd::prelude::*;
use vstd::string::*;
use crate::stats::{
    CollModel, CollectionStats, StatsModel, TypeStats, items_view, lemma_size_items_elem, size_coll,
    size_items, size_stats,
};
use crate::text::{decimal, decimal_string, prefix, tree_prefix, truncate, truncated};

verus! {

/// How a piece of text is shown.
#[derive(Clone, Copy, PartialEq, Eq, Structural, Debug)]
pub enum Style {
    Plain,
    Magenta,
    Blue,
    Yellow,
    Green,
    White,
    Dimmed,
}

/// Model of a `Piece`.
pub enum PieceModel {
    Text(Seq<char>, Style),
    Number(u64, bool),
    NumberRange(u64, u64, bool),
}

/// Model of a `Shown`.
pub enum ShownModel {
    Nothing,
    Text(Seq<char>),
    Number(u64, bool),
    Range(u64, u64, bool),
}

pub open spec fn text(s: Seq<char>, style: Style) -> PieceModel {
    PieceModel::Text(s, style)
}

/// The name shown for the type of a model.
pub open spec fn name_of(s: StatsModel) -> Seq<char> {
    match s {
        StatsModel::Str { .. } => "str"@,
        StatsModel::Num { is_float, .. } => if is_float {
            "float"@
        } else {
            "int"@
        },
        StatsModel::Bool { .. } => "bool"@,
        StatsModel::Null { .. } => "null"@,
        StatsModel::Undefined { .. } => "undefined"@,
        StatsModel::Object { .. } => "obj"@,
        StatsModel::Array { .. } => "arr"@,
    }
}

pub open spec fn quoted(s: Seq<char>, max_len: nat) -> Seq<char> {
    "\""@ + truncated(s, max_len) + "\""@
}

pub open spec fn count_range(min: nat, max: nat) -> Seq<char> {
    "("@ + decimal(min) + " - "@ + decimal(max) + ")"@
}

/// The example and the range shown for a model of a leaf type.
pub open spec fn shown_value(s: StatsModel, max_len: nat) -> (ShownModel, ShownModel) {
    match s {
        StatsModel::Str { example, min, max } => {
            let ex = ShownModel::Text(quoted(example, max_len));
            if min == max {
                (ex, ShownModel::Nothing)
            } else {
                (
                    ex,
                    ShownModel::Text(
                        "(\""@ + truncated(min, max_len) + "\" - \""@ + truncated(max, max_len)
                            + "\")"@,
                    ),
                )
            }
        },
        StatsModel::Num { example, min, max, is_float } => (
            ShownModel::Number(example, is_float),
            ShownModel::Range(min, max, is_float),
        ),
        StatsModel::Bool { example, has_true, has_false } => if has_true && has_false {
            (
                ShownModel::Text(
                    if example {
                        "true"@
                    } else {
                        "false"@
                    },
                ),
                ShownModel::Text("(false - true)"@),
            )
        } else if has_true {
            (ShownModel::Text("true"@), ShownModel::Nothing)
        } else {
            (ShownModel::Text("false"@), ShownModel::Nothing)
        },
        StatsModel::Null { example_count, min_count, max_count } => shown_counts(
            example_count,
            min_count,
            max_count,
        ),
        StatsModel::Undefined { example_count, min_count, max_count } => shown_counts(
            example_count,
            min_count,
            max_count,
        ),
        _ => (ShownModel::Nothing, ShownModel::Nothing),
    }
}

pub open spec fn shown_counts(example_count: nat, min_count: nat, max_count: nat) -> (
    ShownModel,
    ShownModel,
) {
    if min_count == 1 && max_count == 1 {
        (ShownModel::Nothing, ShownModel::Nothing)
    } else {
        let ex = ShownModel::Text(decimal(example_count));
        if min_count == max_count {
            (ex, ShownModel::Nothing)
        } else {
            (ex, ShownModel::Text(count_range(min_count, max_count)))
        }
    }
}

/// A label, in magenta for the pseudo-labels of values and options, else in blue.
pub open spec fn label_piece(label: Seq<char>) -> PieceModel {
    if label == "[values]"@ || label == "[option]"@ {
        text(label, Style::Magenta)
    } else {
        text(label, Style::Blue)
    }
}

/// An example, shown in green.
pub open spec fn example_piece(ex: ShownModel) -> PieceModel {
    match ex {
        ShownModel::Text(t) => text(t, Style::Green),
        ShownModel::Number(k, f) => PieceModel::Number(k, f),
        ShownModel::Range(a, b, f) => PieceModel::NumberRange(a, b, f),
        ShownModel::Nothing => text(Seq::empty(), Style::Green),
    }
}

/// Nothing to show: no value, or an empty text.
pub open spec fn blank(s: ShownModel) -> bool {
    match s {
        ShownModel::Nothing => true,
        ShownModel::Text(t) => t.len() == 0,
        _ => false,
    }
}

/// A range, dimmed and set off by two spaces; nothing where it is blank.
pub open spec fn range_pieces(rng: ShownModel) -> Seq<PieceModel> {
    if blank(rng) {
        Seq::empty()
    } else {
        range_pieces_of(rng)
    }
}

pub open spec fn range_pieces_of(rng: ShownModel) -> Seq<PieceModel> {
    match rng {
        ShownModel::Nothing => Seq::empty(),
        ShownModel::Text(t) => seq![text("  "@, Style::Plain), text(t, Style::Dimmed)],
        ShownModel::Range(a, b, f) => seq![PieceModel::NumberRange(a, b, f)],
        ShownModel::Number(k, f) => seq![text("  "@, Style::Plain), PieceModel::Number(k, f)],
    }
}

/// The example and range after an entry, if the example is not blank; a
/// range after a blank example is not shown.
pub open spec fn value_pieces(ex: ShownModel, rng: ShownModel) -> Seq<PieceModel> {
    if blank(ex) {
        Seq::empty()
    } else {
        seq![text(" = "@, Style::Plain), example_piece(ex)] + range_pieces(rng)
    }
}

/// The line of one entry of the tree.
pub open spec fn entry_model(
    ancestors: Seq<bool>,
    is_last: bool,
    label: Seq<char>,
    type_str: Seq<char>,
    ex: ShownModel,
    rng: ShownModel,
) -> Seq<PieceModel> {
    seq![
        text(prefix(ancestors, is_last), Style::Plain),
        label_piece(label),
        text(": "@, Style::Plain),
        text(type_str, Style::Yellow),
    ] + value_pieces(ex, rng)
}

/// The pieces that show an array's length and its range.
pub open spec fn array_len_model(example_len: nat, min_len: nat, max_len: nat) -> Seq<PieceModel> {
    seq![
        text("arr"@, Style::Yellow),
        text(" "@, Style::Plain),
        text("len"@, Style::White),
        text(" = "@, Style::Plain),
        text(decimal(example_len), Style::Green),
    ] + if min_len != max_len {
        seq![text("  "@, Style::Plain), text(count_range(min_len, max_len), Style::Dimmed)]
    } else {
        Seq::empty()
    }
}

/// The line of an array entry.
pub open spec fn array_entry_model(
    ancestors: Seq<bool>,
    is_last: bool,
    label: Seq<char>,
    example_len: nat,
    min_len: nat,
    max_len: nat,
) -> Seq<PieceModel> {
    seq![
        text(prefix(ancestors, is_last), Style::Plain),
        label_piece(label),
        text(": "@, Style::Plain),
    ] + array_len_model(example_len, min_len, max_len)
}

/// The line of a `null` or missing entry that shows a count.
pub open spec fn count_entry_model(
    ancestors: Seq<bool>,
    is_last: bool,
    label: Seq<char>,
    type_str: Seq<char>,
    ex: ShownModel,
    rng: ShownModel,
) -> Seq<PieceModel> {
    seq![
        text(prefix(ancestors, is_last), Style::Plain),
        label_piece(label),
        text(": "@, Style::Plain),
        text(type_str, Style::Yellow),
        text(" "@, Style::Plain),
        text("cnt"@, Style::White),
        text(" = "@, Style::Plain),
        example_piece(ex),
    ] + range_pieces(rng)
}

pub open spec fn opt_seq(o: Option<StatsModel>) -> Seq<StatsModel> {
    match o {
        Some(s) => seq![s],
        None => Seq::empty(),
    }
}

/// The types a collection has seen, in the order of `TypeKey`.
pub open spec fn entries(c: CollModel) -> Seq<StatsModel> {
    opt_seq(c.string) + opt_seq(c.number) + opt_seq(c.boolean) + opt_seq(c.null) + opt_seq(
        c.object,
    ) + opt_seq(c.array) + opt_seq(c.undefined)
}

pub open spec fn opt_name(o: Option<StatsModel>) -> Seq<Seq<char>> {
    match o {
        Some(s) => seq![name_of(s)],
        None => Seq::empty(),
    }
}

/// The names of the types a collection has seen, in the order of `TypeKey`
/// but with `null` and then `undefined` last.
pub open spec fn summary_names(c: CollModel) -> Seq<Seq<char>> {
    opt_name(c.string) + opt_name(c.number) + opt_name(c.boolean) + opt_name(c.object) + opt_name(
        c.array,
    ) + opt_name(c.null) + opt_name(c.undefined)
}

/// The names joined by ` | `.
pub open spec fn join_names(names: Seq<Seq<char>>) -> Seq<char>
    decreases names.len(),
{
    if names.len() == 0 {
        Seq::empty()
    } else if names.len() == 1 {
        names[0]
    } else {
        join_names(names.drop_last()) + " | "@ + names.last()
    }
}

pub open spec fn summary(c: CollModel) -> Seq<char> {
    join_names(summary_names(c))
}

pub open spec fn size_list(es: Seq<StatsModel>) -> nat
    decreases es.len(),
{
    if es.len() == 0 {
        0
    } else {
        1 + size_stats(es[0]) + size_list(es.drop_first())
    }
}

pub proof fn lemma_size_list_concat(a: Seq<StatsModel>, b: Seq<StatsModel>)
    ensures
        size_list(a + b) == size_list(a) + size_list(b),
    decreases a.len(),
{
    if a.len() > 0 {
        assert((a + b).drop_first() =~= a.drop_first() + b);
        lemma_size_list_concat(a.drop_first(), b);
    }
}

pub proof fn lemma_size_list_elem(es: Seq<StatsModel>, i: int)
    requires
        0 <= i < es.len(),
    ensures
        size_stats(es[i]) < size_list(es),
    decreases es.len(),
{
    if i > 0 {
        lemma_size_list_elem(es.drop_first(), i - 1);
    }
}

proof fn lemma_size_opt_seq(o: Option<StatsModel>)
    ensures
        size_list(opt_seq(o)) <= 1 + crate::stats::size_opt(o),
{
    if let Some(x) = o {
        assert(opt_seq(o).drop_first() =~= Seq::<StatsModel>::empty());
        assert(size_list(Seq::<StatsModel>::empty()) == 0);
    }
}

pub proof fn lemma_size_entries(c: CollModel)
    ensures
        size_list(entries(c)) < size_coll(c),
        forall|i: int| 0 <= i < entries(c).len() ==> size_stats(#[trigger] entries(c)[i]) < size_coll(c),
{
    let s1 = opt_seq(c.string);
    let s2 = opt_seq(c.number);
    let s3 = opt_seq(c.boolean);
    let s4 = opt_seq(c.null);
    let s5 = opt_seq(c.object);
    let s6 = opt_seq(c.array);
    let s7 = opt_seq(c.undefined);
    lemma_size_list_concat(s1, s2);
    lemma_size_list_concat(s1 + s2, s3);
    lemma_size_list_concat(s1 + s2 + s3, s4);
    lemma_size_list_concat(s1 + s2 + s3 + s4, s5);
    lemma_size_list_concat(s1 + s2 + s3 + s4 + s5, s6);
    lemma_size_list_concat(s1 + s2 + s3 + s4 + s5 + s6, s7);
    lemma_size_opt_seq(c.string);
    lemma_size_opt_seq(c.number);
    lemma_size_opt_seq(c.boolean);
    lemma_size_opt_seq(c.null);
    lemma_size_opt_seq(c.object);
    lemma_size_opt_seq(c.array);
    lemma_size_opt_seq(c.undefined);
    assert forall|i: int| 0 <= i < entries(c).len() implies size_stats(#[trigger] entries(c)[i])
        < size_coll(c) by {
        lemma_size_list_elem(entries(c), i);
    }
}

/// The lines of one node: its own line, then those of what it holds.
pub open spec fn render_node(
    s: StatsModel,
    ancestors: Seq<bool>,
    is_last: bool,
    label: Seq<char>,
    max_len: nat,
) -> Seq<Seq<PieceModel>>
    decreases size_stats(s), 0nat,
{
    match s {
        StatsModel::Object { items } => seq![
            entry_model(
                ancestors,
                is_last,
                label,
                "obj"@,
                ShownModel::Nothing,
                ShownModel::Nothing,
            ),
        ] + render_fields(items, ancestors.push(is_last), max_len),
        StatsModel::Array { example_len, min_len, max_len: maxl, items } => seq![
            array_entry_model(ancestors, is_last, label, example_len, min_len, maxl),
        ] + render_coll(*items, ancestors.push(is_last), true, max_len),
        StatsModel::Null { .. } => render_count_leaf(s, ancestors, is_last, label, max_len),
        StatsModel::Undefined { .. } => render_count_leaf(s, ancestors, is_last, label, max_len),
        _ => {
            let (ex, rng) = shown_value(s, max_len);
            seq![entry_model(ancestors, is_last, label, name_of(s), ex, rng)]
        },
    }
}

/// The line of a `null` or missing node.
pub open spec fn render_count_leaf(
    s: StatsModel,
    ancestors: Seq<bool>,
    is_last: bool,
    label: Seq<char>,
    max_len: nat,
) -> Seq<Seq<PieceModel>> {
    let (ex, rng) = shown_value(s, max_len);
    if blank(ex) {
        seq![
            entry_model(
                ancestors,
                is_last,
                label,
                name_of(s),
                ShownModel::Nothing,
                ShownModel::Nothing,
            ),
        ]
    } else {
        seq![count_entry_model(ancestors, is_last, label, name_of(s), ex, rng)]
    }
}

/// The lines of the fields of an object, in their order.
pub open spec fn render_fields(
    items: Seq<(Seq<char>, CollModel)>,
    ancestors: Seq<bool>,
    max_len: nat,
) -> Seq<Seq<PieceModel>>
    decreases size_items(items), 0nat,
{
    if items.len() == 0 {
        Seq::empty()
    } else {
        let key = items[0].0;
        let fs = items[0].1;
        let is_last = items.len() == 1;
        let es = entries(fs);
        proof {
            lemma_size_entries(fs);
        }
        let head = if es.len() > 1 {
            seq![
                entry_model(
                    ancestors,
                    is_last,
                    key,
                    summary(fs),
                    ShownModel::Nothing,
                    ShownModel::Nothing,
                ),
            ] + render_coll(fs, ancestors.push(is_last), false, max_len)
        } else if es.len() == 1 {
            render_node(es[0], ancestors, is_last, key, max_len)
        } else {
            Seq::empty()
        };
        head + render_fields(items.drop_first(), ancestors, max_len)
    }
}

/// The lines of the types of one collection, under the pseudo-label of
/// its values, one option per type where it has seen several.
pub open spec fn render_coll(c: CollModel, ancestors: Seq<bool>, in_array: bool, max_len: nat) -> Seq<
    Seq<PieceModel>,
>
    decreases size_coll(c), 2nat,
{
    let es = entries(c);
    proof {
        lemma_size_entries(c);
    }
    if es.len() > 1 && in_array {
        seq![
            entry_model(
                ancestors,
                true,
                "[values]"@,
                summary(c),
                ShownModel::Nothing,
                ShownModel::Nothing,
            ),
        ] + render_options(es, ancestors.push(true), "[option]"@, max_len)
    } else if es.len() > 1 {
        render_options(es, ancestors, "[option]"@, max_len)
    } else if es.len() == 0 {
        Seq::empty()
    } else if in_array {
        render_node(es[0], ancestors, true, "[values]"@, max_len)
    } else {
        match es[0] {
            StatsModel::Object { items } => render_fields(items, ancestors, max_len),
            _ => render_node(es[0], ancestors, true, "[values]"@, max_len),
        }
    }
}

/// The lines of several options, the last one closing the list.
pub open spec fn render_options(
    es: Seq<StatsModel>,
    ancestors: Seq<bool>,
    label: Seq<char>,
    max_len: nat,
) -> Seq<Seq<PieceModel>>
    decreases size_list(es), 1nat,
{
    if es.len() == 0 {
        Seq::empty()
    } else {
        proof {
            lemma_size_list_elem(es, 0);
        }
        render_node(es[0], ancestors, es.len() == 1, label, max_len) + render_options(
            es.drop_first(),
            ancestors,
            label,
            max_len,
        )
    }
}

/// The lines of a whole document.
pub open spec fn render_root_model(s: StatsModel, max_len: nat) -> Seq<Seq<PieceModel>> {
    let root = text("[root]"@, Style::Magenta);
    let colon = text(": "@, Style::Plain);
    match s {
        StatsModel::Object { items } => seq![seq![root, colon, text("obj"@, Style::Yellow)]]
            + render_fields(items, Seq::empty(), max_len),
        StatsModel::Array { example_len, min_len, max_len: maxl, items } => seq![
            seq![root, colon] + array_len_model(example_len, min_len, maxl),
        ] + render_coll(*items, Seq::empty(), true, max_len),
        _ => {
            let (ex, _rng) = shown_value(s, max_len);
            if blank(ex) {
                seq![seq![root, colon, text(name_of(s), Style::Yellow)]]
            } else {
                seq![
                    seq![
                        root,
                        colon,
                        text(name_of(s), Style::Yellow),
                        text(" = "@, Style::Plain),
                        example_piece(ex),
                    ],
                ]
            }
        },
    }
}

/// A piece of a rendered line: styled text, or a number to be written by
/// the caller, or the range of a number, which the caller writes as two
/// spaces and the dimmed range `(min - max)`, or leaves out where the two
/// numbers are too close to tell apart.
#[derive(Debug)]
pub enum Piece {
    Text { text: String, style: Style },
    Number { key: u64, is_float: bool },
    NumberRange { min: u64, max: u64, is_float: bool },
}

/// What is shown of a value: an example or a range, as text or as numbers.
#[derive(Debug)]
pub enum Shown {
    Nothing,
    Text(String),
    Number { key: u64, is_float: bool },
    Range { min: u64, max: u64, is_float: bool },
}

impl View for Piece {
    type V = PieceModel;

    open spec fn view(&self) -> PieceModel {
        match self {
            Piece::Text { text, style } => PieceModel::Text(text@, *style),
            Piece::Number { key, is_float } => PieceModel::Number(*key, *is_float),
            Piece::NumberRange { min, max, is_float } => PieceModel::NumberRange(
                *min,
                *max,
                *is_float,
            ),
        }
    }
}

impl View for Shown {
    type V = ShownModel;

    open spec fn view(&self) -> ShownModel {
        match self {
            Shown::Nothing => ShownModel::Nothing,
            Shown::Text(t) => ShownModel::Text(t@),
            Shown::Number { key, is_float } => ShownModel::Number(*key, *is_float),
            Shown::Range { min, max, is_float } => ShownModel::Range(*min, *max, *is_float),
        }
    }
}

pub open spec fn line_view(l: Seq<Piece>) -> Seq<PieceModel> {
    l.map_values(|p: Piece| p@)
}

pub open spec fn lines_view(ls: Seq<Vec<Piece>>) -> Seq<Seq<PieceModel>> {
    ls.map_values(|l: Vec<Piece>| line_view(l@))
}

pub open spec fn stats_list_view(es: Seq<&TypeStats>) -> Seq<StatsModel> {
    es.map_values(|s: &TypeStats| s@)
}

fn text_piece(t: &str, style: Style) -> (r: Piece)
    ensures
        r@ == text(t@, style),
{
    Piece::Text { text: String::from_str(t), style }
}

fn push_piece(line: &mut Vec<Piece>, p: Piece)
    ensures
        line_view(final(line)@) == line_view(old(line)@).push(p@),
{
    let ghost before = line@;
    line.push(p);
    assert(line_view(line@) =~= line_view(before).push(p@));
}

fn push_line(out: &mut Vec<Vec<Piece>>, line: Vec<Piece>)
    ensures
        lines_view(final(out)@) == lines_view(old(out)@).push(line_view(line@)),
{
    let ghost before = out@;
    let ghost lv = line_view(line@);
    out.push(line);
    assert(lines_view(out@) =~= lines_view(before).push(lv));
}

fn with_last(ancestors: &Vec<bool>, b: bool) -> (r: Vec<bool>)
    ensures
        r@ == ancestors@.push(b),
{
    let mut r: Vec<bool> = Vec::new();
    let mut i: usize = 0;
    while i < ancestors.len()
        invariant
            i <= ancestors@.len(),
            r@ == ancestors@.take(i as int),
        decreases ancestors@.len() - i,
    {
        r.push(ancestors[i]);
        i = i + 1;
        assert(r@ =~= ancestors@.take(i as int));
    }
    r.push(b);
    assert(r@ =~= ancestors@.push(b));
    r
}

impl TypeStats {
    /// The name shown for the type of these statistics.
    pub fn display_name(&self) -> (r: &'static str)
        ensures
            r@ == name_of(self@),
    {
        match self {
            TypeStats::String { .. } => "str",
            TypeStats::Number { is_float, .. } => if *is_float {
                "float"
            } else {
                "int"
            },
            TypeStats::Bool { .. } => "bool",
            TypeStats::Null { .. } => "null",
            TypeStats::Undefined { .. } => "undefined",
            TypeStats::Object { .. } => "obj",
            TypeStats::Array { .. } => "arr",
        }
    }

    /// The example and the range shown for a leaf type.
    pub fn format_value(&self, max_len: usize) -> (r: (Shown, Shown))
        ensures
            r.0@ == shown_value(self@, max_len as nat).0,
            r.1@ == shown_value(self@, max_len as nat).1,
    {
        match self {
            TypeStats::String { example, min_val, max_val } => {
                let mut ex = String::from_str("\"");
                ex.append(truncate(example.as_str(), max_len).as_str());
                ex.append("\"");
                if *min_val == *max_val {
                    (Shown::Text(ex), Shown::Nothing)
                } else {
                    let mut r = String::from_str("(\"");
                    r.append(truncate(min_val.as_str(), max_len).as_str());
                    r.append("\" - \"");
                    r.append(truncate(max_val.as_str(), max_len).as_str());
                    r.append("\")");
                    (Shown::Text(ex), Shown::Text(r))
                }
            },
            TypeStats::Number { example, min, max, is_float } => (
                Shown::Number { key: *example, is_float: *is_float },
                Shown::Range { min: *min, max: *max, is_float: *is_float },
            ),
            TypeStats::Bool { example, has_true, has_false } => {
                if *has_true && *has_false {
                    let ex = if *example {
                        String::from_str("true")
                    } else {
                        String::from_str("false")
                    };
                    (Shown::Text(ex), Shown::Text(String::from_str("(false - true)")))
                } else if *has_true {
                    (Shown::Text(String::from_str("true")), Shown::Nothing)
                } else {
                    (Shown::Text(String::from_str("false")), Shown::Nothing)
                }
            },
            TypeStats::Null { example_count, min_count, max_count } => shown_counts_exec(
                *example_count,
                *min_count,
                *max_count,
            ),
            TypeStats::Undefined { example_count, min_count, max_count } => shown_counts_exec(
                *example_count,
                *min_count,
                *max_count,
            ),
            _ => (Shown::Nothing, Shown::Nothing),
        }
    }
}

fn count_range_exec(min: usize, max: usize) -> (r: String)
    ensures
        r@ == count_range(min as nat, max as nat),
{
    let mut r = String::from_str("(");
    r.append(decimal_string(min).as_str());
    r.append(" - ");
    r.append(decimal_string(max).as_str());
    r.append(")");
    r
}

fn shown_counts_exec(example_count: usize, min_count: usize, max_count: usize) -> (r: (
    Shown,
    Shown,
))
    ensures
        r.0@ == shown_counts(example_count as nat, min_count as nat, max_count as nat).0,
        r.1@ == shown_counts(example_count as nat, min_count as nat, max_count as nat).1,
{
    if min_count == 1 && max_count == 1 {
        (Shown::Nothing, Shown::Nothing)
    } else {
        let ex = Shown::Text(decimal_string(example_count));
        if min_count == max_count {
            (ex, Shown::Nothing)
        } else {
            (ex, Shown::Text(count_range_exec(min_count, max_count)))
        }
    }
}

/// The label of an entry, in magenta for `[values]` and `[option]`, else in blue.
pub fn color_label(label: &str) -> (r: Piece)
    ensures
        r@ == label_piece(label@),
{
    let l = String::from_str(label);
    if l == String::from_str("[values]") || l == String::from_str("[option]") {
        Piece::Text { text: l, style: Style::Magenta }
    } else {
        Piece::Text { text: l, style: Style::Blue }
    }
}

fn example_piece_exec(ex: Shown) -> (r: Piece)
    ensures
        r@ == example_piece(ex@),
{
    match ex {
        Shown::Text(t) => Piece::Text { text: t, style: Style::Green },
        Shown::Number { key, is_float } => Piece::Number { key, is_float },
        Shown::Range { min, max, is_float } => Piece::NumberRange { min, max, is_float },
        Shown::Nothing => Piece::Text { text: String::new(), style: Style::Green },
    }
}

fn is_blank(s: &Shown) -> (r: bool)
    ensures
        r == blank(s@),
{
    match s {
        Shown::Nothing => true,
        Shown::Text(t) => t.as_str().unicode_len() == 0,
        _ => false,
    }
}

fn push_range_pieces(line: &mut Vec<Piece>, rng: Shown)
    ensures
        line_view(final(line)@) == line_view(old(line)@) + range_pieces(rng@),
{
    let ghost before = line_view(line@);
    let ghost rv = rng@;
    if is_blank(&rng) {
        assert(line_view(line@) =~= before + range_pieces(rv));
        return;
    }
    match rng {
        Shown::Nothing => {
            assert(line_view(line@) =~= before + range_pieces(rv));
        },
        Shown::Text(t) => {
            push_piece(line, text_piece("  ", Style::Plain));
            push_piece(line, Piece::Text { text: t, style: Style::Dimmed });
            assert(line_view(line@) =~= before + range_pieces(rv));
        },
        Shown::Range { min, max, is_float } => {
            push_piece(line, Piece::NumberRange { min, max, is_float });
            assert(line_view(line@) =~= before + range_pieces(rv));
        },
        Shown::Number { key, is_float } => {
            push_piece(line, text_piece("  ", Style::Plain));
            push_piece(line, Piece::Number { key, is_float });
            assert(line_view(line@) =~= before + range_pieces(rv));
        },
    }
}

fn push_value_pieces(line: &mut Vec<Piece>, example: Shown, range: Shown)
    ensures
        line_view(final(line)@) == line_view(old(line)@) + value_pieces(example@, range@),
{
    let ghost before = line_view(line@);
    if is_blank(&example) {
        assert(line_view(line@) =~= before + value_pieces(example@, range@));
    } else {
        let ghost ev = example@;
        push_piece(line, text_piece(" = ", Style::Plain));
        push_piece(line, example_piece_exec(example));
        let ghost mid = line_view(line@);
        push_range_pieces(line, range);
        assert(line_view(line@) =~= before + value_pieces(ev, range@));
    }
}

/// The line of one entry: branch, label, type, and example and range if any.
pub fn entry_line(
    ancestors: &[bool],
    is_last: bool,
    label: &str,
    type_str: &str,
    example: Shown,
    range: Shown,
) -> (r: Vec<Piece>)
    ensures
        line_view(r@) == entry_model(ancestors@, is_last, label@, type_str@, example@, range@),
{
    let ghost ev = example@;
    let ghost rv = range@;
    let mut line: Vec<Piece> = Vec::new();
    push_piece(&mut line, Piece::Text { text: tree_prefix(ancestors, is_last), style: Style::Plain });
    push_piece(&mut line, color_label(label));
    push_piece(&mut line, text_piece(": ", Style::Plain));
    push_piece(&mut line, text_piece(type_str, Style::Yellow));
    let ghost head = line_view(line@);
    push_value_pieces(&mut line, example, range);
    assert(head =~= seq![
        text(prefix(ancestors@, is_last), Style::Plain),
        label_piece(label@),
        text(": "@, Style::Plain),
        text(type_str@, Style::Yellow),
    ]);
    line
}

/// The pieces that show an array's length, and its range where lengths differ.
pub fn format_array_len(example_len: usize, min_len: usize, max_len: usize) -> (r: Vec<Piece>)
    ensures
        line_view(r@) == array_len_model(example_len as nat, min_len as nat, max_len as nat),
{
    let mut line: Vec<Piece> = Vec::new();
    push_piece(&mut line, text_piece("arr", Style::Yellow));
    push_piece(&mut line, text_piece(" ", Style::Plain));
    push_piece(&mut line, text_piece("len", Style::White));
    push_piece(&mut line, text_piece(" = ", Style::Plain));
    push_piece(&mut line, Piece::Text { text: decimal_string(example_len), style: Style::Green });
    let ghost head = line_view(line@);
    if min_len != max_len {
        push_piece(&mut line, text_piece("  ", Style::Plain));
        push_piece(
            &mut line,
            Piece::Text { text: count_range_exec(min_len, max_len), style: Style::Dimmed },
        );
    }
    assert(line_view(line@) =~= array_len_model(
        example_len as nat,
        min_len as nat,
        max_len as nat,
    ));
    line
}

fn append_pieces(line: &mut Vec<Piece>, more: Vec<Piece>)
    ensures
        line_view(final(line)@) == line_view(old(line)@) + line_view(more@),
{
    let ghost before = line_view(line@);
    let ghost mv = line_view(more@);
    let mut more = more;
    line.append(&mut more);
    assert(line_view(line@) =~= before + mv);
}

/// The line of an array entry: branch, label, and the array's lengths.
pub fn array_entry_line(
    ancestors: &[bool],
    is_last: bool,
    label: &str,
    example_len: usize,
    min_len: usize,
    max_len: usize,
) -> (r: Vec<Piece>)
    ensures
        line_view(r@) == array_entry_model(
            ancestors@,
            is_last,
            label@,
            example_len as nat,
            min_len as nat,
            max_len as nat,
        ),
{
    let mut line: Vec<Piece> = Vec::new();
    push_piece(&mut line, Piece::Text { text: tree_prefix(ancestors, is_last), style: Style::Plain });
    push_piece(&mut line, color_label(label));
    push_piece(&mut line, text_piece(": ", Style::Plain));
    let ghost head = line_view(line@);
    append_pieces(&mut line, format_array_len(example_len, min_len, max_len));
    assert(head =~= seq![
        text(prefix(ancestors@, is_last), Style::Plain),
        label_piece(label@),
        text(": "@, Style::Plain),
    ]);
    line
}

fn count_entry_line(
    ancestors: &[bool],
    is_last: bool,
    label: &str,
    type_str: &str,
    example: Shown,
    range: Shown,
) -> (r: Vec<Piece>)
    ensures
        line_view(r@) == count_entry_model(
            ancestors@,
            is_last,
            label@,
            type_str@,
            example@,
            range@,
        ),
{
    let ghost ev = example@;
    let mut line: Vec<Piece> = Vec::new();
    push_piece(&mut line, Piece::Text { text: tree_prefix(ancestors, is_last), style: Style::Plain });
    push_piece(&mut line, color_label(label));
    push_piece(&mut line, text_piece(": ", Style::Plain));
    push_piece(&mut line, text_piece(type_str, Style::Yellow));
    push_piece(&mut line, text_piece(" ", Style::Plain));
    push_piece(&mut line, text_piece("cnt", Style::White));
    push_piece(&mut line, text_piece(" = ", Style::Plain));
    push_piece(&mut line, example_piece_exec(example));
    let ghost head = line_view(line@);
    push_range_pieces(&mut line, range);
    assert(head =~= seq![
        text(prefix(ancestors@, is_last), Style::Plain),
        label_piece(label@),
        text(": "@, Style::Plain),
        text(type_str@, Style::Yellow),
        text(" "@, Style::Plain),
        text("cnt"@, Style::White),
        text(" = "@, Style::Plain),
        example_piece(ev),
    ]);
    line
}

fn push_opt<'a>(v: &mut Vec<&'a TypeStats>, o: &'a Option<TypeStats>)
    ensures
        stats_list_view(final(v)@) == stats_list_view(old(v)@) + opt_seq(crate::stats::opt_view(*o)),
{
    let ghost before = stats_list_view(v@);
    if let Some(s) = o {
        v.push(s);
    }
    assert(stats_list_view(v@) =~= before + opt_seq(crate::stats::opt_view(*o)));
}

/// The statistics of the types a collection has seen, in the order of `TypeKey`.
pub fn entries_of(cs: &CollectionStats) -> (r: Vec<&TypeStats>)
    ensures
        stats_list_view(r@) == entries(cs@),
{
    let mut v: Vec<&TypeStats> = Vec::new();
    assert(stats_list_view(v@) =~= Seq::<StatsModel>::empty());
    push_opt(&mut v, &cs.string);
    push_opt(&mut v, &cs.number);
    push_opt(&mut v, &cs.boolean);
    push_opt(&mut v, &cs.null);
    push_opt(&mut v, &cs.object);
    push_opt(&mut v, &cs.array);
    push_opt(&mut v, &cs.undefined);
    assert(stats_list_view(v@) =~= entries(cs@));
    v
}

fn push_name(v: &mut Vec<&'static str>, o: &Option<TypeStats>)
    ensures
        final(v)@.map_values(|n: &str| n@) == old(v)@.map_values(|n: &str| n@) + opt_name(
            crate::stats::opt_view(*o),
        ),
{
    let ghost before = v@.map_values(|n: &str| n@);
    if let Some(s) = o {
        v.push(s.display_name());
    }
    assert(v@.map_values(|n: &str| n@) =~= before + opt_name(crate::stats::opt_view(*o)));
}

/// The names of the types a collection has seen, joined by ` | `, with
/// `null` and then `undefined` last.
pub fn summarize_field_types(cs: &CollectionStats) -> (r: String)
    ensures
        r@ == summary(cs@),
{
    let mut names: Vec<&'static str> = Vec::new();
    assert(names@.map_values(|n: &str| n@) =~= Seq::<Seq<char>>::empty());
    push_name(&mut names, &cs.string);
    push_name(&mut names, &cs.number);
    push_name(&mut names, &cs.boolean);
    push_name(&mut names, &cs.object);
    push_name(&mut names, &cs.array);
    push_name(&mut names, &cs.null);
    push_name(&mut names, &cs.undefined);
    let ghost nv = names@.map_values(|n: &str| n@);
    assert(nv =~= summary_names(cs@));
    let mut out = String::new();
    let mut i: usize = 0;
    while i < names.len()
        invariant
            i <= names@.len(),
            nv == names@.map_values(|n: &str| n@),
            out@ == join_names(nv.take(i as int)),
        decreases names@.len() - i,
    {
        proof {
            assert(nv.take(i + 1).drop_last() =~= nv.take(i as int));
            assert(nv.take(i + 1).last() == names@[i as int]@);
        }
        if i > 0 {
            out.append(" | ");
        } else {
            assert(Seq::<char>::empty() + names@[i as int]@ =~= names@[i as int]@);
        }
        out.append(names[i]);
        i = i + 1;
    }
    assert(nv.take(i as int) =~= nv);
    out
}

/// Renders one node and what it holds.
pub fn render_stats_node(
    stats: &TypeStats,
    ancestors: &Vec<bool>,
    is_last: bool,
    label: &str,
    max_len: usize,
    out: &mut Vec<Vec<Piece>>,
)
    ensures
        lines_view(final(out)@) == lines_view(old(out)@) + render_node(
            stats@,
            ancestors@,
            is_last,
            label@,
            max_len as nat,
        ),
    decreases size_stats(stats@), 0nat,
{
    let ghost before = lines_view(out@);
    match stats {
        TypeStats::Object { items } => {
            push_line(
                out,
                entry_line(ancestors.as_slice(), is_last, label, "obj", Shown::Nothing, Shown::Nothing),
            );
            let child = with_last(ancestors, is_last);
            let ghost mid = lines_view(out@);
            render_object_fields(&items.entries, &child, max_len, out);
            assert(lines_view(out@) =~= before + render_node(
                stats@,
                ancestors@,
                is_last,
                label@,
                max_len as nat,
            ));
        },
        TypeStats::Array { example_len, min_len, max_len: maxl, items } => {
            push_line(
                out,
                array_entry_line(ancestors.as_slice(), is_last, label, *example_len, *min_len, *maxl),
            );
            let child = with_last(ancestors, is_last);
            render_field_stats(&**items, &child, true, max_len, out);
            assert(lines_view(out@) =~= before + render_node(
                stats@,
                ancestors@,
                is_last,
                label@,
                max_len as nat,
            ));
        },
        TypeStats::Null { .. } | TypeStats::Undefined { .. } => {
            let (ex, rng) = stats.format_value(max_len);
            if is_blank(&ex) {
                push_line(
                    out,
                    entry_line(
                        ancestors.as_slice(),
                        is_last,
                        label,
                        stats.display_name(),
                        Shown::Nothing,
                        Shown::Nothing,
                    ),
                );
            } else {
                push_line(
                    out,
                    count_entry_line(ancestors.as_slice(), is_last, label, stats.display_name(), ex, rng),
                );
            }
            assert(lines_view(out@) =~= before + render_node(
                stats@,
                ancestors@,
                is_last,
                label@,
                max_len as nat,
            ));
        },
        _ => {
            let (ex, rng) = stats.format_value(max_len);
            push_line(
                out,
                entry_line(ancestors.as_slice(), is_last, label, stats.display_name(), ex, rng),
            );
            assert(lines_view(out@) =~= before + render_node(
                stats@,
                ancestors@,
                is_last,
                label@,
                max_len as nat,
            ));
        },
    }
}

/// Renders the fields of an object, in their order.
pub fn render_object_fields(
    items: &Vec<(String, CollectionStats)>,
    ancestors: &Vec<bool>,
    max_len: usize,
    out: &mut Vec<Vec<Piece>>,
)
    ensures
        lines_view(final(out)@) == lines_view(old(out)@) + render_fields(
            items_view(items@),
            ancestors@,
            max_len as nat,
        ),
    decreases size_items(items_view(items@)), 0nat,
{
    let ghost iv = items_view(items@);
    let ghost before = lines_view(out@);
    let mut i: usize = 0;
    assert(iv.skip(0) =~= iv);
    assert(before =~= before + Seq::<Seq<PieceModel>>::empty());
    while i < items.len()
        invariant
            i <= items@.len(),
            iv == items_view(items@),
            lines_view(out@) + render_fields(iv.skip(i as int), ancestors@, max_len as nat) == before
                + render_fields(iv, ancestors@, max_len as nat),
        decreases items@.len() - i,
    {
        let ghost cur = lines_view(out@);
        let ghost rest = iv.skip(i as int);
        assert(rest.drop_first() =~= iv.skip(i + 1));
        assert(rest[0] == iv[i as int]);
        let key = &items[i].0;
        let fs = &items[i].1;
        let is_last = i == items.len() - 1;
        let es = entries_of(fs);
        proof {
            lemma_size_items_elem(iv, i as int);
            lemma_size_entries(fs@);
        }
        if es.len() > 1 {
            let summary_text = summarize_field_types(fs);
            push_line(
                out,
                entry_line(
                    ancestors.as_slice(),
                    is_last,
                    key.as_str(),
                    summary_text.as_str(),
                    Shown::Nothing,
                    Shown::Nothing,
                ),
            );
            let child = with_last(ancestors, is_last);
            render_field_stats(fs, &child, false, max_len, out);
        } else if es.len() == 1 {
            assert(stats_list_view(es@)[0] == es@[0]@);
            render_stats_node(es[0], ancestors, is_last, key.as_str(), max_len, out);
        }
        i = i + 1;
        assert(cur + render_fields(rest, ancestors@, max_len as nat) =~= lines_view(out@)
            + render_fields(iv.skip(i as int), ancestors@, max_len as nat));
    }
    assert(iv.skip(i as int) =~= Seq::<(Seq<char>, CollModel)>::empty());
    assert(lines_view(out@) =~= lines_view(out@) + render_fields(
        iv.skip(i as int),
        ancestors@,
        max_len as nat,
    ));
}

fn render_option_nodes(
    es: &Vec<&TypeStats>,
    ancestors: &Vec<bool>,
    label: &str,
    max_len: usize,
    out: &mut Vec<Vec<Piece>>,
)
    ensures
        lines_view(final(out)@) == lines_view(old(out)@) + render_options(
            stats_list_view(es@),
            ancestors@,
            label@,
            max_len as nat,
        ),
    decreases size_list(stats_list_view(es@)), 1nat,
{
    let ghost ev = stats_list_view(es@);
    let ghost before = lines_view(out@);
    let mut i: usize = 0;
    assert(ev.skip(0) =~= ev);
    while i < es.len()
        invariant
            i <= es@.len(),
            ev == stats_list_view(es@),
            lines_view(out@) + render_options(ev.skip(i as int), ancestors@, label@, max_len as nat)
                == before + render_options(ev, ancestors@, label@, max_len as nat),
        decreases es@.len() - i,
    {
        let ghost cur = lines_view(out@);
        let ghost rest = ev.skip(i as int);
        assert(rest.drop_first() =~= ev.skip(i + 1));
        assert(rest[0] == ev[i as int]);
        proof {
            lemma_size_list_elem(ev, i as int);
        }
        let is_last = i == es.len() - 1;
        render_stats_node(es[i], ancestors, is_last, label, max_len, out);
        i = i + 1;
        assert(cur + render_options(rest, ancestors@, label@, max_len as nat) =~= lines_view(out@)
            + render_options(ev.skip(i as int), ancestors@, label@, max_len as nat));
    }
    assert(ev.skip(i as int) =~= Seq::<StatsModel>::empty());
    assert(lines_view(out@) =~= lines_view(out@) + render_options(
        ev.skip(i as int),
        ancestors@,
        label@,
        max_len as nat,
    ));
}

/// Renders the types seen at one place.
pub fn render_field_stats(
    cs: &CollectionStats,
    ancestors: &Vec<bool>,
    in_array: bool,
    max_len: usize,
    out: &mut Vec<Vec<Piece>>,
)
    ensures
        lines_view(final(out)@) == lines_view(old(out)@) + render_coll(
            cs@,
            ancestors@,
            in_array,
            max_len as nat,
        ),
    decreases size_coll(cs@), 2nat,
{
    let ghost before = lines_view(out@);
    let es = entries_of(cs);
    proof {
        lemma_size_entries(cs@);
    }
    if es.len() > 1 && in_array {
        let summary_text = summarize_field_types(cs);
        push_line(
            out,
            entry_line(
                ancestors.as_slice(),
                true,
                "[values]",
                summary_text.as_str(),
                Shown::Nothing,
                Shown::Nothing,
            ),
        );
        let child = with_last(ancestors, true);
        render_option_nodes(&es, &child, "[option]", max_len, out);
    } else if es.len() > 1 {
        render_option_nodes(&es, ancestors, "[option]", max_len, out);
    } else if es.len() == 0 {
    } else if in_array {
        assert(stats_list_view(es@)[0] == es@[0]@);
        render_stats_node(es[0], ancestors, true, "[values]", max_len, out);
    } else {
        assert(stats_list_view(es@)[0] == es@[0]@);
        match es[0] {
            TypeStats::Object { items } => {
                render_object_fields(&items.entries, ancestors, max_len, out);
            },
            _ => {
                render_stats_node(es[0], ancestors, true, "[values]", max_len, out);
            },
        }
    }
    assert(lines_view(out@) =~= before + render_coll(cs@, ancestors@, in_array, max_len as nat));
}

/// Renders a whole document: the root's line, then the tree below it.
pub fn render_root(stats: &TypeStats, max_len: usize) -> (r: Vec<Vec<Piece>>)
    ensures
        lines_view(r@) == render_root_model(stats@, max_len as nat),
{
    let mut out: Vec<Vec<Piece>> = Vec::new();
    let no_ancestors: Vec<bool> = Vec::new();
    let mut first: Vec<Piece> = Vec::new();
    push_piece(&mut first, text_piece("[root]", Style::Magenta));
    push_piece(&mut first, text_piece(": ", Style::Plain));
    let ghost head = line_view(first@);
    assert(lines_view(out@) =~= Seq::<Seq<PieceModel>>::empty());
    match stats {
        TypeStats::Object { items } => {
            push_piece(&mut first, text_piece("obj", Style::Yellow));
            assert(line_view(first@) =~= seq![
                text("[root]"@, Style::Magenta),
                text(": "@, Style::Plain),
                text("obj"@, Style::Yellow),
            ]);
            push_line(&mut out, first);
            render_object_fields(&items.entries, &no_ancestors, max_len, &mut out);
        },
        TypeStats::Array { example_len, min_len, max_len: maxl, items } => {
            append_pieces(&mut first, format_array_len(*example_len, *min_len, *maxl));
            assert(head =~= seq![text("[root]"@, Style::Magenta), text(": "@, Style::Plain)]);
            push_line(&mut out, first);
            render_field_stats(&**items, &no_ancestors, true, max_len, &mut out);
        },
        _ => {
            let (ex, _rng) = stats.format_value(max_len);
            let ghost ev = ex@;
            push_piece(&mut first, text_piece(stats.display_name(), Style::Yellow));
            if is_blank(&ex) {
                assert(line_view(first@) =~= seq![
                    text("[root]"@, Style::Magenta),
                    text(": "@, Style::Plain),
                    text(name_of(stats@), Style::Yellow),
                ]);
            } else {
                push_piece(&mut first, text_piece(" = ", Style::Plain));
                push_piece(&mut first, example_piece_exec(ex));
                assert(line_view(first@) =~= seq![
                    text("[root]"@, Style::Magenta),
                    text(": "@, Style::Plain),
                    text(name_of(stats@), Style::Yellow),
                    text(" = "@, Style::Plain),
                    example_piece(ev),
                ]);
            }
            push_line(&mut out, first);
        },
    }
    assert(lines_view(out@) =~= render_root_model(stats@, max_len as nat));
    out
}

} // verus!
