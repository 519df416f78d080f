//! Built-in Cypher functions applied to arguments that are already evaluated: over lists,
//! strings and paths (`head`, `last`, `tail`, `size`, `length`, `nodes`, `relationships`,
//! `coalesce`, `reverse`, `range`, `__slice`, `toLower`, `toUpper`, `trim`, `ltrim`, `rtrim`) and over
//! the graph (`keys`, `properties`, `startNode`, `endNode`, `labels`, `type`, `id`). An
//! argument of the wrong kind gives `null`.
use crate::query::value::{api_dict_to_values, copy_value, copy_value_dict, prop_dict_to_value, value_dict_view, value_list_view, value_view, Value, ValueView};
use crate::storage::api::{api_dict_view, EdgeKey, GraphSnapshot, PropView, PropertyValue};
use crate::errors::{to_lowercase, to_uppercase, unicode_lowercase, unicode_uppercase};
use crate::query::evaluator::{materialize_node_from_row_or_snapshot, materialized_node};
use crate::query::identifiers::{is_whitespace, leading_ws, skip_ws, trim_start_spec};
use crate::query::render::{trailing_ws, trim_end_spec};
use crate::query::value::{label_names, labels_view, named_labels, rel_type_string, rel_type_text, Row};
use crate::text::str_equal;
use vstd::prelude::*;

verus! {

/// The first argument, or `null` when there is none.
pub open spec fn first_arg(args: Seq<ValueView>) -> ValueView {
    if args.len() > 0 {
        args[0]
    } else {
        ValueView::Null
    }
}

/// `head(list)`: the first element, `null` for an empty list.
pub open spec fn head_value(args: Seq<ValueView>) -> ValueView {
    match first_arg(args) {
        ValueView::List(l) => if l.len() > 0 {
            l[0]
        } else {
            ValueView::Null
        },
        _ => ValueView::Null,
    }
}

/// `last(list)`: the last element, `null` for an empty list.
pub open spec fn last_value(args: Seq<ValueView>) -> ValueView {
    match first_arg(args) {
        ValueView::List(l) => if l.len() > 0 {
            l.last()
        } else {
            ValueView::Null
        },
        _ => ValueView::Null,
    }
}

/// `tail(list)`: all elements but the first.
pub open spec fn tail_value(args: Seq<ValueView>) -> ValueView {
    match first_arg(args) {
        ValueView::List(l) => ValueView::List(
            if l.len() > 1 {
                l.subrange(1, l.len() as int)
            } else {
                Seq::empty()
            },
        ),
        _ => ValueView::Null,
    }
}

/// `size(x)`: the number of elements of a list, characters of a string or entries of a map.
pub open spec fn size_value(args: Seq<ValueView>) -> ValueView {
    match first_arg(args) {
        ValueView::List(l) => ValueView::Int(l.len() as i64),
        ValueView::String(s) => ValueView::Int(s.len() as i64),
        ValueView::Dict(m) => ValueView::Int(m.len() as i64),
        _ => ValueView::Null,
    }
}

/// `length(path)`: the number of relationships of a path.
pub open spec fn length_value(args: Seq<ValueView>) -> ValueView {
    match first_arg(args) {
        ValueView::Path(_, edges) => ValueView::Int(edges.len() as i64),
        _ => ValueView::Null,
    }
}

/// `nodes(path)`: the node ids of a path.
pub open spec fn nodes_value(args: Seq<ValueView>) -> ValueView {
    match first_arg(args) {
        ValueView::Path(nodes, _) => ValueView::List(nodes.map_values(|id: u32| ValueView::NodeId(id))),
        _ => ValueView::Null,
    }
}

/// `relationships(path)`: the relationship keys of a path.
pub open spec fn relationships_value(args: Seq<ValueView>) -> ValueView {
    match first_arg(args) {
        ValueView::Path(_, edges) => ValueView::List(
            edges.map_values(|k: EdgeKey| ValueView::EdgeKey(k)),
        ),
        _ => ValueView::Null,
    }
}

/// `coalesce(..)`: the first argument that is not `null`.
pub open spec fn coalesce_value(args: Seq<ValueView>) -> ValueView
    decreases args.len(),
{
    if args.len() == 0 {
        ValueView::Null
    } else if !(args[0] is Null) {
        args[0]
    } else {
        coalesce_value(args.drop_first())
    }
}

/// `reverse(x)`: a string or a list in reverse order.
pub open spec fn reverse_value(args: Seq<ValueView>) -> ValueView {
    match first_arg(args) {
        ValueView::String(s) => ValueView::String(s.reverse()),
        ValueView::List(l) => ValueView::List(l.reverse()),
        _ => ValueView::Null,
    }
}

pub proof fn lemma_value_list_index(s: Seq<Value>, i: int)
    requires
        0 <= i < s.len(),
    ensures
        value_list_view(s).len() == s.len(),
        value_list_view(s)[i] == value_view(s[i]),
    decreases s.len(),
{
    lemma_value_list_len(s);
    if i > 0 {
        lemma_value_list_index(s.drop_first(), i - 1);
    }
}

pub proof fn lemma_value_list_len(s: Seq<Value>)
    ensures
        value_list_view(s).len() == s.len(),
    decreases s.len(),
{
    if s.len() > 0 {
        lemma_value_list_len(s.drop_first());
    }
}

proof fn lemma_value_list_push(s: Seq<Value>, x: Value)
    ensures
        value_list_view(s.push(x)) == value_list_view(s).push(value_view(x)),
{
    let t = s.push(x);
    lemma_value_list_len(s);
    lemma_value_list_len(t);
    assert forall|i: int| 0 <= i < t.len() implies value_list_view(t)[i] == value_list_view(s).push(value_view(x))[i] by {
        lemma_value_list_index(t, i);
        if i < s.len() {
            lemma_value_list_index(s, i);
        }
    }
    assert(value_list_view(t) =~= value_list_view(s).push(value_view(x)));
}

/// Copies of the elements of `items` in positions `from..to`.
fn copy_range(items: &Vec<Value>, from: usize, to: usize) -> (r: Vec<Value>)
    requires
        from <= to <= items.len(),
    ensures
        value_list_view(r@) == value_list_view(items@).subrange(from as int, to as int),
{
    let mut out: Vec<Value> = Vec::new();
    let mut i: usize = from;
    proof {
        lemma_value_list_len(items@);
        assert(value_list_view(out@) =~= value_list_view(items@).subrange(from as int, from as int));
    }
    while i < to
        invariant
            from <= i <= to <= items.len(),
            value_list_view(items@).len() == items@.len(),
            value_list_view(out@) == value_list_view(items@).subrange(from as int, i as int),
        decreases to - i,
    {
        let v = copy_value(&items[i]);
        proof {
            lemma_value_list_push(out@, v);
            lemma_value_list_index(items@, i as int);
        }
        out.push(v);
        proof {
            assert(value_list_view(out@) =~= value_list_view(items@).subrange(from as int, i + 1));
        }
        i = i + 1;
    }
    out
}

/// Copies of the elements of `items`, last first.
fn copy_reversed(items: &Vec<Value>) -> (r: Vec<Value>)
    ensures
        value_list_view(r@) == value_list_view(items@).reverse(),
{
    let mut out: Vec<Value> = Vec::new();
    let n = items.len();
    let mut i: usize = n;
    let ghost src = value_list_view(items@);
    proof {
        lemma_value_list_len(items@);
        assert(value_list_view(out@) =~= Seq::<ValueView>::empty());
    }
    while i > 0
        invariant
            i <= n == items.len(),
            src == value_list_view(items@),
            src.len() == n,
            value_list_view(out@).len() == n - i,
            forall|j: int| 0 <= j < n - i ==> #[trigger] value_list_view(out@)[j] == src[n - 1 - j],
        decreases i,
    {
        i = i - 1;
        let v = copy_value(&items[i]);
        proof {
            lemma_value_list_push(out@, v);
            lemma_value_list_index(items@, i as int);
        }
        out.push(v);
    }
    proof {
        assert(value_list_view(out@) =~= src.reverse());
    }
    out
}

/// `head(list)`.
pub fn head(args: &Vec<Value>) -> (r: Value)
    ensures
        r@ == head_value(value_list_view(args@)),
{
    proof {
        lemma_value_list_len(args@);
    }
    if args.len() == 0 {
        return Value::Null;
    }
    proof {
        lemma_value_list_index(args@, 0);
    }
    match &args[0] {
        Value::List(items) => {
            if items.len() == 0 {
                proof {
                    lemma_value_list_len(items@);
                }
                Value::Null
            } else {
                proof {
                    lemma_value_list_index(items@, 0);
                }
                copy_value(&items[0])
            }
        },
        _ => Value::Null,
    }
}

/// `last(list)`.
pub fn last(args: &Vec<Value>) -> (r: Value)
    ensures
        r@ == last_value(value_list_view(args@)),
{
    proof {
        lemma_value_list_len(args@);
    }
    if args.len() == 0 {
        return Value::Null;
    }
    proof {
        lemma_value_list_index(args@, 0);
    }
    match &args[0] {
        Value::List(items) => {
            proof {
                lemma_value_list_len(items@);
            }
            if items.len() == 0 {
                Value::Null
            } else {
                proof {
                    lemma_value_list_index(items@, items.len() - 1);
                }
                copy_value(&items[items.len() - 1])
            }
        },
        _ => Value::Null,
    }
}

/// `tail(list)`.
pub fn tail(args: &Vec<Value>) -> (r: Value)
    ensures
        r@ == tail_value(value_list_view(args@)),
{
    proof {
        lemma_value_list_len(args@);
    }
    if args.len() == 0 {
        return Value::Null;
    }
    proof {
        lemma_value_list_index(args@, 0);
    }
    match &args[0] {
        Value::List(items) => {
            proof {
                lemma_value_list_len(items@);
            }
            if items.len() > 1 {
                Value::List(copy_range(items, 1, items.len()))
            } else {
                let empty: Vec<Value> = Vec::new();
                proof {
                    assert(value_list_view(empty@) =~= Seq::<ValueView>::empty());
                }
                Value::List(empty)
            }
        },
        _ => Value::Null,
    }
}

/// `size(x)`.
pub fn size(args: &Vec<Value>) -> (r: Value)
    ensures
        r@ == size_value(value_list_view(args@)),
{
    proof {
        lemma_value_list_len(args@);
    }
    if args.len() == 0 {
        return Value::Null;
    }
    proof {
        lemma_value_list_index(args@, 0);
    }
    match &args[0] {
        Value::List(items) => {
            proof {
                lemma_value_list_len(items@);
            }
            Value::Int(items.len() as i64)
        },
        Value::String(s) => Value::Int(s.as_str().unicode_len() as i64),
        Value::Dict(entries) => {
            proof {
                lemma_value_dict_len(entries@);
            }
            Value::Int(entries.len() as i64)
        },
        _ => Value::Null,
    }
}

proof fn lemma_value_dict_len(s: Seq<(String, Value)>)
    ensures
        value_dict_view(s).len() == s.len(),
    decreases s.len(),
{
    if s.len() > 0 {
        lemma_value_dict_len(s.drop_first());
    }
}

/// `length(path)`.
pub fn length(args: &Vec<Value>) -> (r: Value)
    ensures
        r@ == length_value(value_list_view(args@)),
{
    proof {
        lemma_value_list_len(args@);
    }
    if args.len() == 0 {
        return Value::Null;
    }
    proof {
        lemma_value_list_index(args@, 0);
    }
    match &args[0] {
        Value::Path(p) => Value::Int(p.edges.len() as i64),
        _ => Value::Null,
    }
}

/// `nodes(path)`.
pub fn nodes(args: &Vec<Value>) -> (r: Value)
    ensures
        r@ == nodes_value(value_list_view(args@)),
{
    proof {
        lemma_value_list_len(args@);
    }
    if args.len() == 0 {
        return Value::Null;
    }
    proof {
        lemma_value_list_index(args@, 0);
    }
    match &args[0] {
        Value::Path(p) => {
            let mut out: Vec<Value> = Vec::new();
            let mut i: usize = 0;
            proof {
                assert(value_list_view(out@) =~= Seq::<ValueView>::empty());
            }
            while i < p.nodes.len()
                invariant
                    i <= p.nodes@.len(),
                    value_list_view(out@) == p.nodes@.take(i as int).map_values(|id: u32| ValueView::NodeId(id)),
                decreases p.nodes.len() - i,
            {
                let v = Value::NodeId(p.nodes[i]);
                proof {
                    lemma_value_list_push(out@, v);
                }
                out.push(v);
                proof {
                    assert(p.nodes@.take(i + 1).map_values(|id: u32| ValueView::NodeId(id)) =~= p.nodes@.take(
                        i as int,
                    ).map_values(|id: u32| ValueView::NodeId(id)).push(ValueView::NodeId(p.nodes@[i as int])));
                }
                i = i + 1;
            }
            proof {
                assert(p.nodes@.take(i as int) =~= p.nodes@);
            }
            Value::List(out)
        },
        _ => Value::Null,
    }
}

/// `relationships(path)`.
pub fn relationships(args: &Vec<Value>) -> (r: Value)
    ensures
        r@ == relationships_value(value_list_view(args@)),
{
    proof {
        lemma_value_list_len(args@);
    }
    if args.len() == 0 {
        return Value::Null;
    }
    proof {
        lemma_value_list_index(args@, 0);
    }
    match &args[0] {
        Value::Path(p) => {
            let mut out: Vec<Value> = Vec::new();
            let mut i: usize = 0;
            proof {
                assert(value_list_view(out@) =~= Seq::<ValueView>::empty());
            }
            while i < p.edges.len()
                invariant
                    i <= p.edges@.len(),
                    value_list_view(out@) == p.edges@.take(i as int).map_values(
                        |k: EdgeKey| ValueView::EdgeKey(k),
                    ),
                decreases p.edges.len() - i,
            {
                let v = Value::EdgeKey(p.edges[i]);
                proof {
                    lemma_value_list_push(out@, v);
                }
                out.push(v);
                proof {
                    assert(p.edges@.take(i + 1).map_values(|k: EdgeKey| ValueView::EdgeKey(k))
                        =~= p.edges@.take(i as int).map_values(
                        |k: EdgeKey| ValueView::EdgeKey(k),
                    ).push(ValueView::EdgeKey(p.edges@[i as int])));
                }
                i = i + 1;
            }
            proof {
                assert(p.edges@.take(i as int) =~= p.edges@);
            }
            Value::List(out)
        },
        _ => Value::Null,
    }
}

/// `coalesce(..)`.
pub fn coalesce(args: &Vec<Value>) -> (r: Value)
    ensures
        r@ == coalesce_value(value_list_view(args@)),
{
    let ghost all = value_list_view(args@);
    proof {
        lemma_value_list_len(args@);
    }
    let mut i: usize = 0;
    proof {
        assert(all.skip(0) =~= all);
    }
    while i < args.len()
        invariant
            i <= args@.len(),
            all == value_list_view(args@),
            all.len() == args@.len(),
            coalesce_value(all) == coalesce_value(all.skip(i as int)),
        decreases args.len() - i,
    {
        proof {
            lemma_value_list_index(args@, i as int);
            assert(all.skip(i as int)[0] == all[i as int]);
            assert(all.skip(i as int).drop_first() =~= all.skip(i + 1));
        }
        match &args[i] {
            Value::Null => {},
            v => {
                return copy_value(v);
            },
        }
        i = i + 1;
    }
    proof {
        assert(all.skip(i as int) =~= Seq::<ValueView>::empty());
    }
    Value::Null
}

/// `reverse(x)`.
pub fn reverse(args: &Vec<Value>) -> (r: Value)
    ensures
        r@ == reverse_value(value_list_view(args@)),
{
    proof {
        lemma_value_list_len(args@);
    }
    if args.len() == 0 {
        return Value::Null;
    }
    proof {
        lemma_value_list_index(args@, 0);
    }
    match &args[0] {
        Value::String(s) => {
            let text = s.as_str();
            let n = text.unicode_len();
            let mut out = String::new();
            let mut i: usize = n;
            while i > 0
                invariant
                    i <= n == text@.len(),
                    text@ == s@,
                    out@ == text@.subrange(i as int, n as int).reverse(),
                decreases i,
            {
                i = i - 1;
                let c = text.substring_char(i, i + 1);
                out.append(c);
                proof {
                    assert(text@.subrange(i as int, n as int).reverse() =~= text@.subrange(i + 1, n as int).reverse()
                        + c@);
                }
            }
            proof {
                assert(text@.subrange(0, n as int) =~= text@);
            }
            Value::String(out)
        },
        Value::List(items) => Value::List(copy_reversed(items)),
        _ => Value::Null,
    }
}


// ---------------------------------------------------------------------------------------
// range
// ---------------------------------------------------------------------------------------

/// How far `cur` is from passing `end` in the direction of `step`.
pub open spec fn range_measure(cur: i64, end: i64, step: i64) -> nat {
    if step > 0 && cur <= end {
        (end - cur + 1) as nat
    } else if step < 0 && cur >= end {
        (cur - end + 1) as nat
    } else {
        0
    }
}

/// The integers from `cur` by `step` that do not pass `end`; the run stops early where the
/// next integer would not fit in an `i64`.
pub open spec fn range_from(cur: i64, end: i64, step: i64) -> Seq<ValueView>
    decreases range_measure(cur, end, step),
{
    if step == 0 || (step > 0 && cur > end) || (step < 0 && cur < end) {
        Seq::empty()
    } else {
        seq![ValueView::Int(cur)] + if i64::MIN <= cur + step <= i64::MAX {
            range_from((cur + step) as i64, end, step)
        } else {
            Seq::empty()
        }
    }
}

/// `range(start, end [, step])`: the step is 1 (or -1 when `start > end`) when not given; a
/// zero step, a missing bound or a bound that is not an integer gives `null`.
pub open spec fn range_value(args: Seq<ValueView>) -> ValueView {
    if args.len() < 2 || args.len() > 3 {
        ValueView::Null
    } else {
        match (args[0], args[1]) {
            (ValueView::Int(start), ValueView::Int(end)) => {
                let step: Option<i64> = if args.len() == 3 {
                    match args[2] {
                        ValueView::Int(v) => Some(v),
                        _ => None,
                    }
                } else if start <= end {
                    Some(1i64)
                } else {
                    Some(-1i64)
                };
                match step {
                    Some(st) => if st == 0 {
                        ValueView::Null
                    } else {
                        ValueView::List(range_from(start, end, st))
                    },
                    None => ValueView::Null,
                }
            },
            _ => ValueView::Null,
        }
    }
}

fn int_list(start: i64, end: i64, step: i64) -> (r: Vec<Value>)
    requires
        step != 0,
    ensures
        value_list_view(r@) == range_from(start, end, step),
{
    let mut out: Vec<Value> = Vec::new();
    let mut cur: i64 = start;
    proof {
        assert(value_list_view(out@) + range_from(cur, end, step) =~= range_from(start, end, step));
    }
    loop
        invariant_except_break
            step != 0,
            value_list_view(out@) + range_from(cur, end, step) == range_from(start, end, step),
        ensures
            value_list_view(out@) == range_from(start, end, step),
        decreases range_measure(cur, end, step),
    {
        if (step > 0 && cur > end) || (step < 0 && cur < end) {
            proof {
                assert(value_list_view(out@) + Seq::<ValueView>::empty() =~= value_list_view(out@));
            }
            break;
        }
        let ghost before = out@;
        let v = Value::Int(cur);
        proof {
            lemma_value_list_push(out@, v);
        }
        out.push(v);
        match cur.checked_add(step) {
            Some(next) => {
                proof {
                    assert(value_list_view(out@) + range_from(next, end, step) =~= value_list_view(before) + range_from(
                        cur,
                        end,
                        step,
                    ));
                }
                cur = next;
            },
            None => {
                proof {
                    assert(value_list_view(out@) =~= value_list_view(before) + range_from(cur, end, step));
                }
                break;
            },
        }
    }
    out
}

/// `range(start, end [, step])`.
pub fn range(args: &Vec<Value>) -> (r: Value)
    ensures
        r@ == range_value(value_list_view(args@)),
{
    proof {
        lemma_value_list_len(args@);
    }
    if args.len() < 2 || args.len() > 3 {
        return Value::Null;
    }
    proof {
        lemma_value_list_index(args@, 0);
        lemma_value_list_index(args@, 1);
        if args.len() == 3 {
            lemma_value_list_index(args@, 2);
        }
    }
    let start = match &args[0] {
        Value::Int(v) => *v,
        _ => {
            return Value::Null;
        },
    };
    let end = match &args[1] {
        Value::Int(v) => *v,
        _ => {
            return Value::Null;
        },
    };
    let step: i64 = if args.len() == 3 {
        match &args[2] {
            Value::Int(v) => *v,
            _ => {
                return Value::Null;
            },
        }
    } else if start <= end {
        1
    } else {
        -1
    };
    if step == 0 {
        return Value::Null;
    }
    Value::List(int_list(start, end, step))
}

// ---------------------------------------------------------------------------------------
// __slice
// ---------------------------------------------------------------------------------------

/// A slice bound: an integer, or absent for `null` and anything else.
pub open spec fn slice_bound(v: ValueView) -> Option<i64> {
    match v {
        ValueView::Int(i) => Some(i),
        _ => None,
    }
}

pub open spec fn clamp_int(x: int, lo: int, hi: int) -> int {
    if x < lo {
        lo
    } else if x > hi {
        hi
    } else {
        x
    }
}

/// A bound of a slice of a sequence of length `len`: a negative one counts from the end,
/// both are clamped to `0..=len`, and an absent one is `default`.
pub open spec fn slice_position(b: Option<i64>, default: int, len: int) -> int {
    match b {
        Some(i) => if i < 0 {
            clamp_int(len + i, 0, len)
        } else {
            clamp_int(i as int, 0, len)
        },
        None => default,
    }
}

pub open spec fn slice_of<A>(s: Seq<A>, start: Option<i64>, end: Option<i64>) -> Seq<A> {
    let from = slice_position(start, 0, s.len() as int);
    let to = slice_position(end, s.len() as int, s.len() as int);
    if to < from {
        Seq::empty()
    } else {
        s.subrange(from, to)
    }
}

/// `list[from..to]` and `string[from..to]` (`__slice(x, from, to)`).
pub open spec fn slice_value(args: Seq<ValueView>) -> ValueView {
    if args.len() != 3 {
        ValueView::Null
    } else {
        match args[0] {
            ValueView::List(items) => ValueView::List(slice_of(items, slice_bound(args[1]), slice_bound(args[2]))),
            ValueView::String(s) => ValueView::String(slice_of(s, slice_bound(args[1]), slice_bound(args[2]))),
            _ => ValueView::Null,
        }
    }
}

fn slice_bound_of(v: &Value) -> (r: Option<i64>)
    ensures
        r == slice_bound(v@),
{
    match v {
        Value::Int(i) => Some(*i),
        _ => None,
    }
}

fn slice_position_of(b: Option<i64>, default: usize, len: usize) -> (r: usize)
    requires
        default <= len,
    ensures
        r == slice_position(b, default as int, len as int),
        r <= len,
{
    match b {
        Some(i) => {
            let l = len as i128;
            let x: i128 = if i < 0 { l + i as i128 } else { i as i128 };
            if x < 0 {
                0
            } else if x > l {
                len
            } else {
                x as usize
            }
        },
        None => default,
    }
}

/// `__slice(x, from, to)`.
pub fn slice(args: &Vec<Value>) -> (r: Value)
    ensures
        r@ == slice_value(value_list_view(args@)),
{
    proof {
        lemma_value_list_len(args@);
    }
    if args.len() != 3 {
        return Value::Null;
    }
    proof {
        lemma_value_list_index(args@, 0);
        lemma_value_list_index(args@, 1);
        lemma_value_list_index(args@, 2);
    }
    let start = slice_bound_of(&args[1]);
    let end = slice_bound_of(&args[2]);
    match &args[0] {
        Value::List(items) => {
            proof {
                lemma_value_list_len(items@);
            }
            let from = slice_position_of(start, 0, items.len());
            let to = slice_position_of(end, items.len(), items.len());
            if to < from {
                let empty: Vec<Value> = Vec::new();
                proof {
                    assert(value_list_view(empty@) =~= Seq::<ValueView>::empty());
                }
                Value::List(empty)
            } else {
                Value::List(copy_range(items, from, to))
            }
        },
        Value::String(s) => {
            let text = s.as_str();
            let n = text.unicode_len();
            let from = slice_position_of(start, 0, n);
            let to = slice_position_of(end, n, n);
            if to < from {
                Value::String(String::new())
            } else {
                Value::String(String::from_str(text.substring_char(from, to)))
            }
        },
        _ => Value::Null,
    }
}

// ---------------------------------------------------------------------------------------
// keys
// ---------------------------------------------------------------------------------------

/// The keys of map entries, as string values, in entry order.
pub open spec fn entry_keys<V>(m: Seq<(Seq<char>, V)>) -> Seq<ValueView> {
    m.map_values(|e: (Seq<char>, V)| ValueView::String(e.0))
}

/// `keys(x)`: the keys of a map or of the properties of a node or relationship, in their
/// stored order; those of a node id or relationship key are read from the snapshot (none when
/// it has no properties for it).
pub open spec fn keys_value<S: GraphSnapshot>(args: Seq<ValueView>, s: &S) -> ValueView {
    match first_arg(args) {
        ValueView::Dict(m) => ValueView::List(entry_keys(m)),
        ValueView::Node(n) => ValueView::List(entry_keys(n.properties)),
        ValueView::Relationship(r) => ValueView::List(entry_keys(r.properties)),
        ValueView::NodeId(id) => ValueView::List(
            match s.node_props(id) {
                Some(p) => entry_keys(p),
                None => Seq::empty(),
            },
        ),
        ValueView::EdgeKey(k) => ValueView::List(
            match s.edge_props(k) {
                Some(p) => entry_keys(p),
                None => Seq::empty(),
            },
        ),
        _ => ValueView::Null,
    }
}

proof fn lemma_value_dict_index(s: Seq<(String, Value)>, i: int)
    requires
        0 <= i < s.len(),
    ensures
        value_dict_view(s).len() == s.len(),
        value_dict_view(s)[i] == (s[i].0@, value_view(s[i].1)),
    decreases s.len(),
{
    lemma_value_dict_len(s);
    if i > 0 {
        lemma_value_dict_index(s.drop_first(), i - 1);
    }
}

proof fn lemma_api_dict_index(s: Seq<(String, PropertyValue)>, i: int)
    requires
        0 <= i < s.len(),
    ensures
        api_dict_view(s).len() == s.len(),
        api_dict_view(s)[i].0 == s[i].0@,
    decreases s.len(),
{
    lemma_api_dict_len(s);
    if i > 0 {
        lemma_api_dict_index(s.drop_first(), i - 1);
    }
}

proof fn lemma_api_dict_len(s: Seq<(String, PropertyValue)>)
    ensures
        api_dict_view(s).len() == s.len(),
    decreases s.len(),
{
    if s.len() > 0 {
        lemma_api_dict_len(s.drop_first());
    }
}

fn value_keys(entries: &Vec<(String, Value)>) -> (r: Vec<Value>)
    ensures
        value_list_view(r@) == entry_keys(value_dict_view(entries@)),
{
    let mut out: Vec<Value> = Vec::new();
    let mut i: usize = 0;
    proof {
        lemma_value_dict_len(entries@);
        assert(value_list_view(out@) =~= entry_keys(value_dict_view(entries@)).take(0));
    }
    while i < entries.len()
        invariant
            i <= entries@.len() == value_dict_view(entries@).len(),
            value_list_view(out@) == entry_keys(value_dict_view(entries@)).take(i as int),
        decreases entries.len() - i,
    {
        let v = Value::String(entries[i].0.clone());
        proof {
            lemma_value_list_push(out@, v);
            lemma_value_dict_index(entries@, i as int);
        }
        out.push(v);
        proof {
            assert(value_list_view(out@) =~= entry_keys(value_dict_view(entries@)).take(i + 1));
        }
        i = i + 1;
    }
    proof {
        assert(entry_keys(value_dict_view(entries@)).take(i as int) =~= entry_keys(value_dict_view(entries@)));
    }
    out
}

fn property_keys(entries: &Vec<(String, PropertyValue)>) -> (r: Vec<Value>)
    ensures
        value_list_view(r@) == entry_keys(api_dict_view(entries@)),
{
    let mut out: Vec<Value> = Vec::new();
    let mut i: usize = 0;
    proof {
        lemma_api_dict_len(entries@);
        assert(value_list_view(out@) =~= entry_keys(api_dict_view(entries@)).take(0));
    }
    while i < entries.len()
        invariant
            i <= entries@.len() == api_dict_view(entries@).len(),
            value_list_view(out@) == entry_keys(api_dict_view(entries@)).take(i as int),
        decreases entries.len() - i,
    {
        let v = Value::String(entries[i].0.clone());
        proof {
            lemma_value_list_push(out@, v);
            lemma_api_dict_index(entries@, i as int);
        }
        out.push(v);
        proof {
            assert(value_list_view(out@) =~= entry_keys(api_dict_view(entries@)).take(i + 1));
        }
        i = i + 1;
    }
    proof {
        assert(entry_keys(api_dict_view(entries@)).take(i as int) =~= entry_keys(api_dict_view(entries@)));
    }
    out
}

/// `keys(x)`.
pub fn keys<S: GraphSnapshot>(args: &Vec<Value>, snapshot: &S) -> (r: Value)
    ensures
        r@ == keys_value(value_list_view(args@), snapshot),
{
    proof {
        lemma_value_list_len(args@);
    }
    if args.len() == 0 {
        return Value::Null;
    }
    proof {
        lemma_value_list_index(args@, 0);
    }
    let empty: Vec<Value> = Vec::new();
    proof {
        assert(value_list_view(empty@) =~= Seq::<ValueView>::empty());
    }
    match &args[0] {
        Value::Dict(entries) => Value::List(value_keys(entries)),
        Value::Node(n) => Value::List(value_keys(&n.properties)),
        Value::Relationship(r) => Value::List(value_keys(&r.properties)),
        Value::NodeId(id) => match snapshot.node_properties(*id) {
            Some(props) => Value::List(property_keys(&props)),
            None => Value::List(empty),
        },
        Value::EdgeKey(k) => match snapshot.edge_properties(*k) {
            Some(props) => Value::List(property_keys(&props)),
            None => Value::List(empty),
        },
        _ => Value::Null,
    }
}

// ---------------------------------------------------------------------------------------
// properties
// ---------------------------------------------------------------------------------------

/// `properties(x)`: a map, or the properties of a node or relationship as a map; those of a
/// node id or relationship key are read from the snapshot (`null` when it has none).
pub open spec fn properties_value<S: GraphSnapshot>(args: Seq<ValueView>, s: &S) -> ValueView {
    match first_arg(args) {
        ValueView::Dict(m) => ValueView::Dict(m),
        ValueView::Node(n) => ValueView::Dict(n.properties),
        ValueView::Relationship(r) => ValueView::Dict(r.properties),
        ValueView::NodeId(id) => match s.node_props(id) {
            Some(p) => ValueView::Dict(prop_dict_to_value(p)),
            None => ValueView::Null,
        },
        ValueView::EdgeKey(k) => match s.edge_props(k) {
            Some(p) => ValueView::Dict(prop_dict_to_value(p)),
            None => ValueView::Null,
        },
        _ => ValueView::Null,
    }
}

/// `properties(x)`.
pub fn properties<S: GraphSnapshot>(args: &Vec<Value>, snapshot: &S) -> (r: Value)
    ensures
        r@ == properties_value(value_list_view(args@), snapshot),
{
    proof {
        lemma_value_list_len(args@);
    }
    if args.len() == 0 {
        return Value::Null;
    }
    proof {
        lemma_value_list_index(args@, 0);
    }
    match &args[0] {
        Value::Dict(entries) => Value::Dict(copy_value_dict(entries)),
        Value::Node(n) => Value::Dict(copy_value_dict(&n.properties)),
        Value::Relationship(r) => Value::Dict(copy_value_dict(&r.properties)),
        Value::NodeId(id) => match snapshot.node_properties(*id) {
            Some(props) => Value::Dict(api_dict_to_values(&props)),
            None => Value::Null,
        },
        Value::EdgeKey(k) => match snapshot.edge_properties(*k) {
            Some(props) => Value::Dict(api_dict_to_values(&props)),
            None => Value::Null,
        },
        _ => Value::Null,
    }
}

// ---------------------------------------------------------------------------------------
// Graph functions
// ---------------------------------------------------------------------------------------

/// `startNode(r)`: the start node of a relationship, as the row holds it or as read from the
/// snapshot (see `materialized_node`).
pub open spec fn start_node_value<S: GraphSnapshot>(args: Seq<ValueView>, cols: Seq<(Seq<char>, ValueView)>, s: &S) -> ValueView {
    match first_arg(args) {
        ValueView::EdgeKey(k) => materialized_node(cols, s, k.src),
        ValueView::Relationship(r) => materialized_node(cols, s, r.key.src),
        _ => ValueView::Null,
    }
}

/// `endNode(r)`: the end node of a relationship.
pub open spec fn end_node_value<S: GraphSnapshot>(args: Seq<ValueView>, cols: Seq<(Seq<char>, ValueView)>, s: &S) -> ValueView {
    match first_arg(args) {
        ValueView::EdgeKey(k) => materialized_node(cols, s, k.dst),
        ValueView::Relationship(r) => materialized_node(cols, s, r.key.dst),
        _ => ValueView::Null,
    }
}

/// `labels(n)`: the label names of a node; those of a node id are the names the snapshot
/// knows (`null` when it has no labels entry for the node).
pub open spec fn labels_value<S: GraphSnapshot>(args: Seq<ValueView>, s: &S) -> ValueView {
    match first_arg(args) {
        ValueView::NodeId(id) => match s.labels_of(id) {
            Some(ids) => ValueView::List(named_labels(s, ids).map_values(|n: Seq<char>| ValueView::String(n))),
            None => ValueView::Null,
        },
        ValueView::Node(n) => ValueView::List(n.labels.map_values(|l: Seq<char>| ValueView::String(l))),
        _ => ValueView::Null,
    }
}

/// `type(r)`: the type name of a relationship key (see `rel_type_text`).
pub open spec fn type_value<S: GraphSnapshot>(args: Seq<ValueView>, s: &S) -> ValueView {
    match first_arg(args) {
        ValueView::EdgeKey(k) => ValueView::String(rel_type_text(s, k.rel)),
        _ => ValueView::Null,
    }
}

/// `id(x)`: the internal id of a node id, and the start node's id for a relationship key.
pub open spec fn id_value(args: Seq<ValueView>) -> ValueView {
    match first_arg(args) {
        ValueView::NodeId(id) => ValueView::Int(id as i64),
        ValueView::EdgeKey(k) => ValueView::Int(k.src as i64),
        _ => ValueView::Null,
    }
}

fn string_list(names: &Vec<String>) -> (r: Vec<Value>)
    ensures
        value_list_view(r@) == labels_view(names@).map_values(|n: Seq<char>| ValueView::String(n)),
{
    let mut out: Vec<Value> = Vec::new();
    let mut i: usize = 0;
    let ghost target = labels_view(names@).map_values(|n: Seq<char>| ValueView::String(n));
    proof {
        assert(value_list_view(out@) =~= target.take(0));
    }
    while i < names.len()
        invariant
            i <= names@.len(),
            target == labels_view(names@).map_values(|n: Seq<char>| ValueView::String(n)),
            target.len() == names@.len(),
            value_list_view(out@) == target.take(i as int),
        decreases names.len() - i,
    {
        let v = Value::String(names[i].clone());
        proof {
            lemma_value_list_push(out@, v);
        }
        out.push(v);
        proof {
            assert(value_list_view(out@) =~= target.take(i + 1));
        }
        i = i + 1;
    }
    proof {
        assert(target.take(i as int) =~= target);
    }
    out
}

/// `startNode(r)`.
pub fn start_node<S: GraphSnapshot>(args: &Vec<Value>, row: &Row, snapshot: &S) -> (r: Value)
    ensures
        r@ == start_node_value(value_list_view(args@), row@, snapshot),
{
    proof {
        lemma_value_list_len(args@);
    }
    if args.len() == 0 {
        return Value::Null;
    }
    proof {
        lemma_value_list_index(args@, 0);
    }
    match &args[0] {
        Value::EdgeKey(k) => materialize_node_from_row_or_snapshot(row, snapshot, k.src),
        Value::Relationship(rel) => materialize_node_from_row_or_snapshot(row, snapshot, rel.key.src),
        _ => Value::Null,
    }
}

/// `endNode(r)`.
pub fn end_node<S: GraphSnapshot>(args: &Vec<Value>, row: &Row, snapshot: &S) -> (r: Value)
    ensures
        r@ == end_node_value(value_list_view(args@), row@, snapshot),
{
    proof {
        lemma_value_list_len(args@);
    }
    if args.len() == 0 {
        return Value::Null;
    }
    proof {
        lemma_value_list_index(args@, 0);
    }
    match &args[0] {
        Value::EdgeKey(k) => materialize_node_from_row_or_snapshot(row, snapshot, k.dst),
        Value::Relationship(rel) => materialize_node_from_row_or_snapshot(row, snapshot, rel.key.dst),
        _ => Value::Null,
    }
}

/// `labels(n)`.
pub fn labels<S: GraphSnapshot>(args: &Vec<Value>, snapshot: &S) -> (r: Value)
    ensures
        r@ == labels_value(value_list_view(args@), snapshot),
{
    proof {
        lemma_value_list_len(args@);
    }
    if args.len() == 0 {
        return Value::Null;
    }
    proof {
        lemma_value_list_index(args@, 0);
    }
    match &args[0] {
        Value::NodeId(id) => match snapshot.resolve_node_labels(*id) {
            Some(ids) => Value::List(string_list(&label_names(snapshot, &ids))),
            None => Value::Null,
        },
        Value::Node(n) => Value::List(string_list(&n.labels)),
        _ => Value::Null,
    }
}

/// `type(r)`.
pub fn rel_type<S: GraphSnapshot>(args: &Vec<Value>, snapshot: &S) -> (r: Value)
    ensures
        r@ == type_value(value_list_view(args@), snapshot),
{
    proof {
        lemma_value_list_len(args@);
    }
    if args.len() == 0 {
        return Value::Null;
    }
    proof {
        lemma_value_list_index(args@, 0);
    }
    match &args[0] {
        Value::EdgeKey(k) => Value::String(rel_type_string(snapshot, k.rel)),
        _ => Value::Null,
    }
}

/// `id(x)`.
pub fn id(args: &Vec<Value>) -> (r: Value)
    ensures
        r@ == id_value(value_list_view(args@)),
{
    proof {
        lemma_value_list_len(args@);
    }
    if args.len() == 0 {
        return Value::Null;
    }
    proof {
        lemma_value_list_index(args@, 0);
    }
    match &args[0] {
        Value::NodeId(id) => Value::Int(*id as i64),
        Value::EdgeKey(k) => Value::Int(k.src as i64),
        _ => Value::Null,
    }
}

// ---------------------------------------------------------------------------------------
// String functions
// ---------------------------------------------------------------------------------------

/// The trimming functions: `trim`, `ltrim` and `rtrim`.
pub enum TrimSide {
    Both,
    Start,
    End,
}

/// A string with the whitespace (`char::is_whitespace`) at its start, its end or both removed.
pub open spec fn trimmed(side: TrimSide, s: Seq<char>) -> Seq<char> {
    match side {
        TrimSide::Both => trim_end_spec(trim_start_spec(s)),
        TrimSide::Start => trim_start_spec(s),
        TrimSide::End => trim_end_spec(s),
    }
}

/// `trim(s)`, `ltrim(s)`, `rtrim(s)`: `null` for anything but a string.
pub open spec fn trim_value(side: TrimSide, args: Seq<ValueView>) -> ValueView {
    match first_arg(args) {
        ValueView::String(s) => ValueView::String(trimmed(side, s)),
        _ => ValueView::Null,
    }
}

/// `toLower(s)`: the string's Unicode lower-case mapping (see `unicode_lowercase`).
pub open spec fn to_lower_value(args: Seq<ValueView>) -> ValueView {
    match first_arg(args) {
        ValueView::String(s) => ValueView::String(unicode_lowercase(s)),
        _ => ValueView::Null,
    }
}

/// `toUpper(s)`: the string's Unicode upper-case mapping (see `unicode_uppercase`).
pub open spec fn to_upper_value(args: Seq<ValueView>) -> ValueView {
    match first_arg(args) {
        ValueView::String(s) => ValueView::String(unicode_uppercase(s)),
        _ => ValueView::Null,
    }
}

/// The number of whitespace characters that `s` ends with.
fn trailing_ws_count(s: &str, n: usize) -> (r: usize)
    requires
        n == s@.len(),
    ensures
        r == trailing_ws(s@),
        r <= n,
{
    let mut k: usize = n;
    proof {
        assert(s@.take(n as int) =~= s@);
    }
    while k > 0 && is_whitespace(s.get_char(k - 1))
        invariant
            n == s@.len(),
            k <= n,
            trailing_ws(s@) == (n - k) + trailing_ws(s@.take(k as int)),
        decreases k,
    {
        proof {
            assert(s@.take(k as int).drop_last() =~= s@.take(k - 1));
            assert(s@.take(k as int).last() == s@[k - 1]);
        }
        k = k - 1;
    }
    proof {
        assert(trailing_ws(s@.take(k as int)) == 0) by {
            if k > 0 {
                assert(s@.take(k as int).last() == s@[k - 1]);
            }
        }
    }
    n - k
}

fn trim_text(side: &TrimSide, s: &str) -> (r: String)
    ensures
        r@ == trimmed(*side, s@),
{
    let n = s.unicode_len();
    let start = match side {
        TrimSide::End => 0,
        _ => skip_ws(s, n, 0),
    };
    proof {
        assert(s@.skip(0) =~= s@);
        assert(trim_start_spec(s@) =~= s@.skip(leading_ws(s@) as int));
    }
    let t = s.substring_char(start, n);
    let m = n - start;
    let end = match side {
        TrimSide::Start => m,
        _ => m - trailing_ws_count(t, m),
    };
    let r = String::from_str(t.substring_char(0, end));
    proof {
        assert(t@ =~= s@.skip(start as int));
        assert(r@ =~= t@.take(end as int));
        match side {
            TrimSide::Start => {
                assert(t@.take(end as int) =~= t@);
            },
            _ => {},
        }
    }
    r
}

/// `trim(s)`, `ltrim(s)` or `rtrim(s)`.
pub fn trim(side: TrimSide, args: &Vec<Value>) -> (r: Value)
    ensures
        r@ == trim_value(side, value_list_view(args@)),
{
    proof {
        lemma_value_list_len(args@);
    }
    if args.len() == 0 {
        return Value::Null;
    }
    proof {
        lemma_value_list_index(args@, 0);
    }
    match &args[0] {
        Value::String(s) => Value::String(trim_text(&side, s.as_str())),
        _ => Value::Null,
    }
}

/// `toLower(s)`.
pub fn to_lower(args: &Vec<Value>) -> (r: Value)
    ensures
        r@ == to_lower_value(value_list_view(args@)),
{
    proof {
        lemma_value_list_len(args@);
    }
    if args.len() == 0 {
        return Value::Null;
    }
    proof {
        lemma_value_list_index(args@, 0);
    }
    match &args[0] {
        Value::String(s) => Value::String(to_lowercase(s.as_str())),
        _ => Value::Null,
    }
}

/// Reversing a string or a list twice gives it back.
pub proof fn law_reverse_twice(x: ValueView)
    requires
        x is String || x is List,
    ensures
        reverse_value(seq![reverse_value(seq![x])]) == x,
{
    match x {
        ValueView::String(s) => {
            assert(s.reverse().reverse() =~= s);
        },
        ValueView::List(l) => {
            assert(l.reverse().reverse() =~= l);
        },
        _ => {},
    }
}

/// `range(start, end)` with `start <= end` counts up by one from `start` to `end`: it has
/// `end - start + 1` elements, the `i`-th being `start + i`.
pub proof fn law_range_counts_up(start: i64, end: i64, i: int)
    requires
        start <= end,
        0 <= i <= end - start,
    ensures
        range_from(start, end, 1).len() == end - start + 1,
        range_from(start, end, 1)[i] == ValueView::Int((start + i) as i64),
    decreases end - start,
{
    if start < end {
        if i > 0 {
            law_range_counts_up((start + 1) as i64, end, i - 1);
        } else {
            law_range_counts_up((start + 1) as i64, end, 0);
        }
    } else if start + 1 <= i64::MAX {
        assert(range_from((start + 1) as i64, end, 1) =~= Seq::<ValueView>::empty());
    }
}

/// `toUpper(s)`.
pub fn to_upper(args: &Vec<Value>) -> (r: Value)
    ensures
        r@ == to_upper_value(value_list_view(args@)),
{
    proof {
        lemma_value_list_len(args@);
    }
    if args.len() == 0 {
        return Value::Null;
    }
    proof {
        lemma_value_list_index(args@, 0);
    }
    match &args[0] {
        Value::String(s) => Value::String(to_uppercase(s.as_str())),
        _ => Value::Null,
    }
}

/// `size` counts the entries of a map, as it counts the elements of a list and the
/// characters of a string: the size of a map equals the size of the list of its keys, and
/// the size of a node's properties that of the list of the node's keys.
pub proof fn law_size_counts_entries<S: GraphSnapshot>(
    m: Seq<(Seq<char>, ValueView)>,
    l: Seq<ValueView>,
    t: Seq<char>,
    n: crate::query::value::NodeView,
    s: &S,
)
    ensures
        size_value(seq![ValueView::Dict(m)]) == ValueView::Int(m.len() as i64),
        size_value(seq![ValueView::Dict(m)]) == size_value(seq![keys_value(seq![ValueView::Dict(m)], s)]),
        size_value(seq![properties_value(seq![ValueView::Node(n)], s)]) == size_value(
            seq![keys_value(seq![ValueView::Node(n)], s)],
        ),
        size_value(seq![ValueView::List(l)]) == ValueView::Int(l.len() as i64),
        size_value(seq![ValueView::String(t)]) == ValueView::Int(t.len() as i64),
{
}

/// A non-empty list is its head followed by its tail, and its last element is the head of
/// the list reversed; an empty list has no head, last element or tail elements.
pub proof fn law_head_tail_last(l: Seq<ValueView>)
    ensures
        l.len() > 0 ==> tail_value(seq![ValueView::List(l)]) == ValueView::List(l.drop_first())
            && seq![head_value(seq![ValueView::List(l)])] + l.drop_first() == l,
        l.len() > 0 ==> last_value(seq![ValueView::List(l)]) == head_value(
            seq![reverse_value(seq![ValueView::List(l)])],
        ),
        l.len() == 0 ==> head_value(seq![ValueView::List(l)]) == ValueView::Null && last_value(
            seq![ValueView::List(l)],
        ) == ValueView::Null && tail_value(seq![ValueView::List(l)]) == ValueView::List(Seq::empty()),
{
    if l.len() > 0 {
        assert(seq![l[0]] + l.drop_first() =~= l);
        assert(l.subrange(1, l.len() as int) =~= l.drop_first());
        if l.len() == 1 {
            assert(l.drop_first() =~= Seq::<ValueView>::empty());
        }
    }
}

/// `coalesce` gives `null` exactly when every argument is `null`; otherwise it gives one of
/// the arguments that is not `null`, and every argument before it is `null`.
pub proof fn law_coalesce_first_present(args: Seq<ValueView>)
    ensures
        (coalesce_value(args) is Null) <==> (forall|i: int| 0 <= i < args.len() ==> #[trigger] args[i] is Null),
        !(coalesce_value(args) is Null) ==> exists|i: int|
            0 <= i < args.len() && #[trigger] args[i] == coalesce_value(args) && forall|j: int|
                0 <= j < i ==> #[trigger] args[j] is Null,
    decreases args.len(),
{
    if args.len() > 0 {
        let rest = args.drop_first();
        law_coalesce_first_present(rest);
        assert forall|i: int| 0 < i < args.len() implies args[i] == rest[i - 1] by {}
        if args[0] is Null {
            if !(coalesce_value(args) is Null) {
                let k = choose|k: int|
                    0 <= k < rest.len() && #[trigger] rest[k] == coalesce_value(rest) && forall|j: int|
                        0 <= j < k ==> #[trigger] rest[j] is Null;
                assert(args[k + 1] == rest[k]);
                assert forall|j: int| 0 <= j < k + 1 implies #[trigger] args[j] is Null by {
                    if j > 0 {
                        assert(args[j] == rest[j - 1]);
                    }
                }
            }
            if forall|i: int| 0 <= i < rest.len() ==> #[trigger] rest[i] is Null {
                assert forall|i: int| 0 <= i < args.len() implies #[trigger] args[i] is Null by {
                    if i > 0 {
                        assert(args[i] == rest[i - 1]);
                    }
                }
            }
            if forall|i: int| 0 <= i < args.len() ==> #[trigger] args[i] is Null {
                assert forall|i: int| 0 <= i < rest.len() implies #[trigger] rest[i] is Null by {
                    assert(rest[i] == args[i + 1]);
                }
            }
        } else {
            assert(args[0] == coalesce_value(args));
        }
    }
}

// ---------------------------------------------------------------------------------------
// Dispatch by name
// ---------------------------------------------------------------------------------------

/// The value of the built-in function `name` (lower-cased) applied to `args` in a row with
/// columns `cols`, when it is one of the functions of this module; `None` for any other name.
pub open spec fn builtin_function_value<S: GraphSnapshot>(
    name: Seq<char>,
    args: Seq<ValueView>,
    cols: Seq<(Seq<char>, ValueView)>,
    s: &S,
) -> Option<ValueView> {
    if name == "head"@ {
        Some(head_value(args))
    } else if name == "last"@ {
        Some(last_value(args))
    } else if name == "tail"@ {
        Some(tail_value(args))
    } else if name == "size"@ {
        Some(size_value(args))
    } else if name == "length"@ {
        Some(length_value(args))
    } else if name == "nodes"@ {
        Some(nodes_value(args))
    } else if name == "relationships"@ {
        Some(relationships_value(args))
    } else if name == "coalesce"@ {
        Some(coalesce_value(args))
    } else if name == "reverse"@ {
        Some(reverse_value(args))
    } else if name == "range"@ {
        Some(range_value(args))
    } else if name == "__slice"@ {
        Some(slice_value(args))
    } else if name == "keys"@ {
        Some(keys_value(args, s))
    } else if name == "properties"@ {
        Some(properties_value(args, s))
    } else if name == "startnode"@ {
        Some(start_node_value(args, cols, s))
    } else if name == "endnode"@ {
        Some(end_node_value(args, cols, s))
    } else if name == "labels"@ {
        Some(labels_value(args, s))
    } else if name == "type"@ {
        Some(type_value(args, s))
    } else if name == "id"@ {
        Some(id_value(args))
    } else if name == "tolower"@ {
        Some(to_lower_value(args))
    } else if name == "toupper"@ {
        Some(to_upper_value(args))
    } else if name == "trim"@ {
        Some(trim_value(TrimSide::Both, args))
    } else if name == "ltrim"@ {
        Some(trim_value(TrimSide::Start, args))
    } else if name == "rtrim"@ {
        Some(trim_value(TrimSide::End, args))
    } else {
        None
    }
}

/// Applies the built-in function named `lower_name` (already lower-cased) to evaluated
/// arguments when it is one of the functions of this module, and gives `None` for any other
/// name.
pub fn evaluate_builtin_function<S: GraphSnapshot>(lower_name: &str, args: &Vec<Value>, row: &Row, snapshot: &S) -> (r:
    Option<Value>)
    ensures
        match r {
            Some(v) => builtin_function_value(lower_name@, value_list_view(args@), row@, snapshot) == Some(v@),
            None => builtin_function_value(lower_name@, value_list_view(args@), row@, snapshot) is None,
        },
{
    if str_equal(lower_name, "head") {
        Some(head(args))
    } else if str_equal(lower_name, "last") {
        Some(last(args))
    } else if str_equal(lower_name, "tail") {
        Some(tail(args))
    } else if str_equal(lower_name, "size") {
        Some(size(args))
    } else if str_equal(lower_name, "length") {
        Some(length(args))
    } else if str_equal(lower_name, "nodes") {
        Some(nodes(args))
    } else if str_equal(lower_name, "relationships") {
        Some(relationships(args))
    } else if str_equal(lower_name, "coalesce") {
        Some(coalesce(args))
    } else if str_equal(lower_name, "reverse") {
        Some(reverse(args))
    } else if str_equal(lower_name, "range") {
        Some(range(args))
    } else if str_equal(lower_name, "__slice") {
        Some(slice(args))
    } else if str_equal(lower_name, "keys") {
        Some(keys(args, snapshot))
    } else if str_equal(lower_name, "properties") {
        Some(properties(args, snapshot))
    } else if str_equal(lower_name, "startnode") {
        Some(start_node(args, row, snapshot))
    } else if str_equal(lower_name, "endnode") {
        Some(end_node(args, row, snapshot))
    } else if str_equal(lower_name, "labels") {
        Some(labels(args, snapshot))
    } else if str_equal(lower_name, "type") {
        Some(rel_type(args, snapshot))
    } else if str_equal(lower_name, "id") {
        Some(id(args))
    } else if str_equal(lower_name, "tolower") {
        Some(to_lower(args))
    } else if str_equal(lower_name, "toupper") {
        Some(to_upper(args))
    } else if str_equal(lower_name, "trim") {
        Some(trim(TrimSide::Both, args))
    } else if str_equal(lower_name, "ltrim") {
        Some(trim(TrimSide::Start, args))
    } else if str_equal(lower_name, "rtrim") {
        Some(trim(TrimSide::End, args))
    } else {
        None
    }
}

/// As `evaluate_builtin_function`, for the name as written in the query: names are matched
/// without case, after `str::to_lowercase`.
pub fn evaluate_named_function<S: GraphSnapshot>(name: &str, args: &Vec<Value>, row: &Row, snapshot: &S) -> (r: Option<
    Value,
>)
    ensures
        match r {
            Some(v) => builtin_function_value(unicode_lowercase(name@), value_list_view(args@), row@, snapshot) == Some(v@),
            None => builtin_function_value(unicode_lowercase(name@), value_list_view(args@), row@, snapshot) is None,
        },
{
    let lower = to_lowercase(name);
    evaluate_builtin_function(lower.as_str(), args, row, snapshot)
}

} // verus!
