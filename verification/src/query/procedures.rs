//! The built-in procedures that CALL can invoke, found by name.
use crate::query::value::{cols_get, cols_with, copy_value, value_dict_view, value_view, Row, Value, ValueView};
use crate::text::str_equal;
use vstd::prelude::*;

verus! {

/// A built-in procedure.
#[derive(Debug, Clone, Copy, PartialEq, Eq, Structural)]
pub enum BuiltinProcedure {
    /// `db.info`: one row with the engine version.
    DbInfo,
    /// `math.add`: the sum of its two numeric arguments.
    MathAdd,
}

/// The registry of procedures by name.
pub struct ProcedureRegistry {
    handlers: Vec<(String, BuiltinProcedure)>,
}

/// The procedure registered under a name.
pub open spec fn procedure_named(name: Seq<char>) -> Option<BuiltinProcedure> {
    if name == "db.info"@ {
        Some(BuiltinProcedure::DbInfo)
    } else if name == "math.add"@ {
        Some(BuiltinProcedure::MathAdd)
    } else {
        None
    }
}

impl ProcedureRegistry {
    pub closed spec fn wf(&self) -> bool {
        self.handlers@.len() == 2
            && self.handlers@[0].0@ == "db.info"@ && self.handlers@[0].1 == BuiltinProcedure::DbInfo
            && self.handlers@[1].0@ == "math.add"@ && self.handlers@[1].1 == BuiltinProcedure::MathAdd
    }

    /// The registry with the built-in procedures.
    pub fn new() -> (r: ProcedureRegistry)
        ensures
            r.wf(),
    {
        let mut handlers: Vec<(String, BuiltinProcedure)> = Vec::new();
        handlers.push((String::from_str("db.info"), BuiltinProcedure::DbInfo));
        handlers.push((String::from_str("math.add"), BuiltinProcedure::MathAdd));
        ProcedureRegistry { handlers }
    }

    /// The procedure registered under `name`, if any.
    pub fn get(&self, name: &str) -> (r: Option<BuiltinProcedure>)
        requires
            self.wf(),
        ensures
            r == procedure_named(name@),
    {
        let mut i: usize = 0;
        while i < self.handlers.len()
            invariant
                self.wf(),
                i <= self.handlers@.len(),
                forall|j: int| 0 <= j < i ==> #[trigger] self.handlers@[j].0@ != name@,
            decreases self.handlers@.len() - i,
        {
            if str_equal(self.handlers[i].0.as_str(), name) {
                return Some(self.handlers[i].1);
            }
            i = i + 1;
        }
        proof {
            assert(self.handlers@[0].0@ != name@);
            assert(self.handlers@[1].0@ != name@);
        }
        None
    }
}

/// The YIELD items of a procedure call: each field with its alias, if any.
pub open spec fn yields_view(yields: Seq<(String, Option<String>)>) -> Seq<(Seq<char>, Option<Seq<char>>)> {
    yields.map_values(
        |y: (String, Option<String>)|
            (
                y.0@,
                match y.1 {
                    Some(a) => Some(a@),
                    None => None,
                },
            ),
    )
}

/// `base` with each column of `cols` set in turn.
pub open spec fn with_all(base: Seq<(Seq<char>, ValueView)>, cols: Seq<(Seq<char>, ValueView)>) -> Seq<(Seq<char>, ValueView)>
    decreases cols.len(),
{
    if cols.len() == 0 {
        base
    } else {
        with_all(cols_with(base, cols[0].0, cols[0].1), cols.drop_first())
    }
}

/// `base` with each YIELD field that `proc_row` has set in turn, under its alias when it
/// has one.
pub open spec fn with_yields(
    base: Seq<(Seq<char>, ValueView)>,
    proc_row: Seq<(Seq<char>, ValueView)>,
    yields: Seq<(Seq<char>, Option<Seq<char>>)>,
) -> Seq<(Seq<char>, ValueView)>
    decreases yields.len(),
{
    if yields.len() == 0 {
        base
    } else {
        let field = yields[0].0;
        let name = match yields[0].1 {
            Some(a) => a,
            None => field,
        };
        let next = match cols_get(proc_row, field) {
            Some(v) => cols_with(base, name, v),
            None => base,
        };
        with_yields(next, proc_row, yields.drop_first())
    }
}

/// The row that a procedure call gives for one row of the procedure: the input row with
/// every column of the procedure's row when the call has no YIELD items, or else with the
/// yielded fields.
pub open spec fn procedure_join(
    outer: Seq<(Seq<char>, ValueView)>,
    proc_row: Seq<(Seq<char>, ValueView)>,
    yields: Seq<(Seq<char>, Option<Seq<char>>)>,
) -> Seq<(Seq<char>, ValueView)> {
    if yields.len() == 0 {
        with_all(outer, proc_row)
    } else {
        with_yields(outer, proc_row, yields)
    }
}

/// The row that a procedure call gives for the row `proc_row` of the procedure, on top of
/// the input row `outer` (see `procedure_join`).
pub fn join_procedure_row(outer: &Row, proc_row: &Row, yields: &Vec<(String, Option<String>)>) -> (r: Row)
    ensures
        r@ == procedure_join(outer@, proc_row@, yields_view(yields@)),
{
    let mut joined = outer.duplicate();
    if yields.len() == 0 {
        let cols = proc_row.columns();
        let mut i: usize = 0;
        proof {
            assert(value_dict_view(cols@.skip(0)) == proc_row@) by {
                assert(cols@.skip(0) =~= cols@);
            }
        }
        while i < cols.len()
            invariant
                i <= cols@.len(),
                value_dict_view(cols@) == proc_row@,
                with_all(outer@, proc_row@) == with_all(joined@, value_dict_view(cols@.skip(i as int))),
            decreases cols.len() - i,
        {
            proof {
                let rest = cols@.skip(i as int);
                assert(rest.drop_first() =~= cols@.skip(i + 1));
                assert(value_dict_view(rest).drop_first() =~= value_dict_view(rest.drop_first()));
                assert(value_dict_view(rest)[0] == (cols@[i as int].0@, value_view(cols@[i as int].1)));
            }
            joined = joined.with(cols[i].0.as_str(), copy_value(&cols[i].1));
            i = i + 1;
        }
        proof {
            assert(cols@.skip(i as int) =~= Seq::<(String, Value)>::empty());
            assert(value_dict_view(cols@.skip(i as int)) =~= Seq::<(Seq<char>, ValueView)>::empty());
        }
    } else {
        let ghost ys = yields_view(yields@);
        let mut i: usize = 0;
        proof {
            assert(ys.skip(0) =~= ys);
        }
        while i < yields.len()
            invariant
                i <= yields@.len(),
                ys == yields_view(yields@),
                ys.len() == yields@.len(),
                with_yields(outer@, proc_row@, ys) == with_yields(joined@, proc_row@, ys.skip(i as int)),
            decreases yields.len() - i,
        {
            proof {
                assert(ys.skip(i as int).drop_first() =~= ys.skip(i + 1));
                assert(ys.skip(i as int)[0] == ys[i as int]);
            }
            let field = &yields[i].0;
            let name: &String = match &yields[i].1 {
                Some(a) => a,
                None => field,
            };
            match proc_row.get(field.as_str()) {
                Some(v) => {
                    joined = joined.with(name.as_str(), copy_value(v));
                },
                None => {},
            }
            i = i + 1;
        }
        proof {
            assert(ys.skip(i as int) =~= Seq::<(Seq<char>, Option<Seq<char>>)>::empty());
        }
    }
    joined
}

/// The rows of `db.info`: one row whose `version` column is `"2.0.0"`.
pub fn execute_db_info() -> (rows: Vec<Row>)
    ensures
        rows@.len() == 1,
        rows@[0]@ == seq![("version"@, ValueView::String("2.0.0"@))],
{
    let mut cols: Vec<(String, Value)> = Vec::new();
    cols.push((String::from_str("version"), Value::String(String::from_str("2.0.0"))));
    let row = Row::new(cols);
    proof {
        assert(cols@.drop_first() =~= Seq::<(String, Value)>::empty());
        assert(value_dict_view(cols@.drop_first()) =~= Seq::<(Seq<char>, ValueView)>::empty());
        assert(cols@[0].0@ == "version"@);
        assert(value_view(cols@[0].1) == ValueView::String("2.0.0"@));
        assert(value_dict_view(cols@) =~= seq![("version"@, ValueView::String("2.0.0"@))]);
    }
    let mut rows: Vec<Row> = Vec::new();
    rows.push(row);
    rows
}

} // verus!
