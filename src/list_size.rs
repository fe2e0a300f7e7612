//! How a list-size directive resolves for one selected field: the expected
//! length of the list, and which child fields that length applies to.
use vstd::prelude::*;

use crate::error::CostError;
use crate::query::{ArgValue, Argument, Field};
use crate::schema::{find_input_value, spec_input_value, FieldDef, InputValueDef, ListSize};

verus! {

/// A literal that gives a size: a non-negative integer.
pub open spec fn int_size(v: ArgValue) -> Option<u64> {
    match v {
        ArgValue::Int(n) => if n >= 0 {
            Some(n as u64)
        } else {
            None
        },
        _ => None,
    }
}

/// The size that the query passes in argument `name`: the last argument of
/// that name whose literal gives a size.
pub open spec fn query_size(args: Seq<Argument>, name: Seq<char>) -> Option<u64>
    decreases args.len(),
{
    if args.len() == 0 {
        None
    } else if args.last().name@ == name && int_size(args.last().value) is Some {
        int_size(args.last().value)
    } else {
        query_size(args.drop_last(), name)
    }
}

/// The size that the definition of argument `name` gives by default.
pub open spec fn default_size(defs: Seq<InputValueDef>, name: Seq<char>) -> Option<u64> {
    match spec_input_value(defs, name) {
        Some(d) => match d.default_value {
            Some(v) => int_size(v),
            None => None,
        },
        None => None,
    }
}

/// The size that slicing argument `name` gives: the query's value, else the default.
pub open spec fn slicing_size(def: FieldDef, field: Field, name: Seq<char>) -> Option<u64> {
    match query_size(field.arguments@, name) {
        Some(n) => Some(n),
        None => default_size(def.arguments@, name),
    }
}

/// How many of the slicing arguments `names` give a size.
pub open spec fn slicing_count(def: FieldDef, field: Field, names: Seq<String>) -> nat
    decreases names.len(),
{
    if names.len() == 0 {
        0
    } else {
        slicing_count(def, field, names.drop_last()) + if slicing_size(
            def,
            field,
            names.last()@,
        ) is Some {
            1nat
        } else {
            0nat
        }
    }
}

/// The largest size that the slicing arguments `names` give.
pub open spec fn slicing_max(def: FieldDef, field: Field, names: Seq<String>) -> Option<u64>
    decreases names.len(),
{
    if names.len() == 0 {
        None
    } else {
        let prev = slicing_max(def, field, names.drop_last());
        match slicing_size(def, field, names.last()@) {
            None => prev,
            Some(n) => match prev {
                Some(m) => if m >= n {
                    Some(m)
                } else {
                    Some(n)
                },
                None => Some(n),
            },
        }
    }
}

/// The expected length that a list-size directive gives for a selected field:
/// the largest slicing argument's size, else the assumed size. It fails when
/// exactly one slicing argument is required and not exactly one gives a size.
pub open spec fn spec_expected_size(dir: ListSize, def: FieldDef, field: Field) -> Result<
    Option<u64>,
    CostError,
> {
    let names = dir.slicing_arguments@;
    if names.len() > 0 && dir.require_one_slicing_argument && slicing_count(def, field, names)
        != 1 {
        Err(CostError::SlicingArgumentCount)
    } else {
        match slicing_max(def, field, names) {
            Some(m) => Ok(Some(m)),
            None => Ok(dir.assumed_size),
        }
    }
}

/// Whether `name` is one of `names`.
pub open spec fn names_contain(names: Seq<String>, name: Seq<char>) -> bool {
    exists|i: int| 0 <= i < names.len() && names[i]@ == name
}

/// The size that an enclosing directive's resolution gives to a child field:
/// its expected size when the child is one of its sized fields.
pub open spec fn spec_size_of(sized: Seq<String>, expected: Option<u64>, field: Field) -> Option<
    u64,
> {
    if names_contain(sized, field.name@) {
        expected
    } else {
        None
    }
}

fn arg_int_size(v: &ArgValue) -> (r: Option<u64>)
    ensures
        r == int_size(*v),
{
    match v {
        ArgValue::Int(n) => if *n >= 0 {
            Some(*n as u64)
        } else {
            None
        },
        _ => None,
    }
}

fn query_arg_size(args: &Vec<Argument>, name: &String) -> (r: Option<u64>)
    ensures
        r == query_size(args@, name@),
{
    let mut found: Option<u64> = None;
    let mut i: usize = 0;
    while i < args.len()
        invariant
            i <= args.len(),
            found == query_size(args@.take(i as int), name@),
        decreases args.len() - i,
    {
        assert(args@.take(i + 1).drop_last() =~= args@.take(i as int));
        if args[i].name == *name {
            let n = arg_int_size(&args[i].value);
            if n.is_some() {
                found = n;
            }
        }
        i = i + 1;
    }
    assert(args@.take(args.len() as int) =~= args@);
    found
}

fn slicing_arg_size(def: &FieldDef, field: &Field, name: &String) -> (r: Option<u64>)
    ensures
        r == slicing_size(*def, *field, name@),
{
    match query_arg_size(&field.arguments, name) {
        Some(n) => Some(n),
        None => match find_input_value(&def.arguments, name) {
            Some(d) => match &d.default_value {
                Some(v) => arg_int_size(v),
                None => None,
            },
            None => None,
        },
    }
}

impl ListSize {
    /// The expected length this directive gives for a selected field.
    pub fn expected_size(&self, definition: &FieldDef, field: &Field) -> (r: Result<
        Option<u64>,
        CostError,
    >)
        ensures
            r == spec_expected_size(*self, *definition, *field),
    {
        let names = &self.slicing_arguments;
        let mut count: usize = 0;
        let mut max: Option<u64> = None;
        let mut i: usize = 0;
        while i < names.len()
            invariant
                i <= names.len(),
                count == slicing_count(*definition, *field, names@.take(i as int)),
                max == slicing_max(*definition, *field, names@.take(i as int)),
                count <= i,
            decreases names.len() - i,
        {
            assert(names@.take(i + 1).drop_last() =~= names@.take(i as int));
            match slicing_arg_size(definition, field, &names[i]) {
                Some(n) => {
                    count = count + 1;
                    max = match max {
                        Some(m) => if m >= n {
                            Some(m)
                        } else {
                            Some(n)
                        },
                        None => Some(n),
                    };
                },
                None => {},
            }
            i = i + 1;
        }
        assert(names@.take(names.len() as int) =~= names@);
        if names.len() > 0 && self.require_one_slicing_argument && count != 1 {
            return Err(CostError::SlicingArgumentCount);
        }
        match max {
            Some(m) => Ok(Some(m)),
            None => Ok(self.assumed_size),
        }
    }
}

/// The size that an enclosing directive's resolution gives to a child field.
pub fn size_of(sized: &Vec<String>, expected: Option<u64>, field: &Field) -> (r: Option<u64>)
    ensures
        r == spec_size_of(sized@, expected, *field),
{
    let mut i: usize = 0;
    while i < sized.len()
        invariant
            i <= sized.len(),
            forall|j: int| 0 <= j < i ==> sized@[j]@ != field.name@,
        decreases sized.len() - i,
    {
        if sized[i] == field.name {
            return expected;
        }
        i = i + 1;
    }
    None
}

} // verus!
