//! Scoring of argument literals against their declared types.
use vstd::prelude::*;

use crate::cost::{add_cost, capped, lemma_capped_add};
use crate::error::{add_res, capped_result, weight, weight_or, CostError};
use crate::query::{ArgValue, Argument};
use crate::schema::{
    composite, find_input_value, is_composite, spec_input_value, spec_type, InputValueDef, Schema,
    TypeKind,
};

verus! {

broadcast use {vstd::std_specs::vec::group_vec_axioms, vstd::seq::group_seq_axioms};

/// The cost of an argument literal against its definition.
pub open spec fn argument_cost(schema: Schema, value: ArgValue, def: InputValueDef) -> Result<
    nat,
    CostError,
>
    decreases value,
{
    match spec_type(schema, def.named_type@) {
        None => Err(CostError::UnknownType),
        Some(ty) => {
            if is_composite(ty.kind) {
                Err(CostError::IllegalArgumentType)
            } else {
                match value {
                    ArgValue::Object(entries) => {
                        if ty.kind == TypeKind::InputObject {
                            add_res(
                                weight_or(def.cost, 1),
                                entries_cost(schema, entries@, ty.input_fields@),
                            )
                        } else {
                            Ok(weight_or(def.cost, 0))
                        }
                    },
                    ArgValue::List(items) => add_res(
                        weight_or(def.cost, 0),
                        items_cost(schema, items@, def),
                    ),
                    ArgValue::Null => Ok(0),
                    _ => Ok(weight_or(def.cost, 0)),
                }
            }
        },
    }
}

/// The summed cost of the fields of an input-object literal; each must be
/// one of `fields`.
pub open spec fn entries_cost(
    schema: Schema,
    entries: Seq<Argument>,
    fields: Seq<InputValueDef>,
) -> Result<nat, CostError>
    decreases entries,
{
    if entries.len() == 0 {
        Ok(0)
    } else {
        match spec_input_value(fields, entries[0].name@) {
            None => Err(CostError::UnknownInputField),
            Some(d) => match argument_cost(schema, entries[0].value, d) {
                Err(e) => Err(e),
                Ok(x) => add_res(x, entries_cost(schema, entries.drop_first(), fields)),
            },
        }
    }
}

/// The summed cost of the elements of a list literal, each against the same definition.
pub open spec fn items_cost(schema: Schema, items: Seq<ArgValue>, def: InputValueDef) -> Result<
    nat,
    CostError,
>
    decreases items,
{
    if items.len() == 0 {
        Ok(0)
    } else {
        match argument_cost(schema, items[0], def) {
            Err(e) => Err(e),
            Ok(x) => add_res(x, items_cost(schema, items.drop_first(), def)),
        }
    }
}

/// Scores an argument literal against its definition.
pub fn score_argument(argument: &ArgValue, definition: &InputValueDef, schema: &Schema) -> (r:
    Result<u64, CostError>)
    ensures
        r == capped_result(argument_cost(*schema, *argument, *definition)),
    decreases argument,
{
    let ty = match schema.find_type(&definition.named_type) {
        Some(t) => t,
        None => return Err(CostError::UnknownType),
    };
    if composite(ty.kind) {
        return Err(CostError::IllegalArgumentType);
    }
    match argument {
        ArgValue::Object(entries) => {
            if ty.kind != TypeKind::InputObject {
                return Ok(weight(definition.cost, 0));
            }
            let ghost s = entries@;
            let ghost fields = ty.input_fields@;
            let ghost whole = add_res(weight_or(definition.cost, 1), entries_cost(*schema, s, fields));
            assert(argument_cost(*schema, *argument, *definition) == whole);
            let mut cost = weight(definition.cost, 1);
            let ghost mut c: nat = weight_or(definition.cost, 1);
            assert(s.subrange(0, s.len() as int) =~= s);
            let mut i: usize = 0;
            while i < entries.len()
                invariant
                    i <= entries.len(),
                    s == entries@,
                    fields == ty.input_fields@,
                    *argument == ArgValue::Object(*entries),
                    argument_cost(*schema, *argument, *definition) == whole,
                    whole == add_res(c, entries_cost(*schema, s.subrange(i as int, s.len() as int), fields)),
                    cost == capped(c),
                decreases entries.len() - i,
            {
                let ghost rest = s.subrange(i as int, s.len() as int);
                assert(rest[0] == s[i as int]);
                assert(rest.drop_first() =~= s.subrange(i + 1, s.len() as int));
                proof {
                    assert(decreases_to!(*argument => entries@[i as int].value));
                }
                let d = match find_input_value(&ty.input_fields, &entries[i].name) {
                    Some(d) => d,
                    None => return Err(CostError::UnknownInputField),
                };
                let x = match score_argument(&entries[i].value, d, schema) {
                    Ok(x) => x,
                    Err(e) => return Err(e),
                };
                proof {
                    let xe = argument_cost(*schema, s[i as int].value, *d)->Ok_0;
                    lemma_capped_add(c, xe);
                    c = c + xe;
                }
                cost = add_cost(cost, x);
                i = i + 1;
            }
            Ok(cost)
        },
        ArgValue::List(items) => {
            let ghost s = items@;
            let ghost whole = add_res(weight_or(definition.cost, 0), items_cost(*schema, s, *definition));
            assert(argument_cost(*schema, *argument, *definition) == whole);
            let mut cost = weight(definition.cost, 0);
            let ghost mut c: nat = weight_or(definition.cost, 0);
            assert(s.subrange(0, s.len() as int) =~= s);
            let mut i: usize = 0;
            while i < items.len()
                invariant
                    i <= items.len(),
                    s == items@,
                    *argument == ArgValue::List(*items),
                    argument_cost(*schema, *argument, *definition) == whole,
                    whole == add_res(c, items_cost(*schema, s.subrange(i as int, s.len() as int), *definition)),
                    cost == capped(c),
                decreases items.len() - i,
            {
                let ghost rest = s.subrange(i as int, s.len() as int);
                assert(rest[0] == s[i as int]);
                assert(rest.drop_first() =~= s.subrange(i + 1, s.len() as int));
                proof {
                    assert(decreases_to!(*argument => items@[i as int]));
                }
                let x = match score_argument(&items[i], definition, schema) {
                    Ok(x) => x,
                    Err(e) => return Err(e),
                };
                proof {
                    let xe = argument_cost(*schema, s[i as int], *definition)->Ok_0;
                    lemma_capped_add(c, xe);
                    c = c + xe;
                }
                cost = add_cost(cost, x);
                i = i + 1;
            }
            Ok(cost)
        },
        ArgValue::Null => Ok(0),
        _ => Ok(weight(definition.cost, 0)),
    }
}

} // verus!
