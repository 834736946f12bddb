//! Field paths evaluated against JSON data: the part of expression
//! evaluation that walks `.key` and `[index]` steps.

use vstd::prelude::*;
use crate::expr::error::ExprError;
use crate::expr::parser::PathStep;
use crate::json::{spec_lookup, JsonValue};
use crate::text::{concat3, spec_decimal, u64_to_decimal};

verus! {

/// Where walking a field path ends.
pub enum StepOutcome {
    /// The value the path leads to.
    Found(JsonValue),
    /// An object lacks the key.
    Missing(Seq<char>),
    /// An array is shorter than the index.
    OutOfBounds(usize),
    /// A key step met a value that is not an object.
    NotObject(Seq<char>, JsonValue),
    /// An index step met a value that is not an array.
    NotArray(usize, JsonValue),
}

/// Walks `steps` from `cur`.
pub open spec fn spec_walk_steps(steps: Seq<PathStep>, cur: JsonValue) -> StepOutcome
    decreases steps.len(),
{
    if steps.len() == 0 {
        StepOutcome::Found(cur)
    } else {
        match steps[0] {
            PathStep::Key(k) => match cur {
                JsonValue::Object(fields) => match spec_lookup(fields@, k@) {
                    Some(v) => spec_walk_steps(steps.drop_first(), v),
                    None => StepOutcome::Missing(k@),
                },
                _ => StepOutcome::NotObject(k@, cur),
            },
            PathStep::Index(i) => match cur {
                JsonValue::Array(a) => if i < a@.len() {
                    spec_walk_steps(steps.drop_first(), a@[i as int])
                } else {
                    StepOutcome::OutOfBounds(i)
                },
                _ => StepOutcome::NotArray(i, cur),
            },
        }
    }
}

/// `r` is what evaluating a field path gives for `outcome`, with `show`
/// writing the offending value of a type error as JSON.
pub open spec fn spec_field_result<S>(show: S, outcome: StepOutcome, r: Result<&JsonValue, ExprError>) -> bool where
    S: Fn(&JsonValue) -> String,
 {
    match outcome {
        StepOutcome::Found(v) => r matches Ok(x) && *x == v,
        StepOutcome::Missing(k) => r matches Err(ExprError::MissingField(m)) && m@ == k,
        StepOutcome::OutOfBounds(i) => r == Err::<&JsonValue, ExprError>(ExprError::IndexOutOfBounds(i)),
        StepOutcome::NotObject(k, node) => r matches Err(ExprError::TypeError(m)) && exists|shown: String|
            #[trigger] show.ensures((&node,), shown) && m@ == "expected object to access field ."@ + k + ", got "@
                + shown@,
        StepOutcome::NotArray(i, node) => r matches Err(ExprError::TypeError(m)) && exists|shown: String|
            #[trigger] show.ensures((&node,), shown) && m@ == "expected array to index ["@ + spec_decimal(i as nat)
                + "], got "@ + shown@,
    }
}

fn member<'a>(fields: &'a Vec<(String, JsonValue)>, key: &str) -> (r: Option<&'a JsonValue>)
    ensures
        match r {
            Some(v) => spec_lookup(fields@, key@) == Some(*v),
            None => spec_lookup(fields@, key@) is None,
        },
{
    let mut i: usize = 0;
    assert(fields@.skip(0) =~= fields@);
    while i < fields.len()
        invariant
            i <= fields@.len(),
            spec_lookup(fields@, key@) == spec_lookup(fields@.skip(i as int), key@),
        decreases fields.len() - i,
    {
        assert(fields@.skip(i as int).drop_first() =~= fields@.skip(i + 1));
        assert(fields@.skip(i as int)[0] == fields@[i as int]);
        if crate::json::str_eq(fields[i].0.as_str(), key) {
            return Some(&fields[i].1);
        }
        i = i + 1;
    }
    None
}

/// Walks a field path (`.key` and `[index]` steps) inside `data`. A missing
/// key, an index past the end, or a step that does not fit the value it
/// meets is an error; `show` writes that value into the message.
pub fn eval_field<'a, S>(steps: &Vec<PathStep>, data: &'a JsonValue, show: &S) -> (r: Result<&'a JsonValue, ExprError>) where
    S: Fn(&JsonValue) -> String,

    requires
        forall|x: &JsonValue| show.requires((x,)),
    ensures
        spec_field_result(*show, spec_walk_steps(steps@, *data), r),
{
    proof {
        reveal_strlit("");
    }
    let mut current: &'a JsonValue = data;
    let mut k: usize = 0;
    assert(steps@.skip(0) =~= steps@);
    while k < steps.len()
        invariant
            k <= steps@.len(),
            forall|x: &JsonValue| show.requires((x,)),
            spec_walk_steps(steps@, *data) == spec_walk_steps(steps@.skip(k as int), *current),
        decreases steps.len() - k,
    {
        assert(steps@.skip(k as int).drop_first() =~= steps@.skip(k + 1));
        assert(steps@.skip(k as int)[0] == steps@[k as int]);
        match &steps[k] {
            PathStep::Key(key) => match current {
                JsonValue::Object(fields) => match member(fields, key.as_str()) {
                    Some(v) => {
                        current = v;
                    },
                    None => return Err(ExprError::MissingField(key.clone())),
                },
                _ => {
                    let shown = show(current);
                    assert(show.ensures((current,), shown));
                    let m = concat3("expected object to access field .", key.as_str(), ", got ");
                    proof {
                        reveal_strlit("");
                    }
                    let msg = concat3(m.as_str(), shown.as_str(), "");
                    assert(msg@ =~= "expected object to access field ."@ + key@ + ", got "@ + shown@);
                    return Err(ExprError::TypeError(msg));
                },
            },
            PathStep::Index(idx) => match current {
                JsonValue::Array(a) => {
                    if *idx < a.len() {
                        current = &a[*idx];
                    } else {
                        return Err(ExprError::IndexOutOfBounds(*idx));
                    }
                },
                _ => {
                    let shown = show(current);
                    assert(show.ensures((current,), shown));
                    let d = u64_to_decimal(*idx as u64);
                    let m = concat3("expected array to index [", d.as_str(), "], got ");
                    proof {
                        reveal_strlit("");
                    }
                    let msg = concat3(m.as_str(), shown.as_str(), "");
                    assert(msg@ =~= "expected array to index ["@ + spec_decimal(*idx as nat) + "], got "@ + shown@);
                    return Err(ExprError::TypeError(msg));
                },
            },
        }
        k = k + 1;
    }
    assert(steps@.skip(k as int).len() == 0);
    Ok(current)
}

} // verus!
