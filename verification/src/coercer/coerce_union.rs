//! Coercion into union types.

use vstd::prelude::*;
use crate::coercer::semantics;
use crate::coercer::{coerce_bare, outcome_view};
use crate::context::ParsingContext;
use crate::error::{ErrorModel, ParsingError};
use crate::field_type::{types_model, FieldType, TypeModel};
use crate::flags::{saturate, Flag};
use crate::typed::{typed_score, BamlValueWithFlags, TypedModel};
use crate::value::Value;

verus! {

/// The mathematical value of the best alternative found so far.
pub open spec fn best_view(best: Option<(usize, BamlValueWithFlags)>) -> Option<
    (usize, TypedModel),
> {
    match best {
        Some((index, t)) => Some((index, t@)),
        None => None,
    }
}

/// The mathematical value of the most specific failure found so far.
pub open spec fn failure_view(failure: Option<ParsingError>) -> Option<ErrorModel> {
    match failure {
        Some(e) => Some(e@),
        None => None,
    }
}

/// Coerces a value into a union type.
///
/// Every alternative is tried, in order and by itself. Of those that
/// succeed the one with the lowest score wins, the earliest among equals,
/// and its result is flagged with its position. Where none succeeds, the
/// call fails with the most specific of the alternatives' failures, the
/// earliest among equals; a union without alternatives fails as an
/// unexpected type.
pub fn coerce_union(ctx: &ParsingContext, target: &FieldType, value: &Value) -> (r: Result<
    BamlValueWithFlags,
    ParsingError,
>)
    ensures
        outcome_view(r) == semantics::coerce_union(ctx.schema@, ctx@, target@, value@),
    decreases semantics::fuel(ctx@), target, 1nat,
{
    match target {
        FieldType::Union(alternatives) => {
            assert(target@ == TypeModel::Union(types_model(alternatives@)));
            let mut best: Option<(usize, BamlValueWithFlags)> = None;
            let mut best_score: u64 = 0;
            let mut failure: Option<ParsingError> = None;
            let mut i: usize = 0;
            while i < alternatives.len()
                invariant
                    i <= alternatives.len(),
                    target matches FieldType::Union(own) && own == alternatives,
                    best_view(best) == semantics::union_best(
                        ctx.schema@,
                        ctx@,
                        target@,
                        value@,
                        i as nat,
                    ),
                    best matches Some(found) ==> best_score == saturate(typed_score(found.1@)),
                    failure_view(failure) == semantics::union_failure(
                        ctx.schema@,
                        ctx@,
                        target@,
                        value@,
                        i as nat,
                    ),
                decreases alternatives.len() - i,
            {
                assert(types_model(alternatives@)[i as int] == alternatives@[i as int]@);
                match coerce_bare(ctx, &alternatives[i], Some(value)) {
                    Ok(t) => {
                        let score = t.score();
                        if best.is_none() || score < best_score {
                            best = Some((i, t));
                            best_score = score;
                        }
                    },
                    Err(e) => {
                        let replace = match &failure {
                            Some(worst) => e.kind.specificity() > worst.kind.specificity(),
                            None => true,
                        };
                        if replace {
                            failure = Some(e);
                        }
                    },
                }
                i += 1;
            }
            match best {
                Some((index, t)) => Ok(t.add_flag(Flag::UnionMatch(index))),
                None => match failure {
                    Some(e) => Err(e),
                    None => Err(ctx.error_unexpected_type(target, value)),
                },
            }
        },
        _ => Err(ctx.error_unexpected_type(target, value)),
    }
}

} // verus!
