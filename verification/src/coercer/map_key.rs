//! The check of a map's key type.

use std::collections::VecDeque;
use vstd::prelude::*;
use crate::coercer::semantics;
use crate::coercer::semantics::{
    lemma_union_sizes_add, lemma_union_sizes_skip, scan_key_union, union_sizes, LiteralKinds,
};
use crate::context::ParsingContext;
use crate::error::{ErrorModel, ParsingError};
use crate::field_type::{types_model, FieldType, LiteralValue, TypeModel, TypeValue};

verus! {

/// The mathematical values of the types in a queue.
pub open spec fn queue_model(queue: Seq<&FieldType>) -> Seq<TypeModel> {
    Seq::new(queue.len(), |i: int| (*queue[i])@)
}

/// The mathematical value of a check's result: the failure, if there is one.
pub open spec fn problem_view(r: Result<(), ParsingError>) -> Option<ErrorModel> {
    match r {
        Ok(_) => None,
        Err(e) => Some(e@),
    }
}

/// Appends references to all of `items` to `queue`.
fn enqueue_all<'a>(queue: &mut VecDeque<&'a FieldType>, items: &'a Vec<FieldType>)
    ensures
        queue_model(final(queue)@) == queue_model(old(queue)@) + types_model(items@),
{
    let ghost before = queue_model(queue@);
    let mut i: usize = 0;
    while i < items.len()
        invariant
            i <= items.len(),
            queue_model(queue@) == before + types_model(items@).take(i as int),
        decreases items.len() - i,
    {
        let ghost prev = queue@;
        queue.push_back(&items[i]);
        assert(queue@ == prev.push(&items@[i as int]));
        assert(queue_model(queue@) =~= before + types_model(items@).take(i + 1)) by {
            let now = queue_model(queue@);
            let want = before + types_model(items@).take(i + 1);
            assert(queue_model(prev).len() == prev.len());
            assert(now.len() == want.len());
            assert forall|j: int| 0 <= j < now.len() implies now[j] == want[j] by {
                if j < prev.len() {
                    assert(queue_model(prev)[j] == (before + types_model(items@).take(i as int))[j]);
                }
            }
        }
        i += 1;
    }
    assert(types_model(items@).take(items.len() as int) =~= types_model(items@));
}

/// Checks that `key_type` can be the key type of a map.
///
/// The text, the integers, an enum and a single string or integer literal
/// are in order, and so is a union whose leaves, nested unions flattened,
/// are all string literals or all integer literals. A union with a leaf
/// that is no literal fails as unsupported, with that leaf; one with
/// literals of more than one kind fails as mixed; one of boolean literals
/// alone fails as unsupported. Every other type fails as unsupported.
pub fn check_key_type(ctx: &ParsingContext, key_type: &FieldType) -> (r: Result<(), ParsingError>)
    ensures
        problem_view(r) == semantics::key_problem(ctx@, key_type@),
{
    match key_type {
        FieldType::Primitive(TypeValue::String) => Ok(()),
        FieldType::Primitive(TypeValue::Int) => Ok(()),
        FieldType::Enum(_) => Ok(()),
        FieldType::Literal(LiteralValue::String(_)) => Ok(()),
        FieldType::Literal(LiteralValue::Int(_)) => Ok(()),
        FieldType::Union(items) => {
            let mut queue: VecDeque<&FieldType> = VecDeque::new();
            assert(queue_model(queue@) =~= Seq::empty());
            enqueue_all(&mut queue, items);
            assert(queue_model(queue@) =~= types_model(items@));
            let mut strings = false;
            let mut ints = false;
            let mut bools = false;
            let ghost start = LiteralKinds { strings: false, ints: false, bools: false };
            while queue.len() > 0
                invariant
                    key_type@ == TypeModel::Union(types_model(items@)),
                    start == (LiteralKinds { strings: false, ints: false, bools: false }),
                    scan_key_union(types_model(items@), start) == scan_key_union(
                        queue_model(queue@),
                        LiteralKinds { strings, ints, bools },
                    ),
                decreases union_sizes(queue_model(queue@), queue_model(queue@).len()),
            {
                let ghost before = queue_model(queue@);
                let ghost old_queue = queue@;
                let item = queue.pop_front().unwrap();
                assert(queue_model(queue@) =~= before.skip(1));
                assert(before[0] == (*item)@);
                proof {
                    lemma_union_sizes_skip(before);
                }
                match item {
                    FieldType::Literal(LiteralValue::String(_)) => {
                        strings = true;
                    },
                    FieldType::Literal(LiteralValue::Int(_)) => {
                        ints = true;
                    },
                    FieldType::Literal(LiteralValue::Bool(_)) => {
                        bools = true;
                    },
                    FieldType::Union(nested) => {
                        proof {
                            lemma_union_sizes_add(
                                before.skip(1),
                                types_model(nested@),
                                types_model(nested@).len(),
                            );
                        }
                        enqueue_all(&mut queue, nested);
                    },
                    other => {
                        return Err(ctx.error_map_must_have_supported_key(other));
                    },
                }
            }
            assert(queue_model(queue@).len() == 0);
            let found = (if strings { 1u8 } else { 0u8 }) + (if ints { 1u8 } else { 0u8 }) + (if bools {
                1u8
            } else {
                0u8
            });
            if found > 1 {
                Err(ctx.error_map_must_have_only_one_type_in_key_union(key_type))
            } else if bools {
                Err(ctx.error_map_must_have_supported_key(key_type))
            } else {
                Ok(())
            }
        },
        other => Err(ctx.error_map_must_have_supported_key(other)),
    }
}

} // verus!
