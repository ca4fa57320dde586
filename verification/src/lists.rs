//! The operators on lists, applied to evaluated operands.

use crate::arith::bigint_to_i64;
use crate::arith::bigint_to_usize;
use crate::arith::i64_to_bigint;
use crate::arith::usize_to_bigint;
use crate::error::result_view;
use crate::error::Error;
use crate::error::TypeFault;
use crate::integer::Integer;
use crate::semantics::appended;
use crate::semantics::concatenated;
use crate::semantics::dropped;
use crate::semantics::item_at;
use crate::semantics::joined;
use crate::semantics::length_of;
use crate::semantics::ranged;
use crate::semantics::taken;
use crate::tree::clone_objects;
use crate::tree::lemma_objects_view;
use crate::tree::objects_view;
use crate::tree::ObjectView;
use crate::tree::StutterObject;
use vstd::prelude::*;

verus! {

/// `index`: the item of the list `v[1]` at the offset `v[0]`.
pub fn list_index(v: &Vec<StutterObject>) -> (r: Result<StutterObject, Error>)
    ensures
        result_view(r) == item_at(objects_view(v@)),
{
    if v.len() < 2 {
        return Err(Error::Type(TypeFault::MissingOperand));
    }
    proof {
        lemma_objects_view(v@);
    }
    match (&v[0], &v[1]) {
        (StutterObject::Int(n), StutterObject::List(l)) => {
            proof {
                lemma_objects_view(l@);
            }
            let size: usize = match bigint_to_usize(n) {
                Ok(size) => size,
                Err(e) => {
                    return Err(e);
                },
            };
            if size >= l.len() {
                Err(Error::Index)
            } else {
                Ok(l[size].clone())
            }
        },
        _ => Err(Error::Type(TypeFault::IndexForm)),
    }
}

/// `take`: the first `v[0]` items of the list `v[1]`.
pub fn list_take(v: &Vec<StutterObject>) -> (r: Result<StutterObject, Error>)
    ensures
        result_view(r) == taken(objects_view(v@)),
{
    if v.len() < 2 {
        return Err(Error::Type(TypeFault::MissingOperand));
    }
    proof {
        lemma_objects_view(v@);
    }
    match (&v[0], &v[1]) {
        (StutterObject::Int(n), StutterObject::List(l)) => {
            proof {
                lemma_objects_view(l@);
            }
            let size: usize = match bigint_to_usize(n) {
                Ok(size) => size,
                Err(e) => {
                    return Err(e);
                },
            };
            if size > l.len() {
                Err(Error::Index)
            } else {
                Ok(StutterObject::List(clone_objects(l, 0, size)))
            }
        },
        _ => Err(Error::Type(TypeFault::TakeForm)),
    }
}

/// `drop`: the items of the list `v[1]` from the offset `v[0]` on, and no
/// items where the offset is zero or less.
pub fn list_drop(v: &Vec<StutterObject>) -> (r: Result<StutterObject, Error>)
    ensures
        result_view(r) == dropped(objects_view(v@)),
{
    if v.len() < 2 {
        return Err(Error::Type(TypeFault::MissingOperand));
    }
    proof {
        lemma_objects_view(v@);
    }
    match (&v[0], &v[1]) {
        (StutterObject::Int(n), StutterObject::List(l)) => {
            proof {
                lemma_objects_view(l@);
            }
            let big_zero = Integer::from_i64(0);
            if !big_zero.lt(n) {
                let empty: Vec<StutterObject> = Vec::new();
                assert(objects_view(empty@) == Seq::<ObjectView>::empty());
                Ok(StutterObject::List(empty))
            } else {
                let size: usize = match bigint_to_usize(n) {
                    Ok(size) => size,
                    Err(e) => {
                        return Err(e);
                    },
                };
                if size > l.len() {
                    Err(Error::Index)
                } else {
                    Ok(StutterObject::List(clone_objects(l, size, l.len())))
                }
            }
        },
        _ => Err(Error::Type(TypeFault::DropForm)),
    }
}

/// `append`: the list `v[1]` with the value `v[0]` added at its end.
pub fn list_append(v: &Vec<StutterObject>) -> (r: Result<StutterObject, Error>)
    ensures
        result_view(r) == appended(objects_view(v@)),
{
    if v.len() < 2 {
        return Err(Error::Type(TypeFault::MissingOperand));
    }
    proof {
        lemma_objects_view(v@);
    }
    match &v[1] {
        StutterObject::List(l) => {
            proof {
                lemma_objects_view(l@);
            }
            let mut vec = clone_objects(l, 0, l.len());
            proof {
                lemma_objects_view(vec@);
                assert(objects_view(vec@) == objects_view(l@));
            }
            vec.push(v[0].clone());
            proof {
                lemma_objects_view(vec@);
            }
            assert(objects_view(vec@) == objects_view(l@).push(v[0]@));
            Ok(StutterObject::List(vec))
        },
        _ => Err(Error::Type(TypeFault::AppendForm)),
    }
}

/// `range`: the integers from `v[0]` up to, not including, `v[1]`.
pub fn list_range(v: &Vec<StutterObject>) -> (r: Result<StutterObject, Error>)
    ensures
        result_view(r) == ranged(objects_view(v@)),
{
    if v.len() < 2 {
        return Err(Error::Type(TypeFault::MissingOperand));
    }
    proof {
        lemma_objects_view(v@);
    }
    match (&v[0], &v[1]) {
        (StutterObject::Int(bi1), StutterObject::Int(bi2)) => {
            if !bi1.lt(bi2) {
                let empty: Vec<StutterObject> = Vec::new();
                assert(objects_view(empty@) == Seq::<ObjectView>::empty());
                return Ok(StutterObject::List(empty));
            }
            match bigint_to_usize(&bi2.sub(bi1)) {
                Ok(_) => {},
                Err(e) => {
                    return Err(e);
                },
            }
            let i1: i64 = match bigint_to_i64(bi1) {
                Ok(i) => i,
                Err(e) => {
                    return Err(e);
                },
            };
            let i2: i64 = match bigint_to_i64(bi2) {
                Ok(i) => i,
                Err(e) => {
                    return Err(e);
                },
            };
            let mut vector: Vec<StutterObject> = Vec::new();
            let mut i: i64 = i1;
            while i < i2
                invariant
                    i1 <= i <= i2,
                    vector.len() == i - i1,
                    forall|k: int| 0 <= k < i - i1 ==> vector[k]@ == ObjectView::Int(i1 + k),
                decreases i2 - i,
            {
                match i64_to_bigint(i) {
                    Ok(n) => vector.push(StutterObject::Int(n)),
                    Err(e) => {
                        return Err(e);
                    },
                }
                i += 1;
            }
            assert(objects_view(vector@) == Seq::new(
                (i2 - i1) as nat,
                |k: int| ObjectView::Int(i1 + k),
            ));
            Ok(StutterObject::List(vector))
        },
        _ => Err(Error::Type(TypeFault::RangeForm)),
    }
}

/// Once a value among the first is no list, the values do not join.
proof fn lemma_joined_fails(operands: Seq<ObjectView>, count: int)
    requires
        0 <= count <= operands.len(),
        joined(operands.take(count)) is None,
    ensures
        joined(operands) is None,
    decreases operands.len(),
{
    if count == operands.len() {
        assert(operands.take(count) == operands);
    } else {
        assert(operands.drop_last().take(count) == operands.take(count));
        lemma_joined_fails(operands.drop_last(), count);
    }
}

/// `cat`: the lists joined in order.
pub fn list_cat(v: &Vec<StutterObject>) -> (r: Result<StutterObject, Error>)
    ensures
        result_view(r) == concatenated(objects_view(v@)),
{
    let ghost all = objects_view(v@);
    let mut master_vec: Vec<StutterObject> = Vec::new();
    let mut i: usize = 0;
    assert(objects_view(master_vec@) == Seq::<ObjectView>::empty());
    while i < v.len()
        invariant
            i <= v.len(),
            all == objects_view(v@),
            joined(all.take(i as int)) == Some(objects_view(master_vec@)),
        decreases v.len() - i,
    {
        proof {
            assert(all.take(i + 1).drop_last() == all.take(i as int));
            assert(all.take(i + 1).last() == v[i as int]@);
        }
        match &v[i] {
            StutterObject::List(vec) => {
                let ghost before = objects_view(master_vec@);
                let mut more = clone_objects(vec, 0, vec.len());
                assert(objects_view(more@) == objects_view(vec@));
                let ghost left = master_vec@;
                let ghost right = more@;
                master_vec.append(&mut more);
                assert(master_vec@ == left + right);
                assert(objects_view(master_vec@) == before + objects_view(vec@));
            },
            _ => {
                proof {
                    lemma_joined_fails(all, i + 1);
                }
                return Err(Error::Type(TypeFault::CatForm));
            },
        }
        i += 1;
    }
    assert(all.take(i as int) == all);
    Ok(StutterObject::List(master_vec))
}

/// `len`: the number of items of the list `v[0]`.
pub fn list_len(v: &Vec<StutterObject>) -> (r: Result<StutterObject, Error>)
    ensures
        result_view(r) == length_of(objects_view(v@)),
{
    if v.len() < 1 {
        return Err(Error::Type(TypeFault::MissingOperand));
    }
    proof {
        lemma_objects_view(v@);
    }
    match &v[0] {
        StutterObject::List(l) => {
            proof {
                lemma_objects_view(l@);
            }
            match usize_to_bigint(l.len()) {
                Ok(len) => Ok(StutterObject::Int(len)),
                Err(e) => Err(e),
            }
        },
        _ => Err(Error::Type(TypeFault::LenForm)),
    }
}

} // verus!
