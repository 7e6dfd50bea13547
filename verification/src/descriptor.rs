//! Backend-declared input contracts for a model.
//!
//! A descriptor lists, for each declared input, its name, its shape (where a
//! negative dimension is a wildcard whose extent is unknown until request
//! time) and its wire datatype tag. Wildcard dimensions are resolved to `1`
//! when a concrete element count is needed.

use vstd::prelude::*;

verus! {

/// One declared input of a model.
#[derive(Clone, Debug)]
pub struct InputDecl {
    pub name: String,
    /// Declared shape; a negative dimension is a wildcard.
    pub shape: Vec<i64>,
    /// Wire datatype tag, e.g. `"FP32"`.
    pub datatype: String,
}

/// The backend-declared input contract of a model.
#[derive(Clone, Debug)]
pub struct ModelDescriptor {
    pub name: String,
    pub inputs: Vec<InputDecl>,
}

/// A wildcard (negative) dimension resolves to 1; any other stays itself.
pub open spec fn spec_resolve_dim(d: i64) -> int {
    if d < 0 {
        1int
    } else {
        d as int
    }
}

/// The element count a declared shape resolves to: the product of its
/// resolved dimensions (1 for the empty shape).
pub open spec fn spec_element_count(shape: Seq<i64>) -> int
    decreases shape.len(),
{
    if shape.len() == 0 {
        1int
    } else {
        spec_element_count(shape.drop_last()) * spec_resolve_dim(shape.last())
    }
}

/// A resolved element count is never negative.
pub proof fn lemma_element_count_nonneg(shape: Seq<i64>)
    ensures
        spec_element_count(shape) >= 0,
    decreases shape.len(),
{
    if shape.len() > 0 {
        lemma_element_count_nonneg(shape.drop_last());
        assert(spec_element_count(shape.drop_last()) * spec_resolve_dim(shape.last()) >= 0)
            by (nonlinear_arith)
            requires
                spec_element_count(shape.drop_last()) >= 0,
                spec_resolve_dim(shape.last()) >= 0,
        ;
    }
}

/// When every resolved dimension is positive, the count is positive and at
/// least as large as the count of any prefix.
pub proof fn lemma_element_count_monotonic(shape: Seq<i64>, k: int)
    requires
        0 <= k <= shape.len(),
        forall|i: int| 0 <= i < shape.len() ==> spec_resolve_dim(#[trigger] shape[i]) >= 1,
    ensures
        spec_element_count(shape) >= spec_element_count(shape.take(k)) >= 1,
    decreases shape.len() - k,
{
    if k == shape.len() {
        assert(shape.take(k) =~= shape);
        lemma_count_positive(shape);
    } else {
        lemma_element_count_monotonic(shape, k + 1);
        assert(shape.take(k + 1).drop_last() =~= shape.take(k));
        assert(shape.take(k + 1).last() == shape[k]);
        lemma_count_positive(shape.take(k));
        assert(spec_element_count(shape.take(k + 1)) >= spec_element_count(shape.take(k)))
            by (nonlinear_arith)
            requires
                spec_element_count(shape.take(k + 1)) == spec_element_count(shape.take(k))
                    * spec_resolve_dim(shape[k]),
                spec_element_count(shape.take(k)) >= 1,
                spec_resolve_dim(shape[k]) >= 1,
        ;
    }
}

/// A shape all of whose resolved dimensions are positive has a positive count.
pub proof fn lemma_count_positive(shape: Seq<i64>)
    requires
        forall|i: int| 0 <= i < shape.len() ==> spec_resolve_dim(#[trigger] shape[i]) >= 1,
    ensures
        spec_element_count(shape) >= 1,
    decreases shape.len(),
{
    if shape.len() > 0 {
        lemma_count_positive(shape.drop_last());
        assert(spec_resolve_dim(shape.last()) >= 1);
        assert(spec_element_count(shape.drop_last()) * spec_resolve_dim(shape.last()) >= 1)
            by (nonlinear_arith)
            requires
                spec_element_count(shape.drop_last()) >= 1,
                spec_resolve_dim(shape.last()) >= 1,
        ;
    }
}

/// A shape with a zero dimension has element count zero.
pub proof fn lemma_count_zero(shape: Seq<i64>, k: int)
    requires
        0 <= k < shape.len(),
        shape[k] == 0,
    ensures
        spec_element_count(shape) == 0,
    decreases shape.len(),
{
    if k == shape.len() - 1 {
        assert(spec_resolve_dim(shape.last()) == 0);
    } else {
        lemma_count_zero(shape.drop_last(), k);
    }
}

/// Resolve a declared shape to concrete dimensions: wildcards become 1.
/// Returns `None` when a resolved dimension does not fit in `usize`.
pub fn resolve_shape(shape: &Vec<i64>) -> (r: Option<Vec<usize>>)
    ensures
        match r {
            Some(dims) => dims@.len() == shape@.len() && forall|i: int|
                0 <= i < shape@.len() ==> dims@[i] as int == spec_resolve_dim(#[trigger] shape@[i]),
            None => exists|i: int|
                0 <= i < shape@.len() && spec_resolve_dim(#[trigger] shape@[i]) > usize::MAX,
        },
{
    let mut dims: Vec<usize> = Vec::new();
    let mut i: usize = 0;
    while i < shape.len()
        invariant
            i <= shape@.len(),
            dims@.len() == i,
            forall|j: int| 0 <= j < i ==> dims@[j] as int == spec_resolve_dim(#[trigger] shape@[j]),
        decreases shape@.len() - i,
    {
        let d = shape[i];
        if d < 0 {
            dims.push(1);
        } else if d as u64 > usize::MAX as u64 {
            return None;
        } else {
            dims.push(d as usize);
        }
        i = i + 1;
    }
    Some(dims)
}

/// The element count a declared shape resolves to, or `None` when it exceeds
/// `usize::MAX`.
pub fn element_count(shape: &Vec<i64>) -> (r: Option<usize>)
    ensures
        match r {
            Some(c) => c as int == spec_element_count(shape@),
            None => spec_element_count(shape@) > usize::MAX,
        },
{
    // A zero dimension forces the whole count to zero, whatever the rest
    // of the shape would contribute.
    let mut i: usize = 0;
    while i < shape.len()
        invariant
            i <= shape@.len(),
            forall|j: int| 0 <= j < i ==> spec_resolve_dim(#[trigger] shape@[j]) >= 1,
        decreases shape@.len() - i,
    {
        if shape[i] == 0 {
            proof {
                lemma_count_zero(shape@, i as int);
            }
            return Some(0);
        }
        i = i + 1;
    }
    let mut acc: usize = 1;
    let mut k: usize = 0;
    proof {
        assert(shape@.take(0) =~= Seq::<i64>::empty());
    }
    while k < shape.len()
        invariant
            k <= shape@.len(),
            forall|j: int| 0 <= j < shape@.len() ==> spec_resolve_dim(#[trigger] shape@[j]) >= 1,
            acc as int == spec_element_count(shape@.take(k as int)),
        decreases shape@.len() - k,
    {
        let d = shape[k];
        let rd: u64 = if d < 0 {
            1u64
        } else {
            d as u64
        };
        proof {
            assert(shape@.take(k + 1).drop_last() =~= shape@.take(k as int));
            assert(shape@.take(k + 1).last() == shape@[k as int]);
        }
        if rd > usize::MAX as u64 {
            proof {
                lemma_element_count_monotonic(shape@, k + 1);
                lemma_element_count_monotonic(shape@, k as int);
                assert(spec_element_count(shape@.take(k + 1)) > usize::MAX)
                    by (nonlinear_arith)
                    requires
                        spec_element_count(shape@.take(k + 1)) == spec_element_count(
                            shape@.take(k as int),
                        ) * spec_resolve_dim(shape@[k as int]),
                        spec_element_count(shape@.take(k as int)) >= 1,
                        spec_resolve_dim(shape@[k as int]) > usize::MAX,
                ;
            }
            return None;
        }
        match acc.checked_mul(rd as usize) {
            Some(next) => {
                acc = next;
            },
            None => {
                proof {
                    lemma_element_count_monotonic(shape@, k + 1);
                }
                return None;
            },
        }
        k = k + 1;
    }
    proof {
        assert(shape@.take(shape@.len() as int) =~= shape@);
    }
    Some(acc)
}

} // verus!
