//! Tensor alignment: reconciling caller-supplied tensors against a model's
//! declared input contract.
//!
//! For each declared input the aligner resolves the declared shape, computes
//! the expected element count, looks the caller's tensor up by name, and
//! checks its element count. A missing tensor or a count mismatch is a hard
//! error; the datatype of a supplied tensor is trusted as-is. When the caller
//! supplies nothing, `generate_defaults` synthesizes a zero-valued tensor per
//! declared input instead.

use vstd::prelude::*;

use crate::descriptor::{
    element_count, lemma_element_count_nonneg, resolve_shape, InputDecl, ModelDescriptor,
    spec_element_count, spec_resolve_dim,
};
use crate::tensor::{
    clone_tensor, spec_data_eq, spec_datatype_supported, str_eq, zero_tensor, TensorData,
};

verus! {

/// A tensor ready to be sent to the backend: a name, element data, and the
/// concrete shape the data is laid out in.
#[derive(Clone, Debug)]
pub struct NamedTensor {
    pub name: String,
    pub data: TensorData,
    pub shape: Vec<usize>,
}

/// The product of concrete dimensions (1 for the empty shape).
pub open spec fn spec_dims_count(shape: Seq<usize>) -> int
    decreases shape.len(),
{
    if shape.len() == 0 {
        1int
    } else {
        spec_dims_count(shape.drop_last()) * (shape.last() as int)
    }
}

impl NamedTensor {
    /// Well-formed: the element count matches the product of the shape.
    pub open spec fn wf(&self) -> bool {
        self.data.spec_len() == spec_dims_count(self.shape@)
    }
}

/// Dimensions that resolve a declared shape carry the same element count.
proof fn lemma_counts_agree(dims: Seq<usize>, shape: Seq<i64>)
    requires
        dims.len() == shape.len(),
        forall|i: int| 0 <= i < shape.len() ==> dims[i] as int == spec_resolve_dim(#[trigger] shape[i]),
    ensures
        spec_dims_count(dims) == spec_element_count(shape),
    decreases dims.len(),
{
    if dims.len() > 0 {
        assert(forall|i: int|
            0 <= i < shape.drop_last().len() ==> dims.drop_last()[i] as int == spec_resolve_dim(
                #[trigger] shape.drop_last()[i],
            ));
        lemma_counts_agree(dims.drop_last(), shape.drop_last());
        assert(dims.last() as int == spec_resolve_dim(shape.last()));
    }
}

/// Why alignment failed.
#[derive(Clone, Debug)]
pub enum AlignError {
    /// The caller supplied no tensor for a declared input.
    MissingInput { name: String },
    /// The supplied tensor's element count does not match the resolved shape.
    ShapeMismatch { name: String, expected_shape: Vec<i64>, expected_len: usize, actual_len: usize },
    /// The resolved element count does not fit in this machine's word.
    CountOverflow { name: String },
    /// A declared datatype tag is not one the gateway understands.
    UnsupportedDatatype { name: String, datatype: String },
}

/// The first caller-supplied tensor named `name`, if any.
pub open spec fn spec_lookup(inputs: Seq<(String, TensorData)>, name: Seq<char>) -> Option<
    TensorData,
>
    decreases inputs.len(),
{
    if inputs.len() == 0 {
        None
    } else if inputs.first().0@ == name {
        Some(inputs.first().1)
    } else {
        spec_lookup(inputs.drop_first(), name)
    }
}

/// The declared input `decl` is satisfied by `inputs`: its count fits the
/// machine, a tensor of its name was supplied, and the element counts agree.
pub open spec fn spec_decl_satisfied(inputs: Seq<(String, TensorData)>, decl: InputDecl) -> bool {
    &&& spec_element_count(decl.shape@) <= usize::MAX
    &&& forall|i: int|
        0 <= i < decl.shape@.len() ==> spec_resolve_dim(#[trigger] decl.shape@[i]) <= usize::MAX
    &&& match spec_lookup(inputs, decl.name@) {
        Some(t) => t.spec_len() == spec_element_count(decl.shape@),
        None => false,
    }
}

/// What a successful alignment yields for declared input `decl`: the
/// caller's tensor under the declared name with the resolved shape, its
/// content and hence its datatype tag unchanged.
pub open spec fn spec_aligned(inputs: Seq<(String, TensorData)>, decl: InputDecl, out: NamedTensor) -> bool {
    &&& out.name@ == decl.name@
    &&& out.shape@.len() == decl.shape@.len()
    &&& forall|i: int|
        0 <= i < decl.shape@.len() ==> out.shape@[i] as int == spec_resolve_dim(
            #[trigger] decl.shape@[i],
        )
    &&& match spec_lookup(inputs, decl.name@) {
        Some(t) => spec_data_eq(t, out.data),
        None => false,
    }
}

/// The first caller-supplied tensor named `name`, if any.
pub fn lookup_input<'a>(inputs: &'a Vec<(String, TensorData)>, name: &str) -> (r: Option<
    &'a TensorData,
>)
    ensures
        match r {
            Some(t) => spec_lookup(inputs@, name@) == Some(*t),
            None => spec_lookup(inputs@, name@) is None,
        },
{
    let mut i: usize = 0;
    proof {
        assert(inputs@.skip(0) =~= inputs@);
    }
    while i < inputs.len()
        invariant
            i <= inputs@.len(),
            spec_lookup(inputs@, name@) == spec_lookup(inputs@.skip(i as int), name@),
        decreases inputs@.len() - i,
    {
        proof {
            assert(inputs@.skip(i as int).first() == inputs@[i as int]);
            assert(inputs@.skip(i as int).drop_first() =~= inputs@.skip(i + 1));
        }
        if str_eq(inputs[i].0.as_str(), name) {
            return Some(&inputs[i].1);
        }
        i = i + 1;
    }
    proof {
        assert(inputs@.skip(i as int) =~= Seq::<(String, TensorData)>::empty());
    }
    None
}

/// Align the caller's tensors against the descriptor.
///
/// On success there is one output tensor per declared input, in declaration
/// order, carrying the caller's data unchanged under the resolved shape. The
/// first declared input that is unsatisfied determines the error: a missing
/// tensor, a count mismatch, or a count that does not fit the machine.
pub fn align(inputs: &Vec<(String, TensorData)>, desc: &ModelDescriptor) -> (r: Result<
    Vec<NamedTensor>,
    AlignError,
>)
    ensures
        match r {
            Ok(out) => {
                &&& out@.len() == desc.inputs@.len()
                &&& forall|i: int|
                    0 <= i < desc.inputs@.len() ==> spec_aligned(
                        inputs@,
                        #[trigger] desc.inputs@[i],
                        out@[i],
                    )
                &&& forall|i: int|
                    0 <= i < desc.inputs@.len() ==> spec_decl_satisfied(
                        inputs@,
                        #[trigger] desc.inputs@[i],
                    )
                &&& forall|i: int| 0 <= i < out@.len() ==> (#[trigger] out@[i]).wf()
            },
            Err(e) => exists|i: int|
                {
                    &&& 0 <= i < desc.inputs@.len()
                    &&& !spec_decl_satisfied(inputs@, #[trigger] desc.inputs@[i])
                    &&& forall|j: int|
                        0 <= j < i ==> spec_decl_satisfied(inputs@, #[trigger] desc.inputs@[j])
                    &&& match e {
                        AlignError::MissingInput { name } => name@ == desc.inputs@[i].name@
                            && spec_lookup(inputs@, desc.inputs@[i].name@) is None,
                        AlignError::ShapeMismatch { name, expected_shape, expected_len, actual_len } => {
                            &&& name@ == desc.inputs@[i].name@
                            &&& expected_shape@ == desc.inputs@[i].shape@
                            &&& expected_len as int == spec_element_count(desc.inputs@[i].shape@)
                            &&& match spec_lookup(inputs@, desc.inputs@[i].name@) {
                                Some(t) => actual_len == t.spec_len() && actual_len
                                    != expected_len,
                                None => false,
                            }
                        },
                        AlignError::CountOverflow { name } => name@ == desc.inputs@[i].name@
                            && (spec_element_count(desc.inputs@[i].shape@) > usize::MAX || exists|
                            k: int,
                        |
                            0 <= k < desc.inputs@[i].shape@.len() && spec_resolve_dim(
                                #[trigger] desc.inputs@[i].shape@[k],
                            ) > usize::MAX),
                        AlignError::UnsupportedDatatype { .. } => false,
                    }
                },
        },
{
    let mut out: Vec<NamedTensor> = Vec::new();
    let mut i: usize = 0;
    while i < desc.inputs.len()
        invariant
            i <= desc.inputs@.len(),
            out@.len() == i,
            forall|j: int|
                0 <= j < i ==> spec_aligned(inputs@, #[trigger] desc.inputs@[j], out@[j]),
            forall|j: int| 0 <= j < i ==> spec_decl_satisfied(inputs@, #[trigger] desc.inputs@[j]),
            forall|j: int| 0 <= j < i ==> (#[trigger] out@[j]).wf(),
        decreases desc.inputs@.len() - i,
    {
        let decl = &desc.inputs[i];
        let expected = match element_count(&decl.shape) {
            Some(c) => c,
            None => {
                return Err(AlignError::CountOverflow { name: decl.name.clone() });
            },
        };
        let dims = match resolve_shape(&decl.shape) {
            Some(d) => d,
            None => {
                return Err(AlignError::CountOverflow { name: decl.name.clone() });
            },
        };
        let supplied = match lookup_input(inputs, decl.name.as_str()) {
            Some(t) => t,
            None => {
                return Err(AlignError::MissingInput { name: decl.name.clone() });
            },
        };
        let actual = supplied.len();
        if actual != expected {
            let expected_shape = decl.shape.clone();
            proof {
                assert(expected_shape@ =~= decl.shape@) by {
                    assert(forall|k: int| #![all_triggers]
                        0 <= k < decl.shape@.len() ==> expected_shape@[k] == decl.shape@[k]);
                }
            }
            return Err(
                AlignError::ShapeMismatch {
                    name: decl.name.clone(),
                    expected_shape,
                    expected_len: expected,
                    actual_len: actual,
                },
            );
        }
        proof {
            lemma_element_count_nonneg(decl.shape@);
        }
        let data = clone_tensor(supplied);
        proof {
            crate::tensor::lemma_data_eq_observers(*supplied, data);
            lemma_counts_agree(dims@, decl.shape@);
        }
        out.push(NamedTensor { name: decl.name.clone(), data, shape: dims });
        i = i + 1;
    }
    Ok(out)
}

/// Prepare the inference tensors: align the caller's inputs when any were
/// supplied, synthesize zero-valued defaults otherwise. The result is the
/// respective function's, unchanged.
pub fn prepare_tensors(inputs: &Option<Vec<(String, TensorData)>>, desc: &ModelDescriptor) -> (r:
    Result<Vec<NamedTensor>, AlignError>)
    ensures
        match inputs {
            Some(v) => match r {
                Ok(out) => {
                    &&& out@.len() == desc.inputs@.len()
                    &&& forall|i: int|
                        0 <= i < desc.inputs@.len() ==> spec_aligned(
                            v@,
                            #[trigger] desc.inputs@[i],
                            out@[i],
                        )
                    &&& forall|i: int|
                        0 <= i < desc.inputs@.len() ==> spec_decl_satisfied(
                            v@,
                            #[trigger] desc.inputs@[i],
                        )
                    &&& forall|i: int| 0 <= i < out@.len() ==> (#[trigger] out@[i]).wf()
                },
                Err(e) => exists|i: int|
                    {
                        &&& 0 <= i < desc.inputs@.len()
                        &&& !spec_decl_satisfied(v@, #[trigger] desc.inputs@[i])
                        &&& forall|j: int|
                            0 <= j < i ==> spec_decl_satisfied(v@, #[trigger] desc.inputs@[j])
                    },
            },
            None => match r {
                Ok(out) => {
                    &&& out@.len() == desc.inputs@.len()
                    &&& forall|i: int|
                        0 <= i < desc.inputs@.len() ==> {
                            let decl = #[trigger] desc.inputs@[i];
                            &&& out@[i].name@ == decl.name@
                            &&& out@[i].data.spec_len() == spec_element_count(decl.shape@)
                            &&& out@[i].data.spec_datatype() == decl.datatype@
                            &&& out@[i].data.spec_all_default()
                            &&& out@[i].wf()
                        }
                },
                Err(_) => true,
            },
        },
{
    match inputs {
        Some(v) => align(v, desc),
        None => generate_defaults(desc),
    }
}

/// Synthesize a zero-valued tensor per declared input, using the same shape
/// resolution rule as `align` and the declared datatype tag. An unrecognized
/// tag, or a count that does not fit the machine, is a hard error at the
/// first declared input that shows one.
pub fn generate_defaults(desc: &ModelDescriptor) -> (r: Result<Vec<NamedTensor>, AlignError>)
    ensures
        match r {
            Ok(out) => {
                &&& out@.len() == desc.inputs@.len()
                &&& forall|i: int|
                    0 <= i < desc.inputs@.len() ==> {
                        let decl = #[trigger] desc.inputs@[i];
                        &&& out@[i].name@ == decl.name@
                        &&& out@[i].shape@.len() == decl.shape@.len()
                        &&& forall|k: int|
                            0 <= k < decl.shape@.len() ==> out@[i].shape@[k] as int
                                == spec_resolve_dim(#[trigger] decl.shape@[k])
                        &&& out@[i].data.spec_len() == spec_element_count(decl.shape@)
                        &&& out@[i].data.spec_datatype() == decl.datatype@
                        &&& out@[i].data.spec_all_default()
                        &&& spec_datatype_supported(decl.datatype@)
                        &&& out@[i].wf()
                    }
            },
            Err(e) => exists|i: int|
                #![trigger desc.inputs@[i]]
                {
                    &&& 0 <= i < desc.inputs@.len()
                    &&& match e {
                        AlignError::UnsupportedDatatype { name, datatype } => {
                            &&& name@ == desc.inputs@[i].name@
                            &&& datatype@ == desc.inputs@[i].datatype@
                            &&& !spec_datatype_supported(desc.inputs@[i].datatype@)
                        },
                        AlignError::CountOverflow { name } => name@ == desc.inputs@[i].name@
                            && (spec_element_count(desc.inputs@[i].shape@) > usize::MAX || exists|
                            k: int,
                        |
                            0 <= k < desc.inputs@[i].shape@.len() && spec_resolve_dim(
                                #[trigger] desc.inputs@[i].shape@[k],
                            ) > usize::MAX),
                        _ => false,
                    }
                },
        },
{
    let mut out: Vec<NamedTensor> = Vec::new();
    let mut i: usize = 0;
    while i < desc.inputs.len()
        invariant
            i <= desc.inputs@.len(),
            out@.len() == i,
            forall|j: int|
                0 <= j < i ==> {
                    let decl = #[trigger] desc.inputs@[j];
                    &&& out@[j].name@ == decl.name@
                    &&& out@[j].shape@.len() == decl.shape@.len()
                    &&& forall|k: int|
                        0 <= k < decl.shape@.len() ==> out@[j].shape@[k] as int
                            == spec_resolve_dim(#[trigger] decl.shape@[k])
                    &&& out@[j].data.spec_len() == spec_element_count(decl.shape@)
                    &&& out@[j].data.spec_datatype() == decl.datatype@
                    &&& out@[j].data.spec_all_default()
                    &&& spec_datatype_supported(decl.datatype@)
                    &&& out@[j].wf()
                },
        decreases desc.inputs@.len() - i,
    {
        let decl = &desc.inputs[i];
        let expected = match element_count(&decl.shape) {
            Some(c) => c,
            None => {
                return Err(AlignError::CountOverflow { name: decl.name.clone() });
            },
        };
        let dims = match resolve_shape(&decl.shape) {
            Some(d) => d,
            None => {
                return Err(AlignError::CountOverflow { name: decl.name.clone() });
            },
        };
        let data = match zero_tensor(decl.datatype.as_str(), expected) {
            Some(t) => t,
            None => {
                return Err(
                    AlignError::UnsupportedDatatype {
                        name: decl.name.clone(),
                        datatype: decl.datatype.clone(),
                    },
                );
            },
        };
        proof {
            lemma_counts_agree(dims@, decl.shape@);
        }
        out.push(NamedTensor { name: decl.name.clone(), data, shape: dims });
        i = i + 1;
    }
    Ok(out)
}

} // verus!
