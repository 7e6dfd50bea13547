//! Tensor values exchanged with the backend.
//!
//! A tensor is a tagged union over element sequences. Elements of the
//! 32-bit floating point variant are carried as their JSON number text, so
//! that the whole type is made of plain values; the text `0` is the zero
//! element. What the gateway decides about a tensor depends only on its
//! element count and its variant, never on the numeric value of an element.

use vstd::prelude::*;

verus! {

/// The element data of one tensor. Exactly one variant is populated.
#[derive(Clone, Debug)]
pub enum TensorData {
    /// 32-bit floating point elements, each as its JSON number text.
    F32(Vec<String>),
    I32(Vec<i32>),
    I64(Vec<i64>),
    U8(Vec<u8>),
    Bool(Vec<bool>),
    Str(Vec<String>),
}

impl TensorData {
    /// Number of elements held.
    pub open spec fn spec_len(&self) -> nat {
        match self {
            TensorData::F32(v) => v@.len(),
            TensorData::I32(v) => v@.len(),
            TensorData::I64(v) => v@.len(),
            TensorData::U8(v) => v@.len(),
            TensorData::Bool(v) => v@.len(),
            TensorData::Str(v) => v@.len(),
        }
    }

    /// The wire datatype tag this variant maps to.
    pub open spec fn spec_datatype(&self) -> Seq<char> {
        match self {
            TensorData::F32(_) => "FP32"@,
            TensorData::I32(_) => "INT32"@,
            TensorData::I64(_) => "INT64"@,
            TensorData::U8(_) => "UINT8"@,
            TensorData::Bool(_) => "BOOL"@,
            TensorData::Str(_) => "BYTES"@,
        }
    }

    /// Every element is the zero value of its variant (the text `0` for
    /// floating point, numeric zero, `false`, or the empty string).
    pub open spec fn spec_all_default(&self) -> bool {
        match self {
            TensorData::F32(v) => forall|i: int| 0 <= i < v@.len() ==> v@[i]@ =~= "0"@,
            TensorData::I32(v) => forall|i: int| 0 <= i < v@.len() ==> v@[i] == 0i32,
            TensorData::I64(v) => forall|i: int| 0 <= i < v@.len() ==> v@[i] == 0i64,
            TensorData::U8(v) => forall|i: int| 0 <= i < v@.len() ==> v@[i] == 0u8,
            TensorData::Bool(v) => forall|i: int| 0 <= i < v@.len() ==> v@[i] == false,
            TensorData::Str(v) => forall|i: int| 0 <= i < v@.len() ==> v@[i]@ =~= Seq::<char>::empty(),
        }
    }

    /// Number of elements held.
    pub fn len(&self) -> (n: usize)
        ensures
            n == self.spec_len(),
    {
        match self {
            TensorData::F32(v) => v.len(),
            TensorData::I32(v) => v.len(),
            TensorData::I64(v) => v.len(),
            TensorData::U8(v) => v.len(),
            TensorData::Bool(v) => v.len(),
            TensorData::Str(v) => v.len(),
        }
    }

    /// The wire datatype tag for this variant.
    pub fn datatype_tag(&self) -> (t: &'static str)
        ensures
            t@ == self.spec_datatype(),
    {
        match self {
            TensorData::F32(_) => "FP32",
            TensorData::I32(_) => "INT32",
            TensorData::I64(_) => "INT64",
            TensorData::U8(_) => "UINT8",
            TensorData::Bool(_) => "BOOL",
            TensorData::Str(_) => "BYTES",
        }
    }
}

/// The two tensors hold the same variant with the same element sequence.
pub open spec fn spec_data_eq(a: TensorData, b: TensorData) -> bool {
    match (a, b) {
        (TensorData::F32(x), TensorData::F32(y)) => x@ == y@,
        (TensorData::I32(x), TensorData::I32(y)) => x@ == y@,
        (TensorData::I64(x), TensorData::I64(y)) => x@ == y@,
        (TensorData::U8(x), TensorData::U8(y)) => x@ == y@,
        (TensorData::Bool(x), TensorData::Bool(y)) => x@ == y@,
        (TensorData::Str(x), TensorData::Str(y)) => x@ == y@,
        _ => false,
    }
}

/// Deep copy with its content pinned down: the copy holds the same variant
/// and the same element sequence as the original.
pub fn clone_tensor(t: &TensorData) -> (r: TensorData)
    ensures
        spec_data_eq(*t, r),
{
    match t {
        TensorData::F32(v) => {
            let c = v.clone();
            proof {
                assert(c@ =~= v@) by {
                    assert(forall|i: int| #![all_triggers] 0 <= i < v@.len() ==> c@[i] == v@[i]);
                }
            }
            TensorData::F32(c)
        },
        TensorData::I32(v) => {
            let c = v.clone();
            proof {
                assert(c@ =~= v@) by {
                    assert(forall|i: int| #![all_triggers] 0 <= i < v@.len() ==> c@[i] == v@[i]);
                }
            }
            TensorData::I32(c)
        },
        TensorData::I64(v) => {
            let c = v.clone();
            proof {
                assert(c@ =~= v@) by {
                    assert(forall|i: int| #![all_triggers] 0 <= i < v@.len() ==> c@[i] == v@[i]);
                }
            }
            TensorData::I64(c)
        },
        TensorData::U8(v) => {
            let c = v.clone();
            proof {
                assert(c@ =~= v@) by {
                    assert(forall|i: int| #![all_triggers] 0 <= i < v@.len() ==> c@[i] == v@[i]);
                }
            }
            TensorData::U8(c)
        },
        TensorData::Bool(v) => {
            let c = v.clone();
            proof {
                assert(c@ =~= v@) by {
                    assert(forall|i: int| #![all_triggers] 0 <= i < v@.len() ==> c@[i] == v@[i]);
                }
            }
            TensorData::Bool(c)
        },
        TensorData::Str(v) => {
            let c = v.clone();
            proof {
                assert(c@ =~= v@) by {
                    assert(forall|i: int| #![all_triggers] 0 <= i < v@.len() ==> c@[i] == v@[i]);
                }
            }
            TensorData::Str(c)
        },
    }
}

/// Tensors with the same content have the same element count and the same
/// wire datatype tag.
pub proof fn lemma_data_eq_observers(a: TensorData, b: TensorData)
    requires
        spec_data_eq(a, b),
    ensures
        a.spec_len() == b.spec_len(),
        a.spec_datatype() == b.spec_datatype(),
{
}

/// True when `s` is one of the wire datatype tags the gateway understands.
pub open spec fn spec_datatype_supported(s: Seq<char>) -> bool {
    s == "FP32"@ || s == "INT32"@ || s == "INT64"@ || s == "UINT8"@ || s == "BOOL"@
        || s == "BYTES"@
}

/// A vector holding `n` copies of `x`.
fn repeat_elem<T: Copy>(x: T, n: usize) -> (r: Vec<T>)
    ensures
        r@ =~= Seq::new(n as nat, |i: int| x),
{
    let mut r: Vec<T> = Vec::new();
    let mut i: usize = 0;
    while i < n
        invariant
            i <= n,
            r@.len() == i,
            forall|j: int| 0 <= j < i ==> r@[j] == x,
        decreases n - i,
    {
        r.push(x);
        i = i + 1;
    }
    r
}

/// A vector of `n` copies of the string `val`.
fn repeat_string(val: &str, n: usize) -> (r: Vec<String>)
    ensures
        r@.len() == n,
        forall|j: int| 0 <= j < n ==> r@[j]@ =~= val@,
{
    let mut r: Vec<String> = Vec::new();
    let mut i: usize = 0;
    while i < n
        invariant
            i <= n,
            r@.len() == i,
            forall|j: int| 0 <= j < i ==> r@[j]@ =~= val@,
        decreases n - i,
    {
        r.push(String::from_str(val));
        i = i + 1;
    }
    r
}

/// The zero-valued tensor of `count` elements for the wire datatype tag
/// `datatype`, or `None` when the tag is not recognized.
pub fn zero_tensor(datatype: &str, count: usize) -> (r: Option<TensorData>)
    ensures
        match r {
            Some(t) => spec_datatype_supported(datatype@) && t.spec_datatype() == datatype@
                && t.spec_len() == count && t.spec_all_default(),
            None => !spec_datatype_supported(datatype@),
        },
{
    if str_eq(datatype, "FP32") {
        Some(TensorData::F32(repeat_string("0", count)))
    } else if str_eq(datatype, "INT32") {
        Some(TensorData::I32(repeat_elem(0i32, count)))
    } else if str_eq(datatype, "INT64") {
        Some(TensorData::I64(repeat_elem(0i64, count)))
    } else if str_eq(datatype, "UINT8") {
        Some(TensorData::U8(repeat_elem(0u8, count)))
    } else if str_eq(datatype, "BOOL") {
        Some(TensorData::Bool(repeat_elem(false, count)))
    } else if str_eq(datatype, "BYTES") {
        proof {
            reveal_strlit("");
            assert(""@ =~= Seq::<char>::empty());
        }
        Some(TensorData::Str(repeat_string("", count)))
    } else {
        None
    }
}

/// Character-for-character string equality.
pub fn str_eq(a: &str, b: &str) -> (r: bool)
    ensures
        r == (a@ == b@),
{
    let la = a.unicode_len();
    let lb = b.unicode_len();
    if la != lb {
        return false;
    }
    let mut i: usize = 0;
    while i < la
        invariant
            la == a@.len(),
            lb == b@.len(),
            la == lb,
            i <= la,
            forall|j: int| 0 <= j < i ==> a@[j] == b@[j],
        decreases la - i,
    {
        if a.get_char(i) != b.get_char(i) {
            return false;
        }
        i = i + 1;
    }
    proof {
        assert(a@ =~= b@);
    }
    true
}

} // verus!
