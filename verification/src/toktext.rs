//! Text tokenization for the text-generation path.
//!
//! The tokenizer itself is an outside collaborator producing integer id
//! sequences; what is verified here is everything the gateway decides
//! around it: left-truncation to a token budget, BOS/EOS insertion, the
//! id-width conversions, and the fixed three-tensor input set built from
//! the ids.

use vstd::prelude::*;

use crate::fsmodel::{join_path, spec_content, spec_is_file, spec_join, FsTree};
use crate::tensor::TensorData;

verus! {

/// Why tokenization failed.
#[derive(Clone, Debug)]
pub enum TokError {
    /// No tokenizer definition file at this path.
    NotFound(String),
    /// The tokenizer reported this failure.
    Fail(String),
    /// Reading the definition failed.
    Io(String),
}

#[verifier::external_type_specification]
#[verifier::external_body]
pub struct ExTokenizer(tokenizers::Tokenizer);

/// Whether these bytes deserialize to a tokenizer: a fixed function of the
/// bytes alone.
pub uninterp spec fn spec_tokenizer_parses(bytes: Seq<u8>) -> bool;

/// Relies on tokenizers::Tokenizer::from_bytes: builds a tokenizer from
/// its serialized definition; success depends on the bytes alone.
#[verifier::external_body]
fn tok_from_bytes(bytes: &Vec<u8>) -> (r: Result<tokenizers::Tokenizer, String>)
    ensures
        r is Ok <==> spec_tokenizer_parses(bytes@),
{
    tokenizers::Tokenizer::from_bytes(bytes.as_slice()).map_err(|e| e.to_string())
}

/// Relies on tokenizers::Tokenizer::token_to_id: the vocabulary id of a
/// token, when the vocabulary has it.
#[verifier::external_body]
fn tok_token_to_id(tok: &tokenizers::Tokenizer, token: &str) -> (r: Option<u32>) {
    tok.token_to_id(token)
}

/// Relies on tokenizers::Tokenizer::encode and Encoding::get_ids: the id
/// sequence of a prompt, with the tokenizer's special tokens added.
#[verifier::external_body]
fn tok_encode(tok: &tokenizers::Tokenizer, prompt: &str) -> (r: Result<Vec<u32>, String>) {
    tok.encode(prompt, true).map(|e| e.get_ids().to_vec()).map_err(|e| e.to_string())
}

/// Relies on tokenizers::Tokenizer::decode: the text of an id sequence,
/// skipping special tokens.
#[verifier::external_body]
fn tok_decode(tok: &tokenizers::Tokenizer, ids: &Vec<u32>) -> (r: Result<String, String>) {
    tok.decode(ids.as_slice(), true).map_err(|e| e.to_string())
}

/// The raw ids widened to 64 bits.
pub open spec fn spec_to_i64(ids: Seq<u32>) -> Seq<i64> {
    Seq::new(ids.len(), |i: int| ids[i] as i64)
}

/// Left truncation: when a budget is given and exceeded, keep the last
/// `max_len` ids.
pub open spec fn spec_truncate_left(ids: Seq<i64>, max_len: Option<u64>) -> Seq<i64> {
    match max_len {
        Some(m) => if ids.len() > m {
            ids.skip(ids.len() - m as int)
        } else {
            ids
        },
        None => ids,
    }
}

/// BOS insertion: when asked and known and not already first, prepend it.
pub open spec fn spec_with_bos(ids: Seq<i64>, add: bool, bos: Option<i64>) -> Seq<i64> {
    match bos {
        Some(b) => if add && (ids.len() == 0 || ids[0] != b) {
            seq![b] + ids
        } else {
            ids
        },
        None => ids,
    }
}

/// EOS insertion: when asked and known and not already last, append it.
pub open spec fn spec_with_eos(ids: Seq<i64>, add: bool, eos: Option<i64>) -> Seq<i64> {
    match eos {
        Some(e) => if add && (ids.len() == 0 || ids[ids.len() - 1] != e) {
            ids + seq![e]
        } else {
            ids
        },
        None => ids,
    }
}

/// What `encode_ids` makes of a raw id sequence: widen, truncate from the
/// left, then insert BOS and EOS as asked.
pub open spec fn spec_prepared(
    raw: Seq<u32>,
    add_bos: bool,
    add_eos: bool,
    bos: Option<i64>,
    eos: Option<i64>,
    max_len: Option<u64>,
) -> Seq<i64> {
    spec_with_eos(
        spec_with_bos(spec_truncate_left(spec_to_i64(raw), max_len), add_bos, bos),
        add_eos,
        eos,
    )
}

/// Widen, truncate from the left, and insert BOS/EOS as asked: the pure
/// part of encoding, pinned down for every raw id sequence.
pub fn prepare_ids(
    raw: &Vec<u32>,
    add_bos: bool,
    add_eos: bool,
    bos: Option<i64>,
    eos: Option<i64>,
    max_len: Option<u64>,
) -> (r: Vec<i64>)
    ensures
        r@ == spec_prepared(raw@, add_bos, add_eos, bos, eos, max_len),
{
    let mut ids: Vec<i64> = Vec::new();
    let mut i: usize = 0;
    while i < raw.len()
        invariant
            i <= raw@.len(),
            ids@.len() == i,
            forall|j: int| 0 <= j < i ==> ids@[j] == raw@[j] as i64,
        decreases raw@.len() - i,
    {
        ids.push(raw[i] as i64);
        i = i + 1;
    }
    proof {
        assert(ids@ =~= spec_to_i64(raw@));
    }
    let ghost widened = ids@;
    let ids = match max_len {
        Some(m) => {
            if (ids.len() as u64) > m {
                let start = ids.len() - (m as usize);
                let mut kept: Vec<i64> = Vec::new();
                let mut k: usize = start;
                while k < ids.len()
                    invariant
                        start <= k <= ids@.len(),
                        kept@.len() == k - start,
                        forall|j: int| 0 <= j < k - start ==> kept@[j] == ids@[start + j],
                    decreases ids@.len() - k,
                {
                    kept.push(ids[k]);
                    k = k + 1;
                }
                proof {
                    assert(kept@ =~= ids@.skip(start as int));
                }
                kept
            } else {
                ids
            }
        },
        None => ids,
    };
    proof {
        assert(ids@ == spec_truncate_left(widened, max_len));
    }
    let ghost truncated = ids@;
    let mut ids = ids;
    if add_bos {
        match bos {
            Some(b) => {
                if ids.len() == 0 || ids[0] != b {
                    ids.insert(0, b);
                    proof {
                        assert(ids@ =~= seq![b] + truncated);
                    }
                }
            },
            None => {},
        }
    }
    proof {
        assert(ids@ == spec_with_bos(truncated, add_bos, bos));
    }
    let ghost with_bos = ids@;
    if add_eos {
        match eos {
            Some(e) => {
                if ids.len() == 0 || ids[ids.len() - 1] != e {
                    ids.push(e);
                    proof {
                        assert(ids@ =~= with_bos + seq![e]);
                    }
                }
            },
            None => {},
        }
    }
    proof {
        assert(ids@ == spec_with_eos(with_bos, add_eos, eos));
    }
    ids
}

/// A text tokenizer and the special token ids it knows.
pub struct TextTokenizer {
    pub tok: tokenizers::Tokenizer,
    pub bos_id: Option<i64>,
    pub eos_id: Option<i64>,
}

impl TextTokenizer {
    /// Load the tokenizer from `tokenizer.json` inside the model's
    /// directory in the tree, and look its BOS and EOS token ids up.
    /// Success is owed exactly when the file exists and its bytes
    /// deserialize to a tokenizer.
    pub fn from_repo(fs: &FsTree, repo_dir: &str) -> (r: Result<TextTokenizer, TokError>)
        ensures
            match r {
                Ok(_) => spec_is_file(fs@, spec_join(repo_dir@, "tokenizer.json"@))
                    && spec_tokenizer_parses(
                    spec_content(fs@, spec_join(repo_dir@, "tokenizer.json"@)),
                ),
                Err(TokError::NotFound(p)) => !spec_is_file(
                    fs@,
                    spec_join(repo_dir@, "tokenizer.json"@),
                ) && p@ == spec_join(repo_dir@, "tokenizer.json"@),
                Err(TokError::Fail(_)) => spec_is_file(fs@, spec_join(repo_dir@, "tokenizer.json"@))
                    && !spec_tokenizer_parses(
                    spec_content(fs@, spec_join(repo_dir@, "tokenizer.json"@)),
                ),
                Err(TokError::Io(_)) => false,
            },
    {
        let tj = join_path(repo_dir, "tokenizer.json");
        let bytes = match fs.read_file(tj.as_str()) {
            Some(b) => b,
            None => {
                return Err(TokError::NotFound(tj));
            },
        };
        let tok = match tok_from_bytes(&bytes) {
            Ok(t) => t,
            Err(e) => {
                return Err(TokError::Fail(e));
            },
        };
        let bos_id = match tok_token_to_id(&tok, "<s>") {
            Some(id) => Some(id as i64),
            None => None,
        };
        let eos_id = match tok_token_to_id(&tok, "</s>") {
            Some(id) => Some(id as i64),
            None => None,
        };
        Ok(TextTokenizer { tok, bos_id, eos_id })
    }

    /// Encode a prompt: whatever raw ids the tokenizer produced, the
    /// result is exactly their prepared form — widened, left-truncated to
    /// the budget, BOS and EOS inserted as asked.
    pub fn encode_ids(
        &self,
        prompt: &str,
        add_bos: bool,
        add_eos: bool,
        max_len: Option<u64>,
    ) -> (r: Result<Vec<i64>, TokError>)
        ensures
            match r {
                Ok(ids) => exists|raw: Seq<u32>|
                    ids@ == #[trigger] spec_prepared(
                        raw,
                        add_bos,
                        add_eos,
                        self.bos_id,
                        self.eos_id,
                        max_len,
                    ),
                Err(TokError::Fail(_)) => true,
                Err(_) => false,
            },
    {
        let raw = match tok_encode(&self.tok, prompt) {
            Ok(v) => v,
            Err(e) => {
                return Err(TokError::Fail(e));
            },
        };
        let ids = prepare_ids(&raw, add_bos, add_eos, self.bos_id, self.eos_id, max_len);
        Ok(ids)
    }

    /// Decode ids back to text, narrowing each id to the tokenizer's
    /// 32-bit width as the wire format stores them widened.
    pub fn decode_ids(&self, ids: &Vec<i64>) -> (r: Result<String, TokError>)
        ensures
            r is Err ==> r->Err_0 is Fail,
    {
        let mut u32_ids: Vec<u32> = Vec::new();
        let mut i: usize = 0;
        while i < ids.len()
            decreases ids@.len() - i,
        {
            #[verifier::truncate]
            let narrowed = (ids[i] as u32);
            u32_ids.push(narrowed);
            i = i + 1;
        }
        match tok_decode(&self.tok, &u32_ids) {
            Ok(s) => Ok(s),
            Err(e) => Err(TokError::Fail(e)),
        }
    }

    /// The BOS token id, when the vocabulary names one.
    pub fn bos_id(&self) -> (r: Option<i64>)
        ensures
            r == self.bos_id,
    {
        self.bos_id
    }

    /// The EOS token id, when the vocabulary names one.
    pub fn eos_id(&self) -> (r: Option<i64>)
        ensures
            r == self.eos_id,
    {
        self.eos_id
    }
}

/// The fixed three-tensor input set of the text path: the ids, an all-ones
/// attention mask, and position ids counting from zero, each of shape
/// `[1, n]` for `n` ids.
pub fn make_llm_inputs(token_ids: Vec<i64>) -> (r: Vec<(String, TensorData, Vec<usize>)>)
    requires
        token_ids@.len() <= 0x7fff_ffff_ffff_ffff,
    ensures
        r@.len() == 3,
        r@[0].0@ == "input_ids"@,
        r@[0].1 is I64 && r@[0].1->I64_0@ == token_ids@,
        r@[1].0@ == "attention_mask"@,
        r@[1].1 is I64 && r@[1].1->I64_0@.len() == token_ids@.len(),
        forall|j: int| 0 <= j < token_ids@.len() ==> r@[1].1->I64_0@[j] == 1i64,
        r@[2].0@ == "position_ids"@,
        r@[2].1 is I64 && r@[2].1->I64_0@.len() == token_ids@.len(),
        forall|j: int| 0 <= j < token_ids@.len() ==> r@[2].1->I64_0@[j] == j as i64,
        forall|k: int|
            0 <= k < 3 ==> (#[trigger] r@[k].2)@ =~= seq![1usize, token_ids@.len() as usize],
{
    let n = token_ids.len();
    let mut mask: Vec<i64> = Vec::new();
    let mut i: usize = 0;
    while i < n
        invariant
            i <= n,
            mask@.len() == i,
            forall|j: int| 0 <= j < i ==> mask@[j] == 1i64,
        decreases n - i,
    {
        mask.push(1);
        i = i + 1;
    }
    let mut positions: Vec<i64> = Vec::new();
    let mut p: usize = 0;
    while p < n
        invariant
            p <= n,
            n == token_ids@.len(),
            n <= 0x7fff_ffff_ffff_ffff,
            positions@.len() == p,
            forall|j: int| 0 <= j < p ==> positions@[j] == j as i64,
        decreases n - p,
    {
        positions.push(p as i64);
        p = p + 1;
    }
    let mut shape0: Vec<usize> = Vec::new();
    shape0.push(1);
    shape0.push(n);
    let shape1 = shape0.clone();
    let shape2 = shape0.clone();
    proof {
        assert(shape0@ =~= seq![1usize, n as usize]);
        assert(shape1@ =~= shape0@) by {
            assert(forall|j: int| #![all_triggers] 0 <= j < shape0@.len() ==> shape1@[j]
                == shape0@[j]);
        }
        assert(shape2@ =~= shape0@) by {
            assert(forall|j: int| #![all_triggers] 0 <= j < shape0@.len() ==> shape2@[j]
                == shape0@[j]);
        }
    }
    let mut r: Vec<(String, TensorData, Vec<usize>)> = Vec::new();
    r.push((String::from_str("input_ids"), TensorData::I64(token_ids), shape0));
    r.push((String::from_str("attention_mask"), TensorData::I64(mask), shape1));
    r.push((String::from_str("position_ids"), TensorData::I64(positions), shape2));
    r
}

} // verus!
