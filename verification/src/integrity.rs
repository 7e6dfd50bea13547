//! The integrity verifier: recompute the weight file's SHA-256 and compare
//! it, case-insensitively, against an expected hex digest.
//!
//! The check fails closed: a missing or unreadable weight file is an I/O
//! error, and any difference between the digests is a mismatch. The result
//! is a function of the tree and the arguments alone, so repeated runs over
//! unchanged files agree.

use vstd::prelude::*;

use crate::archive::{hex_bytes, spec_digest_path, spec_hex_bytes, spec_hex_digit, spec_sha256, spec_weight_path, sha256_digest};
use crate::fsmodel::{join_path, spec_content, spec_is_file, FsTree, Node};

verus! {

/// What an integrity check came to.
#[derive(Clone, Copy, Debug, PartialEq, Eq, Structural)]
pub enum IntegrityOutcome {
    /// The recomputed digest matches the expected one.
    Valid,
    /// The digests differ: the blob must not be served.
    Mismatch,
    /// The weight file is absent.
    IoError,
}

/// ASCII upper-case letters fold to lower case; all else stays.
pub open spec fn spec_lower_char(c: char) -> char {
    if 'A' <= c && c <= 'Z' {
        (((c as u8) + 32) as char)
    } else {
        c
    }
}

/// `s` folded to lower case, character by character.
pub open spec fn spec_lower(s: Seq<char>) -> Seq<char> {
    Seq::new(s.len(), |i: int| spec_lower_char(s[i]))
}

/// The lower-case hex digit character for `n` (`n < 16`).
pub open spec fn spec_hex_char(n: u8) -> char {
    spec_hex_digit(n) as char
}

/// The lower-case hex encoding of `d` as characters, two per byte.
pub open spec fn spec_hex_chars(d: Seq<u8>) -> Seq<char>
    decreases d.len(),
{
    if d.len() == 0 {
        Seq::empty()
    } else {
        spec_hex_chars(d.drop_last()) + seq![
            spec_hex_char(d.last() / 16),
            spec_hex_char(d.last() % 16),
        ]
    }
}

/// Hex encoding doubles the length.
pub proof fn lemma_hex_chars_len(d: Seq<u8>)
    ensures
        spec_hex_chars(d).len() == 2 * d.len(),
    decreases d.len(),
{
    if d.len() > 0 {
        lemma_hex_chars_len(d.drop_last());
    }
}

/// The two characters a byte encodes to.
pub proof fn lemma_hex_chars_index(d: Seq<u8>, k: int)
    requires
        0 <= k < d.len(),
    ensures
        spec_hex_chars(d).len() == 2 * d.len(),
        spec_hex_chars(d)[2 * k] == spec_hex_char(d[k] / 16),
        spec_hex_chars(d)[2 * k + 1] == spec_hex_char(d[k] % 16),
    decreases d.len(),
{
    lemma_hex_chars_len(d);
    if d.len() > 0 {
        lemma_hex_chars_len(d.drop_last());
        if k < d.len() - 1 {
            lemma_hex_chars_index(d.drop_last(), k);
        }
    }
}

/// What `verify` decides, as a function of the tree and the arguments.
pub open spec fn spec_verify(
    m: Map<Seq<char>, Node>,
    base: Seq<char>,
    model: Seq<char>,
    expected: Seq<char>,
) -> IntegrityOutcome {
    if !spec_is_file(m, spec_weight_path(base, model)) {
        IntegrityOutcome::IoError
    } else if spec_lower(expected) == spec_hex_chars(
        spec_sha256(spec_content(m, spec_weight_path(base, model))),
    ) {
        IntegrityOutcome::Valid
    } else {
        IntegrityOutcome::Mismatch
    }
}

/// Fold one character to lower case.
fn lower_char(c: char) -> (r: char)
    ensures
        r == spec_lower_char(c),
{
    if 'A' <= c && c <= 'Z' {
        #[verifier::truncate]
        let b = (c as u8);
        (b + 32) as char
    } else {
        c
    }
}

/// The lower-case hex digit character for `n` (`n < 16`).
fn hex_char(n: u8) -> (r: char)
    requires
        n < 16,
    ensures
        r == spec_hex_char(n),
{
    if n < 10 {
        (48 + n) as char
    } else {
        (87 + n) as char
    }
}

/// Recompute the SHA-256 of the model's weight file and compare it, after
/// case folding, with the expected hex digest. A missing weight file is an
/// I/O error; any difference is a mismatch.
pub fn verify(fs: &FsTree, model_name: &str, base_dir: &str, expected_hash_hex: &str) -> (r:
    IntegrityOutcome)
    ensures
        r == spec_verify(fs@, base_dir@, model_name@, expected_hash_hex@),
{
    let mut weight_rel = String::from_str(model_name);
    weight_rel.append("/1/model.onnx");
    let weight_path = join_path(base_dir, weight_rel.as_str());
    let content = match fs.read_file(weight_path.as_str()) {
        Some(c) => c,
        None => {
            return IntegrityOutcome::IoError;
        },
    };
    let digest = sha256_digest(&content);
    let ghost dg = digest@;
    let n = expected_hash_hex.unicode_len();
    proof {
        lemma_hex_chars_len(dg);
    }
    if n != 2 * digest.len() {
        proof {
            assert(spec_lower(expected_hash_hex@).len() == n);
        }
        return IntegrityOutcome::Mismatch;
    }
    let mut k: usize = 0;
    while k < digest.len()
        invariant
            n == expected_hash_hex@.len(),
            n == 2 * dg.len(),
            k <= dg.len(),
            dg == digest@,
            spec_hex_chars(dg).len() == n,
            spec_is_file(fs@, spec_weight_path(base_dir@, model_name@)),
            dg == spec_sha256(spec_content(fs@, spec_weight_path(base_dir@, model_name@))),
            forall|j: int|
                0 <= j < 2 * k ==> spec_lower(expected_hash_hex@)[j] == spec_hex_chars(dg)[j],
        decreases dg.len() - k,
    {
        let b = digest[k];
        let hi = hex_char(b / 16);
        let lo = hex_char(b % 16);
        let e_hi = lower_char(expected_hash_hex.get_char(2 * k));
        let e_lo = lower_char(expected_hash_hex.get_char(2 * k + 1));
        proof {
            lemma_hex_chars_index(dg, k as int);
        }
        if e_hi != hi || e_lo != lo {
            proof {
                if e_hi != hi {
                    assert(spec_lower(expected_hash_hex@)[2 * k] != spec_hex_chars(dg)[2 * k]);
                } else {
                    assert(spec_lower(expected_hash_hex@)[2 * k + 1] != spec_hex_chars(dg)[2 * k
                        + 1]);
                }
                assert(spec_lower(expected_hash_hex@) != spec_hex_chars(dg));
            }
            return IntegrityOutcome::Mismatch;
        }
        k = k + 1;
    }
    proof {
        assert(spec_lower(expected_hash_hex@) =~= spec_hex_chars(dg));
    }
    IntegrityOutcome::Valid
}

/// ASCII upper-case bytes fold to lower case; all else stays.
pub open spec fn spec_lower_byte(b: u8) -> u8 {
    if 65 <= b <= 90 {
        (b + 32) as u8
    } else {
        b
    }
}

/// `s` folded to lower case, byte by byte.
pub open spec fn spec_lower_bytes(s: Seq<u8>) -> Seq<u8> {
    Seq::new(s.len(), |i: int| spec_lower_byte(s[i]))
}

/// What `verify_against_side_file` decides: with no digest side file
/// there is nothing to hold the blob against, so the model passes; with
/// one, the check is `verify` against the side file's hex text,
/// case-insensitively.
pub open spec fn spec_verify_side(m: Map<Seq<char>, Node>, base: Seq<char>, model: Seq<char>) -> IntegrityOutcome {
    if !spec_is_file(m, spec_digest_path(base, model)) {
        IntegrityOutcome::Valid
    } else if !spec_is_file(m, spec_weight_path(base, model)) {
        IntegrityOutcome::IoError
    } else if spec_lower_bytes(spec_content(m, spec_digest_path(base, model))) == spec_hex_bytes(
        spec_sha256(spec_content(m, spec_weight_path(base, model))),
    ) {
        IntegrityOutcome::Valid
    } else {
        IntegrityOutcome::Mismatch
    }
}

/// Check the weight file against the digest persisted at extraction.
/// A model with no persisted digest passes (there is nothing to compare
/// against); one with a digest must match it, fail closed otherwise.
pub fn verify_against_side_file(fs: &FsTree, model_name: &str, base_dir: &str) -> (r:
    IntegrityOutcome)
    ensures
        r == spec_verify_side(fs@, base_dir@, model_name@),
{
    let mut digest_rel = String::from_str(model_name);
    digest_rel.append(".sha256");
    let digest_path = join_path(base_dir, digest_rel.as_str());
    let side = match fs.read_file(digest_path.as_str()) {
        Some(b) => b,
        None => {
            return IntegrityOutcome::Valid;
        },
    };
    let mut weight_rel = String::from_str(model_name);
    weight_rel.append("/1/model.onnx");
    let weight_path = join_path(base_dir, weight_rel.as_str());
    let content = match fs.read_file(weight_path.as_str()) {
        Some(c) => c,
        None => {
            return IntegrityOutcome::IoError;
        },
    };
    let digest = sha256_digest(&content);
    let expected = hex_bytes(&digest);
    if side.len() != expected.len() {
        proof {
            assert(spec_lower_bytes(side@).len() == side@.len());
        }
        return IntegrityOutcome::Mismatch;
    }
    let mut k: usize = 0;
    while k < expected.len()
        invariant
            side@.len() == expected@.len(),
            k <= expected@.len(),
            expected@ == crate::archive::spec_hex_bytes(
                spec_sha256(spec_content(fs@, spec_weight_path(base_dir@, model_name@))),
            ),
            side@ == spec_content(fs@, spec_digest_path(base_dir@, model_name@)),
            spec_is_file(fs@, spec_digest_path(base_dir@, model_name@)),
            spec_is_file(fs@, spec_weight_path(base_dir@, model_name@)),
            forall|j: int| 0 <= j < k ==> spec_lower_bytes(side@)[j] == expected@[j],
        decreases expected@.len() - k,
    {
        let b = side[k];
        let low: u8 = if 65 <= b && b <= 90 {
            b + 32
        } else {
            b
        };
        if low != expected[k] {
            proof {
                assert(spec_lower_bytes(side@)[k as int] != expected@[k as int]);
                assert(spec_lower_bytes(side@) != expected@);
            }
            return IntegrityOutcome::Mismatch;
        }
        k = k + 1;
    }
    proof {
        assert(spec_lower_bytes(side@) =~= expected@);
    }
    IntegrityOutcome::Valid
}

/// Repeated integrity checks over unchanged files agree: when two trees
/// hold the same weight file for the model (or both lack it), `verify`
/// decides the same way on both, whatever else changed around it.
pub proof fn lemma_verify_stable(
    m1: Map<Seq<char>, Node>,
    m2: Map<Seq<char>, Node>,
    base: Seq<char>,
    model: Seq<char>,
    expected: Seq<char>,
)
    requires
        spec_is_file(m1, spec_weight_path(base, model)) == spec_is_file(
            m2,
            spec_weight_path(base, model),
        ),
        spec_is_file(m1, spec_weight_path(base, model)) ==> spec_content(
            m1,
            spec_weight_path(base, model),
        ) == spec_content(m2, spec_weight_path(base, model)),
    ensures
        spec_verify(m1, base, model, expected) == spec_verify(m2, base, model, expected),
{
}

} // verus!
