//! Archive store and integrity verifier, against real archives.

use std::io::Write;
use sha2::Digest;

use inference_gateway::archive::{ensure_extracted, ExtractOutcome, ModelExtractor, ExtractError};
use inference_gateway::fsmodel::FsTree;
use inference_gateway::integrity::{verify, verify_against_side_file, IntegrityOutcome};

fn tar_gz_bytes(entries: &[(&str, &[u8])]) -> Vec<u8> {
    let mut builder = tar::Builder::new(Vec::new());
    for (path, data) in entries {
        let mut header = tar::Header::new_gnu();
        header.set_path(path).unwrap();
        header.set_size(data.len() as u64);
        header.set_mode(0o644);
        header.set_cksum();
        builder.append(&header, *data).unwrap();
    }
    let tar_data = builder.into_inner().unwrap();
    let mut encoder = flate2::write::GzEncoder::new(Vec::new(), flate2::Compression::default());
    encoder.write_all(&tar_data).unwrap();
    encoder.finish().unwrap()
}

fn zip_bytes(entries: &[(&str, &[u8])]) -> Vec<u8> {
    let cursor = std::io::Cursor::new(Vec::new());
    let mut writer = zip::ZipWriter::new(cursor);
    for (path, data) in entries {
        writer
            .start_file(*path, zip::write::SimpleFileOptions::default())
            .unwrap();
        writer.write_all(data).unwrap();
    }
    writer.finish().unwrap().into_inner()
}

fn hex_of(data: &[u8]) -> String {
    let digest = sha2::Sha256::digest(data);
    let mut s = String::new();
    for b in digest.as_slice() {
        s.push_str(&format!("{:02x}", b));
    }
    s
}

/// A fresh tree holding one tar.gz archive for `densenet_onnx`.
fn tree_with_tar(model_bytes: &[u8]) -> FsTree {
    let archive = tar_gz_bytes(&[("densenet_onnx/1/model.onnx", model_bytes)]);
    let mut fs = FsTree::new();
    fs.write_file("models/densenet_onnx.tar.gz", archive);
    fs
}

#[test]
fn extract_then_already_present() {
    let mut fs = tree_with_tar(b"weights-bytes");
    let first = ensure_extracted(&mut fs, "densenet_onnx", "models");
    assert_eq!(first, ExtractOutcome::Extracted);
    // The archive file is gone and the tree now holds the extracted files.
    assert!(!fs.is_file("models/densenet_onnx.tar.gz"));
    assert_eq!(
        fs.read_file("models/densenet_onnx/1/model.onnx").unwrap(),
        b"weights-bytes".to_vec()
    );
    assert!(fs.is_dir("models/densenet_onnx"));
    // The digest side file holds the weight file's hex digest.
    let digest = fs.read_file("models/densenet_onnx.sha256").unwrap();
    assert_eq!(String::from_utf8(digest).unwrap(), hex_of(b"weights-bytes"));
    // A second run finds the directory and touches nothing.
    let second = ensure_extracted(&mut fs, "densenet_onnx", "models");
    assert_eq!(second, ExtractOutcome::AlreadyPresent);
    assert!(fs.is_file("models/densenet_onnx/1/model.onnx"));
}

#[test]
fn extract_zip_archive() {
    let archive = zip_bytes(&[("m/1/model.onnx", b"zipped" as &[u8])]);
    let mut fs = FsTree::new();
    fs.write_file("base/m.zip", archive);
    assert_eq!(ensure_extracted(&mut fs, "m", "base"), ExtractOutcome::Extracted);
    assert!(!fs.is_file("base/m.zip"));
    assert_eq!(fs.read_file("base/m/1/model.onnx").unwrap(), b"zipped".to_vec());
    assert_eq!(ensure_extracted(&mut fs, "m", "base"), ExtractOutcome::AlreadyPresent);
}

#[test]
fn tar_archive_preferred_over_zip() {
    let tar = tar_gz_bytes(&[("m/1/model.onnx", b"from-tar" as &[u8])]);
    let zip = zip_bytes(&[("m/1/model.onnx", b"from-zip" as &[u8])]);
    let mut fs = FsTree::new();
    fs.write_file("base/m.tar.gz", tar);
    fs.write_file("base/m.zip", zip);
    assert_eq!(ensure_extracted(&mut fs, "m", "base"), ExtractOutcome::Extracted);
    assert_eq!(fs.read_file("base/m/1/model.onnx").unwrap(), b"from-tar".to_vec());
    // Only the chosen archive was consumed.
    assert!(!fs.is_file("base/m.tar.gz"));
    assert!(fs.is_file("base/m.zip"));
}

#[test]
fn missing_archive_is_not_found() {
    let mut fs = FsTree::new();
    assert_eq!(ensure_extracted(&mut fs, "m", "base"), ExtractOutcome::NotFound);
}

#[test]
fn garbage_archive_is_corrupt() {
    let mut fs = FsTree::new();
    fs.write_file("base/m.tar.gz", b"not a gzip stream".to_vec());
    assert_eq!(ensure_extracted(&mut fs, "m", "base"), ExtractOutcome::Corrupt);
    // The broken archive is left in place.
    assert!(fs.is_file("base/m.tar.gz"));
}

#[test]
fn extractor_reports_existing_directory() {
    let mut fs = FsTree::new();
    fs.mkdir("base/m");
    assert_eq!(
        ModelExtractor::new("m", "base", &fs).unwrap_err(),
        ExtractError::AlreadyExists
    );
}

#[test]
fn verify_is_stable_and_flips_on_edit() {
    let mut fs = tree_with_tar(b"original-weights");
    ensure_extracted(&mut fs, "densenet_onnx", "models");
    let expected = hex_of(b"original-weights");

    let first = verify(&fs, "densenet_onnx", "models", &expected);
    let second = verify(&fs, "densenet_onnx", "models", &expected);
    assert_eq!(first, IntegrityOutcome::Valid);
    assert_eq!(second, first);

    // Upper-case digests compare the same way.
    assert_eq!(
        verify(&fs, "densenet_onnx", "models", &expected.to_uppercase()),
        IntegrityOutcome::Valid
    );

    // Flipping one byte of the weight file flips the outcome.
    let mut tampered = fs.read_file("models/densenet_onnx/1/model.onnx").unwrap();
    tampered[0] ^= 1;
    fs.write_file("models/densenet_onnx/1/model.onnx", tampered);
    assert_eq!(
        verify(&fs, "densenet_onnx", "models", &expected),
        IntegrityOutcome::Mismatch
    );
}

#[test]
fn verify_without_weight_file_is_io_error() {
    let fs = FsTree::new();
    assert_eq!(verify(&fs, "m", "base", "00"), IntegrityOutcome::IoError);
}

#[test]
fn zip_traversal_names_are_sanitized() {
    let archive = zip_bytes(&[("../evil.txt", b"x" as &[u8]), ("m/1/model.onnx", b"w")]);
    let mut fs = FsTree::new();
    fs.write_file("base/m.zip", archive);
    assert_eq!(ensure_extracted(&mut fs, "m", "base"), ExtractOutcome::Extracted);
    // The crafted name loses its parent-directory component and lands
    // inside the base directory.
    assert!(fs.is_file("base/evil.txt"));
    assert!(!fs.is_file("evil.txt"));
    assert!(fs.is_file("base/m/1/model.onnx"));
}

#[test]
fn side_file_verification_policy() {
    // A freshly extracted model carries its own digest and passes.
    let mut fs = tree_with_tar(b"weights");
    ensure_extracted(&mut fs, "densenet_onnx", "models");
    assert_eq!(
        verify_against_side_file(&fs, "densenet_onnx", "models"),
        IntegrityOutcome::Valid
    );
    // An upper-case digest compares the same way.
    let side = fs.read_file("models/densenet_onnx.sha256").unwrap();
    let upper = String::from_utf8(side).unwrap().to_uppercase();
    fs.write_file("models/densenet_onnx.sha256", upper.into_bytes());
    assert_eq!(
        verify_against_side_file(&fs, "densenet_onnx", "models"),
        IntegrityOutcome::Valid
    );
    // A tampered weight file fails closed.
    let mut tampered = fs.read_file("models/densenet_onnx/1/model.onnx").unwrap();
    tampered[0] ^= 1;
    fs.write_file("models/densenet_onnx/1/model.onnx", tampered);
    assert_eq!(
        verify_against_side_file(&fs, "densenet_onnx", "models"),
        IntegrityOutcome::Mismatch
    );
    // Without a persisted digest there is nothing to compare against.
    fs.remove_path("models/densenet_onnx.sha256");
    assert_eq!(
        verify_against_side_file(&fs, "densenet_onnx", "models"),
        IntegrityOutcome::Valid
    );
    // A digest without its weight file is an I/O error.
    let mut bare = FsTree::new();
    bare.write_file("base/m.sha256", b"00".to_vec());
    assert_eq!(verify_against_side_file(&bare, "m", "base"), IntegrityOutcome::IoError);
}
