//! Tensor alignment against declared input contracts.

use inference_gateway::align::{align, generate_defaults, prepare_tensors, AlignError, NamedTensor};
use inference_gateway::descriptor::{element_count, resolve_shape, InputDecl, ModelDescriptor};
use inference_gateway::tensor::TensorData;

fn descriptor(inputs: Vec<InputDecl>) -> ModelDescriptor {
    ModelDescriptor { name: "densenet_onnx".to_string(), inputs }
}

fn decl(name: &str, shape: &[i64], datatype: &str) -> InputDecl {
    InputDecl { name: name.to_string(), shape: shape.to_vec(), datatype: datatype.to_string() }
}

#[test]
fn resolve_shape_replaces_wildcards() {
    assert_eq!(resolve_shape(&vec![-1, 3, 224, 224]).unwrap(), vec![1, 3, 224, 224]);
    assert_eq!(element_count(&vec![-1, 3, 224, 224]).unwrap(), 150528);
    assert_eq!(element_count(&vec![3, 224, 224]).unwrap(), 150528);
    assert_eq!(element_count(&vec![]).unwrap(), 1);
    assert_eq!(element_count(&vec![5, 0, 9]).unwrap(), 0);
    assert_eq!(element_count(&vec![i64::MAX, i64::MAX]), None);
}

#[test]
fn align_matching_float_input() {
    // The descriptor declares `data_0` of shape [3,224,224]: 150528 elements.
    let desc = descriptor(vec![decl("data_0", &[3, 224, 224], "FP32")]);
    let values: Vec<String> = (0..150528).map(|_| "0.5".to_string()).collect();
    let inputs = vec![("data_0".to_string(), TensorData::F32(values))];
    let out = align(&inputs, &desc).unwrap();
    assert_eq!(out.len(), 1);
    let NamedTensor { name, data, shape } = &out[0];
    assert_eq!(name, "data_0");
    assert_eq!(shape, &vec![3, 224, 224]);
    // The datatype tag of the supplied value is kept unchanged.
    assert_eq!(data.datatype_tag(), "FP32");
    assert_eq!(data.len(), 150528);
}

#[test]
fn align_keeps_every_datatype_tag() {
    let cases: Vec<(TensorData, &str)> = vec![
        (TensorData::F32(vec!["1.0".to_string(), "2.0".to_string()]), "FP32"),
        (TensorData::I32(vec![1, 2]), "INT32"),
        (TensorData::I64(vec![1, 2]), "INT64"),
        (TensorData::U8(vec![1, 2]), "UINT8"),
        (TensorData::Bool(vec![true, false]), "BOOL"),
        (TensorData::Str(vec!["a".to_string(), "b".to_string()]), "BYTES"),
    ];
    for (data, tag) in cases {
        let desc = descriptor(vec![decl("x", &[2], "FP32")]);
        let inputs = vec![("x".to_string(), data)];
        let out = align(&inputs, &desc).unwrap();
        assert_eq!(out[0].data.datatype_tag(), tag);
    }
}

#[test]
fn align_rejects_wrong_element_count() {
    let desc = descriptor(vec![decl("data_0", &[3, 224, 224], "FP32")]);
    let inputs = vec![("data_0".to_string(), TensorData::I32(vec![1, 2, 3]))];
    match align(&inputs, &desc) {
        Err(AlignError::ShapeMismatch { name, expected_shape, expected_len, actual_len }) => {
            assert_eq!(name, "data_0");
            assert_eq!(expected_shape, vec![3, 224, 224]);
            assert_eq!(expected_len, 150528);
            assert_eq!(actual_len, 3);
        }
        other => panic!("expected a shape mismatch, got {:?}", other),
    }
}

#[test]
fn align_rejects_missing_input() {
    let desc = descriptor(vec![decl("data_0", &[2], "FP32")]);
    let inputs = vec![("other".to_string(), TensorData::I32(vec![1, 2]))];
    match align(&inputs, &desc) {
        Err(AlignError::MissingInput { name }) => assert_eq!(name, "data_0"),
        other => panic!("expected a missing input, got {:?}", other),
    }
}

#[test]
fn align_reports_first_failing_input() {
    let desc = descriptor(vec![
        decl("a", &[2], "FP32"),
        decl("b", &[2], "FP32"),
    ]);
    let inputs = vec![
        ("a".to_string(), TensorData::I32(vec![1, 2])),
        ("b".to_string(), TensorData::I32(vec![1])),
    ];
    match align(&inputs, &desc) {
        Err(AlignError::ShapeMismatch { name, .. }) => assert_eq!(name, "b"),
        other => panic!("expected a shape mismatch on b, got {:?}", other),
    }
}

#[test]
fn defaults_are_zero_valued_per_declared_type() {
    let desc = descriptor(vec![
        decl("f", &[-1, 2], "FP32"),
        decl("i", &[3], "INT64"),
        decl("s", &[2], "BYTES"),
        decl("b", &[1], "BOOL"),
    ]);
    let out = generate_defaults(&desc).unwrap();
    assert_eq!(out.len(), 4);
    assert_eq!(out[0].shape, vec![1, 2]);
    match &out[0].data {
        TensorData::F32(v) => assert_eq!(v, &vec!["0".to_string(), "0".to_string()]),
        other => panic!("expected float defaults, got {:?}", other),
    }
    match &out[1].data {
        TensorData::I64(v) => assert_eq!(v, &vec![0, 0, 0]),
        other => panic!("expected integer defaults, got {:?}", other),
    }
    match &out[2].data {
        TensorData::Str(v) => assert_eq!(v, &vec![String::new(), String::new()]),
        other => panic!("expected string defaults, got {:?}", other),
    }
    match &out[3].data {
        TensorData::Bool(v) => assert_eq!(v, &vec![false]),
        other => panic!("expected boolean defaults, got {:?}", other),
    }
}

#[test]
fn prepare_tensors_chooses_by_presence() {
    let desc = descriptor(vec![decl("x", &[2], "INT64")]);
    // With caller inputs, alignment runs.
    let supplied = Some(vec![("x".to_string(), TensorData::I64(vec![7, 8]))]);
    let out = prepare_tensors(&supplied, &desc).unwrap();
    match &out[0].data {
        TensorData::I64(v) => assert_eq!(v, &vec![7, 8]),
        other => panic!("expected the caller's data, got {:?}", other),
    }
    // Without any, defaults are synthesized.
    let out = prepare_tensors(&None, &desc).unwrap();
    match &out[0].data {
        TensorData::I64(v) => assert_eq!(v, &vec![0, 0]),
        other => panic!("expected defaults, got {:?}", other),
    }
}

#[test]
fn defaults_reject_unknown_datatype() {
    let desc = descriptor(vec![decl("x", &[2], "FP16")]);
    match generate_defaults(&desc) {
        Err(AlignError::UnsupportedDatatype { name, datatype }) => {
            assert_eq!(name, "x");
            assert_eq!(datatype, "FP16");
        }
        other => panic!("expected an unsupported datatype, got {:?}", other),
    }
}
