//! The text path, the JSON boundary, and the classification summary.

use inference_gateway::command::CommandKind;
use inference_gateway::dispatch::{parse_message, respond_infer_text, Outbound};
use inference_gateway::render::render_response;
use inference_gateway::fsmodel::FsTree;
use inference_gateway::jsonio::{
    decode_descriptor, first_model_name, first_output_i64, first_output_number_texts,
    model_names,
};
use inference_gateway::summary::{label_for, split_lines, top_k_desc};
use inference_gateway::tensor::TensorData;
use inference_gateway::toktext::{make_llm_inputs, prepare_ids, TextTokenizer, TokError};

#[test]
fn prepare_ids_truncates_from_the_left() {
    let raw: Vec<u32> = vec![10, 11, 12, 13, 14];
    assert_eq!(prepare_ids(&raw, false, false, None, None, None), vec![10, 11, 12, 13, 14]);
    assert_eq!(prepare_ids(&raw, false, false, None, None, Some(3)), vec![12, 13, 14]);
    assert_eq!(prepare_ids(&raw, false, false, None, None, Some(9)), vec![10, 11, 12, 13, 14]);
    assert_eq!(prepare_ids(&raw, false, false, None, None, Some(0)), Vec::<i64>::new());
}

#[test]
fn prepare_ids_inserts_bos_and_eos_once()  {
    let raw: Vec<u32> = vec![5, 6];
    // BOS is prepended only when missing, EOS appended only when missing.
    assert_eq!(prepare_ids(&raw, true, false, Some(1), Some(2), None), vec![1, 5, 6]);
    assert_eq!(prepare_ids(&raw, true, true, Some(1), Some(2), None), vec![1, 5, 6, 2]);
    let with_bos: Vec<u32> = vec![1, 5, 6];
    assert_eq!(prepare_ids(&with_bos, true, false, Some(1), Some(2), None), vec![1, 5, 6]);
    let with_eos: Vec<u32> = vec![5, 6, 2];
    assert_eq!(prepare_ids(&with_eos, false, true, Some(1), Some(2), None), vec![5, 6, 2]);
    // Unknown special ids insert nothing.
    assert_eq!(prepare_ids(&raw, true, true, None, None, None), vec![5, 6]);
    // Truncation happens before the insertions.
    let long: Vec<u32> = vec![7, 8, 9];
    assert_eq!(prepare_ids(&long, true, true, Some(1), Some(2), Some(2)), vec![1, 8, 9, 2]);
}

#[test]
fn llm_inputs_are_the_fixed_three_tensors() {
    let inputs = make_llm_inputs(vec![42, 43, 44]);
    assert_eq!(inputs.len(), 3);
    assert_eq!(inputs[0].0, "input_ids");
    match &inputs[0].1 {
        TensorData::I64(v) => assert_eq!(v, &vec![42, 43, 44]),
        other => panic!("expected ids, got {:?}", other),
    }
    assert_eq!(inputs[1].0, "attention_mask");
    match &inputs[1].1 {
        TensorData::I64(v) => assert_eq!(v, &vec![1, 1, 1]),
        other => panic!("expected the mask, got {:?}", other),
    }
    assert_eq!(inputs[2].0, "position_ids");
    match &inputs[2].1 {
        TensorData::I64(v) => assert_eq!(v, &vec![0, 1, 2]),
        other => panic!("expected positions, got {:?}", other),
    }
    for (_, _, shape) in &inputs {
        assert_eq!(shape, &vec![1, 3]);
    }
}

#[test]
fn tokenizer_from_repo_requires_the_definition_file() {
    let fs = FsTree::new();
    match TextTokenizer::from_repo(&fs, "models/m") {
        Err(TokError::NotFound(p)) => assert_eq!(p, "models/m/tokenizer.json"),
        other => panic!("expected a missing definition, got {:?}", other.is_ok()),
    }
}

#[test]
fn tokenizer_round_trip() {
    // A minimal word-level tokenizer: four words, whitespace split.
    let definition = "{\"version\":\"1.0\",\"pre_tokenizer\":{\"type\":\"Whitespace\"},\"model\":{\"type\":\"WordLevel\",\"vocab\":{\"[UNK]\":0,\"hello\":1,\"world\":2,\"<s>\":3,\"</s>\":4},\"unk_token\":\"[UNK]\"}}";
    let mut fs = FsTree::new();
    fs.write_file("models/m/tokenizer.json", definition.as_bytes().to_vec());
    let tok = TextTokenizer::from_repo(&fs, "models/m").unwrap();
    assert_eq!(tok.bos_id(), Some(3));
    assert_eq!(tok.eos_id(), Some(4));
    let ids = tok.encode_ids("hello world", true, false, None).unwrap();
    assert_eq!(ids, vec![3, 1, 2]);
    let text = tok.decode_ids(&vec![1, 2]).unwrap();
    assert_eq!(text, "hello world");
}

#[test]
fn structured_inputs_decode_into_tensors() {
    let msg = "{\"command\":\"infer\",\"inputs\":{\"data_0\":[{\"F32\":[0.5,1.5]},[2]],\"ids\":[{\"I64\":[7,8,9]},[3]]}}";
    let cmd = parse_message(msg);
    assert_eq!(cmd.kind, CommandKind::Infer);
    let inputs = cmd.inputs.unwrap();
    assert_eq!(inputs.len(), 2);
    // serde_json objects iterate in key order.
    assert_eq!(inputs[0].0, "data_0");
    match &inputs[0].1 {
        TensorData::F32(v) => assert_eq!(v, &vec!["0.5".to_string(), "1.5".to_string()]),
        other => panic!("expected float texts, got {:?}", other),
    }
    assert_eq!(inputs[1].0, "ids");
    match &inputs[1].1 {
        TensorData::I64(v) => assert_eq!(v, &vec![7, 8, 9]),
        other => panic!("expected integers, got {:?}", other),
    }
}

#[test]
fn structured_prompt_and_budget_decode() {
    // The nested form, inside the inputs object, still decodes.
    let msg = "{\"command\":\"infertext\",\"inputs\":{\"prompt\":\"Hello\",\"max_len\":128}}";
    let cmd = parse_message(msg);
    assert_eq!(cmd.kind, CommandKind::InferText);
    assert_eq!(cmd.prompt.as_deref(), Some("Hello"));
    assert_eq!(cmd.max_len, Some(128));
    // The top-level form is read first.
    let top = "{\"command\":\"infertext\",\"prompt\":\"Hi\",\"max_len\":4}";
    let cmd = parse_message(top);
    assert_eq!(cmd.prompt.as_deref(), Some("Hi"));
    assert_eq!(cmd.max_len, Some(4));
    // When both are present the top level wins.
    let both = "{\"prompt\":\"outer\",\"inputs\":{\"prompt\":\"inner\"}}";
    assert_eq!(parse_message(both).prompt.as_deref(), Some("outer"));
}

#[test]
fn text_reply_rule() {
    match respond_infer_text(Some("hello".to_string()), "{\"outputs\":[]}".to_string()) {
        Outbound::Object(r) => assert_eq!(
            render_response(&r),
            "{\"text\":\"hello\",\"raw\":{\"outputs\":[]}}"
        ),
        other => panic!("expected an object, got {:?}", other),
    }
    match respond_infer_text(None, "{\"outputs\":[]}".to_string()) {
        Outbound::Passthrough(s) => assert_eq!(s, "{\"outputs\":[]}"),
        other => panic!("expected a passthrough, got {:?}", other),
    }
}

#[test]
fn descriptor_decodes_from_metadata() {
    let metadata = "{\"name\":\"densenet_onnx\",\"inputs\":[{\"name\":\"data_0\",\"shape\":[-1,3,224,224],\"datatype\":\"FP32\"}],\"outputs\":[{\"name\":\"fc6_1\"}]}";
    let desc = decode_descriptor(metadata, "fallback").unwrap();
    assert_eq!(desc.name, "densenet_onnx");
    assert_eq!(desc.inputs.len(), 1);
    assert_eq!(desc.inputs[0].name, "data_0");
    assert_eq!(desc.inputs[0].shape, vec![-1, 3, 224, 224]);
    assert_eq!(desc.inputs[0].datatype, "FP32");
    // A metadata object without the inputs list does not decode.
    assert!(decode_descriptor("{\"name\":\"m\"}", "m").is_none());
}

#[test]
fn repository_index_decodes() {
    let body = "[{\"name\":\"densenet_onnx\",\"state\":\"READY\"},{\"name\":\"bert\"}]";
    assert_eq!(first_model_name(body).unwrap(), "densenet_onnx");
    assert_eq!(model_names(body).unwrap(), vec!["densenet_onnx", "bert"]);
    assert!(first_model_name("[]").is_none());
}

#[test]
fn output_tensors_decode() {
    let body = "{\"outputs\":[{\"name\":\"out\",\"data\":[5,6,7]}]}";
    assert_eq!(first_output_i64(body).unwrap(), vec![5, 6, 7]);
    let scores = "{\"outputs\":[{\"name\":\"out\",\"data\":[0.25,1.5]}]}";
    assert_eq!(
        first_output_number_texts(scores).unwrap(),
        vec!["0.25".to_string(), "1.5".to_string()]
    );
}

#[test]
fn top_k_orders_descending() {
    let keys: Vec<u64> = vec![10, 50, 20, 40, 30];
    assert_eq!(top_k_desc(&keys, 3), vec![1, 3, 4]);
    assert_eq!(top_k_desc(&keys, 10), vec![1, 3, 4, 2, 0]);
    assert_eq!(top_k_desc(&keys, 0), Vec::<usize>::new());
    let empty: Vec<u64> = Vec::new();
    assert_eq!(top_k_desc(&empty, 5), Vec::<usize>::new());
}

#[test]
fn labels_split_and_look_up() {
    let labels = split_lines("tench\ngoldfish\r\nshark\n");
    assert_eq!(labels, vec!["tench", "goldfish", "shark"]);
    assert_eq!(label_for(&labels, 1), "goldfish");
    assert_eq!(label_for(&labels, 9), "Unknown");
    assert_eq!(split_lines(""), Vec::<String>::new());
    assert_eq!(split_lines("one"), vec!["one"]);
}
