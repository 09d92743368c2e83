use doclayout_detector::pp_doclayout::weights::{PPDocLayoutV3Weights, WeightInfo};
use doclayout_detector::LayoutError;

fn safetensors_bytes() -> Vec<u8> {
    let header = br#"{"a.weight":{"dtype":"F32","shape":[2,1],"data_offsets":[0,8]},"b.bias":{"dtype":"I32","shape":[1],"data_offsets":[8,12]}}"#;
    let mut bytes = (header.len() as u64).to_le_bytes().to_vec();
    bytes.extend_from_slice(header);
    bytes.extend_from_slice(&1.5f32.to_le_bytes());
    bytes.extend_from_slice(&(-2.0f32).to_le_bytes());
    bytes.extend_from_slice(&7i32.to_le_bytes());
    bytes
}

#[test]
fn weights_list_names_and_shapes() {
    let weights = PPDocLayoutV3Weights::from_bytes(safetensors_bytes()).unwrap();
    assert_eq!(weights.validate(), Ok(()));

    let mut names = weights.names().unwrap();
    names.sort();
    assert_eq!(names, vec!["a.weight".to_string(), "b.bias".to_string()]);

    assert_eq!(
        weights.info("a.weight"),
        Ok(WeightInfo { name: "a.weight".to_string(), shape: vec![2, 1] })
    );
    assert_eq!(
        weights.info("missing"),
        Err(LayoutError::InvalidModelOutput(
            "load tensor missing: tensor `missing` not found".to_string()
        ))
    );
}

#[test]
fn weights_hand_out_f32_bytes_of_the_expected_rank() {
    let weights = PPDocLayoutV3Weights::from_bytes(safetensors_bytes()).unwrap();

    let (data, shape) = weights.tensor_f32_le_bytes("a.weight", 2).unwrap();
    assert_eq!(shape, vec![2, 1]);
    let mut expected = 1.5f32.to_le_bytes().to_vec();
    expected.extend_from_slice(&(-2.0f32).to_le_bytes());
    assert_eq!(data, expected);

    assert_eq!(
        weights.tensor_f32_le_bytes("a.weight", 1),
        Err(LayoutError::InvalidModelOutput(
            "expected tensor a.weight rank 1, got shape [2, 1]".to_string()
        ))
    );
    assert_eq!(
        weights.tensor_f32_le_bytes("b.bias", 1),
        Err(LayoutError::InvalidModelOutput(
            "expected tensor b.bias dtype F32, got I32".to_string()
        ))
    );
    assert_eq!(
        weights.tensor_f32_le_bytes("missing", 1),
        Err(LayoutError::InvalidModelOutput(
            "load tensor missing: tensor `missing` not found".to_string()
        ))
    );
}

#[test]
fn weights_refuse_bytes_that_are_not_safetensors() {
    match PPDocLayoutV3Weights::from_bytes(vec![1, 2, 3]) {
        Err(LayoutError::InvalidModelOutput(message)) => {
            assert_eq!(message, "deserialize safetensors: header too small");
        }
        _ => panic!("three bytes are no safetensors file"),
    }
    let mut truncated = safetensors_bytes();
    truncated.pop();
    assert!(PPDocLayoutV3Weights::from_bytes(truncated).is_err());
}
