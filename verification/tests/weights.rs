use ember::{layer_tensor_name, Config, LayerTensor, LayerWeights, Linear, ModelWeights, QuantBits, QuantMatrix};
use ember::{decode_words16, decode_words32, read_archive, tensor_words, LoadError, TensorWords};

fn archive(entries: &[(&str, &str, &[usize], &[u8])]) -> Vec<u8> {
    let mut header = String::from("{");
    let mut data = Vec::new();
    for (i, (name, dtype, shape, bytes)) in entries.iter().enumerate() {
        if i > 0 {
            header.push(',');
        }
        let shape: Vec<String> = shape.iter().map(|d| d.to_string()).collect();
        header.push_str(&format!(
            "\"{}\":{{\"dtype\":\"{}\",\"shape\":[{}],\"data_offsets\":[{},{}]}}",
            name,
            dtype,
            shape.join(","),
            data.len(),
            data.len() + bytes.len()
        ));
        data.extend_from_slice(bytes);
    }
    header.push('}');
    let mut out = (header.len() as u64).to_le_bytes().to_vec();
    out.extend_from_slice(header.as_bytes());
    out.extend_from_slice(&data);
    out
}

#[test]
fn words_are_little_endian() {
    assert_eq!(decode_words32(&[1, 0, 0, 0, 0x00, 0x00, 0x80, 0x3f]), vec![1, 0x3f80_0000]);
    assert_eq!(decode_words32(&[1, 2, 3]), Vec::<u32>::new());
    assert_eq!(decode_words16(&[0x34, 0x12, 0xff]), vec![0x1234]);
}

#[test]
fn reads_tensors_by_format() {
    let f32_bytes: Vec<u8> = [1.0f32, -2.5].iter().flat_map(|v| v.to_le_bytes()).collect();
    let bytes = archive(&[
        ("a", "F32", &[2], &f32_bytes),
        ("b", "BF16", &[2], &[0x80, 0x3f, 0x00, 0xc0]),
        ("c", "F16", &[1], &[0x00, 0x3c]),
        ("d", "I64", &[1], &[0; 8]),
    ]);
    let st = read_archive(&bytes).unwrap();
    match tensor_words(&st, "a").unwrap() {
        TensorWords::F32(w) => assert_eq!(w, vec![1.0f32.to_bits(), (-2.5f32).to_bits()]),
        other => panic!("unexpected {:?}", other),
    }
    assert_eq!(tensor_words(&st, "b").unwrap(), TensorWords::BF16(vec![0x3f80, 0xc000]));
    assert_eq!(tensor_words(&st, "c").unwrap(), TensorWords::F16(vec![0x3c00]));
    match tensor_words(&st, "d") {
        Err(LoadError::UnsupportedDtype(n)) => assert_eq!(n, "I64"),
        other => panic!("unexpected {:?}", other),
    }
    assert!(matches!(tensor_words(&st, "missing"), Err(LoadError::Missing(_))));
}

#[test]
fn rejects_bad_archives() {
    assert!(read_archive(&[1, 2, 3]).is_err());
    let mut bytes = archive(&[("a", "F32", &[1], &[0, 0, 0, 0])]);
    bytes.push(0);
    assert!(read_archive(&bytes).is_err());
}

#[test]
fn refuses_archive_whose_end_overflows() {
    let size: u64 = (1u64 << 61) - 1;
    let mut header = String::from("{");
    for i in 0..8u64 {
        if i > 0 {
            header.push(',');
        }
        header.push_str(&format!(
            "\"t{}\":{{\"dtype\":\"U8\",\"shape\":[{}],\"data_offsets\":[{},{}]}}",
            i,
            size,
            i * size,
            (i + 1) * size
        ));
    }
    header.push('}');
    let mut bytes = (header.len() as u64).to_le_bytes().to_vec();
    bytes.extend_from_slice(header.as_bytes());
    assert!(ember::try_read_archive(&bytes).is_none());
}

#[test]
fn checked_read_accepts_ordinary_archives() {
    let bytes = archive(&[("a", "F32", &[1], &[0, 0, 0x80, 0x3f])]);
    let st = ember::try_read_archive(&bytes).unwrap().unwrap();
    assert_eq!(tensor_words(&st, "a").unwrap(), TensorWords::F32(vec![0x3f80_0000]));
    assert!(ember::try_read_archive(&[1, 2]).unwrap().is_err());
    let mut short = 1000u64.to_le_bytes().to_vec();
    short.extend_from_slice(b"{}");
    assert!(ember::try_read_archive(&short).unwrap().is_err());
}

fn dense(n: usize) -> ember::Linear {
    ember::Linear::Dense { w: vec![0; n], rows: n, cols: 1 }
}

#[test]
fn weight_bytes_adds_every_tensor() {
    let layer = LayerWeights {
        input_ln: vec![0; 2],
        q: dense(3),
        q_b: vec![0; 1],
        k: dense(1),
        k_b: vec![0; 1],
        v: dense(1),
        v_b: vec![0; 1],
        o: dense(2),
        post_ln: vec![0; 2],
        gate: dense(1),
        up: dense(1),
        down: Linear::Quantized(QuantMatrix::from_codes(&[1, 2, 3], vec![0, 0, 0], 3, 1, QuantBits::Int4)),
    };
    assert_eq!(layer.down.bytes(), 3 + 12);
    assert_eq!(layer.q.bytes(), 12);
    let w = ModelWeights { embed: dense(10), layers: vec![layer], final_norm: vec![0; 2] };
    // embed 40, final norm 8, matrices 4*(3+1+1+2+1+1) + 15 = 51, vectors 4*7 = 28
    assert_eq!(w.weight_bytes(), 40 + 8 + 51 + 28);
    assert_eq!(w.checked_weight_bytes(), Some(127));
}

#[test]
fn layer_tensor_names_and_shapes() {
    assert_eq!(layer_tensor_name(0, LayerTensor::InputNorm), "model.layers.0.input_layernorm.weight");
    assert_eq!(layer_tensor_name(23, LayerTensor::KBias), "model.layers.23.self_attn.k_proj.bias");
    assert_eq!(layer_tensor_name(105, LayerTensor::DownProj), "model.layers.105.mlp.down_proj.weight");
    let c = Config::preset_qwen2_5_0_5b();
    assert_eq!(c.matrix_shape(LayerTensor::QProj), Some((896, 896)));
    assert_eq!(c.matrix_shape(LayerTensor::KProj), Some((128, 896)));
    assert_eq!(c.matrix_shape(LayerTensor::OProj), Some((896, 896)));
    assert_eq!(c.matrix_shape(LayerTensor::GateProj), Some((4864, 896)));
    assert_eq!(c.matrix_shape(LayerTensor::DownProj), Some((896, 4864)));
    assert_eq!(c.matrix_shape(LayerTensor::QBias), None);
}
