use render_core::asset::{decode_state, encode_state, AssetError, Backend, LINE_END};
use render_core::mesh::{ImportWarning, IndexData, Mesh, Primitive, PrimitiveMode};
use render_core::state::{State, StateValue};

fn sample_state() -> State {
    State(vec![
        (String::from("health"), StateValue::Float(75.0f64.to_bits())),
        (String::from("level"), StateValue::Int(3)),
    ])
}

fn assert_same_entries(a: &State, b: &State) {
    assert_eq!(a.0.len(), b.0.len());
    for (pa, pb) in a.0.iter().zip(b.0.iter()) {
        assert_eq!(pa.0, pb.0);
        match (&pa.1, &pb.1) {
            (StateValue::Float(x), StateValue::Float(y)) => assert_eq!(x, y),
            (StateValue::Int(x), StateValue::Int(y)) => assert_eq!(x, y),
            (StateValue::Text(x), StateValue::Text(y)) => assert_eq!(x, y),
            _ => panic!("variant tags differ"),
        }
    }
}

#[test]
fn binary_round_trip_reproduces_the_mapping() {
    let s = sample_state();
    let bytes = encode_state(&s, Backend::Binary);
    let decoded = decode_state(&bytes, Backend::Binary).unwrap();
    assert_same_entries(&s, &decoded);
}

#[test]
fn text_round_trip_reproduces_the_mapping() {
    let s = sample_state();
    let bytes = encode_state(&s, Backend::Text);
    let decoded = decode_state(&bytes, Backend::Text).unwrap();
    assert_same_entries(&s, &decoded);
}

#[test]
fn round_trip_keeps_text_values_and_empty_keys() {
    let s = State(vec![
        (String::from(""), StateValue::Text(String::from("snow\nman \u{2603}"))),
        (String::from("k"), StateValue::Text(String::from(""))),
        (String::from("n"), StateValue::Int(-9223372036854775808i64)),
    ]);
    for backend in [Backend::Binary, Backend::Text] {
        let bytes = encode_state(&s, backend);
        let decoded = decode_state(&bytes, backend).unwrap();
        assert_same_entries(&s, &decoded);
    }
}

#[test]
fn binary_encoding_is_the_documented_layout() {
    let s = State(vec![(String::from("a"), StateValue::Int(3))]);
    let bytes = encode_state(&s, Backend::Binary);
    assert_eq!(
        bytes,
        vec![1, 0, 0, 0, b'a', 2, 3, 0, 0, 0, 0, 0, 0, 0]
    );
}

#[test]
fn text_encoding_is_one_hex_record_per_line() {
    let s = State(vec![(String::from("a"), StateValue::Int(3))]);
    let bytes = encode_state(&s, Backend::Text);
    let mut expected = b"0100000061020300000000000000".to_vec();
    expected.push(LINE_END);
    assert_eq!(bytes, expected);
}

#[test]
fn empty_state_round_trips_to_empty_bytes() {
    let s = State(vec![]);
    for backend in [Backend::Binary, Backend::Text] {
        let bytes = encode_state(&s, backend);
        assert!(bytes.is_empty());
        let decoded = decode_state(&bytes, backend).unwrap();
        assert_eq!(decoded.0.len(), 0);
    }
}

#[test]
fn truncated_input_is_rejected() {
    let r = decode_state(&vec![1, 0, 0], Backend::Binary);
    assert_eq!(r.unwrap_err(), AssetError::Truncated);
    let r = decode_state(&vec![b'0', b'1'], Backend::Text);
    assert_eq!(r.unwrap_err(), AssetError::Truncated);
}

#[test]
fn unknown_tag_is_rejected() {
    // key "a", then tag 9, which names no value type
    let bytes = vec![1, 0, 0, 0, b'a', 9, 0, 0, 0, 0, 0, 0, 0, 0];
    let r = decode_state(&bytes, Backend::Binary);
    assert_eq!(r.unwrap_err(), AssetError::UnknownTag);
}

#[test]
fn invalid_utf8_key_is_rejected() {
    let bytes = vec![1, 0, 0, 0, 0xff, 2, 3, 0, 0, 0, 0, 0, 0, 0];
    let r = decode_state(&bytes, Backend::Binary);
    assert_eq!(r.unwrap_err(), AssetError::InvalidUtf8);
}

#[test]
fn duplicate_keys_are_rejected() {
    let dup = State(vec![
        (String::from("k"), StateValue::Int(1)),
        (String::from("k"), StateValue::Int(2)),
    ]);
    for backend in [Backend::Binary, Backend::Text] {
        let bytes = encode_state(&dup, backend);
        let r = decode_state(&bytes, backend);
        assert_eq!(r.unwrap_err(), AssetError::DuplicateKey);
    }
}

#[test]
fn state_lookup_finds_stored_values() {
    let s = sample_state();
    match s.get(&String::from("level")) {
        Some(StateValue::Int(v)) => assert_eq!(*v, 3),
        _ => panic!("expected the integer entry"),
    }
    assert!(s.get(&String::from("mana")).is_none());
}

#[test]
fn asset_error_messages_name_the_condition() {
    assert_eq!(AssetError::DuplicateKey.message(), "two entries share a key");
    assert_eq!(
        AssetError::Truncated.message(),
        "the serialized state is truncated or malformed"
    );
}

fn triangle_primitive() -> Primitive {
    Primitive {
        mode: PrimitiveMode::Triangles,
        positions: Some(vec![
            [0.0f32.to_bits(), 0.0f32.to_bits(), 0.0f32.to_bits()],
            [1.0f32.to_bits(), 0.0f32.to_bits(), 0.0f32.to_bits()],
            [0.0f32.to_bits(), 1.0f32.to_bits(), 0.0f32.to_bits()],
        ]),
        colors: Some(vec![
            [1.0f32.to_bits(), 0.0f32.to_bits(), 0.0f32.to_bits()],
            [0.0f32.to_bits(), 1.0f32.to_bits(), 0.0f32.to_bits()],
            [0.0f32.to_bits(), 0.0f32.to_bits(), 1.0f32.to_bits()],
        ]),
        indices: Some(IndexData::U16(vec![0, 1, 2])),
    }
}

#[test]
fn mesh_import_skips_non_triangle_primitives_with_a_warning() {
    let container = vec![
        triangle_primitive(),
        Primitive {
            mode: PrimitiveMode::LineStrip,
            positions: Some(vec![[0, 0, 0], [1, 1, 1]]),
            colors: Some(vec![[0, 0, 0], [1, 1, 1]]),
            indices: Some(IndexData::U16(vec![0, 1])),
        },
    ];
    let (mesh, warnings) = Mesh::load(&container);
    assert_eq!(mesh.positions.len(), 3);
    assert_eq!(mesh.colors.len(), 3);
    assert_eq!(mesh.indices, vec![0, 1, 2]);
    assert_eq!(mesh.index_count, 3);
    assert_eq!(warnings, vec![ImportWarning::NonTriangleMode]);
}

#[test]
fn mesh_import_rebases_indices_per_primitive() {
    let container = vec![triangle_primitive(), triangle_primitive()];
    let (mesh, warnings) = Mesh::load(&container);
    assert_eq!(mesh.positions.len(), 6);
    assert_eq!(mesh.indices, vec![0, 1, 2, 3, 4, 5]);
    assert_eq!(mesh.index_count, 6);
    assert!(warnings.is_empty());
}

#[test]
fn mesh_import_warns_on_missing_attributes_and_index_width() {
    let container = vec![
        Primitive {
            mode: PrimitiveMode::Triangles,
            positions: None,
            colors: Some(vec![[0, 0, 0]]),
            indices: Some(IndexData::U16(vec![0])),
        },
        Primitive {
            mode: PrimitiveMode::Triangles,
            positions: Some(vec![[0, 0, 0]]),
            colors: None,
            indices: Some(IndexData::U16(vec![0])),
        },
        Primitive {
            mode: PrimitiveMode::Triangles,
            positions: Some(vec![[0, 0, 0]]),
            colors: Some(vec![[0, 0, 0]]),
            indices: Some(IndexData::U32(vec![0])),
        },
    ];
    let (mesh, warnings) = Mesh::load(&container);
    assert_eq!(mesh.index_count, 0);
    assert!(mesh.positions.is_empty());
    assert_eq!(
        warnings,
        vec![
            ImportWarning::MissingPositions,
            ImportWarning::MissingColors,
            ImportWarning::UnsupportedIndexWidth,
        ]
    );
}
