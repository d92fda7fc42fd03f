use arrow_array::Array;
use membrid::embedding::NoopEmbeddingEngine;

#[test]
fn embed_returns_zero_vector() {
    let engine = NoopEmbeddingEngine::new(4);
    let result: Vec<f32> = engine.embed("hello").into_iter().map(f32::from_bits).collect();
    assert_eq!(result, vec![0.0f32; 4]);
    assert_eq!(engine.dimensions(), 4);
}

#[test]
fn embed_batch_shape() {
    let engine = NoopEmbeddingEngine::new(3);
    let result = engine.embed_batch(&["a", "b", "c"]).unwrap();
    assert_eq!(result.len(), 3);
    assert_eq!(result.value_length(), 3);
}

#[test]
fn embed_batch_empty() {
    let engine = NoopEmbeddingEngine::default();
    let result = engine.embed_batch(&[]).unwrap();
    assert_eq!(result.len(), 0);
    assert_eq!(engine.dimensions(), 768);
}

#[test]
fn embed_batch_rows_are_zeros() {
    let engine = NoopEmbeddingEngine::new(2);
    let result = engine.embed_batch(&["x", "y"]).unwrap();
    for row in 0..2 {
        assert!(result.is_valid(row));
        let v = result.value(row);
        let floats = v.as_any().downcast_ref::<arrow_array::Float32Array>().unwrap();
        assert_eq!(floats.values().to_vec(), vec![0.0f32, 0.0]);
    }
}
