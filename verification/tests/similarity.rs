use geist::similarity::{cosine_similarity, Embedding, Similarity, MAX_DIMENSION};

fn embedding(components: &[i16]) -> Embedding {
    Embedding::new(components.to_vec()).unwrap()
}

fn value(s: &Similarity) -> f64 {
    s.dot as f64 / ((s.norm_sq_a as f64).sqrt() * (s.norm_sq_b as f64).sqrt())
}

#[test]
fn similarity_of_a_vector_with_itself_is_one() {
    let a = embedding(&[3, -4, 12]);
    let b = embedding(&[3, -4, 12]);
    let s = cosine_similarity(&a, &b).unwrap();
    assert_eq!(s.dot, 169);
    assert_eq!(s.norm_sq_a, 169);
    assert_eq!(s.norm_sq_b, 169);
    assert!((value(&s) - 1.0).abs() < 1e-12);
    assert_eq!((s.dot as i128) * (s.dot as i128), (s.norm_sq_a as i128) * (s.norm_sq_b as i128));
}

#[test]
fn similarity_with_itself_is_one_at_the_extremes() {
    let a = embedding(&[i16::MIN, i16::MAX, -1, 0, 1]);
    let s = cosine_similarity(&a, &a).unwrap();
    assert!(s.dot > 0);
    assert_eq!(s.dot as u64, s.norm_sq_a);
    assert_eq!(s.norm_sq_a, s.norm_sq_b);
    assert_eq!(s.norm_sq_a, 32768 * 32768 + 32767 * 32767 + 2);
}

#[test]
fn similarity_gives_dot_product_and_squared_magnitudes() {
    let a = embedding(&[1, 2, 3]);
    let b = embedding(&[4, -5, 6]);
    let s = cosine_similarity(&a, &b).unwrap();
    assert_eq!(s.dot, 4 - 10 + 18);
    assert_eq!(s.norm_sq_a, 14);
    assert_eq!(s.norm_sq_b, 77);
    assert!((value(&s) - 12.0 / (14.0f64 * 77.0).sqrt()).abs() < 1e-12);
}

#[test]
fn similarity_of_opposite_vectors_is_minus_one() {
    let a = embedding(&[2, -7]);
    let b = embedding(&[-2, 7]);
    let s = cosine_similarity(&a, &b).unwrap();
    assert_eq!(s.dot, -53);
    assert!((value(&s) + 1.0).abs() < 1e-12);
}

#[test]
fn similarity_of_orthogonal_vectors_is_zero() {
    let a = embedding(&[1, 0]);
    let b = embedding(&[0, 1]);
    let s = cosine_similarity(&a, &b).unwrap();
    assert_eq!(s.dot, 0);
    assert_eq!(s.norm_sq_a, 1);
    assert_eq!(s.norm_sq_b, 1);
}

#[test]
fn similarity_is_symmetric() {
    let a = embedding(&[5, -3, 8, 0]);
    let b = embedding(&[-1, 4, 2, 9]);
    let s = cosine_similarity(&a, &b).unwrap();
    let t = cosine_similarity(&b, &a).unwrap();
    assert_eq!(s.dot, t.dot);
    assert_eq!(s.norm_sq_a, t.norm_sq_b);
    assert_eq!(s.norm_sq_b, t.norm_sq_a);
}

#[test]
fn similarity_stays_within_minus_one_and_one() {
    let vectors: Vec<Vec<i16>> = vec![
        vec![1, 2, 3],
        vec![-32768, 32767, 5],
        vec![0, 0, 1],
        vec![-7, -7, -7],
        vec![32767, 32767, 32767],
    ];
    for x in &vectors {
        for y in &vectors {
            let s = cosine_similarity(&embedding(x), &embedding(y)).unwrap();
            let square = (s.dot as i128) * (s.dot as i128);
            assert!(square <= (s.norm_sq_a as i128) * (s.norm_sq_b as i128));
        }
    }
}

#[test]
fn similarity_is_undefined_for_different_lengths() {
    assert!(cosine_similarity(&embedding(&[1, 2]), &embedding(&[1, 2, 3])).is_none());
    assert!(cosine_similarity(&embedding(&[1, 2, 3]), &embedding(&[1, 2])).is_none());
}

#[test]
fn similarity_is_undefined_for_empty_vectors() {
    assert!(cosine_similarity(&embedding(&[]), &embedding(&[])).is_none());
    assert!(cosine_similarity(&embedding(&[]), &embedding(&[1])).is_none());
    assert!(cosine_similarity(&embedding(&[1]), &embedding(&[])).is_none());
}

#[test]
fn similarity_is_undefined_for_zero_magnitude() {
    assert!(cosine_similarity(&embedding(&[0, 0]), &embedding(&[1, 2])).is_none());
    assert!(cosine_similarity(&embedding(&[1, 2]), &embedding(&[0, 0])).is_none());
    assert!(cosine_similarity(&embedding(&[0, 0]), &embedding(&[0, 0])).is_none());
}

#[test]
fn similarity_of_long_vectors_does_not_overflow() {
    let n = 100_000usize;
    let a = Embedding::new(vec![i16::MIN; n]).unwrap();
    let b = Embedding::new(vec![i16::MAX; n]).unwrap();
    let s = cosine_similarity(&a, &b).unwrap();
    assert_eq!(s.dot, -(n as i64) * 32768 * 32767);
    assert_eq!(s.norm_sq_a, (n as u64) * 32768 * 32768);
    assert_eq!(s.norm_sq_b, (n as u64) * 32767 * 32767);
}

#[test]
fn embedding_keeps_its_components() {
    let e = embedding(&[7, -8, 9]);
    assert_eq!(e.dimension(), 3);
    assert_eq!(e.components(), vec![7, -8, 9]);
    let copy = e.duplicate();
    assert_eq!(copy.dimension(), 3);
    assert_eq!(copy.components(), vec![7, -8, 9]);
}

#[test]
fn embedding_accepts_the_empty_vector() {
    let e = Embedding::new(Vec::new()).unwrap();
    assert_eq!(e.dimension(), 0);
    assert!(e.dimension() <= MAX_DIMENSION);
}
