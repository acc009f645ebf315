use cairo_m_prover::field::{M31, P};

#[test]
fn inverse_of_small_elements() {
    assert_eq!(M31(1).inverse(), Some(M31(1)));
    assert_eq!(M31(2).inverse(), Some(M31((P + 1) / 2)));
    assert_eq!(M31(P - 1).inverse(), Some(M31(P - 1)));
    for x in [3u32, 7, 65536, 123_456_789, P - 2] {
        let y = M31(x).inverse().unwrap();
        assert_eq!(M31(x).mul(y), M31(1));
    }
}

#[test]
fn zero_has_no_inverse() {
    assert_eq!(M31(0).inverse(), None);
    assert_eq!(M31(0).inverse_or_zero(), M31(0));
    assert_eq!(M31(5).inverse_or_zero().mul(M31(5)), M31(1));
}
