use cairo_m_prover::components::chips::hash;
use cairo_m_prover::components::clock_update;
use cairo_m_prover::components::opcodes::store_le_fp_imm::{le_limbs, PRIME_OVER_2_HIGH, PRIME_OVER_3_HIGH};
use cairo_m_prover::components::opcodes::u32_store_bitwise_fp_fp::{
    bitwise_limbs, compute_bitwise_result, U32_STORE_AND_FP_FP, U32_STORE_OR_FP_FP, U32_STORE_XOR_FP_FP,
};
use cairo_m_prover::components::opcodes::u32_store_div_fp_imm::div_limbs;
use cairo_m_prover::components::opcodes::u32_store_mul_fp_imm::{mul_limbs, Eval as MulEval, Claim as MulClaim};
use cairo_m_prover::components::poseidon2::{apply_external_round_matrix, apply_m4};
use cairo_m_prover::field::{M31, P};

fn bytes(b: [M31; 4]) -> u64 {
    b[0].0 as u64 + 256 * b[1].0 as u64 + 65536 * b[2].0 as u64 + 16777216 * b[3].0 as u64
}

#[test]
fn mul_limbs_gives_the_wrapped_product() {
    let a: u32 = 0x12345678;
    let b: u32 = 0x9abcdef0;
    let w = mul_limbs(M31(a & 0xffff), M31(a >> 16), M31(b & 0xffff), M31(b >> 16));
    assert_eq!(bytes(w.res), a.wrapping_mul(b) as u64);
    assert_eq!(bytes(w.op0), a as u64);
    assert_eq!(bytes(w.imm), b as u64);
    assert_eq!(w.res, [M31(128), M31(32), M31(45), M31(36)]);
    assert_eq!(w.carry, [M31(112), M31(185), M31(212), M31(198)]);
}

#[test]
fn mul_limbs_of_the_largest_factors() {
    let w = mul_limbs(M31(0xffff), M31(0xffff), M31(0xffff), M31(0xffff));
    assert_eq!(bytes(w.res), 1);
    assert!(w.carry[0].0 <= 254 && w.carry[1].0 <= 509 && w.carry[2].0 <= 764 && w.carry[3].0 <= 1019);
}

#[test]
fn div_limbs_quotient_and_remainder() {
    let n: u32 = 1000003;
    let d: u32 = 97;
    let w = div_limbs(M31(n & 0xffff), M31(n >> 16), M31(d & 0xffff), M31(d >> 16));
    assert_eq!(w.res[0].0 as u32 + 65536 * w.res[1].0, n / d);
    assert_eq!(w.r[0].0 as u32 + 65536 * w.r[1].0, n % d);
    let prod: u64 = (0..8).map(|k| (w.prod[k].0 as u64) << (8 * k)).sum();
    assert_eq!(prod, (n / d) as u64 * d as u64);
    assert_eq!(w.sub_borrow[1], M31(0));
}

#[test]
fn div_limbs_by_zero_gives_zero() {
    let w = div_limbs(M31(1234), M31(5), M31(0), M31(0));
    assert_eq!(w.res, [M31(0), M31(0)]);
    assert_eq!(w.r, [M31(0), M31(0)]);
}

#[test]
fn bitwise_limbs_compute_each_operation() {
    let a: u32 = 0x12345678;
    let b: u32 = 0x0f0f0f0f;
    let lo_hi = |x: u32| (M31(x & 0xffff), M31(x >> 16));
    let (a_lo, a_hi) = lo_hi(a);
    let (b_lo, b_hi) = lo_hi(b);
    let and = bitwise_limbs(M31(U32_STORE_AND_FP_FP), a_lo, a_hi, b_lo, b_hi);
    let or = bitwise_limbs(M31(U32_STORE_OR_FP_FP), a_lo, a_hi, b_lo, b_hi);
    let xor = bitwise_limbs(M31(U32_STORE_XOR_FP_FP), a_lo, a_hi, b_lo, b_hi);
    assert_eq!(bytes(and.res), (a & b) as u64);
    assert_eq!(bytes(or.res), (a | b) as u64);
    assert_eq!(bytes(xor.res), (a ^ b) as u64);
    assert_eq!(and.bitwise_op, M31(0));
    assert_eq!(or.bitwise_op, M31(1));
    assert_eq!(xor.bitwise_op, M31(2));
}

#[test]
fn bitwise_result_of_another_opcode_is_zero() {
    assert_eq!(compute_bitwise_result(M31(7), M31(0xff), M31(0xff)), M31(0));
}

#[test]
fn le_limbs_orders_and_splits_the_arcs() {
    for (src, imm) in [(5u32, 9u32), (9, 5), (7, 7), (0, P - 1), (P - 1, 0), (P / 3, 2 * (P / 3))] {
        let w = le_limbs(M31(src), M31(imm), M31(1));
        assert_eq!(w.is_le, if src <= imm { M31(1) } else { M31(0) });
        assert_eq!(w.a.0, src.min(imm));
        assert_eq!(w.b.0, src.max(imm));
        assert_eq!(w.keep_0_1.0 + w.keep_0_2.0 + w.keep_1_2.0, 1);
        let (a, b) = (w.a.0 as u64, w.b.0 as u64);
        let short = w.arc_short_lo.0 as u64 + w.arc_short_hi.0 as u64 * PRIME_OVER_3_HIGH as u64;
        let long = w.arc_long_lo.0 as u64 + w.arc_long_hi.0 as u64 * PRIME_OVER_2_HIGH as u64;
        let arcs = [a, b - a, P as u64 - 1 - b];
        let kept = if w.keep_0_1.0 == 1 {
            (arcs[0], arcs[1])
        } else if w.keep_0_2.0 == 1 {
            (arcs[0], arcs[2])
        } else {
            (arcs[1], arcs[2])
        };
        assert_eq!(short + long, kept.0 + kept.1);
        assert_eq!(short * long, kept.0 * kept.1);
        assert!(w.arc_short_lo.0 < 65536 && w.arc_short_hi.0 < 65536);
        assert!(w.arc_long_lo.0 < 65536 && w.arc_long_hi.0 < 65536);
    }
}

#[test]
fn le_limbs_padding_row_keeps_no_arc() {
    let w = le_limbs(M31(3), M31(4), M31(0));
    assert_eq!((w.keep_0_1, w.keep_0_2, w.keep_1_2), (M31(0), M31(0), M31(0)));
}

#[test]
fn apply_m4_multiplies_by_the_mds_matrix() {
    let r = apply_m4([M31(1), M31(2), M31(3), M31(4)]);
    assert_eq!(r, [M31(34), M31(23), M31(50), M31(39)]);
}

#[test]
fn external_round_matrix_of_a_known_state() {
    let mut state = [M31(0); 16];
    for (i, s) in state.iter_mut().enumerate() {
        *s = M31(i as u32 + 1);
    }
    apply_external_round_matrix(&mut state);
    let expected = [554, 403, 634, 483, 618, 451, 698, 531, 682, 499, 762, 579, 746, 547, 826, 627];
    for i in 0..16 {
        assert_eq!(state[i], M31(expected[i]));
    }
}

#[test]
fn mock_hash_gadget_adds() {
    assert_eq!(hash::Hash::evaluate(M31(P - 1), M31(2)), M31(1));
}

#[test]
fn component_log_sizes_have_three_trees() {
    let sizes = clock_update::Claim { log_size: 5 }.log_sizes();
    assert_eq!(sizes.len(), 3);
    assert!(sizes[0].is_empty());
    assert_eq!(sizes[1], vec![5; 7]);
    assert_eq!(sizes[2], vec![5; 4]);
    let mul = MulClaim { log_size: 6 }.log_sizes();
    assert_eq!(mul[1].len(), 29);
    assert_eq!(mul[2].len(), 72);
    let eval = MulEval { claim: MulClaim { log_size: 6 } };
    assert_eq!(eval.log_size(), 6);
    assert_eq!(eval.max_constraint_log_degree_bound(), 7);
}
