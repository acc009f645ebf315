use cairo_m_prover::components::sha256::air::{
    add2_u32_2_4_constraints, add2_u32_constraints, add3_u32_2_2_4_constraints, add3_u32_2_4_4_constraints,
    add3_u32_constraints, SigmaAir,
};
use cairo_m_prover::components::sha256::witness::{
    add2_u32_unchecked, add3_u32_unchecked, apply_ch, apply_maj, apply_xor, decompose_input, decompose_u32,
    ch, get_output, maj, rebuild_word_from_limbs, sigma,
};
use cairo_m_prover::components::sha256::{Claim, Eval, Fu32_2, Fu32_4, SigmaType};
use cairo_m_prover::field::M31;

const ALL: [SigmaType; 4] = [SigmaType::SmallSigma0, SigmaType::SmallSigma1, SigmaType::BigSigma0, SigmaType::BigSigma1];

fn sigma_of(sigma: SigmaType, x: u32) -> u32 {
    match sigma {
        SigmaType::SmallSigma0 => x.rotate_right(3) ^ x.rotate_right(7) ^ x.rotate_right(18),
        SigmaType::SmallSigma1 => x.rotate_right(10) ^ x.rotate_right(17) ^ x.rotate_right(19),
        SigmaType::BigSigma0 => x.rotate_right(6) ^ x.rotate_right(11) ^ x.rotate_right(25),
        SigmaType::BigSigma1 => x.rotate_right(2) ^ x.rotate_right(13) ^ x.rotate_right(22),
    }
}

#[test]
fn decompose_u32_limbs_split_the_word() {
    let a: u32 = 0xdeadbeef & !0x10000;
    for s in ALL {
        let l = decompose_u32(a, s);
        assert_eq!(l[0] & l[1], 0);
        assert_eq!(l[0] & l[2], 0);
        assert_eq!(l[1] & l[2], 0);
        assert_eq!(l[0] + l[1] + l[2], a & 0xffff);
        assert_eq!(l[3] + l[4] + l[5], a >> 16);
    }
}

#[test]
fn decompose_u32_small_sigma1_drops_bit_16() {
    let l = decompose_u32(0x10000, SigmaType::SmallSigma1);
    assert_eq!(l[3] + l[4] + l[5], 0);
}

#[test]
fn sigma_of_the_two_groups_xors_to_the_sigma_of_the_word() {
    let a: u32 = 0xdeadbeef & !0x10000;
    for s in ALL {
        let d = decompose_u32(a, s);
        let limbs = d.map(M31);
        let (low0, high0, low1, high1): (Vec<usize>, Vec<usize>, Vec<usize>, Vec<usize>) = match s {
            SigmaType::SmallSigma0 | SigmaType::BigSigma0 => (vec![1, 2], vec![5], vec![0], vec![3, 4]),
            SigmaType::SmallSigma1 => (vec![0], vec![3], vec![1, 2], vec![4, 5]),
            SigmaType::BigSigma1 => (vec![0], vec![3, 4], vec![1, 2], vec![5]),
        };
        let pick = |ix: &Vec<usize>| ix.iter().map(|&i| limbs[i]).collect::<Vec<M31>>();
        let i0 = rebuild_word_from_limbs(&pick(&low0), &pick(&high0));
        let i1 = rebuild_word_from_limbs(&pick(&low1), &pick(&high1));
        assert_eq!(i0 | i1, a);
        assert_eq!(i0 & i1, 0);
        assert_eq!(sigma_of(s, i0) ^ sigma_of(s, i1), sigma_of(s, a));
        let out = get_output(s, limbs);
        assert!(out.iter().all(|x| x.0 < 65536));
    }
}

#[test]
fn sigma_row_adds_its_three_parts() {
    let a = Fu32_2 { lo: M31(0xbeef), hi: M31(0xdead) };
    let limbs = decompose_input(a, SigmaType::BigSigma1);
    assert_eq!(limbs, decompose_u32(0xdeadbeef, SigmaType::BigSigma1).map(M31));
    let (row, cols, col_index) = on_row(14, |c, r| sigma(SigmaType::BigSigma1, limbs, c, r));
    assert_eq!(row.xor_lo, apply_xor(row.outputs[4], row.outputs[5]));
    assert_eq!(row.xor_hi, apply_xor(row.outputs[6], row.outputs[7]));
    // The twelve columns: the outputs, the XORs, the sum's halves.
    assert_eq!(col_index, 12);
    assert_eq!(&cols[..8], &row.outputs[..]);
    assert_eq!(&cols[8..12], &[row.xor_lo, row.xor_hi, row.res.lo, row.res.hi]);
    assert_eq!(&cols[12..], &[M31(0), M31(0)]);
}

/// Runs `f` on a fresh row of `n` zero columns at column 0, and returns its
/// result, the row and the column index after it.
fn on_row<T>(n: usize, f: impl FnOnce(&mut usize, &mut Vec<M31>) -> T) -> (T, Vec<M31>, usize) {
    let mut row = vec![M31(0); n];
    let mut col_index = 0;
    let r = f(&mut col_index, &mut row);
    (r, row, col_index)
}

#[test]
fn add2_wraps_around() {
    let a = Fu32_2 { lo: M31(0xffff), hi: M31(0xffff) };
    let b = Fu32_2 { lo: M31(2), hi: M31(0) };
    let (r, row, col_index) = on_row(2, |c, row| add2_u32_unchecked(a, b, c, row));
    assert_eq!((r.lo, r.hi), (M31(1), M31(0)));
    assert_eq!((row, col_index), (vec![M31(1), M31(0)], 2));
}

#[test]
fn add3_takes_carries_of_two() {
    let a = Fu32_2 { lo: M31(0xffff), hi: M31(1) };
    let (r, _, _) = on_row(2, |c, row| add3_u32_unchecked(a, a, Fu32_2 { lo: M31(2), hi: M31(0) }, c, row));
    // 0xffff * 2 + 2 = 0x20000: carry 2 into the high half
    assert_eq!((r.lo, r.hi), (M31(0), M31(4)));
}

#[test]
fn add3_carries_one_into_the_high_half() {
    let a = Fu32_2 { lo: M31(0xffff), hi: M31(0) };
    let b = Fu32_2 { lo: M31(1), hi: M31(0) };
    let z = Fu32_2 { lo: M31(0), hi: M31(0) };
    let (r, _, _) = on_row(2, |c, row| add3_u32_unchecked(a, b, z, c, row));
    assert_eq!((r.lo, r.hi), (M31(0), M31(1)));
    let h = Fu32_2 { lo: M31(0x8000), hi: M31(0) };
    let (r, row, col_index) = on_row(3, |c, row| add3_u32_unchecked(h, h, z, c, row));
    assert_eq!((r.lo, r.hi), (M31(0), M31(1)));
    // The sum's halves go to the first two columns.
    assert_eq!((row, col_index), (vec![M31(0), M31(1), M31(0)], 2));
}

#[test]
fn ch_and_maj_on_limbs() {
    assert_eq!(apply_ch(M31(0b1100), M31(0b1010), M31(0b0110)), M31(0b1010));
    assert_eq!(apply_maj(M31(0b1100), M31(0b1010), M31(0b0110)), M31(0b1110));
}

#[test]
fn fu32_conversions() {
    let w = Fu32_4::from_array([M31(1), M31(2), M31(3), M31(4)]);
    assert_eq!(w.into_felts(), [M31(1), M31(2), M31(3), M31(4)]);
    let h: Fu32_2 = w.into();
    assert_eq!((h.lo, h.hi), (M31(1 + 2 * 256), M31(3 + 4 * 256)));
    assert!(Fu32_2::zero().is_zero());
    assert!(Fu32_4::zero().is_zero());
    assert!(!h.is_zero());
    assert_eq!(h.into_felts(), [M31(513), M31(1027)]);
}

fn halves(x: u32) -> Fu32_2 {
    Fu32_2 { lo: M31(x & 0xffff), hi: M31(x >> 16) }
}

#[test]
fn add2_witness_satisfies_its_constraints() {
    for (a, b) in [(1u32, 2u32), (0xffff, 1), (u32::MAX, u32::MAX), (0x8000_0000, 0x8000_0000)] {
        let (s, _, _) = on_row(2, |c, row| add2_u32_unchecked(halves(a), halves(b), c, row));
        assert_eq!(add2_u32_constraints(halves(a), halves(b), s), (M31(0), M31(0)));
    }
    let wrong = Fu32_2 { lo: M31(4), hi: M31(0) };
    assert_ne!(add2_u32_constraints(halves(1), halves(2), wrong).0, M31(0));
}

#[test]
fn add3_witness_satisfies_its_constraints() {
    for (a, b, c) in [(1u32, 2u32, 3u32), (u32::MAX, u32::MAX, u32::MAX), (0xffff, 1, 0), (0x8000, 0x8000, 0)] {
        let (s, _, _) = on_row(2, |ci, row| add3_u32_unchecked(halves(a), halves(b), halves(c), ci, row));
        assert_eq!(add3_u32_constraints(halves(a), halves(b), halves(c), s), (M31(0), M31(0)));
        assert_eq!(s.lo.0 + (s.hi.0 << 16), a.wrapping_add(b).wrapping_add(c));
    }
}

fn limbs(x: u32) -> Fu32_4 {
    Fu32_4 {
        lo0: M31(x & 0xff),
        lo1: M31((x >> 8) & 0xff),
        hi0: M31((x >> 16) & 0xff),
        hi1: M31(x >> 24),
    }
}

#[test]
fn bytewise_additions_satisfy_their_constraints() {
    for (a, b, c) in [(1u32, 2u32, 3u32), (u32::MAX, u32::MAX, u32::MAX), (0xffff, 1, 0), (0x8000_0000, 0x8000_0000, 7)] {
        let s2 = limbs(a.wrapping_add(b));
        assert_eq!(add2_u32_2_4_constraints(limbs(a), limbs(b), s2), (M31(0), M31(0)));
        let s3 = limbs(a.wrapping_add(b).wrapping_add(c));
        assert_eq!(add3_u32_2_2_4_constraints(halves(a), halves(b), limbs(c), s3), (M31(0), M31(0)));
        assert_eq!(add3_u32_2_4_4_constraints(halves(a), limbs(b), limbs(c), s3), (M31(0), M31(0)));
    }
    let wrong = limbs(4);
    assert_ne!(add2_u32_2_4_constraints(limbs(1), limbs(2), wrong), (M31(0), M31(0)));
    assert_ne!(add3_u32_2_2_4_constraints(halves(1), halves(2), limbs(3), wrong), (M31(0), M31(0)));
}

#[test]
fn ch_and_maj_write_their_limbs() {
    let e = [0b1100, 1, 2, 3, 4, 5].map(M31);
    let f = [0b1010, 1, 0, 3, 0, 5].map(M31);
    let g = [0b0110, 0, 2, 0, 4, 0].map(M31);
    let ((limbs, sum), row, col_index) = on_row(7, |c, r| ch(e, f, g, c, r));
    assert_eq!(col_index, 6);
    assert_eq!(&row[..6], &limbs[..]);
    assert_eq!(limbs[0], M31(0b1010));
    assert_eq!((sum.lo, sum.hi), (M31(limbs[0].0 + limbs[1].0 + limbs[2].0), M31(limbs[3].0 + limbs[4].0 + limbs[5].0)));
    let ((limbs, _), row, col_index) = on_row(6, |c, r| maj(e, f, g, c, r));
    assert_eq!(col_index, 6);
    assert_eq!(&row[..], &limbs[..]);
    assert_eq!(limbs[0], M31(0b1110));
}

#[test]
fn rebuilding_the_limbs_gives_the_word_back() {
    assert_eq!(rebuild_word_from_limbs(&[], &[]), 0);
    for sigma_type in [SigmaType::SmallSigma0, SigmaType::BigSigma0, SigmaType::BigSigma1] {
        for x in [0u32, 1, 0xdead_beef, u32::MAX, 0x1234_5678] {
            let l = decompose_u32(x, sigma_type).map(M31);
            assert_eq!(rebuild_word_from_limbs(&l[0..3], &l[3..6]), x);
        }
    }
}

#[test]
fn sigma_air_reads_back_the_witness_columns() {
    let eval = Eval { claim: Claim { log_size: 4 } };
    let a: u32 = 0x1234_5678;
    for s in ALL {
        let limbs = decompose_u32(a & !0x10000, s).map(M31);
        // Two leading columns, so the sigma's columns start at 2.
        let (w, row, _) = on_row(16, |c, r| {
            *c = 2;
            sigma(s, limbs, c, r)
        });
        let air: SigmaAir = eval.sigma(s, limbs, &row, 2);
        assert_eq!(air.constraints, (M31(0), M31(0)));
        assert_eq!((air.res.lo, air.res.hi), (w.res.lo, w.res.hi));
        assert_eq!(air.range_check_16, [w.res.lo, w.res.hi]);
        let o = w.outputs;
        let xor6 = vec![o[4], o[6], o[5], o[7], w.xor_lo, w.xor_hi];
        let l = limbs;
        let expected: Vec<Vec<M31>> = match s {
            SigmaType::SmallSigma0 => vec![
                vec![l[1], l[2], l[5], o[0], o[1], o[4], o[6]],
                vec![l[0], l[3], l[4], o[2], o[3], o[5], o[7]],
                xor6,
            ],
            SigmaType::SmallSigma1 => vec![
                vec![l[0], l[3], o[0], o[1], o[4], o[6]],
                vec![l[1], l[2], l[4], l[5], o[2], o[3], o[5], o[7]],
                xor6,
            ],
            SigmaType::BigSigma0 => vec![
                vec![l[1], l[2], l[5], o[0], o[1], o[4], o[6]],
                vec![l[0], l[3], l[4], o[2], o[3], o[5], o[7]],
                vec![o[4], o[5], w.xor_lo],
                vec![o[6], o[7], w.xor_hi],
            ],
            SigmaType::BigSigma1 => vec![
                vec![l[0], l[3], l[4], o[0], o[1], o[4], o[6]],
                vec![l[1], l[2], l[5], o[2], o[3], o[5], o[7]],
                xor6,
            ],
        };
        assert_eq!(air.lookups, expected);
    }
}

#[test]
fn sigma_air_flags_a_wrong_sum() {
    let eval = Eval { claim: Claim { log_size: 4 } };
    let limbs = decompose_u32(0xdeadbeef, SigmaType::BigSigma0).map(M31);
    let (_, mut row, _) = on_row(12, |c, r| sigma(SigmaType::BigSigma0, limbs, c, r));
    row[10] = M31(row[10].0 ^ 1);
    let air = eval.sigma(SigmaType::BigSigma0, limbs, &row, 0);
    assert_ne!(air.constraints, (M31(0), M31(0)));
}
