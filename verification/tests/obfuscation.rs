use secretswap_pair::error::{Operands, PairError, Quantity};
use secretswap_pair::obfuscation::{
    get_random_nom_denom, obfuscate, obfuscate_amount, OBFUSCATION_DENOM,
};
use secretswap_pair::swap::compute_swap;

#[test]
fn even_draws_scale_up() {
    assert_eq!(get_random_nom_denom(0), (10_000, 10_000));
    assert_eq!(get_random_nom_denom(98), (10_098, 10_000));
    assert_eq!(get_random_nom_denom(u64::MAX - 1), (10_014, 10_000));
}

#[test]
fn odd_draws_scale_down() {
    assert_eq!(get_random_nom_denom(1), (9_999, 10_000));
    assert_eq!(get_random_nom_denom(99), (9_901, 10_000));
    assert_eq!(get_random_nom_denom(12_345), (9_955, 10_000));
    assert_eq!(get_random_nom_denom(u64::MAX), (9_985, 10_000));
}

#[test]
fn every_ratio_is_within_one_percent() {
    for draw in 0..1000u64 {
        let (nom, denom) = get_random_nom_denom(draw);
        assert_eq!(denom, OBFUSCATION_DENOM);
        assert!(9_901 <= nom && nom <= 10_099);
        assert_eq!(nom >= denom, draw % 2 == 0);
    }
}

#[test]
fn obfuscate_scales_every_figure() {
    assert_eq!(
        obfuscate([1_000_000, 2_000_000], 500_000, 98),
        Ok(([1_009_800, 2_019_600], 504_900))
    );
    assert_eq!(
        obfuscate([1_000_000, 2_000_000], 500_000, 99),
        Ok(([990_100, 1_980_200], 495_050))
    );
    assert_eq!(
        obfuscate([1_000_000, 2_000_000], 500_000, 0),
        Ok(([1_000_000, 2_000_000], 500_000))
    );
}

#[test]
fn obfuscate_rounds_down() {
    assert_eq!(obfuscate_amount(1, 98), Ok(1));
    assert_eq!(obfuscate_amount(1, 99), Ok(0));
    assert_eq!(obfuscate_amount(9_999, 2), Ok(10_000));
    assert_eq!(obfuscate_amount(0, 99), Ok(0));
}

#[test]
fn obfuscate_near_the_top_of_the_range() {
    assert_eq!(
        obfuscate_amount(u128::MAX, 99),
        Ok(336_913_571_488_421_172_675_087_198_818_193_706_161)
    );
    assert_eq!(obfuscate_amount(u128::MAX, 0), Ok(u128::MAX));
    let overflow = |nom| {
        PairError::Overflow(Quantity::ReportedAmount, Operands::Three(u128::MAX, nom, 10_000))
    };
    assert_eq!(obfuscate_amount(u128::MAX, 98), Err(overflow(10_098)));
    assert_eq!(obfuscate([1, u128::MAX], 1, 2), Err(overflow(10_002)));
    assert_eq!(obfuscate([1, 1], u128::MAX, 4), Err(overflow(10_004)));
}

#[test]
fn different_draws_report_different_reserves() {
    let reserves = [1_000_000u128, 2_000_000];
    let first = obfuscate(reserves, 500_000, 98).unwrap();
    let second = obfuscate(reserves, 500_000, 99).unwrap();
    assert_ne!(first.0, second.0);

    let mut seen = Vec::new();
    for draw in 0..100u64 {
        let reported = obfuscate(reserves, 500_000, draw).unwrap().0;
        assert!(!seen.contains(&reported));
        seen.push(reported);
    }
}

#[test]
fn obfuscation_leaves_the_true_reserves_alone() {
    let reserves = [1_000_000u128, 2_000_000];
    let before = compute_swap(reserves[0], reserves[1], 1000, 3, 1000);
    let _ = obfuscate(reserves, 500_000, 98).unwrap();
    let _ = obfuscate(reserves, 500_000, 99).unwrap();
    assert_eq!(reserves, [1_000_000, 2_000_000]);
    assert_eq!(compute_swap(reserves[0], reserves[1], 1000, 3, 1000), before);
    assert_eq!(before, Ok((1_994, 1, 5)));
}
