use mahjong_core::solver::fan_solver::solve_max_score;
use mahjong_core::solver::types::{FanExclusionSet, FanType};
use mahjong_core::solver::FanInstance;


fn candidate(
    fan_type: FanType,
    used_set_mask: u64,
    uses_pair: bool,
) -> FanInstance {
    let mut excludes_mask = FanExclusionSet::default();
    match fan_type {
        FanType::BigFourWinds => {
            excludes_mask.set_bit(FanType::AllPungs.bit_index());
            excludes_mask.set_bit(FanType::LittleFourWinds.bit_index());
        }
        FanType::LittleFourWinds => {
            excludes_mask.set_bit(FanType::BigFourWinds.bit_index());
        }
        FanType::AllHonors => {
            excludes_mask
                .set_bit(FanType::AllTerminalsAndHonors.bit_index());
        }
        FanType::AllTerminalsAndHonors => {
            excludes_mask.set_bit(FanType::AllHonors.bit_index());
        }
        _ => {}
    }
    FanInstance {
        fan_type,
        used_set_mask,
        uses_pair,
    }
}

#[test]
fn fan_solver_test_solve_max_score_empty() {
    let results = solve_max_score(vec![]);
    assert_eq!(results.len(), 1);
    assert_eq!(results[0].total_score(), 0);
    assert!(results[0].fans.is_empty());
}

#[test]
fn fan_solver_test_solve_max_score_single() {
    let results = solve_max_score(vec![candidate(
        FanType::BigFourWinds,
        0b1111,
        false,
    )]);
    assert_eq!(results[0].total_score(), 88);
    assert_eq!(results[0].fans.len(), 1);
}

#[test]
fn fan_solver_test_solve_max_score_compatible() {
    let results = solve_max_score(vec![
        candidate(FanType::BigFourWinds, 0b0011, false),
        candidate(FanType::AllTerminalsAndHonors, 0b1111, true),
        candidate(FanType::HalfFlush, 0b1111, true),
    ]);
    assert_eq!(results[0].total_score(), 88 + 32 + 6);
    assert_eq!(results[0].fans.len(), 3);
}

#[test]
fn fan_solver_test_solve_max_score_excludes() {
    let results = solve_max_score(vec![
        candidate(FanType::BigFourWinds, 0b1111, false),
        candidate(FanType::LittleFourWinds, 0b0111, true),
    ]);
    assert_eq!(results[0].total_score(), 88);
    assert_eq!(results[0].fans.len(), 1);
    assert_eq!(results[0].fans[0].fan_type, FanType::BigFourWinds);
}

#[test]
fn fan_solver_test_solve_max_score_excludes_reverse() {
    let results = solve_max_score(vec![
        candidate(FanType::AllTerminalsAndHonors, 0b1111, true),
        candidate(FanType::AllHonors, 0b1111, true),
    ]);
    assert_eq!(results[0].total_score(), 64);
    assert_eq!(results[0].fans.len(), 1);
    assert_eq!(results[0].fans[0].fan_type, FanType::AllHonors);
}

#[test]
fn fan_solver_test_solve_max_score_non_repeat() {
    let results = solve_max_score(vec![
        candidate(FanType::AllPungs, 0b1111, true),
        candidate(FanType::AllPungs, 0b1111, true),
    ]);
    assert_eq!(results[0].total_score(), 6);
    assert_eq!(results[0].fans.len(), 1);
}

#[test]
fn fan_solver_test_solve_max_score_complex() {
    let results = solve_max_score(vec![
        candidate(FanType::BigFourWinds, 0b1111, false),
        candidate(FanType::AllTerminalsAndHonors, 0b1111, true),
        candidate(FanType::HalfFlush, 0b1111, true),
        candidate(FanType::AllPungs, 0b1111, true),
    ]);
    assert_eq!(results[0].total_score(), 88 + 32 + 6);
    assert_eq!(results[0].fans.len(), 3);
}
