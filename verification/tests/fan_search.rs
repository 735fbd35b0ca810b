use mahjong_core::solver::fan::fan_types::{FanCandidate, FanExclusionSet, FanType};
use mahjong_core::solver::fan::search::solve_max_score;


fn candidate(
    fan_type: FanType,
    used_set_mask: u64,
    uses_pair: bool,
) -> FanCandidate {
    let excludes_mask = FanExclusionSet::for_fan(fan_type);
    FanCandidate {
        fan_type,
        used_set_mask,
        uses_pair,
        score: fan_type.points(),
        excludes_mask,
    }
}

#[test]
fn search_test_solve_max_score_empty() {
    let result = solve_max_score(vec![]);
    assert_eq!(result.total_score, 0);
    assert!(result.fans.is_empty());
}

#[test]
fn search_test_solve_max_score_single() {
    // Big Four Winds (88) alone should score 88
    let candidates = vec![candidate(FanType::BigFourWinds, 0b1111, false)];
    let result = solve_max_score(candidates);
    assert_eq!(result.total_score, 88);
    assert_eq!(result.fans.len(), 1);
}

#[test]
fn search_test_solve_max_score_compatible() {
    // Big Four Winds (88) + All Terminals and Honors (32) + Half Flush (6)
    // These are all compatible (no exclusions between them, different sig keys)
    let candidates = vec![
        candidate(FanType::BigFourWinds, 0b0011, false),
        candidate(FanType::AllTerminalsAndHonors, 0b1111, true),
        candidate(FanType::HalfFlush, 0b1111, true),
    ];
    let result = solve_max_score(candidates);
    assert_eq!(result.total_score, 88 + 32 + 6);
    assert_eq!(result.fans.len(), 3);
}

#[test]
fn search_test_solve_max_score_excludes() {
    // Big Four Winds (88) excludes Little Four Winds (64) and All Pungs (6)
    // Little Four Winds excludes Big Four Winds
    // So picking Big Four Winds means we cannot also pick Little Four Winds.
    // But we CAN pick Little Four Winds alone (64).
    let candidates = vec![
        candidate(FanType::BigFourWinds, 0b1111, false),
        candidate(FanType::LittleFourWinds, 0b0111, true),
    ];
    let result = solve_max_score(candidates);
    // big-four 88 beats little-four 64, so result should be 88
    assert_eq!(result.total_score, 88);
    assert_eq!(result.fans.len(), 1);
    assert_eq!(result.fans[0].fan_type, FanType::BigFourWinds);
}

#[test]
fn search_test_solve_max_score_excludes_reverse() {
    // AllHonors (64) excludes AllTerminalsAndHonors (32)
    // AllTerminalsAndHonors excludes AllHonors
    // Best score: 64 (AllHonors) is better than 32 (AllTerminalsAndHonors)
    let candidates = vec![
        candidate(FanType::AllTerminalsAndHonors, 0b1111, true),
        candidate(FanType::AllHonors, 0b1111, true),
    ];
    let result = solve_max_score(candidates);
    assert_eq!(result.total_score, 64);
    assert_eq!(result.fans.len(), 1);
    assert_eq!(result.fans[0].fan_type, FanType::AllHonors);
}

#[test]
fn search_test_solve_max_score_non_repeat() {
    // Two identical candidates should not both be selectable (same sig_key)
    let candidates = vec![
        candidate(FanType::AllPungs, 0b1111, true),
        candidate(FanType::AllPungs, 0b1111, true),
    ];
    let result = solve_max_score(candidates);
    assert_eq!(result.total_score, 6);
    assert_eq!(result.fans.len(), 1);
}

#[test]
fn search_test_solve_max_score_complex() {
    // Big Four Winds (88, uses sets 0-3) + All Terminals (32, uses all sets + pair)
    // + Half Flush (6, uses all sets + pair) + All Pungs (6, uses all sets + pair)
    // Big Four Winds excludes All Pungs. So best is 88 + 32 + 6 = 126.
    let candidates = vec![
        candidate(FanType::BigFourWinds, 0b1111, false),
        candidate(FanType::AllTerminalsAndHonors, 0b1111, true),
        candidate(FanType::HalfFlush, 0b1111, true),
        candidate(FanType::AllPungs, 0b1111, true),
    ];
    let result = solve_max_score(candidates);
    assert_eq!(result.total_score, 88 + 32 + 6);
    assert_eq!(result.fans.len(), 3);
}
