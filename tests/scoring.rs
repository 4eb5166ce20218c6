use twin_miner::scoring::{
    calculate_score, checked_score, position_weights, score_with_weights, ScoreError, MAX_SCORE,
};

#[test]
fn test_calculate_score() {
    // With weights [7, 5, 3, 1, 0, 2, 4, 6] used as bit positions (2^weight)
    // All 8 positions match: 2^7 + 2^5 + 2^3 + 2^1 + 2^0 + 2^2 + 2^4 + 2^6 = 255
    assert_eq!(calculate_score("abcd1234", "abcd_____1234"), MAX_SCORE);

    // First 2 prefix (2^7 + 2^5 = 160) and last 4 suffix (2^0 + 2^2 + 2^4 + 2^6 = 85) = 245
    assert_eq!(calculate_score("abcd1234", "abxx_____1234"), 245);

    // No matches
    assert_eq!(calculate_score("abcd1234", "xxxx_____xxxx"), 0);

    // First 4 prefix only (2^7 + 2^5 + 2^3 + 2^1 = 170)
    assert_eq!(calculate_score("abcd1234", "abcd_____xxxx"), 170);

    // Last 4 suffix only (2^0 + 2^2 + 2^4 + 2^6 = 85)
    assert_eq!(calculate_score("abcd1234", "xxxx_____1234"), 85);
}

#[test]
fn each_position_is_worth_its_own_weight() {
    let weights = position_weights();
    assert_eq!(weights, [7, 5, 3, 1, 0, 2, 4, 6]);
    let pattern = "abcd1234";
    let hits = [
        "axxx_____xxxx",
        "xbxx_____xxxx",
        "xxcx_____xxxx",
        "xxxd_____xxxx",
        "xxxx_____1xxx",
        "xxxx_____x2xx",
        "xxxx_____xx3x",
        "xxxx_____xxx4",
    ];
    for (i, candidate) in hits.iter().enumerate() {
        assert_eq!(calculate_score(pattern, candidate), 1u8 << weights[i]);
    }
}

#[test]
fn full_match_is_max_under_every_permutation_tried() {
    let perms: [[u8; 8]; 4] = [
        [0, 1, 2, 3, 4, 5, 6, 7],
        [7, 6, 5, 4, 3, 2, 1, 0],
        [3, 0, 6, 1, 7, 2, 5, 4],
        [7, 5, 3, 1, 0, 2, 4, 6],
    ];
    for w in perms.iter() {
        assert_eq!(score_with_weights(w, "abcd1234", "abcd1234"), 255);
        assert_eq!(score_with_weights(w, "abcd1234", "zzzzzzzz"), 0);
    }
}

#[test]
fn score_sums_weights_of_matching_positions() {
    let w: [u8; 8] = [0, 1, 2, 3, 4, 5, 6, 7];
    // positions 0, 2 and 7 match: 1 + 4 + 128
    assert_eq!(score_with_weights(&w, "abcd1234", "axcx__xxx4"), 133);
    // a candidate of exactly eight bytes: prefix and suffix are its halves
    assert_eq!(score_with_weights(&w, "abcd1234", "abcdxxxx"), 15);
}

#[test]
fn weighting_is_not_a_match_count() {
    // one match at the heaviest position beats two light ones
    let heavy = calculate_score("abcd1234", "axxx_____xxxx");
    let light = calculate_score("abcd1234", "xxxx_____12xx");
    assert_eq!(heavy, 128);
    assert_eq!(light, 1 + 4);
    assert!(heavy > light);
}

#[test]
fn matching_is_exact_and_case_sensitive() {
    assert_eq!(calculate_score("abcd1234", "ABCD_____1234"), 85);
}

#[test]
fn longer_pattern_scores_its_first_eight_bytes() {
    assert_eq!(calculate_score("abcd1234extra", "abcd_____1234"), 255);
}

#[test]
fn checked_score_rejects_short_pattern() {
    assert_eq!(checked_score("abc", "abcd_____1234"), Err(ScoreError::PatternTooShort));
    assert_eq!(checked_score("", "abcd_____1234"), Err(ScoreError::PatternTooShort));
}

#[test]
fn checked_score_rejects_short_candidate() {
    assert_eq!(checked_score("abcd1234", "abcd123"), Err(ScoreError::CandidateTooShort));
}

#[test]
fn checked_score_scores_valid_input() {
    assert_eq!(checked_score("abcd1234", "abxx_____1234"), Ok(245));
}
