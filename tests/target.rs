use twin_miner::target::{Model, TargetType, ACTIVE_SCORE_LIMIT};

fn model(score: i32) -> Model {
    Model {
        id: "t1".to_string(),
        address: "addr".to_string(),
        target: "abcd1234".to_string(),
        score,
        twin_address: None,
        twin_private_key: None,
        target_type: TargetType::Wallet,
        deployed: true,
        created_at: 1_000,
        updated_at: 1_000,
    }
}

#[test]
fn update_with_higher_score_succeeds() {
    let mut m = model(10);
    assert!(m.conditional_update(50, "A1".to_string(), "K1".to_string(), 2_000));
    assert_eq!(m.score, 50);
    assert_eq!(m.twin_address.as_deref(), Some("A1"));
    assert_eq!(m.twin_private_key.as_deref(), Some("K1"));
    assert!(!m.deployed);
    assert_eq!(m.updated_at, 2_000);
    assert_eq!(m.created_at, 1_000);
    assert_eq!(m.id, "t1");
}

#[test]
fn update_with_equal_or_lower_score_is_a_no_op() {
    let mut m = model(50);
    assert!(!m.conditional_update(50, "A1".to_string(), "K1".to_string(), 2_000));
    assert!(!m.conditional_update(20, "A2".to_string(), "K2".to_string(), 3_000));
    assert_eq!(m.score, 50);
    assert_eq!(m.twin_address, None);
    assert!(m.deployed);
    assert_eq!(m.updated_at, 1_000);
}

#[test]
fn stored_score_is_max_of_attempts() {
    let mut m = model(0);
    let attempts = [30, 10, 80, 80, 40, 200, 5];
    let mut winners = Vec::new();
    for (i, s) in attempts.iter().enumerate() {
        if m.conditional_update(*s, format!("A{}", i), format!("K{}", i), i as i64) {
            winners.push(*s);
        }
    }
    assert_eq!(m.score, 200);
    assert_eq!(winners, vec![30, 80, 200]);
    assert_eq!(m.twin_address.as_deref(), Some("A5"));
}

#[test]
fn racing_updates_one_winner_per_score() {
    // two workers submit the same score: only the first write lands
    let mut m = model(10);
    let first = m.conditional_update(120, "A".to_string(), "K".to_string(), 1);
    let second = m.conditional_update(120, "B".to_string(), "L".to_string(), 2);
    assert!(first);
    assert!(!second);
    assert_eq!(m.twin_address.as_deref(), Some("A"));
    // a lower score arriving after a higher one is refused
    let later = m.conditional_update(100, "C".to_string(), "M".to_string(), 3);
    assert!(!later);
    assert_eq!(m.score, 120);
}

#[test]
fn target_is_active_below_max() {
    assert!(model(0).is_active());
    assert!(model(254).is_active());
    assert!(!model(255).is_active());
    assert_eq!(ACTIVE_SCORE_LIMIT, 255);
    let token = Model { target_type: TargetType::Token, ..model(3) };
    assert!(token.is_active());
}
