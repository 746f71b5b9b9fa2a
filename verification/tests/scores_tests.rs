use strong_lines::scores::{is_high_score, HighScore};

fn entry(score: u32) -> HighScore {
    HighScore {
        id: None,
        player_name: String::from("player"),
        score,
        level_reached: 1,
        timestamp: String::from("0"),
    }
}

#[test]
fn short_list_admits_any_score() {
    assert!(is_high_score(&Vec::new(), 0));
    let list: Vec<HighScore> = (0..9).map(|i| entry(1000 - i)).collect();
    assert!(is_high_score(&list, 0));
}

#[test]
fn full_list_requires_beating_the_lowest() {
    let list: Vec<HighScore> = (0..10).map(|i| entry(1000 - i * 10)).collect();
    // lowest stored score is 910
    assert!(is_high_score(&list, 911));
    assert!(!is_high_score(&list, 910));
    assert!(!is_high_score(&list, 0));
    assert!(is_high_score(&list, 5000));
}
