use svg_captcha::attempts::{after_failure, position_triples, AfterFailure, MAX_RETRIES};

#[test]
fn retries_until_the_ninth_attempt() {
    assert_eq!(MAX_RETRIES, 9);
    for attempt in 1..9 {
        assert_eq!(after_failure(attempt), AfterFailure::Retry);
    }
    assert_eq!(after_failure(9), AfterFailure::GiveUp);
}

#[test]
fn positions_become_triples() {
    let t = position_triples(&[(20, 30, 40), (-5, 7, 34)]);
    assert_eq!(t, vec![[20, 30, 40], [-5, 7, 34]]);
    assert!(position_triples(&[]).is_empty());
}
