use svg_captcha::verify;

#[test]
fn centre_clicks_in_order_pass() {
    let positions = vec![(20, 30, 40), (100, 50, 34)];
    assert!(verify(&[(40, 50), (117, 67)], &positions));
}

#[test]
fn clicks_out_of_order_fail() {
    let positions = vec![(20, 30, 40), (100, 50, 34)];
    assert!(!verify(&[(117, 67), (40, 50)], &positions));
}

#[test]
fn wrong_number_of_clicks_fails() {
    let positions = vec![(20, 30, 40), (100, 50, 34)];
    assert!(!verify(&[(40, 50)], &positions));
    assert!(!verify(&[(40, 50), (117, 67), (117, 67)], &positions));
}

#[test]
fn padding_edges_are_inclusive() {
    let positions = vec![(20, 30, 40)];
    assert!(verify(&[(5, 15)], &positions));
    assert!(verify(&[(75, 85)], &positions));
    assert!(!verify(&[(4, 15)], &positions));
    assert!(!verify(&[(75, 86)], &positions));
}

#[test]
fn no_targets_no_clicks() {
    assert!(verify(&[], &[]));
    assert!(!verify(&[(0, 0)], &[]));
}

#[test]
fn unequal_lengths_fail_whatever_the_positions() {
    assert!(!verify(&[], &[(20, 20, 34)]));
    assert!(!verify(&[(37, 37), (37, 37)], &[(20, 20, 34)]));
    assert!(!verify(&[(0, 0)], &[(i32::MAX, i32::MAX, u32::MAX), (0, 0, 1)]));
}
