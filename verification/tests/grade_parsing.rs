use uni_headless::grade::parse_vpl_proposed_grade;

#[test]
fn partial_grade_parses_to_exact_ratio() {
    let g = parse_vpl_proposed_grade("Proposed grade: 8.5 / 10").unwrap();
    assert!(g.eq_ratio(85, 100));
    assert!(g.eq_ratio(17, 20));
    assert!(!g.eq_ratio(1, 1));
    assert!(!g.is_perfect());
}

#[test]
fn full_grade_is_perfect() {
    let g = parse_vpl_proposed_grade("Proposed grade: 10 / 10").unwrap();
    assert!(g.eq_ratio(1, 1));
    assert!(g.is_perfect());
}

#[test]
fn text_without_marker_has_no_grade() {
    assert!(parse_vpl_proposed_grade("All tests passed, score 10/10").is_none());
    assert!(parse_vpl_proposed_grade("").is_none());
}

#[test]
fn malformed_number_has_no_grade() {
    assert!(parse_vpl_proposed_grade("Proposed grade: abc / 10").is_none());
    assert!(parse_vpl_proposed_grade("Proposed grade: 8..5 / 10").is_none());
    assert!(parse_vpl_proposed_grade("Proposed grade: . / 10").is_none());
    assert!(parse_vpl_proposed_grade("Proposed grade: 8.5 - 10").is_none());
}

#[test]
fn zero_maximum_has_no_grade() {
    assert!(parse_vpl_proposed_grade("Proposed grade: 5 / 0").is_none());
}

#[test]
fn spacing_around_the_numbers_is_ignored() {
    let g = parse_vpl_proposed_grade("noise Proposed grade:\n\t 7.25  /  10 more noise").unwrap();
    assert!(g.eq_ratio(725, 1000));
}

#[test]
fn bare_fraction_digits_parse() {
    let g = parse_vpl_proposed_grade("Proposed grade: .5 / 1").unwrap();
    assert!(g.eq_ratio(1, 2));
}

#[test]
fn grade_above_maximum_counts_as_success() {
    let g = parse_vpl_proposed_grade("Proposed grade: 11 / 10").unwrap();
    assert!(g.is_perfect());
}
