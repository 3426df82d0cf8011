use codegraph_lsp::metrics::complexity_grade;

#[test]
fn test_complexity_grade() {
    assert_eq!(complexity_grade(1), 'A');
    assert_eq!(complexity_grade(5), 'A');
    assert_eq!(complexity_grade(6), 'B');
    assert_eq!(complexity_grade(10), 'B');
    assert_eq!(complexity_grade(11), 'C');
    assert_eq!(complexity_grade(20), 'C');
    assert_eq!(complexity_grade(21), 'D');
    assert_eq!(complexity_grade(50), 'D');
    assert_eq!(complexity_grade(51), 'F');
}

#[test]
fn complexity_grade_never_improves_as_complexity_grows() {
    let order = ['A', 'B', 'C', 'D', 'F'];
    let rank = |g: char| order.iter().position(|c| *c == g).unwrap();
    let mut last = 0;
    for c in 0..120u32 {
        let r = rank(complexity_grade(c));
        assert!(r >= last);
        last = r;
    }
    assert_eq!(complexity_grade(0), 'A');
    assert_eq!(complexity_grade(u32::MAX), 'F');
}
