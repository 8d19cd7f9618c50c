use battleship::words::pluralize;

#[test]
fn test_pluralize_singular() {
    assert_eq!(pluralize("ship", 1), "ship");
}

#[test]
fn test_pluralize_zero_stays_singular() {
    assert_eq!(pluralize("ship", 0), "ship");
}

#[test]
fn test_pluralize_plural() {
    assert_eq!(pluralize("ship", 2), "ships");
    assert_eq!(pluralize("ship", 7), "ships");
    assert_eq!(pluralize("boat", 3), "boats");
}
