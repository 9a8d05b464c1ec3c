use rbx_reflection::text::same_text;

#[test]
fn equal_texts_are_the_same() {
    assert!(same_text("", ""));
    assert!(same_text("Part", "Part"));
    assert!(same_text("Größe", "Größe"));
    let owned = String::from("BasePart");
    assert!(same_text(&owned, "BasePart"));
}

#[test]
fn different_texts_are_not_the_same() {
    assert!(!same_text("Part", "part"));
    assert!(!same_text("Part", "Par"));
    assert!(!same_text("Par", "Part"));
    assert!(!same_text("Part", ""));
    assert!(!same_text("", "Part"));
    assert!(!same_text("Part", "Part "));
    assert!(!same_text("Größe", "Grösse"));
    assert!(!same_text("Part", "Parb"));
    assert!(!same_text("aart", "Part"));
}
