use sweet_reticulum::names::conductor_name;

#[test]
fn names_carry_the_index_in_decimal() {
    assert_eq!(conductor_name(0), "sweet-reticulum-0");
    assert_eq!(conductor_name(7), "sweet-reticulum-7");
    assert_eq!(conductor_name(9), "sweet-reticulum-9");
    assert_eq!(conductor_name(10), "sweet-reticulum-10");
    assert_eq!(conductor_name(99), "sweet-reticulum-99");
    assert_eq!(conductor_name(100), "sweet-reticulum-100");
    assert_eq!(conductor_name(90210), "sweet-reticulum-90210");
}

#[test]
fn names_agree_with_formatting() {
    for i in 0..2000usize {
        assert_eq!(conductor_name(i), format!("sweet-reticulum-{i}"));
    }
    assert_eq!(
        conductor_name(usize::MAX),
        format!("sweet-reticulum-{}", usize::MAX)
    );
}

#[test]
fn names_are_distinct() {
    let names: Vec<String> = (0..150usize).map(|i| conductor_name(i)).collect();
    for i in 0..names.len() {
        for j in 0..i {
            assert_ne!(names[i], names[j]);
        }
    }
}
