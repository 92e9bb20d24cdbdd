use remnant_checklist::catalog::parse_number;
use remnant_checklist::text::{contains, less, push_decimal, same, split_commas};

#[test]
fn same_compares_characters() {
    assert!(same("Earth", "Earth"));
    assert!(!same("Earth", "earth"));
    assert!(!same("Earth", "Eart"));
    assert!(same("", ""));
}

#[test]
fn contains_finds_runs_of_characters() {
    assert!(contains("blade of adventure", "of adv"));
    assert!(contains("blade", ""));
    assert!(contains("", ""));
    assert!(!contains("blade", "blades"));
    assert!(!contains("blade", "bd"));
    assert!(contains("ward 13", "13"));
}

#[test]
fn less_orders_by_code_point() {
    assert!(less("Abrasive Amulet", "Amulet of Epicaricacy"));
    assert!(!less("Amulet of Epicaricacy", "Abrasive Amulet"));
    assert!(less("Akari", "Akari Set"));
    assert!(!less("Akari", "Akari"));
    assert!(less("Zebra", "apple"));
    assert!(less("", "a"));
}

#[test]
fn split_commas_keeps_empty_pieces() {
    assert_eq!(
        vec![String::from("a"), String::new(), String::from(" b ")],
        split_commas("a,, b ")
    );
    assert_eq!(vec![String::new()], split_commas(""));
    assert_eq!(vec![String::new(), String::new()], split_commas(","));
}

#[test]
fn push_decimal_writes_digits() {
    let mut s = String::from("x-");
    push_decimal(&mut s, 0);
    assert_eq!("x-0", s);
    let mut t = String::new();
    push_decimal(&mut t, 4294967295);
    assert_eq!("4294967295", t);
    let mut u = String::new();
    push_decimal(&mut u, 1070);
    assert_eq!("1070", u);
}

#[test]
fn parse_number_reads_decimal_and_hex() {
    assert_eq!(Some(42), parse_number("42"));
    assert_eq!(Some(7), parse_number("+7"));
    assert_eq!(Some(31), parse_number("0x1F"));
    assert_eq!(Some(255), parse_number("0xff"));
    assert_eq!(Some(4294967295), parse_number("4294967295"));
    assert_eq!(Some(7), parse_number("007"));
}

#[test]
fn parse_number_refuses_what_is_not_a_number() {
    assert_eq!(None, parse_number(""));
    assert_eq!(None, parse_number("+"));
    assert_eq!(None, parse_number("-1"));
    assert_eq!(None, parse_number(" 1"));
    assert_eq!(None, parse_number("4294967296"));
    assert_eq!(None, parse_number("0x"));
    assert_eq!(None, parse_number("0x1G"));
    assert_eq!(None, parse_number("12a"));
}
