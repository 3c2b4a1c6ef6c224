use userlist::person::Person;
use userlist::records::{parse_person_line, person_record, read_person_line, read_user_list, user_list_text};
use userlist::text::{decimal_string, parse_bool, split_lines, split_words};

fn person(name: &str, password: &str, blocked: bool, limit: bool) -> Person {
    Person::new()
        .name(name.to_string())
        .password(password.to_string())
        .is_blocked(blocked)
        .is_limit(limit)
}

fn same(a: &Person, b: &Person) -> bool {
    a.name == b.name && a.password == b.password && a.blocked == b.blocked && a.limit == b.limit
}

#[test]
fn new_person_is_blank() {
    let p = Person::new();
    assert_eq!(p.name, "");
    assert_eq!(p.password, "");
    assert!(!p.blocked);
    assert!(!p.limit);
}

#[test]
fn builders_set_one_field_each() {
    let p = Person::new().name("bob".to_string());
    assert_eq!(p.name, "bob");
    assert_eq!(p.password, "");
    let p = p.password("secret".to_string());
    assert_eq!(p.name, "bob");
    assert_eq!(p.password, "secret");
    let p = p.is_blocked(true);
    assert!(p.blocked);
    assert!(!p.limit);
    let p = p.is_limit(true);
    assert!(p.blocked && p.limit);
    assert_eq!(p.name, "bob");
}

#[test]
fn words_split_at_any_whitespace() {
    let w = split_words("  alice\tpw \u{3000}true\u{a0}false  ");
    assert_eq!(w, vec!["alice", "pw", "true", "false"]);
    assert!(split_words("").is_empty());
    assert!(split_words(" \t\r\n").is_empty());
    let line = "a  b\u{2003}c\u{85}d";
    let expected: Vec<String> = line.split_whitespace().map(|s| s.to_string()).collect();
    assert_eq!(split_words(line), expected);
}

#[test]
fn lines_split_like_bufread() {
    assert_eq!(split_lines("a\nb\r\nc"), vec!["a", "b", "c"]);
    assert_eq!(split_lines("a\n\nb\n"), vec!["a", "", "b"]);
    assert!(split_lines("").is_empty());
    assert_eq!(split_lines("x\r"), vec!["x\r"]);
    assert_eq!(split_lines("\n"), vec![""]);
}

#[test]
fn decimal_numbers() {
    assert_eq!(decimal_string(0), "0");
    assert_eq!(decimal_string(7), "7");
    assert_eq!(decimal_string(10), "10");
    assert_eq!(decimal_string(2024), "2024");
    assert_eq!(decimal_string(u64::MAX), u64::MAX.to_string());
}

#[test]
fn bools_parse_only_two_words() {
    assert_eq!(parse_bool(&"true".to_string()), Some(true));
    assert_eq!(parse_bool(&"false".to_string()), Some(false));
    assert_eq!(parse_bool(&"True".to_string()), None);
    assert_eq!(parse_bool(&"1".to_string()), None);
    assert_eq!(parse_bool(&"".to_string()), None);
}

#[test]
fn admin_line_has_two_words() {
    let p = parse_person_line("ADMIN qwerty");
    assert!(same(&p, &person("ADMIN", "qwerty", false, false)));
}

#[test]
fn user_line_without_password() {
    let p = parse_person_line("newbie false true");
    assert!(same(&p, &person("newbie", "", false, true)));
}

#[test]
fn user_line_with_password() {
    let p = parse_person_line("bob 1234 true false");
    assert!(same(&p, &person("bob", "1234", true, false)));
    let p = parse_person_line("bob 1234 false false extra words");
    assert!(same(&p, &person("bob", "1234", false, false)));
}

#[test]
fn unreadable_lines_are_refused() {
    assert!(read_person_line("").is_none());
    assert!(read_person_line("lonely").is_none());
    assert!(read_person_line("bob maybe false").is_none());
    assert!(read_person_line("bob pw true no").is_none());
    assert!(read_person_line("bob pw TRUE false").is_none());
}

#[test]
fn records_of_each_kind() {
    assert_eq!(person_record(&person("ADMIN", "root", false, false)), "ADMIN root");
    assert_eq!(person_record(&person("ADMIN", "root", true, true)), "ADMIN root");
    assert_eq!(person_record(&person("ann", "", true, false)), "ann true false");
    assert_eq!(person_record(&person("ann", "pw", false, true)), "ann pw false true");
}

#[test]
fn list_text_ends_each_record_with_a_line_feed() {
    let ps = vec![person("ADMIN", "root", false, false), person("ann", "", false, false)];
    assert_eq!(user_list_text(&ps), "ADMIN root\nann false false\n");
    assert_eq!(user_list_text(&Vec::new()), "");
}

#[test]
fn user_list_round_trip() {
    let ps = vec![
        person("ADMIN", "root", false, false),
        person("ann", "", true, false),
        person("bob", "pw", false, true),
        person("carl", "true", true, true),
    ];
    let text = user_list_text(&ps);
    let back = read_user_list(&text).expect("a written list reads back");
    assert_eq!(back.len(), ps.len());
    for (a, b) in back.iter().zip(ps.iter()) {
        assert!(same(a, b));
    }
}

#[test]
fn admin_flags_do_not_survive_a_round_trip() {
    let ps = vec![person("ADMIN", "root", true, false)];
    let back = read_user_list(&user_list_text(&ps)).unwrap();
    assert!(!back[0].blocked);
}

#[test]
fn user_list_with_a_bad_line_is_refused() {
    assert!(read_user_list("ADMIN root\nbob\n").is_none());
    assert!(read_user_list("ADMIN root\n\n").is_none());
    let ps = read_user_list("ADMIN root\r\nann false false").unwrap();
    assert_eq!(ps.len(), 2);
    assert!(same(&ps[1], &person("ann", "", false, false)));
}
