use neovide_msvc::envmap::EnvironmentMap;
use neovide_msvc::parser::parse_environment;

fn value(m: &EnvironmentMap, name: &str) -> Option<String> {
    m.get(name).cloned()
}

#[test]
fn lines_without_separator_give_nothing() {
    let m = parse_environment("Banner text\n** Visual Studio **\n\n");
    assert_eq!(m.len(), 0);
}

#[test]
fn empty_snapshot_gives_empty_map() {
    let m = parse_environment("");
    assert_eq!(m.len(), 0);
    assert_eq!(value(&m, "A"), None);
}

#[test]
fn last_write_wins() {
    let m = parse_environment("A=1\nA=2\n");
    assert_eq!(m.len(), 1);
    assert_eq!(value(&m, "A"), Some("2".to_string()));
}

#[test]
fn first_split_keeps_later_separators() {
    let m = parse_environment("PATH=C:\\a=b\n");
    assert_eq!(m.len(), 1);
    assert_eq!(value(&m, "PATH"), Some("C:\\a=b".to_string()));
}

#[test]
fn empty_value_is_kept() {
    let m = parse_environment("EMPTY=\n");
    assert_eq!(value(&m, "EMPTY"), Some(String::new()));
}

#[test]
fn empty_name_is_discarded() {
    let m = parse_environment("=C:=C:\\Users\nA=1\n");
    assert_eq!(m.len(), 1);
    assert_eq!(value(&m, ""), None);
    assert_eq!(value(&m, "A"), Some("1".to_string()));
}

#[test]
fn carriage_returns_before_line_feeds_are_dropped() {
    let m = parse_environment("A=1\r\nB=2\r\n");
    assert_eq!(value(&m, "A"), Some("1".to_string()));
    assert_eq!(value(&m, "B"), Some("2".to_string()));
}

#[test]
fn last_line_without_line_feed_is_read() {
    let m = parse_environment("A=1\nB=2");
    assert_eq!(m.len(), 2);
    assert_eq!(value(&m, "B"), Some("2".to_string()));
}

#[test]
fn carriage_return_at_the_very_end_is_kept() {
    let m = parse_environment("A=1\r");
    assert_eq!(value(&m, "A"), Some("1\r".to_string()));
}

#[test]
fn line_order_does_not_matter_for_distinct_names() {
    let a = parse_environment("A=1\nB=x=y\nnoise\nC=3\n");
    let b = parse_environment("C=3\nnoise\nA=1\nB=x=y\n");
    assert_eq!(a.len(), 3);
    assert_eq!(b.len(), 3);
    for (k, v) in a.entries() {
        assert_eq!(b.get(k.as_str()), Some(v));
    }
}

#[test]
fn entries_list_each_name_once() {
    let m = parse_environment("A=1\nB=2\nA=3\n");
    let mut names: Vec<String> = m.entries().iter().map(|e| e.0.clone()).collect();
    names.sort();
    assert_eq!(names, vec!["A".to_string(), "B".to_string()]);
}

#[test]
fn names_are_case_sensitive() {
    let m = parse_environment("Path=1\nPATH=2\n");
    assert_eq!(m.len(), 2);
    assert_eq!(value(&m, "Path"), Some("1".to_string()));
}

#[test]
fn insert_replaces_and_adds() {
    let mut m = EnvironmentMap::new();
    m.insert("A".to_string(), "1".to_string());
    m.insert("B".to_string(), "2".to_string());
    m.insert("A".to_string(), "3".to_string());
    assert_eq!(m.len(), 2);
    assert_eq!(value(&m, "A"), Some("3".to_string()));
}
