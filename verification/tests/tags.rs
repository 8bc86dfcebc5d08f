use zabbix_sync::tags::{dns_tag, normalize_tag};

#[test]
fn host_group_normalization() {
    assert_eq!(normalize_tag("My Group-1"), "MYGROUP1");
}

#[test]
fn endpoint_normalization_plain() {
    assert_eq!(normalize_tag("abc"), "ABC");
}

#[test]
fn normalization_removes_all_spaces_and_hyphens() {
    assert_eq!(normalize_tag("- a-b c -"), "ABC");
}

#[test]
fn normalization_of_empty_is_empty() {
    assert_eq!(normalize_tag(""), "");
}

#[test]
fn normalization_keeps_other_punctuation() {
    assert_eq!(normalize_tag("db_server.local"), "DB_SERVER.LOCAL");
}

#[test]
fn empty_dns_becomes_sentinel() {
    assert_eq!(dns_tag(""), "None");
}

#[test]
fn nonempty_dns_passes_through() {
    assert_eq!(dns_tag("example.org"), "example.org");
}
