use evtx_archiver::paths::{base_name, find_first, str_eq};

#[test]
fn base_name_takes_the_part_after_the_last_separator() {
    assert_eq!(base_name("/var/log/app.evtx"), "app.evtx");
    assert_eq!(base_name("./rel/x.evtx"), "x.evtx");
    assert_eq!(base_name("plain.evtx"), "plain.evtx");
    assert_eq!(base_name(""), "");
}

#[test]
fn find_first_locates_the_first_occurrence() {
    assert_eq!(find_first("host.domain.local", '.'), 4);
    assert_eq!(find_first("nodots", '.'), 6);
    assert_eq!(find_first("", '.'), 0);
    assert_eq!(find_first(".leading", '.'), 0);
}

#[test]
fn str_eq_compares_by_characters() {
    assert!(str_eq("app.evtx", "app.evtx"));
    assert!(!str_eq("app.evtx", "app.evtX"));
    assert!(!str_eq("short", "shorter"));
    assert!(str_eq("", ""));
}
