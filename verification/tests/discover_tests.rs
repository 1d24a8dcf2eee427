use evtx_archiver::discover::{find_event_logs, ScanEntry};
use evtx_archiver::signature::evtx_signature;

const MAGIC: [u8; 7] = [0x45, 0x6C, 0x66, 0x46, 0x69, 0x6C, 0x65];

fn file(path: &str, head: &[u8]) -> ScanEntry {
    ScanEntry {
        path: path.to_string(),
        is_file: true,
        head: Some(head.to_vec()),
    }
}

#[test]
fn discovery_keeps_exactly_the_matching_regular_files() {
    let mut good_long = MAGIC.to_vec();
    good_long.extend_from_slice(&[0xAA, 0xBB]);
    let entries = vec![
        file("./in/a.evtx", &good_long),
        // extension says log, content says JPEG: skipped
        file("./in/fake.evtx", &[0xFF, 0xD8, 0xFF, 0xE0, 0x00, 0x10, 0x4A]),
        // extension says text, content says log: kept
        file("./in/notes.txt", &MAGIC),
        // a directory, even with matching bytes: skipped
        ScanEntry {
            path: "./in/subdir".to_string(),
            is_file: false,
            head: Some(MAGIC.to_vec()),
        },
        // unreadable entry: skipped, scan goes on
        ScanEntry {
            path: "./in/locked.evtx".to_string(),
            is_file: true,
            head: None,
        },
        file("./in/b.evtx", &MAGIC),
    ];
    let rule = evtx_signature();
    let found = find_event_logs(entries, &rule);
    assert_eq!(
        found,
        vec![
            "./in/a.evtx".to_string(),
            "./in/notes.txt".to_string(),
            "./in/b.evtx".to_string()
        ]
    );
}

#[test]
fn discovery_over_no_entries_finds_nothing() {
    let rule = evtx_signature();
    let found = find_event_logs(Vec::new(), &rule);
    assert!(found.is_empty());
}

#[test]
fn discovery_preserves_enumeration_order() {
    let entries = vec![
        file("./in/z.evtx", &MAGIC),
        file("./in/a.evtx", &MAGIC),
        file("./in/m.evtx", &MAGIC),
    ];
    let rule = evtx_signature();
    let found = find_event_logs(entries, &rule);
    assert_eq!(
        found,
        vec![
            "./in/z.evtx".to_string(),
            "./in/a.evtx".to_string(),
            "./in/m.evtx".to_string()
        ]
    );
}

#[test]
fn discovery_with_short_heads_finds_nothing() {
    let entries = vec![file("./in/tiny.evtx", &MAGIC[..6]), file("./in/empty.evtx", &[])];
    let rule = evtx_signature();
    let found = find_event_logs(entries, &rule);
    assert!(found.is_empty());
}
