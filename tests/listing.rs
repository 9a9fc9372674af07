use kill_process::classify::ApplicationType;
use kill_process::icons::IconParser;
use kill_process::listing::{accepts_segment, collect_records, matches_query, parse_line};
use kill_process::results::AlfredList;

const LISTING: &str = "  PID  %CPU ARGS\n    1   0.1 /sbin/launchd\n  321   2,5 /Applications/Safari.app/Contents/MacOS/Safari -psn_0_1\n  400   0.0 /usr/sbin/cupsd -l\n  512   1.0 /Applications/Safari.app/Contents/XPCServices/Safari Web Content.xpc/Contents/MacOS/Safari Web Content\n  600   0.0 /usr/local/bin/kill_process safari\n  700   0.0 /usr/bin/foo -safari\n";

#[test]
fn parses_a_listing_line() {
    let rec = parse_line("  321   2.5 /Applications/Safari.app/Contents/MacOS/Safari -psn_0_1  ").unwrap();
    assert_eq!(rec.pid, "321");
    assert_eq!(rec.cpu, "2.5");
    assert_eq!(rec.path, "/Applications/Safari.app/Contents/MacOS/Safari -psn_0_1");
}

#[test]
fn comma_separator_is_accepted() {
    let rec = parse_line("7 0,3 /usr/bin/top").unwrap();
    assert_eq!(rec.cpu, "0,3");
    assert_eq!(rec.path, "/usr/bin/top");
}

#[test]
fn lines_without_the_pattern_yield_nothing() {
    assert!(parse_line("  PID  %CPU ARGS").is_none());
    assert!(parse_line("").is_none());
    assert!(parse_line("12 5 /bin/sh").is_none());
    assert!(parse_line("12 0.5").is_none());
    assert!(parse_line("abc 1.0 /bin/sh").is_none());
    assert!(parse_line("\u{1F600} garbage \t\r").is_none());
}

#[test]
fn pattern_may_start_mid_line() {
    let rec = parse_line("x 12 3.25 rest here").unwrap();
    assert_eq!(rec.pid, "12");
    assert_eq!(rec.cpu, "3.25");
    assert_eq!(rec.path, "rest here");
}

#[test]
fn segment_must_contain_query() {
    assert!(accepts_segment("/applications/safari.app", "safari"));
    assert!(!accepts_segment("/usr/bin/foo", "safari"));
}

#[test]
fn query_as_flag_is_excluded() {
    assert!(!accepts_segment("/usr/bin/foo-safari", "safari"));
    assert!(!matches_query("/usr/bin/Foo-Safari --x", "safari"));
}

#[test]
fn self_is_excluded() {
    assert!(!accepts_segment("/usr/local/bin/kill_process", "bin"));
}

#[test]
fn query_is_compared_in_lowercase() {
    assert!(matches_query("/Applications/SAFARI.app/Contents/MacOS/Safari", "safari"));
    assert!(!matches_query("/usr/bin/foo -safari", "safari"));
}

#[test]
fn collects_matching_records_in_order() {
    let recs = collect_records(LISTING, "SaFaRi");
    let pids: Vec<&str> = recs.iter().map(|r| r.pid.as_str()).collect();
    assert_eq!(pids, vec!["321", "512"]);
    assert_eq!(recs[0].cpu, "2,5");
}

#[test]
fn empty_query_keeps_every_parsed_line_but_self() {
    let recs = collect_records(LISTING, "");
    let pids: Vec<&str> = recs.iter().map(|r| r.pid.as_str()).collect();
    assert_eq!(pids, vec!["1", "321", "400", "512", "700"]);
}

#[test]
fn last_line_without_newline_is_read() {
    let recs = collect_records("1 0.0 /bin/a\n2 0.0 /bin/b", "bin");
    assert_eq!(recs.len(), 2);
    assert_eq!(recs[1].path, "/bin/b");
}

#[test]
fn no_query_gives_empty_list() {
    let list = AlfredList::new();
    assert!(list.items.is_empty());
}

#[test]
fn ordering_groups_types_stably() {
    let listing = "1 0.0 /usr/bin/a\n2 0.0 /Applications/B.app/Contents/MacOS/B\n3 0.0 /System/Library/C.app/Contents/MacOS/C\n4 0.0 /usr/bin/d\n5 0.0 /Applications/E.app/Contents/MacOS/E\n6 0.0 /Applications/F.app/Contents/Frameworks/G.app/G\n";
    let recs = collect_records(listing, "/");
    let mut icons = IconParser::new();
    let mut list = AlfredList::new();
    for rec in &recs {
        assert!(rec.manifest_to_read(&icons).is_some() || rec.path.starts_with("/usr"));
        list.add(rec, &mut icons, None);
    }
    let list = list.ordered();
    let uids: Vec<&str> = list.items.iter().map(|a| a.uid.as_str()).collect();
    assert_eq!(uids, vec!["2", "5", "3", "6", "1", "4"]);
    let types: Vec<ApplicationType> = list.items.iter().map(|a| a.app_type).collect();
    assert_eq!(
        types,
        vec![
            ApplicationType::Application,
            ApplicationType::Application,
            ApplicationType::Service,
            ApplicationType::Service,
            ApplicationType::Executable,
            ApplicationType::Executable
        ]
    );
}
