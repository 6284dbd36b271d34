use fanwatch::codec::{EventMask, FAN_ACCESS, FAN_CREATE, FAN_MODIFY, FAN_OPEN, RECOGNIZED};
use fanwatch::event::{
    decode_event, format_line, lookups, process_event, DecodedEvent, Lookups, RawEvent, CODE_WIDTH,
};

fn event(bits: u64, pid: i32, fd: Option<i32>) -> RawEvent {
    RawEvent { mask: EventMask { bits }, pid, fd }
}

fn shown(name: &str, pid: i32, code: &str, path: &str) -> DecodedEvent {
    DecodedEvent {
        process_name: name.to_string(),
        pid,
        code: code.to_string(),
        path: path.to_string(),
    }
}

#[test]
fn open_and_access_by_cat_is_one_line() {
    let ev = event(FAN_OPEN | FAN_ACCESS, 1234, Some(5));
    let line = process_event(&ev, Some("cat\n"), Some("/home/u/file.txt"));
    assert_eq!(line, Some("cat(1234): OR  /home/u/file.txt".to_string()));
}

#[test]
fn an_event_without_descriptor_has_no_line() {
    let ev = event(FAN_OPEN | FAN_ACCESS, 1234, None);
    assert_eq!(process_event(&ev, Some("cat\n"), Some("/home/u/file.txt")), None);
    assert_eq!(process_event(&ev, None, None), None);
    assert_eq!(decode_event(&ev, Some("cat\n"), None), None);
    assert_eq!(process_event(&event(0, 0, None), None, None), None);
}

#[test]
fn every_event_with_a_descriptor_has_a_line() {
    for bits in [0u64, FAN_OPEN, RECOGNIZED, u64::MAX] {
        for pid in [-1, 0, 1, 99999] {
            for fd in [0, 3, 1000] {
                let ev = event(bits, pid, Some(fd));
                assert!(process_event(&ev, None, None).is_some());
                assert!(process_event(&ev, Some("x"), Some("/y")).is_some());
            }
        }
    }
}

#[test]
fn failed_lookups_show_the_stand_ins() {
    let ev = event(FAN_OPEN, 42, Some(9));
    assert_eq!(process_event(&ev, None, None), Some("unknown(42): O   [unknown]".to_string()));
    assert_eq!(process_event(&ev, Some("sh\n"), None), Some("sh(42): O   [unknown]".to_string()));
    assert_eq!(process_event(&ev, None, Some("/etc/passwd")), Some("unknown(42): O   /etc/passwd".to_string()));
}

#[test]
fn a_process_id_that_is_not_positive_is_shown_as_unknown() {
    let ev = event(FAN_ACCESS, 0, Some(4));
    assert_eq!(process_event(&ev, Some("cat\n"), Some("/f")), Some("unknown(0): R   /f".to_string()));
    let ev = event(FAN_ACCESS, -7, Some(4));
    assert_eq!(process_event(&ev, Some("cat\n"), Some("/f")), Some("unknown(-7): R   /f".to_string()));
}

#[test]
fn decoding_keeps_the_parts_apart() {
    let ev = event(FAN_OPEN | FAN_MODIFY | FAN_CREATE, 321, Some(11));
    let d = decode_event(&ev, Some(" vim \n"), Some("/tmp/x")).unwrap();
    assert_eq!(d.process_name, "vim");
    assert_eq!(d.pid, 321);
    assert_eq!(d.code, "OW+");
    assert_eq!(d.path, "/tmp/x");
    assert_eq!(d.clone(), d);
}

#[test]
fn the_code_is_padded_to_three_characters() {
    assert_eq!(CODE_WIDTH, 3);
    assert_eq!(format_line(&shown("p", 1, "?", "/f")), "p(1): ?   /f");
    assert_eq!(format_line(&shown("p", 1, "OR", "/f")), "p(1): OR  /f");
    assert_eq!(format_line(&shown("p", 1, "ORW", "/f")), "p(1): ORW /f");
    assert_eq!(format_line(&shown("p", 1, "ORWC", "/f")), "p(1): ORWC /f");
    assert_eq!(format_line(&shown("p", 1, "ORWCc+D<>", "/f")), "p(1): ORWCc+D<> /f");
    assert_eq!(format_line(&shown("p", 1, "", "/f")), "p(1):     /f");
}

#[test]
fn padding_counts_characters_not_bytes() {
    assert_eq!(format_line(&shown("p", 1, "é", "/f")), "p(1): é   /f");
    assert_eq!(format_line(&shown("p", 1, "日本", "/f")), "p(1): 日本  /f");
}

#[test]
fn the_line_layout_is_that_of_the_format_string() {
    let cases = [
        ("cat", 1234, "OR", "/home/u/file.txt"),
        ("", 0, "", ""),
        ("a b", -5, "ORWCc", "/with space/and (parens): x"),
        ("unknown", i32::MAX, "?", "[unknown]"),
        ("é", i32::MIN, "+", "/日本"),
    ];
    for (name, pid, code, path) in cases {
        let want = format!("{}({}): {:<3} {}", name, pid, code, path);
        assert_eq!(format_line(&shown(name, pid, code, path)), want);
    }
}

#[test]
fn lookups_are_made_only_where_there_is_something_to_look_up() {
    assert_eq!(
        lookups(&event(FAN_OPEN, 1234, Some(5))),
        Lookups {
            comm: Some("/proc/1234/comm".to_string()),
            link: Some("/proc/self/fd/5".to_string()),
        }
    );
    assert_eq!(
        lookups(&event(FAN_OPEN, 0, Some(5))),
        Lookups { comm: None, link: Some("/proc/self/fd/5".to_string()) }
    );
    assert_eq!(
        lookups(&event(FAN_OPEN, 77, None)),
        Lookups { comm: Some("/proc/77/comm".to_string()), link: None }
    );
    assert_eq!(lookups(&event(FAN_OPEN, -1, None)), Lookups { comm: None, link: None });
}
