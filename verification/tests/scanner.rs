use dvpn::bytes::{find_byte, find_line_start, COLON, CR, LF};
use dvpn::host::{find_host, host_part, is_host, to_lower, HostScan};
use dvpn::scanner::{Field, HeaderScanner, Scan, Span};
use dvpn::text::is_text;
use dvpn::Error;

fn scanner_on(bytes: &[u8]) -> HeaderScanner {
    let mut scanner = HeaderScanner::new();
    scanner.feed(bytes);
    scanner
}

#[test]
fn find_byte_gives_first_occurrence() {
    let buf = b"a:b:c";
    assert_eq!(find_byte(buf, 0, COLON), Some(1));
    assert_eq!(find_byte(buf, 1, COLON), Some(1));
    assert_eq!(find_byte(buf, 2, COLON), Some(3));
    assert_eq!(find_byte(buf, 4, COLON), None);
    assert_eq!(find_byte(buf, 5, COLON), None);
    assert_eq!(find_byte(buf, 9, COLON), None);
    assert_eq!(find_byte(b"", 0, CR), None);
}

#[test]
fn find_line_start_gives_last_line() {
    let buf = b"one\ntwo\nthree";
    assert_eq!(find_line_start(buf, 0, 13), 8);
    assert_eq!(find_line_start(buf, 0, 8), 8);
    assert_eq!(find_line_start(buf, 0, 7), 4);
    assert_eq!(find_line_start(buf, 0, 3), 0);
    assert_eq!(find_line_start(buf, 5, 7), 5);
    assert_eq!(find_line_start(buf, 2, 2), 2);
    assert_eq!(buf[3], LF);
}

#[test]
fn lower_case_of_bytes() {
    assert_eq!(to_lower(b'A'), b'a');
    assert_eq!(to_lower(b'Z'), b'z');
    assert_eq!(to_lower(b'a'), b'a');
    assert_eq!(to_lower(b'@'), b'@');
    assert_eq!(to_lower(b'['), b'[');
    assert_eq!(to_lower(0xc4), 0xc4);
}

#[test]
fn host_name_in_any_case() {
    assert!(is_host(b"Host"));
    assert!(is_host(b"HOST"));
    assert!(is_host(b"host"));
    assert!(is_host(b"hOsT"));
    assert!(!is_host(b"Hos"));
    assert!(!is_host(b"Hosts"));
    assert!(!is_host(b" Host"));
    assert!(!is_host(b"Hast"));
    assert!(!is_host(b""));
    assert!(!is_host(b"(OST"));
}

#[test]
fn host_part_stops_at_first_colon() {
    assert_eq!(host_part(b"example.com:8443"), b"example.com");
    assert_eq!(host_part(b"example.com"), b"example.com");
    assert_eq!(host_part(b"a:b:c"), b"a");
    assert_eq!(host_part(b":443"), b"");
    assert_eq!(host_part(b""), b"");
}

#[test]
fn text_is_utf8() {
    assert!(is_text(b"example.com"));
    assert!(is_text("b\u{fc}cher".as_bytes()));
    assert!(is_text(b""));
    assert!(!is_text(&[0xff, 0xfe]));
    assert!(!is_text(&[b'a', 0xc3]));
}

#[test]
fn new_scanner_is_empty() {
    let mut scanner = HeaderScanner::new();
    assert_eq!(scanner.len(), 0);
    assert_eq!(scanner.position(), 0);
    assert_eq!(scanner.consumed(), b"");
    assert_eq!(scanner.pending(), b"");
    assert!(!scanner.in_field());
    assert_eq!(scanner.next_field(), Scan::NeedMoreData);
}

#[test]
fn next_field_gives_name_and_value() {
    let mut scanner = scanner_on(b"Accept: */*\r\nHost: example.com\r\n");
    let first = scanner.next_field();
    assert_eq!(
        first,
        Scan::Field(Field { name: Span { start: 0, end: 6 }, value: Span { start: 8, end: 11 } })
    );
    assert_eq!(scanner.position(), 13);
    assert_eq!(scanner.consumed(), b"Accept: */*\r\n");
    assert_eq!(scanner.pending(), b"Host: example.com\r\n");
    match scanner.next_field() {
        Scan::Field(field) => {
            assert_eq!(scanner.bytes(field.name), b"Host");
            assert_eq!(scanner.bytes(field.value), b"example.com");
        }
        other => panic!("no field: {:?}", other),
    }
    assert_eq!(scanner.position(), 32);
    assert_eq!(scanner.pending(), b"");
    assert_eq!(scanner.next_field(), Scan::NeedMoreData);
    assert_eq!(scanner.position(), 32);
}

#[test]
fn next_field_needs_all_three_delimiters() {
    for part in [&b"Host"[..], b"Host:", b"Host: example.com", b"Host: example.com\r"] {
        let mut scanner = scanner_on(part);
        assert_eq!(scanner.next_field(), Scan::NeedMoreData);
        assert_eq!(scanner.position(), 0);
        assert_eq!(scanner.len(), part.len());
    }
}

#[test]
fn next_field_goes_on_when_fed() {
    let mut scanner = scanner_on(b"Ho");
    assert_eq!(scanner.next_field(), Scan::NeedMoreData);
    scanner.feed(b"st: exam");
    assert_eq!(scanner.next_field(), Scan::NeedMoreData);
    assert!(scanner.in_field());
    scanner.feed(b"ple.com\r");
    assert_eq!(scanner.next_field(), Scan::NeedMoreData);
    scanner.feed(b"\nrest");
    match scanner.next_field() {
        Scan::Field(field) => {
            assert_eq!(scanner.bytes(field.name), b"Host");
            assert_eq!(scanner.bytes(field.value), b"example.com");
        }
        other => panic!("no field: {:?}", other),
    }
    assert_eq!(scanner.consumed(), b"Host: example.com\r\n");
    assert_eq!(scanner.pending(), b"rest");
    assert!(!scanner.in_field());
}

#[test]
fn lines_without_colon_are_passed_over_with_the_field() {
    let mut scanner = scanner_on(b"GET / HTTP/1.1\r\nHost: example.com\r\n\r\n");
    match scanner.next_field() {
        Scan::Field(field) => {
            assert_eq!(field.name, Span { start: 16, end: 20 });
            assert_eq!(scanner.bytes(field.name), b"Host");
            assert_eq!(scanner.bytes(field.value), b"example.com");
        }
        other => panic!("no field: {:?}", other),
    }
    assert_eq!(scanner.consumed(), b"GET / HTTP/1.1\r\nHost: example.com\r\n");
    assert_eq!(scanner.pending(), b"\r\n");
}

#[test]
fn value_begins_behind_the_colon_and_its_spaces() {
    let mut scanner = scanner_on(b"A:bc\r\nB:\r\nC: \r\nD:\tx\r\nE:   x y \r\nF: \tz\r\n");
    let mut values: Vec<Vec<u8>> = Vec::new();
    while let Scan::Field(field) = scanner.next_field() {
        values.push(scanner.bytes(field.value).to_vec());
    }
    assert_eq!(
        values,
        vec![
            b"bc".to_vec(),
            b"".to_vec(),
            b"".to_vec(),
            b"\tx".to_vec(),
            b"x y ".to_vec(),
            b"\tz".to_vec(),
        ]
    );
    assert_eq!(scanner.pending(), b"");
}

#[test]
fn value_without_space_keeps_its_first_byte() {
    let mut scanner = scanner_on(b"Host:a.b\r\n");
    assert_eq!(
        scanner.next_field(),
        Scan::Field(Field { name: Span { start: 0, end: 4 }, value: Span { start: 5, end: 8 } })
    );
    let mut scanner = scanner_on("X:\u{e9}\r\n".as_bytes());
    match scanner.next_field() {
        Scan::Field(field) => assert_eq!(scanner.bytes(field.value), "\u{e9}".as_bytes()),
        other => panic!("no field: {:?}", other),
    }
}

#[test]
fn byte_at_once_behind_the_colon_that_is_not_text_is_an_error() {
    let mut scanner = scanner_on(&[b'X', b':', 0xff, b'\r', b'\n']);
    assert_eq!(scanner.next_field(), Scan::Error(Error::NonText));
    assert_eq!(scanner.position(), 0);
    let mut scanner = scanner_on(&[b'X', b':', b' ', b' ', 0xff, b'\r', b'\n']);
    assert_eq!(scanner.next_field(), Scan::Error(Error::NonText));
}

#[test]
fn find_host_gives_the_host_with_any_number_of_spaces() {
    for spaces in ["", " ", "  ", "     "] {
        for name in ["Host", "HOST", "host", "hOsT"] {
            let mut scanner = scanner_on(format!("{}:{}a.b:8443\r\n", name, spaces).as_bytes());
            assert_eq!(find_host(&mut scanner), HostScan::Found("a.b".to_string()));
            let mut scanner = scanner_on(format!("{}:{}example.com\r\n", name, spaces).as_bytes());
            assert_eq!(find_host(&mut scanner), HostScan::Found("example.com".to_string()));
        }
    }
}

#[test]
fn bytes_between_carriage_return_and_line_feed_are_passed_over() {
    let mut scanner = scanner_on(b"A: b\rjunk\nHost: h\r\n");
    match scanner.next_field() {
        Scan::Field(field) => assert_eq!(scanner.bytes(field.value), b"b"),
        other => panic!("no field: {:?}", other),
    }
    assert_eq!(scanner.position(), 10);
}

#[test]
fn name_that_is_not_text_is_an_error() {
    let mut scanner = scanner_on(&[0xff, b'x', b':', b' ', b'v', b'\r', b'\n']);
    assert_eq!(scanner.next_field(), Scan::Error(Error::NonText));
    assert_eq!(scanner.position(), 0);
    assert_eq!(scanner.next_field(), Scan::Error(Error::NonText));
}

#[test]
fn value_that_is_not_text_is_an_error() {
    let mut scanner = scanner_on(&[b'n', b':', b' ', 0xc3, 0x28, b'\r', b'\n']);
    assert_eq!(scanner.next_field(), Scan::Error(Error::NonText));
    assert_eq!(scanner.position(), 0);
}

#[test]
fn bytes_before_the_line_of_the_name_need_not_be_text() {
    let mut scanner = scanner_on(&[0xff, b'\n', b'n', b':', b' ', b'v', b'\r', b'\n']);
    match scanner.next_field() {
        Scan::Field(field) => {
            assert_eq!(scanner.bytes(field.name), b"n");
            assert_eq!(scanner.bytes(field.value), b"v");
        }
        other => panic!("no field: {:?}", other),
    }
}

#[test]
fn find_host_extracts_host_in_any_case() {
    for name in ["Host", "HOST", "host", "hOST"] {
        let mut scanner = scanner_on(format!("{}: example.com\r\n", name).as_bytes());
        assert_eq!(find_host(&mut scanner), HostScan::Found("example.com".to_string()));
    }
}

#[test]
fn find_host_strips_port() {
    let mut scanner = scanner_on(b"Host: example.com:8443\r\n");
    assert_eq!(find_host(&mut scanner), HostScan::Found("example.com".to_string()));
    assert_eq!(scanner.consumed(), b"Host: example.com:8443\r\n");
}

#[test]
fn find_host_passes_other_fields_and_keeps_them() {
    let block = b"User-Agent: curl/8.0\r\nAccept: */*\r\nX-Hosts: no\r\nHost: example.org\r\nAfter: x\r\n";
    let mut scanner = scanner_on(block);
    assert_eq!(find_host(&mut scanner), HostScan::Found("example.org".to_string()));
    assert_eq!(
        scanner.consumed(),
        b"User-Agent: curl/8.0\r\nAccept: */*\r\nX-Hosts: no\r\nHost: example.org\r\n"
    );
    assert_eq!(scanner.pending(), b"After: x\r\n");
}

#[test]
fn find_host_takes_the_first_host_field() {
    let mut scanner = scanner_on(b"Host: first.example\r\nHost: second.example\r\n");
    assert_eq!(find_host(&mut scanner), HostScan::Found("first.example".to_string()));
    assert_eq!(scanner.position(), 21);
}

#[test]
fn find_host_needs_more_data_and_keeps_its_place() {
    let mut scanner = scanner_on(b"Accept: */*\r\nHo");
    assert_eq!(find_host(&mut scanner), HostScan::NeedMoreData);
    assert_eq!(scanner.position(), 13);
    scanner.feed(b"st: example.com\r\n");
    assert_eq!(find_host(&mut scanner), HostScan::Found("example.com".to_string()));
    assert_eq!(scanner.position(), 32);
}

#[test]
fn find_host_is_the_same_however_the_stream_is_cut() {
    let block = b"GET / HTTP/1.1\r\nAccept: */*\r\nHost: example.com:80\r\n\r\n";
    for cut in 0..block.len() {
        let mut scanner = scanner_on(&block[..cut]);
        let early = find_host(&mut scanner);
        if early == HostScan::NeedMoreData {
            scanner.feed(&block[cut..]);
            assert_eq!(find_host(&mut scanner), HostScan::Found("example.com".to_string()));
        } else {
            assert_eq!(early, HostScan::Found("example.com".to_string()));
        }
        assert_eq!(scanner.position(), 51);
    }
}

#[test]
fn find_host_fails_on_a_field_that_is_not_text() {
    let mut bytes = b"Accept: */*\r\nX: ".to_vec();
    bytes.extend_from_slice(&[0xff, b'\r', b'\n']);
    bytes.extend_from_slice(b"Host: example.com\r\n");
    let mut scanner = scanner_on(&bytes);
    assert_eq!(find_host(&mut scanner), HostScan::Error(Error::NonText));
    assert_eq!(scanner.position(), 13);
}

#[test]
fn find_host_gives_text_beyond_ascii() {
    let mut scanner = scanner_on("Host: b\u{fc}cher.example:443\r\n".as_bytes());
    assert_eq!(find_host(&mut scanner), HostScan::Found("b\u{fc}cher.example".to_string()));
}

#[test]
fn find_host_gives_empty_host_as_it_is() {
    let mut scanner = scanner_on(b"Host: :8080\r\n");
    assert_eq!(find_host(&mut scanner), HostScan::Found(String::new()));
    let mut scanner = scanner_on(b"Host:\r\n");
    assert_eq!(find_host(&mut scanner), HostScan::Found(String::new()));
}
