use https::text::{from_chars, substitute, to_chars};
use https::util::{
    classify, contains_byte, file_contains, html_response, join_segments, scan_chunk, try_url_path, uppercase_first, url_path,
    ChunkVerdict, ContentClassification, PORT_SCAN_HIGHEST, PORT_SCAN_LOWEST, SNIFF_CHUNK,
};

fn strings(items: &[&str]) -> Vec<String> {
    items.iter().map(|s| s.to_string()).collect()
}

fn replace(s: &str, pat: &str, to: &str) -> String {
    from_chars(&substitute(&to_chars(s), &to_chars(pat), &to_chars(to)))
}

#[test]
fn uppercase_first_capitalises_ascii() {
    assert_eq!(uppercase_first("abolish"), "Abolish".to_string());
}

#[test]
fn uppercase_first_of_nothing_is_nothing() {
    assert_eq!(uppercase_first(""), String::new());
}

#[test]
fn uppercase_first_keeps_the_rest() {
    assert_eq!(uppercase_first("aBc dEf"), "ABc dEf".to_string());
    assert_eq!(uppercase_first("Already"), "Already".to_string());
    assert_eq!(uppercase_first("1st"), "1st".to_string());
}

#[test]
fn uppercase_first_beyond_ascii() {
    assert_eq!(uppercase_first("élan"), "Élan".to_string());
    assert_eq!(uppercase_first("ßen"), "SSen".to_string());
    assert_eq!(uppercase_first("русский"), "Русский".to_string());
}

#[test]
fn html_response_fills_two_fields() {
    let page = html_response("<p>{0} and {1}</p>", strings(&["a", "b"]));
    assert_eq!(page, "<p>a and b</p>".to_string());
}

#[test]
fn html_response_fills_every_occurrence() {
    let page = html_response("{0}{1}{0}-{1}", strings(&["x", "yz"]));
    assert_eq!(page, "xyzx-yz".to_string());
}

#[test]
fn html_response_without_values_keeps_the_template() {
    assert_eq!(html_response("<p>plain</p>", Vec::new()), "<p>plain</p>".to_string());
    assert_eq!(html_response("", Vec::new()), String::new());
}

#[test]
fn html_response_leaves_what_is_no_placeholder() {
    assert_eq!(
        html_response("{0} {00} {x} { 0 } {} {0", strings(&["a"])),
        "a {00} {x} { 0 } {} {0".to_string()
    );
}

#[test]
fn html_response_with_two_digit_index() {
    let values = strings(&["0", "1", "2", "3", "4", "5", "6", "7", "8", "9", "ten"]);
    assert_eq!(html_response("{10}|{1}|{0}", values), "ten|1|0".to_string());
}

#[test]
fn html_response_replaces_index_after_index() {
    assert_eq!(html_response("{0}", strings(&["{1}", "x"])), "x".to_string());
    assert_eq!(html_response("{1}", strings(&["x", "{0}"])), "{0}".to_string());
}

#[test]
fn html_response_does_not_escape() {
    let page = html_response("<body>{0}</body>", strings(&["<p>Έλληνες & co</p>"]));
    assert_eq!(page, "<body><p>Έλληνες & co</p></body>".to_string());
}

#[test]
fn html_response_agrees_with_std_replace() {
    let template = "{0}{{1}} {2} {1}{0} }{0{ {3}";
    let values = strings(&["a{2}", "", "c{1}", "d"]);
    let mut expected = template.to_string();
    for (i, v) in values.iter().enumerate() {
        expected = expected.replace(&format!("{{{}}}", i), v);
    }
    assert_eq!(html_response(template, values), expected);
}

#[test]
fn substitute_takes_occurrences_from_the_left() {
    assert_eq!(replace("aaa", "aa", "b"), "ba".to_string());
    assert_eq!(replace("aaaa", "aa", "b"), "bb".to_string());
    assert_eq!(replace("abcabc", "bc", ""), "aa".to_string());
    assert_eq!(replace("abc", "abcd", "x"), "abc".to_string());
    assert_eq!(replace("", "a", "x"), String::new());
}

#[test]
fn substitute_with_empty_pattern_changes_nothing() {
    assert_eq!(replace("abc", "", "x"), "abc".to_string());
}

#[test]
fn chars_round_trip() {
    let s = "capitalism/русский/\u{1F600}";
    let chars = to_chars(s);
    assert_eq!(chars, s.chars().collect::<Vec<char>>());
    assert_eq!(from_chars(&chars), s.to_string());
}

#[test]
fn classify_zero_byte_is_binary() {
    assert_eq!(classify(b"\x00abc"), ContentClassification::Binary);
    assert_eq!(classify(b"abc\x00"), ContentClassification::Binary);
}

#[test]
fn classify_text() {
    assert_eq!(classify(b"hello world"), ContentClassification::Text);
}

#[test]
fn classify_empty_is_text() {
    assert_eq!(classify(b""), ContentClassification::Text);
}

#[test]
fn classify_finds_a_zero_beyond_the_first_chunk() {
    let mut content = vec![b'a'; 3 * SNIFF_CHUNK];
    assert_eq!(classify(&content), ContentClassification::Text);
    content[2 * SNIFF_CHUNK + 5] = 0;
    assert_eq!(classify(&content), ContentClassification::Binary);
}

#[test]
fn contains_byte_finds_any_byte() {
    assert!(contains_byte(b"abc", b'c'));
    assert!(!contains_byte(b"abc", b'd'));
    assert!(!contains_byte(b"", 0));
}

#[test]
fn scan_chunk_verdicts() {
    let mut buf = [b'x'; 8];
    assert_eq!(scan_chunk(&buf, 8, 0), ChunkVerdict::Continue);
    assert_eq!(scan_chunk(&buf, 5, 0), ChunkVerdict::Continue);
    assert_eq!(scan_chunk(&buf, 1, 0), ChunkVerdict::Continue);
    assert_eq!(scan_chunk(&buf, 0, 0), ChunkVerdict::Exhausted);
    buf[6] = 0;
    assert_eq!(scan_chunk(&buf, 8, 0), ChunkVerdict::Found);
    assert_eq!(scan_chunk(&buf, 7, 0), ChunkVerdict::Found);
    assert_eq!(scan_chunk(&buf, 6, 0), ChunkVerdict::Continue);
    assert_eq!(scan_chunk(&buf, 0, 0), ChunkVerdict::Exhausted);
    assert_eq!(scan_chunk(&[], 0, 0), ChunkVerdict::Exhausted);
}

#[test]
fn file_contains_reads_on_after_a_short_read() {
    let mut second = vec![b'b'; 5];
    second[3] = 0;
    let reads = vec![vec![b'a'; 10], second];
    assert!(file_contains(&reads, 0));
    assert!(file_contains(&reads, b'a'));
    assert!(file_contains(&reads, b'b'));
    assert!(!file_contains(&reads, b'c'));
}

#[test]
fn file_contains_stops_at_the_end_of_input() {
    assert!(!file_contains(&Vec::new(), 0));
    assert!(!file_contains(&vec![Vec::new()], 0));
    assert!(!file_contains(&vec![vec![1, 2, 3]], 0));
    assert!(file_contains(&vec![vec![1, 2, 3], vec![4], vec![0]], 0));
    assert!(!file_contains(&vec![vec![1, 2, 3], Vec::new(), vec![0]], 0));
}

#[test]
fn scan_constants() {
    assert_eq!(PORT_SCAN_LOWEST, 8000);
    assert_eq!(PORT_SCAN_HIGHEST, 9999);
    assert_eq!(SNIFF_CHUNK, 1024);
}

#[test]
fn join_segments_keeps_order_and_content() {
    assert_eq!(
        join_segments(&strings(&["capitalism", "русский", ""])),
        "capitalism/русский/".to_string()
    );
    assert_eq!(join_segments(&strings(&["a", "b", "c.txt"])), "a/b/c.txt".to_string());
}

#[test]
fn join_segments_edge_cases() {
    assert_eq!(join_segments(&Vec::new()), String::new());
    assert_eq!(join_segments(&strings(&["only"])), "only".to_string());
    assert_eq!(join_segments(&strings(&[""])), String::new());
    assert_eq!(join_segments(&strings(&["", ""])), String::new());
    assert_eq!(join_segments(&strings(&["a", ""])), "a/".to_string());
}

#[test]
fn url_path_of_a_parsed_url() {
    let url = iron::Url::parse("http://127.0.0.1:8000/capitalism/things/").unwrap();
    assert_eq!(url_path(&url), "capitalism/things/".to_string());
    let url = iron::Url::parse("http://localhost/x/y.txt?q=1").unwrap();
    assert_eq!(url_path(&url), "x/y.txt".to_string());
    let url = iron::Url::parse("http://localhost").unwrap();
    assert_eq!(url_path(&url), String::new());
}

#[test]
fn url_path_joins_what_the_url_holds() {
    let url = iron::Url::parse("http://127.0.0.1:8000/capitalism/русский/").unwrap();
    let expected = url.path().join("/");
    assert!(!expected.starts_with('/'));
    assert_eq!(url_path(&url), expected);
    assert!(!url_path(&url).starts_with('/'));
}

fn stream_has(content: &[u8], capacity: usize, short: usize, byte: u8) -> bool {
    let mut buf = vec![0xAAu8; capacity];
    let mut offset = 0;
    let mut turn = 0;
    loop {
        let limit = if turn % 2 == 0 { capacity } else { short.min(capacity) };
        let read = limit.min(content.len() - offset);
        buf[..read].copy_from_slice(&content[offset..offset + read]);
        offset += read;
        turn += 1;
        match scan_chunk(&buf, read, byte) {
            ChunkVerdict::Found => return true,
            ChunkVerdict::Exhausted => return false,
            ChunkVerdict::Continue => {}
        }
    }
}

#[test]
fn scanning_by_chunks_finds_what_the_content_holds() {
    let mut content: Vec<u8> = (0..40u8).map(|i| i + 1).collect();
    for capacity in [1usize, 3, 8, 39, 40, 41, 1024] {
        for short in [1usize, 2, 7, 1024] {
            assert!(!stream_has(&content, capacity, short, 0));
            assert!(stream_has(&content, capacity, short, 40));
            assert!(stream_has(&content, capacity, short, 1));
            assert!(!stream_has(&[], capacity, short, 0));
        }
    }
    content[24] = 0;
    for capacity in [1usize, 3, 8, 24, 25, 40, 1024] {
        for short in [1usize, 2, 7, 1024] {
            assert_eq!(stream_has(&content, capacity, short, 0), contains_byte(&content, 0));
            assert!(stream_has(&content, capacity, short, 0));
        }
    }
}

#[test]
fn joined_segments_can_be_read_back() {
    for segments in [
        strings(&["a", "b", "c"]),
        strings(&["a", "", ""]),
        strings(&["русский", "", "x y", "%2F"]),
        strings(&["one"]),
    ] {
        let path = join_segments(&segments);
        let back: Vec<String> = path.split('/').map(|s| s.to_string()).collect();
        assert_eq!(back, segments);
    }
}

#[test]
fn try_url_path_of_a_parsed_url() {
    let url = iron::Url::parse("http://127.0.0.1:8000/capitalism/things/").unwrap();
    assert_eq!(try_url_path(&url), Some("capitalism/things/".to_string()));
    let url = iron::Url::parse("https://example.org").unwrap();
    assert_eq!(try_url_path(&url), Some(String::new()));
}

#[test]
fn try_url_path_of_a_url_without_segments() {
    let mut url = iron::Url::parse("http://localhost/a/b").unwrap();
    let inner: &mut iron::url::Url = url.as_mut();
    *inner = iron::url::Url::parse("data:text/plain,Hello").unwrap();
    assert_eq!(try_url_path(&url), None);
}

#[test]
fn joined_path_has_no_separator_in_front() {
    for segments in [
        strings(&["a"]),
        strings(&["a", ""]),
        strings(&["русский", "b", "c"]),
        strings(&["", "etc", "passwd"]),
        strings(&["", "", "", "x"]),
        strings(&["", ""]),
        strings(&["/x", "y"]),
        strings(&["//"]),
    ] {
        assert!(!join_segments(&segments).starts_with('/'), "{:?}", segments);
    }
}

#[test]
fn leading_empty_segments_leave_no_separator() {
    assert_eq!(join_segments(&strings(&["", "etc", "passwd"])), "etc/passwd".to_string());
    assert_eq!(join_segments(&strings(&["", "etc"])), "etc".to_string());
    assert_eq!(join_segments(&strings(&["", "", "a", "", "b"])), "a//b".to_string());
    assert_eq!(join_segments(&strings(&["/x", "y"])), "x/y".to_string());
}

#[test]
fn url_path_of_a_path_with_empty_first_segments() {
    let url = iron::Url::parse("http://localhost//etc/passwd").unwrap();
    assert_eq!(url.path(), vec!["", "etc", "passwd"]);
    assert_eq!(url_path(&url), "etc/passwd".to_string());
    assert_eq!(try_url_path(&url), Some("etc/passwd".to_string()));
    let url = iron::Url::parse("http://localhost///").unwrap();
    assert_eq!(url_path(&url), String::new());
}
