use uniclip_capture::files::{DirectoryEntry, FilePath};
use uniclip_capture::sorting::sort;
use uniclip_capture::text::{begins_with, eq_ignoring_ascii_case, split_lines};
use uniclip_capture::views::{list_of, queue_of};

fn entry(raw_name: &[u8], tag: u8) -> DirectoryEntry {
    DirectoryEntry {
        raw_name: raw_name.to_vec(),
        name: None,
        path: FilePath { raw: vec![tag], file_name: None },
    }
}

#[test]
fn entries_are_sorted_by_their_bytes_and_ties_keep_their_order() {
    let sorted = sort(vec![
        entry(b"b", 1),
        entry(b"", 2),
        entry(b"ba", 3),
        entry(b"a\xff", 4),
        entry(b"b", 5),
        entry(b"A", 6),
    ]);
    let tags: Vec<u8> = sorted.iter().map(|e| e.path.raw[0]).collect();
    assert_eq!(tags, vec![2, 6, 4, 1, 5, 3]);
}

#[test]
fn sorting_agrees_with_the_standard_library() {
    let names: Vec<Vec<u8>> = (0u32..200)
        .map(|i| ((i * 7919) % 97).to_string().into_bytes())
        .collect();
    let sorted = sort(names.iter().map(|name| entry(name, 0)).collect());
    let mut expected = names.clone();
    expected.sort();
    let got: Vec<Vec<u8>> = sorted.into_iter().map(|e| e.raw_name).collect();
    assert_eq!(got, expected);
}

#[test]
fn lines_agree_with_the_standard_library() {
    for text in ["", "\n", "a", "a\n", "a\r\nb", "a\r", "\r\n\r\n", "a\n\nb\n", "\u{e9}\r\r\n#"] {
        let expected: Vec<&str> = text.lines().collect();
        assert_eq!(split_lines(text), expected, "{text:?}");
    }
}

#[test]
fn case_and_prefixes_agree_with_the_standard_library() {
    let texts = ["", "a", "A", "aB", "Ab", "abc", "\u{e9}", "\u{c9}", "[", "{", "@", "`"];
    for a in texts {
        for b in texts {
            assert_eq!(eq_ignoring_ascii_case(a, b), a.eq_ignore_ascii_case(b), "{a} {b}");
            assert_eq!(begins_with(a, b), a.starts_with(b), "{a} {b}");
        }
    }
}

#[test]
fn queues_and_lists_keep_their_order() {
    assert_eq!(list_of(queue_of(vec![3, 1, 2])), vec![3, 1, 2]);
}
