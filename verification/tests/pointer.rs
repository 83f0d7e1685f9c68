use lfs_fetch::lines::line_spans;
use lfs_fetch::number::parse_usize_at;
use lfs_fetch::pointer::{keep_pointer, LfsPointer, PointerError};
use std::path::PathBuf;

const VERSION: &str = "version https://git-lfs.github.com/spec/v1";

fn pointer_text(id: &str, size: &str) -> String {
    format!("{}\noid sha256:{}\nsize {}\n", VERSION, id, size)
}

fn parse(content: &str) -> Result<LfsPointer, PointerError> {
    LfsPointer::parse(PathBuf::from("data/model.bin"), content)
}

fn lines_by_spans(content: &str) -> Vec<String> {
    let text: Vec<char> = content.chars().collect();
    let mut out = Vec::new();
    for (from, to) in line_spans(&text) {
        out.push(text[from..to].iter().collect::<String>());
    }
    out
}

fn lines_by_std(content: &str) -> Vec<String> {
    let mut out = Vec::new();
    for line in content.lines() {
        out.push(String::from(line));
    }
    out
}

fn number(text: &str) -> Option<usize> {
    let chars: Vec<char> = text.chars().collect();
    parse_usize_at(&chars, 0, chars.len())
}

#[test]
fn usual_pointer_is_read() {
    let id = "4d7a214614ab2935c943f9e0ff69d22eadbb8f32b1258daaa5e2ca24d17e2393";
    let pointer = parse(&pointer_text(id, "12345")).unwrap();
    assert_eq!(pointer.sha256, id);
    assert_eq!(pointer.size, 12345);
    assert_eq!(pointer.filename, PathBuf::from("data/model.bin"));
}

#[test]
fn pointer_is_read_for_several_identifiers_and_sizes() {
    let ids = ["abc", "", "not hex at all", "a\rb", "oid sha256:abc", "é→ü"];
    let sizes = [("0", 0usize), ("7", 7), ("+7", 7), ("007", 7), ("200", 200), ("4294967295", 4294967295)];
    for id in ids {
        for (text, value) in sizes {
            let pointer = parse(&pointer_text(id, text)).unwrap();
            assert_eq!(pointer.sha256, id);
            assert_eq!(pointer.size, value);
        }
    }
}

#[test]
fn last_line_needs_no_line_ending() {
    let content = format!("{}\noid sha256:abc\nsize 5", VERSION);
    let pointer = parse(&content).unwrap();
    assert_eq!(pointer.sha256, "abc");
    assert_eq!(pointer.size, 5);
}

#[test]
fn carriage_return_line_feed_ends_a_line() {
    let content = format!("{}\r\noid sha256:abc\r\nsize 5\r\n", VERSION);
    let pointer = parse(&content).unwrap();
    assert_eq!(pointer.sha256, "abc");
    assert_eq!(pointer.size, 5);
}

#[test]
fn carriage_return_at_the_end_of_an_unended_last_line_stays() {
    let content = format!("{}\noid sha256:abc\nsize 5\r", VERSION);
    assert_eq!(parse(&content), Err(PointerError::InvalidSize));
}

#[test]
fn identifier_that_ends_with_a_carriage_return_loses_it() {
    let pointer = parse(&pointer_text("abc\r", "5")).unwrap();
    assert_eq!(pointer.sha256, "abc");
}

#[test]
fn largest_size_is_read_and_the_next_is_not() {
    let largest = format!("{}", usize::MAX);
    assert_eq!(parse(&pointer_text("abc", &largest)).unwrap().size, usize::MAX);
    let mut beyond = largest.clone();
    beyond.push('0');
    assert_eq!(parse(&pointer_text("abc", &beyond)), Err(PointerError::InvalidSize));
    assert_eq!(
        parse(&pointer_text("abc", "18446744073709551616")),
        Err(PointerError::InvalidSize)
    );
}

#[test]
fn wrong_number_of_lines_is_refused() {
    assert_eq!(parse(""), Err(PointerError::LineCount));
    assert_eq!(parse("\n"), Err(PointerError::LineCount));
    assert_eq!(parse(VERSION), Err(PointerError::LineCount));
    assert_eq!(
        parse(&format!("{}\noid sha256:abc\n", VERSION)),
        Err(PointerError::LineCount)
    );
    assert_eq!(
        parse(&format!("{}\n", pointer_text("abc", "5"))),
        Err(PointerError::LineCount)
    );
    assert_eq!(
        parse(&format!("\n{}", pointer_text("abc", "5"))),
        Err(PointerError::LineCount)
    );
    assert_eq!(parse(&pointer_text("a\nb", "5")), Err(PointerError::LineCount));
}

#[test]
fn wrong_format_line_is_refused() {
    assert_eq!(
        parse("version https://git-lfs.github.com/spec/v2\noid sha256:abc\nsize 5\n"),
        Err(PointerError::Version)
    );
    assert_eq!(
        parse(&format!(" {}\noid sha256:abc\nsize 5\n", VERSION)),
        Err(PointerError::Version)
    );
    assert_eq!(
        parse(&format!("{} \noid sha256:abc\nsize 5\n", VERSION)),
        Err(PointerError::Version)
    );
    assert_eq!(parse("a\nb\nc\n"), Err(PointerError::Version));
}

#[test]
fn wrong_identifier_prefix_is_refused() {
    assert_eq!(
        parse(&format!("{}\noid sha1:abc\nsize 5\n", VERSION)),
        Err(PointerError::InvalidOid)
    );
    assert_eq!(
        parse(&format!("{}\n oid sha256:abc\nsize 5\n", VERSION)),
        Err(PointerError::InvalidOid)
    );
    assert_eq!(
        parse(&format!("{}\noid sha256\nsize 5\n", VERSION)),
        Err(PointerError::InvalidOid)
    );
    assert_eq!(
        parse(&format!("{}\n\nsize 5\n", VERSION)),
        Err(PointerError::InvalidOid)
    );
}

#[test]
fn wrong_size_line_is_refused() {
    for size_line in [
        "size",
        "size ",
        "size  5",
        "size 5 ",
        "size -5",
        "size +",
        "size ++5",
        "size 5.0",
        "size 0x10",
        "size five",
        "size ٥",
        "Size 5",
        " size 5",
        "",
    ] {
        assert_eq!(
            parse(&format!("{}\noid sha256:abc\n{}\n", VERSION, size_line)),
            Err(PointerError::InvalidSize),
            "{:?}",
            size_line
        );
    }
}

#[test]
fn first_broken_rule_is_reported() {
    assert_eq!(parse("x\ny\n"), Err(PointerError::LineCount));
    assert_eq!(parse("x\ny\nz\n"), Err(PointerError::Version));
    assert_eq!(
        parse(&format!("{}\ny\nz\n", VERSION)),
        Err(PointerError::InvalidOid)
    );
    assert_eq!(
        parse(&format!("{}\noid sha256:y\nz\n", VERSION)),
        Err(PointerError::InvalidSize)
    );
}

#[test]
fn lines_are_split_as_the_standard_library_splits_them() {
    for content in [
        "",
        "\n",
        "\r\n",
        "\r",
        "a",
        "a\n",
        "a\r\n",
        "a\r",
        "a\n\n",
        "\n\na",
        "a\nb",
        "a\nb\n",
        "a\r\nb\r\nc",
        "a\r\r\nb",
        "a\rb\nc",
        "foo\nbar\n\r\nbaz\r",
        "one\ntwo\nthree\nfour\n",
        "é\nü\r\n→",
    ] {
        assert_eq!(lines_by_spans(content), lines_by_std(content), "{:?}", content);
    }
}

#[test]
fn numbers_are_read_as_the_standard_library_reads_them() {
    for text in [
        "", "0", "00", "1", "+1", "-1", "+", "-", "+-1", "++1", "1+", "12a", "a12", " 1", "1 ",
        "200", "0200", "18446744073709551615", "18446744073709551616", "99999999999999999999",
        "000000000000000000000000000000000007", "٣", "1_000",
    ] {
        assert_eq!(number(text), text.parse::<usize>().ok(), "{:?}", text);
    }
}

#[test]
fn number_is_read_from_the_given_range_only() {
    let chars: Vec<char> = "ab+42cd".chars().collect();
    assert_eq!(parse_usize_at(&chars, 2, 5), Some(42));
    assert_eq!(parse_usize_at(&chars, 3, 5), Some(42));
    assert_eq!(parse_usize_at(&chars, 3, 4), Some(4));
    assert_eq!(parse_usize_at(&chars, 3, 3), None);
    assert_eq!(parse_usize_at(&chars, 1, 5), None);
    assert_eq!(parse_usize_at(&chars, 2, 6), None);
}

#[test]
fn pointer_files_are_kept_and_others_passed_over() {
    let mut found: Vec<LfsPointer> = Vec::new();
    assert!(keep_pointer(&mut found, PathBuf::from("a.bin"), &pointer_text("aa", "1")));
    assert!(!keep_pointer(&mut found, PathBuf::from("notes.txt"), "just some text\n"));
    assert!(!keep_pointer(&mut found, PathBuf::from("b.bin"), &pointer_text("bb", "x")));
    assert!(keep_pointer(&mut found, PathBuf::from("c.bin"), &pointer_text("cc", "3")));
    assert_eq!(found.len(), 2);
    assert_eq!(
        found[0],
        LfsPointer { sha256: String::from("aa"), size: 1, filename: PathBuf::from("a.bin") }
    );
    assert_eq!(
        found[1],
        LfsPointer { sha256: String::from("cc"), size: 3, filename: PathBuf::from("c.bin") }
    );
}
