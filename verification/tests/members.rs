use firmware_extractor::decimal::{is_digit_char, numeral_le, push_decimal};
use firmware_extractor::member::{
    base_name, belongs_to_partition, chunk_index_le, find_digits_start, numbered_chunk,
};
use firmware_extractor::path::{file_name, join, parent, sibling};
use firmware_extractor::text::{
    chars_of, contains, ends_with, find_after_last, matches_at, same_text, starts_with,
};

fn text(s: &str) -> Vec<char> {
    s.chars().collect()
}

#[test]
fn chars_are_the_characters() {
    assert_eq!(chars_of("a/ü.img"), vec!['a', '/', 'ü', '.', 'i', 'm', 'g']);
    assert_eq!(chars_of(""), Vec::<char>::new());
}

#[test]
fn text_is_searched_by_position() {
    assert!(matches_at(&text("system.img"), 6, &text(".img")));
    assert!(!matches_at(&text("system.img"), 5, &text(".img")));
    assert!(!matches_at(&text("system.img"), 7, &text(".img")));
    assert!(!matches_at(&text("abc"), 4, &text("")));
    assert!(matches_at(&text("abc"), 3, &text("")));
    assert!(starts_with(&text("AP_x"), &text("AP_")));
    assert!(!starts_with(&text("AP"), &text("AP_")));
    assert!(ends_with(&text("x.tar.md5"), &text("tar.md5")));
    assert!(!ends_with(&text("md5"), &text("tar.md5")));
    assert!(contains(&text("a_sparsechunk.0"), &text("sparsechunk")));
    assert!(contains(&text("sparsechunk"), &text("sparsechunk")));
    assert!(!contains(&text("sparsechun"), &text("sparsechunk")));
    assert!(contains(&text(""), &text("")));
    assert!(same_text(&text("abc"), &text("abc")));
    assert!(!same_text(&text("abc"), &text("abd")));
    assert!(!same_text(&text("abc"), &text("ab")));
}

#[test]
fn the_last_mark_is_found() {
    assert_eq!(find_after_last(&text("a/b/c"), '/'), 4);
    assert_eq!(find_after_last(&text("abc"), '/'), 0);
    assert_eq!(find_after_last(&text("abc/"), '/'), 4);
    assert_eq!(find_after_last(&text(""), '/'), 0);
}

#[test]
fn base_name_is_the_last_segment() {
    assert_eq!(base_name("firmware/system.new.dat.br"), "system.new.dat.br");
    assert_eq!(base_name("boot.img"), "boot.img");
    assert_eq!(base_name("a/b/c/d"), "d");
    assert_eq!(base_name("dir/"), "");
    assert_eq!(base_name(""), "");
    assert_eq!(base_name("/x"), "x");
}

#[test]
fn names_outside_ascii_are_taken_by_character() {
    assert_eq!(base_name("größe/ü.img"), "ü.img");
    assert!(belongs_to_partition("ü", "größe/ü.new.dat.br"));
    assert!(!belongs_to_partition("u", "größe/ü.img"));
    assert!(!numbered_chunk("system.new.dat.٣"));
    assert_eq!(join("größe", "ü.img"), "größe/ü.img");
    assert_eq!(sibling("größe/ü.zip", "output-1"), "größe/output-1");
    assert_eq!(file_name("größe/ü.zip").as_deref(), Some("ü.zip"));
}

#[test]
fn members_of_a_partition_are_recognised() {
    for member in [
        "system.img",
        "system.transfer.list",
        "system.new.dat",
        "system.new.dat.br",
        "system.new.dat.xz",
        "system.new.dat.0",
        "system.new.dat.11",
        "firmware/system.new.dat.3",
        "a/b/system.img",
    ] {
        assert!(belongs_to_partition("system", member), "{}", member);
    }
    for member in [
        "system.patch.dat",
        "system.img.br",
        "system.transfer.list.bak",
        "vendor.img",
        "vendor.new.dat",
        "system_ext.new.dat",
        "mysystem.img",
        "dir/mysystem.new.dat",
        "system",
        "system.",
        "system.img/readme",
        "",
    ] {
        assert!(!belongs_to_partition("system", member), "{}", member);
    }
    assert!(belongs_to_partition("", ".img"));
    assert!(belongs_to_partition("a.b", "a.b.img"));
    assert!(!belongs_to_partition("a.b", "aXb.img"));
}

#[test]
fn numbered_chunks_end_in_a_number() {
    for name in ["system.new.dat.0", "system.new.dat.11", "x/vendor.new.dat.007", ".new.dat.5"] {
        assert!(numbered_chunk(name), "{}", name);
    }
    for name in [
        "system.new.dat",
        "system.new.dat.",
        "system.new.dat.br",
        "system.new.dat.1a",
        "system.new.dat1",
        "system.new.data.1",
        "system.transfer.list",
        "12",
        "",
    ] {
        assert!(!numbered_chunk(name), "{}", name);
    }
}

#[test]
fn trailing_digits_are_found() {
    assert_eq!(find_digits_start(&text("system.new.dat.12")), 15);
    assert_eq!(find_digits_start(&text("abc")), 3);
    assert_eq!(find_digits_start(&text("123")), 0);
    assert_eq!(find_digits_start(&text("")), 0);
    assert!(is_digit_char('0') && is_digit_char('9') && is_digit_char('5'));
    assert!(!is_digit_char('/') && !is_digit_char(':') && !is_digit_char('a'));
    assert!(!is_digit_char('٣'));
}

#[test]
fn chunk_numbers_compare_as_numbers() {
    assert!(chunk_index_le("system.new.dat.2", "system.new.dat.10"));
    assert!(!chunk_index_le("system.new.dat.10", "system.new.dat.2"));
    assert!(chunk_index_le("system.new.dat.7", "system.new.dat.7"));
    assert!(chunk_index_le("system.new.dat.007", "system.new.dat.7"));
    assert!(chunk_index_le("system.new.dat.7", "system.new.dat.007"));
    assert!(chunk_index_le("system.new.dat.0", "system.new.dat.00"));
    assert!(chunk_index_le("system.new.dat.09", "system.new.dat.10"));
    assert!(!chunk_index_le("system.new.dat.19", "system.new.dat.18"));
    assert!(chunk_index_le("system.new.dat.18446744073709551615", "system.new.dat.18446744073709551616"));
    assert!(!chunk_index_le(
        "system.new.dat.100000000000000000000000000000",
        "system.new.dat.99999999999999999999999999999"
    ));
    assert!(chunk_index_le("no digits", "system.new.dat.0"));
}

#[test]
fn numerals_compare_from_any_position() {
    assert!(numeral_le(&text("ab12"), 2, &text("x013"), 1));
    assert!(!numeral_le(&text("ab13"), 2, &text("x012"), 1));
    assert!(numeral_le(&text("ab"), 2, &text("0"), 0));
    assert!(numeral_le(&text("0"), 0, &text("ab"), 2));
}

#[test]
fn numbers_are_written_in_decimal() {
    for (number, expected) in [
        (0u64, "0"),
        (7, "7"),
        (10, "10"),
        (99, "99"),
        (100, "100"),
        (1234567890, "1234567890"),
        (u64::MAX, "18446744073709551615"),
    ] {
        let mut written = String::from("n=");
        push_decimal(&mut written, number);
        assert_eq!(written, format!("n={}", expected));
    }
}

#[test]
fn paths_are_joined_with_one_separator() {
    assert_eq!(join("/tmp/t1", "system.new.dat"), "/tmp/t1/system.new.dat");
    assert_eq!(join("/tmp/t1/", "system.new.dat"), "/tmp/t1/system.new.dat");
    assert_eq!(join("", "system.new.dat"), "system.new.dat");
    assert_eq!(join("out", ""), "out/");
    assert_eq!(join("/", "x"), "/x");
}

#[test]
fn a_sibling_stands_in_the_parent() {
    assert_eq!(sibling("a/b/c.zip", "out"), "a/b/out");
    assert_eq!(sibling("c.zip", "out"), "out");
    assert_eq!(sibling("/c.zip", "out"), "/out");
    assert_eq!(sibling("a/", "out"), "out");
    assert_eq!(sibling("a/b/", "out"), "a/out");
    assert_eq!(sibling("a/b/.", "out"), "a/out");
}

#[test]
fn the_parent_is_the_path_without_its_last_segment() {
    assert_eq!(parent("a/b/c").as_deref(), Some("a/b"));
    assert_eq!(parent("a/b/c/").as_deref(), Some("a/b"));
    assert_eq!(parent("a//b").as_deref(), Some("a"));
    assert_eq!(parent("a/./b").as_deref(), Some("a"));
    assert_eq!(parent("a").as_deref(), Some(""));
    assert_eq!(parent("/a").as_deref(), Some("/"));
    assert_eq!(parent("./a").as_deref(), Some("."));
    assert_eq!(parent(".").as_deref(), Some(""));
    assert_eq!(parent("..").as_deref(), Some(""));
    assert_eq!(parent("a/..").as_deref(), Some("a"));
    assert_eq!(parent(""), None);
    assert_eq!(parent("/"), None);
    assert_eq!(parent("//"), None);
    assert_eq!(parent("/."), None);
}

#[test]
fn the_file_name_is_the_last_segment() {
    assert_eq!(file_name("a/b/c.img").as_deref(), Some("c.img"));
    assert_eq!(file_name("c.img").as_deref(), Some("c.img"));
    assert_eq!(file_name("META-INF/").as_deref(), Some("META-INF"));
    assert_eq!(file_name("a/b/.").as_deref(), Some("b"));
    assert_eq!(file_name("/x").as_deref(), Some("x"));
    assert_eq!(file_name("./x").as_deref(), Some("x"));
    assert_eq!(file_name("...").as_deref(), Some("..."));
    assert_eq!(file_name(".x").as_deref(), Some(".x"));
    assert_eq!(file_name("größe/ü.img/").as_deref(), Some("ü.img"));
    for path in ["", "/", ".", "./", "..", "a/..", "a/../", "//"] {
        assert_eq!(file_name(path), None, "{:?}", path);
    }
}

#[test]
fn parent_and_file_name_are_those_of_the_standard_library() {
    let segments = ["", ".", "..", "a", "b.img", ".x", "..."];
    let mut paths: Vec<String> = vec![String::new()];
    for _ in 0..4 {
        let mut longer: Vec<String> = Vec::new();
        for path in &paths {
            for segment in segments {
                longer.push(format!("{}/{}", path, segment));
                longer.push(format!("{}{}", path, segment));
            }
        }
        paths.extend(longer);
        paths.sort();
        paths.dedup();
        paths.truncate(6000);
    }
    assert!(paths.len() > 1000);
    for path in &paths {
        let std_path = std::path::Path::new(path);
        assert_eq!(
            parent(path),
            std_path.parent().map(|p| p.to_str().unwrap().to_string()),
            "parent of {:?}",
            path
        );
        assert_eq!(
            file_name(path),
            std_path.file_name().map(|n| n.to_str().unwrap().to_string()),
            "file name of {:?}",
            path
        );
    }
}

#[test]
fn member_rules_agree_with_the_patterns_they_stand_for() {
    let partitions = ["system", "vendor", "boot", "product"];
    let members = [
        "system.img",
        "system.transfer.list",
        "system.new.dat",
        "system.new.dat.br",
        "system.new.dat.xz",
        "system.new.dat.0",
        "system.new.dat.1",
        "system.new.dat.10",
        "system.patch.dat",
        "vendor.new.dat.br",
        "vendor.transfer.list",
        "vendor.patch.dat",
        "firmware-update/vendor.img",
        "dir/sub/product.new.dat.3",
        "boot.img",
        "boot.img.br",
        "META-INF/com/google/android/updater-script",
        "system.new.dat.1a",
        "system.new.dat.",
        "compatibility.zip",
    ];
    let numbered = regex::Regex::new(r"\.new\.dat\.\d+$").unwrap();
    for partition in partitions {
        let pattern = regex::Regex::new(&format!(
            r"(?:.*\/)?{partition}\.(new\.dat.*|transfer\.list|img)$"
        ))
        .unwrap();
        for member in members {
            assert_eq!(
                belongs_to_partition(partition, member),
                pattern.is_match(member),
                "{} {}",
                partition,
                member
            );
            assert_eq!(numbered_chunk(member), numbered.is_match(member), "{}", member);
        }
    }
}
