use auberge::text::{
    compare_text, concat2, concat3, contains_text, decimal, file_extension, file_name, file_stem,
    join_path, join_texts, make_relative, parent_dir, parse_u64, space, text_eq, to_chars,
    trim_text, Rank,
};

#[test]
fn texts_are_ordered_by_their_characters() {
    assert_eq!(compare_text("abc", "abd"), Rank::Before);
    assert_eq!(compare_text("abd", "abc"), Rank::After);
    assert_eq!(compare_text("abc", "abc"), Rank::Same);
    assert_eq!(compare_text("", ""), Rank::Same);
}

#[test]
fn a_beginning_comes_before_the_whole() {
    assert_eq!(compare_text("ab", "abc"), Rank::Before);
    assert_eq!(compare_text("abc", "ab"), Rank::After);
    assert_eq!(compare_text("", "a"), Rank::Before);
}

#[test]
fn order_follows_code_points_beyond_ascii() {
    assert_eq!(compare_text("z", "é"), Rank::Before);
    assert_eq!(compare_text("é", "日"), Rank::Before);
    assert_eq!(compare_text("Z", "a"), Rank::Before);
    let mut words = vec!["é", "z", "日", "a", "Z"];
    words.sort();
    for pair in words.windows(2) {
        assert_eq!(compare_text(pair[0], pair[1]), Rank::Before);
    }
}

#[test]
fn later_timestamps_come_after_earlier_ones() {
    assert_eq!(compare_text("2024-01-01_00-00-00", "2024-06-15_12-30-00"), Rank::Before);
}

#[test]
fn equality_of_texts() {
    assert!(text_eq("radicale", "radicale"));
    assert!(!text_eq("radicale", "radicale "));
    assert!(!text_eq("radicale", "Radicale"));
    assert!(text_eq("", ""));
}

#[test]
fn characters_of_a_text() {
    assert_eq!(to_chars("aé日"), vec!['a', 'é', '日']);
    assert_eq!(to_chars(""), Vec::<char>::new());
}

#[test]
fn paths_are_joined_with_one_separator() {
    assert_eq!(join_path("/backups", "h1"), "/backups/h1");
    assert_eq!(join_path("/backups/", "h1"), "/backups/h1");
    assert_eq!(join_path("", "h1"), "h1");
    assert_eq!(join_path("/backups", ""), "/backups/");
    assert_eq!(join_path("/", "etc"), "/etc");
}

#[test]
fn an_absolute_component_replaces_the_base() {
    assert_eq!(join_path("/backups", "/etc/radicale"), "/etc/radicale");
}

#[test]
fn joining_agrees_with_the_standard_library() {
    for (base, name) in [
        ("/a", "b"),
        ("/a/", "b"),
        ("", "b"),
        ("/a", "/b"),
        ("a/b", "c/d"),
        ("/a", ""),
        ("/", "x"),
    ] {
        let expected = std::path::Path::new(base).join(name);
        assert_eq!(join_path(base, name), expected.to_str().unwrap());
    }
}

#[test]
fn numbers_in_decimal() {
    assert_eq!(decimal(0), "0");
    assert_eq!(decimal(7), "7");
    assert_eq!(decimal(22), "22");
    assert_eq!(decimal(65535), "65535");
    assert_eq!(decimal(1000), "1000");
    assert_eq!(decimal(u64::MAX), "18446744073709551615");
}

#[test]
fn search_for_a_text() {
    assert!(contains_text("navidrome.service enabled", "navidrome.service"));
    assert!(contains_text("abc", ""));
    assert!(contains_text("", ""));
    assert!(contains_text("abc", "c"));
    assert!(contains_text("abc", "abc"));
    assert!(!contains_text("abc", "abcd"));
    assert!(!contains_text("", "a"));
    assert!(!contains_text("navidrome.servic", "navidrome.service"));
    assert!(contains_text("aab", "ab"));
}

#[test]
fn white_space() {
    for c in [' ', '\t', '\n', '\r', '\u{b}', '\u{c}', '\u{85}', '\u{a0}', '\u{1680}', '\u{2003}', '\u{2028}', '\u{2029}', '\u{202f}', '\u{205f}', '\u{3000}'] {
        assert!(space(c));
    }
    for c in ['a', '0', '#', '\u{200b}', '\u{180e}', '\u{feff}'] {
        assert!(!space(c));
    }
}

#[test]
fn white_space_agrees_with_the_standard_library() {
    let mut code = 0u32;
    while code <= 0x3100 {
        if let Some(c) = char::from_u32(code) {
            assert_eq!(space(c), c.is_whitespace());
        }
        code += 1;
    }
}

#[test]
fn trimming() {
    assert_eq!(trim_text("  12345 \n"), "12345");
    assert_eq!(trim_text("a b"), "a b");
    assert_eq!(trim_text("   "), "");
    assert_eq!(trim_text(""), "");
    assert_eq!(trim_text("\t Host x \r"), "Host x");
}

#[test]
fn reading_numbers() {
    assert_eq!(parse_u64("0"), Some(0));
    assert_eq!(parse_u64("007"), Some(7));
    assert_eq!(parse_u64("+42"), Some(42));
    assert_eq!(parse_u64("18446744073709551615"), Some(u64::MAX));
    assert_eq!(parse_u64("18446744073709551616"), None);
    assert_eq!(parse_u64("99999999999999999999999"), None);
    assert_eq!(parse_u64(""), None);
    assert_eq!(parse_u64("+"), None);
    assert_eq!(parse_u64("-1"), None);
    assert_eq!(parse_u64("12a"), None);
    assert_eq!(parse_u64(" 12"), None);
    assert_eq!(parse_u64("１２"), None);
}

#[test]
fn reading_numbers_agrees_with_the_standard_library() {
    for text in ["0", "+0", "++1", "1+", "65535", "00000000000000000000001", "1_000", "0x10", "٣"] {
        assert_eq!(parse_u64(text), text.parse::<u64>().ok());
    }
}

#[test]
fn the_directory_above_a_path() {
    assert_eq!(parent_dir("/var/lib/radicale/collections"), Some("/var/lib/radicale".to_string()));
    assert_eq!(parent_dir("/etc"), Some("/".to_string()));
    assert_eq!(parent_dir("/"), None);
    assert_eq!(parent_dir(""), None);
    assert_eq!(parent_dir("name"), Some(String::new()));
    assert_eq!(parent_dir("a/b"), Some("a".to_string()));
}

#[test]
fn separators_at_the_end_do_not_change_the_directory_above() {
    assert_eq!(parent_dir("/var/lib/radicale/"), Some("/var/lib".to_string()));
    assert_eq!(parent_dir("/etc/"), Some("/".to_string()));
    assert_eq!(parent_dir("a/b//"), Some("a".to_string()));
    assert_eq!(parent_dir("a//b"), Some("a".to_string()));
    assert_eq!(parent_dir("a/./b"), Some("a".to_string()));
    assert_eq!(parent_dir("a/b/."), Some("a".to_string()));
    assert_eq!(parent_dir("./a"), Some(".".to_string()));
    assert_eq!(parent_dir("name/"), Some(String::new()));
    assert_eq!(parent_dir("a/.."), Some("a".to_string()));
    assert_eq!(parent_dir("//"), None);
    assert_eq!(parent_dir("/."), None);
}

fn sample_paths() -> Vec<&'static str> {
    vec![
        "", "/", "//", "/.", "/./", ".", "./", "./.", "..", "../", "a/..", "a/../", "/..",
        "a", "a/", "a//", "a/.", "a/./", "a/b", "a/b/", "a//b", "a/./b", "a/b/.", "./a", "./a/",
        "/a", "/a/", "//a", "/./a", "/a/b", "/a/b/", "/a//b//", "playbooks/", "playbooks/apps.yml",
        "/var/lib/radicale/collections", "/var/lib/radicale/collections/", ".hidden", "a/.hidden",
        "a/.hidden/", "...", "a/...", "a.b/", "a/b.c/.", " ", "a /", "/ /", "a/ .",
    ]
}

#[test]
fn file_names_are_those_of_the_standard_library() {
    for path in sample_paths() {
        let expected = std::path::Path::new(path)
            .file_name()
            .map(|name| name.to_string_lossy().to_string());
        assert_eq!(file_name(path), expected, "{:?}", path);
    }
}

#[test]
fn parents_are_those_of_the_standard_library() {
    for path in sample_paths() {
        let expected = std::path::Path::new(path)
            .parent()
            .map(|dir| dir.to_string_lossy().to_string());
        assert_eq!(parent_dir(path), expected, "{:?}", path);
    }
}

#[test]
fn relative_paths() {
    assert_eq!(make_relative("/etc/radicale"), "etc/radicale");
    assert_eq!(make_relative("//srv"), "srv");
    assert_eq!(make_relative("srv/music"), "srv/music");
    assert_eq!(make_relative("/"), "");
}

#[test]
fn file_names() {
    assert_eq!(file_name("ansible/playbooks/apps.yml"), Some("apps.yml".to_string()));
    assert_eq!(file_name("apps.yml"), Some("apps.yml".to_string()));
    assert_eq!(file_name("/"), None);
    assert_eq!(file_name(""), None);
    assert_eq!(file_name("a/.."), None);
    assert_eq!(file_name("."), None);
    assert_eq!(file_name("./"), None);
    assert_eq!(file_name("/."), None);
    assert_eq!(file_name("a/."), Some("a".to_string()));
    assert_eq!(file_name("a/"), Some("a".to_string()));
    assert_eq!(file_name("playbooks//"), Some("playbooks".to_string()));
    assert_eq!(file_name("a/.hidden"), Some(".hidden".to_string()));
}

#[test]
fn stems_and_extensions() {
    assert_eq!(file_stem("apps.yml"), "apps");
    assert_eq!(file_stem("archive.tar.gz"), "archive.tar");
    assert_eq!(file_stem("README"), "README");
    assert_eq!(file_stem(".hidden"), ".hidden");
    assert_eq!(file_stem("name."), "name");
    assert_eq!(file_extension("apps.yml"), Some("yml".to_string()));
    assert_eq!(file_extension("archive.tar.gz"), Some("gz".to_string()));
    assert_eq!(file_extension("README"), None);
    assert_eq!(file_extension(".hidden"), None);
    assert_eq!(file_extension("name."), Some(String::new()));
}

#[test]
fn texts_one_after_another() {
    assert_eq!(concat2("a", "b"), "ab");
    assert_eq!(concat3("user", "@", "host"), "user@host");
    assert_eq!(join_texts(&vec!["a".to_string(), "b".to_string(), "c".to_string()], ","), "a,b,c");
    assert_eq!(join_texts(&vec!["a".to_string()], ","), "a");
    assert_eq!(join_texts(&vec![], ","), "");
    assert_eq!(join_texts(&vec!["".to_string(), "b".to_string()], "|"), "|b");
}

#[test]
fn what_can_name_an_entry_of_a_directory() {
    for name in ["a", "latest", ".hidden", "...", "a.b", "2024-01-01_00-00-00", " ", "a b"] {
        assert!(auberge::text::names_entry(name), "{:?}", name);
    }
    for name in ["", ".", "..", "/", "a/b", "a/", "/a"] {
        assert!(!auberge::text::names_entry(name), "{:?}", name);
    }
}

#[test]
fn a_joined_name_is_an_entry_of_the_directory() {
    for dir in ["", "/", "a", "a/", "/a/b", "/a/b//", "a/.", ".", "./"] {
        for name in ["x", ".hidden", "x.y", "..."] {
            let path = join_path(dir, name);
            assert_eq!(file_name(&path), Some(name.to_string()), "{:?}", path);
            let above = std::path::Path::new(&path)
                .parent()
                .map(|d| d.to_string_lossy().to_string());
            assert_eq!(parent_dir(&path), above, "{:?}", path);
        }
    }
}
