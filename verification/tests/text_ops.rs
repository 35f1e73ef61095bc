use dragonfox::text::{chars_of, concat_text, contains, owned, replace, same_text, trim};

const SAMPLES: [&str; 12] = [
    "",
    "   ",
    "abc",
    "  padded  ",
    "\t\n line \r\n",
    "\u{a0}\u{3000}wide\u{2028}",
    "a\u{200b}b",
    "h\u{e9}llo w\u{f6}rld",
    "aaaa",
    "C:\\Users\\me\\proj",
    "/home/me/proj/src/main.rs",
    "x\u{85}",
];

#[test]
fn trim_matches_std() {
    for s in SAMPLES {
        assert_eq!(trim(s), s.trim(), "trim of {:?}", s);
    }
    assert_eq!(trim("  hello world \n"), "hello world");
    assert_eq!(trim("\u{2000}\u{200a}x\u{205f}"), "x");
    // a zero width space is not white space
    assert_eq!(trim("\u{200b}x"), "\u{200b}x");
}

#[test]
fn contains_matches_std() {
    let pats = ["", "a", "aa", "aaa", "aaaaa", "ll", "\\", "proj", "src/m", "zz"];
    for s in SAMPLES {
        for p in pats {
            assert_eq!(contains(s, p), s.contains(p), "{:?} in {:?}", p, s);
        }
    }
    assert!(contains("hello", ""));
    assert!(!contains("", "a"));
}

#[test]
fn replace_matches_std() {
    let pats = ["", "a", "aa", "\\", "/home/me/proj", "l", "zz"];
    let reps = ["", "/", "xy"];
    for s in SAMPLES {
        for p in pats {
            for r in reps {
                assert_eq!(replace(s, p, r), s.replace(p, r), "{:?}: {:?} -> {:?}", s, p, r);
            }
        }
    }
    assert_eq!(replace("abc", "", "x"), "xaxbxcx");
    assert_eq!(replace("aaaa", "aa", "b"), "bb");
    assert_eq!(replace("aaa", "aa", "b"), "ba");
    assert_eq!(replace("C:\\a\\b", "\\", "/"), "C:/a/b");
}

#[test]
fn small_helpers() {
    assert_eq!(chars_of("h\u{e9}!"), vec!['h', '\u{e9}', '!']);
    assert_eq!(concat_text("ab", "cd"), "abcd");
    assert_eq!(owned("x"), "x".to_string());
    assert!(same_text("abc", "abc"));
    assert!(!same_text("abc", "abd"));
    assert!(!same_text("abc", "ab"));
}
