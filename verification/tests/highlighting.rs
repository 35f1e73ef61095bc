use dragonfox::highlighter::{classify_word, highlight, Span, TokenKind};

fn parts(spans: &[Span]) -> Vec<(String, TokenKind)> {
    spans.iter().map(|s| (s.text.clone(), s.kind)).collect()
}

fn joined(spans: &[Span]) -> String {
    spans.iter().map(|s| s.text.as_str()).collect()
}

#[test]
fn small_program() {
    let spans = highlight("fn main() { let x: u8 = 42; }");
    let got = parts(&spans);
    let want: Vec<(String, TokenKind)> = vec![
        ("fn", TokenKind::Keyword),
        (" ", TokenKind::Plain),
        ("main", TokenKind::Plain),
        ("(", TokenKind::Plain),
        (")", TokenKind::Plain),
        (" ", TokenKind::Plain),
        ("{", TokenKind::Plain),
        (" ", TokenKind::Plain),
        ("let", TokenKind::Keyword),
        (" ", TokenKind::Plain),
        ("x", TokenKind::Plain),
        (":", TokenKind::Plain),
        (" ", TokenKind::Plain),
        ("u8", TokenKind::Type),
        (" ", TokenKind::Plain),
        ("=", TokenKind::Plain),
        (" ", TokenKind::Plain),
        ("42", TokenKind::Number),
        (";", TokenKind::Plain),
        (" ", TokenKind::Plain),
        ("}", TokenKind::Plain),
    ]
    .into_iter()
    .map(|(t, k)| (t.to_string(), k))
    .collect();
    assert_eq!(got, want);
}

#[test]
fn comments_stop_before_newline() {
    let spans = highlight("a // note\nb / c");
    let got = parts(&spans);
    assert_eq!(got[2], ("// note".to_string(), TokenKind::Comment));
    assert_eq!(got[3], ("\n".to_string(), TokenKind::Plain));
    assert_eq!(got[6], ("/".to_string(), TokenKind::Plain));
    assert_eq!(highlight("//").len(), 1);
    assert_eq!(highlight("//")[0].kind, TokenKind::Comment);
}

#[test]
fn string_literals_and_escapes() {
    let spans = highlight(r#"s = "a\"b" + "open"#);
    let got = parts(&spans);
    assert_eq!(got[4], (r#""a\"b""#.to_string(), TokenKind::StringLit));
    assert_eq!(got.last().unwrap(), &(r#""open"#.to_string(), TokenKind::StringLit));
    let spans = highlight(r#""\\" x"#);
    assert_eq!(parts(&spans)[0], (r#""\\""#.to_string(), TokenKind::StringLit));
}

#[test]
fn number_literals() {
    let got = parts(&highlight("0x1F_u8+3.14e5"));
    assert_eq!(got[0], ("0x1F_u8".to_string(), TokenKind::Number));
    assert_eq!(got[1], ("+".to_string(), TokenKind::Plain));
    assert_eq!(got[2], ("3.14e5".to_string(), TokenKind::Number));
}

#[test]
fn identifiers_and_unicode() {
    let got = parts(&highlight("_tmp \u{fc}ber Self String9 \u{663}"));
    assert_eq!(got[0], ("_tmp".to_string(), TokenKind::Plain));
    assert_eq!(got[2], ("\u{fc}ber".to_string(), TokenKind::Plain));
    assert_eq!(got[4], ("Self".to_string(), TokenKind::Keyword));
    assert_eq!(got[6], ("String9".to_string(), TokenKind::Plain));
    // an Arabic-Indic digit is neither an ASCII digit nor alphabetic
    assert_eq!(got[8], ("\u{663}".to_string(), TokenKind::Plain));
}

#[test]
fn highlighting_is_lossless() {
    let samples = [
        "",
        "fn f() -> Vec<String> { \"x\\\"y\" } // end",
        "unterminated \"string",
        "\u{1f600} emoji and \u{e9}t\u{e9} 12ab_3",
        "a/b//c\n\n//d\r\n",
        "\"\\",
    ];
    for s in samples {
        let spans = highlight(s);
        assert_eq!(joined(&spans), s);
        assert!(spans.iter().all(|sp| !sp.text.is_empty()));
        for sp in &spans {
            if sp.kind == TokenKind::Comment {
                assert!(sp.text.starts_with("//") && !sp.text.contains('\n'));
            }
        }
    }
}

#[test]
fn word_classes_and_colors() {
    assert_eq!(classify_word("impl"), TokenKind::Keyword);
    assert_eq!(classify_word("where"), TokenKind::Keyword);
    assert_eq!(classify_word("Option"), TokenKind::Type);
    assert_eq!(classify_word("str"), TokenKind::Type);
    assert_eq!(classify_word("strs"), TokenKind::Plain);
    assert_eq!(TokenKind::Keyword.rgb(), (86, 156, 214));
    assert_eq!(TokenKind::StringLit.rgb(), (206, 145, 120));
    assert_eq!(TokenKind::Comment.rgb(), (106, 153, 85));
    assert_eq!(TokenKind::Number.rgb(), (181, 206, 168));
    assert_eq!(TokenKind::Type.rgb(), (78, 201, 176));
    assert_eq!(TokenKind::Plain.rgb(), (220, 220, 220));
}

#[test]
fn newline_splits_tokens() {
    let cases = [("let x = 1; // c", "fn y() {}"), ("a/", "/b"), ("12ab", "34"), ("", "\"s\""), ("\u{fc}ber", "\u{fc}")];
    for (a, b) in cases {
        let whole = parts(&highlight(&format!("{}\n{}", a, b)));
        let mut want = parts(&highlight(a));
        want.push(("\n".to_string(), TokenKind::Plain));
        want.extend(parts(&highlight(b)));
        assert_eq!(whole, want, "{:?} / {:?}", a, b);
    }
}

#[test]
fn identifier_pieces_hold_identifier_characters() {
    let code = "Ωmega_2+été ²x _a";
    let spans = highlight(code);
    let texts: Vec<String> = spans.iter().map(|s| s.text.clone()).collect();
    assert_eq!(texts, vec!["Ωmega_2", "+", "été", " ", "²", "x", " ", "_a"]);
    for s in &spans {
        let first = s.text.chars().next().unwrap();
        if first.is_alphabetic() || first == '_' {
            assert!(s.text.chars().all(|c| c.is_alphanumeric() || c == '_'), "{:?}", s.text);
        }
    }
    assert_eq!(joined(&spans), code);
}
