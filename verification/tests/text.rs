use windui::text::{char_class, is_cjk, tokenize, CharClass, TokKind, Token};

fn toks(s: &str) -> Vec<(TokKind, String)> {
    let chars: Vec<char> = s.chars().collect();
    tokenize(&chars)
        .into_iter()
        .map(|t: Token| (t.kind, chars[t.start..t.end].iter().collect()))
        .collect()
}

#[test]
fn tokenize_splits_words_spaces_cjk_and_line_feeds() {
    assert_eq!(
        toks("aa  bb\n汉字x"),
        vec![
            (TokKind::Word, "aa".to_string()),
            (TokKind::Space, "  ".to_string()),
            (TokKind::Word, "bb".to_string()),
            (TokKind::Newline, "\n".to_string()),
            (TokKind::Word, "汉".to_string()),
            (TokKind::Word, "字".to_string()),
            (TokKind::Word, "x".to_string()),
        ]
    );
    assert_eq!(toks(""), vec![]);
    assert_eq!(toks(" \t"), vec![(TokKind::Space, " \t".to_string())]);
    assert_eq!(toks("\n\n"), vec![(TokKind::Newline, "\n".to_string()), (TokKind::Newline, "\n".to_string())]);
}

#[test]
fn ideographic_space_is_whitespace_not_cjk() {
    assert_eq!(char_class('\u{3000}'), CharClass::Space);
    assert_eq!(toks("甲\u{3000}乙").len(), 3);
    assert_eq!(toks("甲\u{3000}乙")[1].0, TokKind::Space);
}

#[test]
fn tokens_cover_the_text() {
    let s = "Hello, 世界!  ok\nend";
    let chars: Vec<char> = s.chars().collect();
    let t = tokenize(&chars);
    let mut at = 0;
    for tok in &t {
        assert_eq!(tok.start, at);
        at = tok.end;
    }
    assert_eq!(at, chars.len());
}

#[test]
fn cjk_ranges() {
    assert!(is_cjk('汉'));
    assert!(is_cjk('あ'));
    assert!(is_cjk('한'));
    assert!(is_cjk('，'));
    assert!(is_cjk('\u{20000}'));
    assert!(!is_cjk('a'));
    assert!(!is_cjk('é'));
    assert_eq!(char_class('\n'), CharClass::Newline);
    assert_eq!(char_class('a'), CharClass::Latin);
    assert_eq!(char_class('中'), CharClass::Cjk);
}
