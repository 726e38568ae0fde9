//! Decimal text and token rendering.
use magic_map::text::{i64_text, u64_text};
use magic_map::tokens::{render, Delim, Tok};

#[test]
fn integers_render_as_display_does() {
    assert_eq!(u64_text(0), "0");
    assert_eq!(u64_text(1995), "1995");
    assert_eq!(u64_text(u64::MAX), u64::MAX.to_string());
    assert_eq!(i64_text(-21), "-21");
    assert_eq!(i64_text(i64::MIN), i64::MIN.to_string());
    assert_eq!(i64_text(i64::MAX), i64::MAX.to_string());
}

#[test]
fn tokens_render_with_spaces_except_after_joined_punctuation() {
    let toks = vec![
        Tok::Ident { name: "a".to_string(), sid: 0 },
        Tok::Punct { ch: ':', joint: true, sid: 1 },
        Tok::Punct { ch: ':', joint: false, sid: 2 },
        Tok::Ident { name: "B".to_string(), sid: 3 },
        Tok::Group {
            delim: Delim::Paren,
            body: vec![Tok::Lit { text: "1".to_string(), sid: 5 }, Tok::Punct { ch: ',', joint: false, sid: 6 }],
            sid: 4,
        },
    ];
    assert_eq!(render(&toks, 0, toks.len()), "a :: B (1 ,)");
    assert_eq!(render(&toks, 3, 4), "B");
    assert_eq!(render(&toks, 2, 2), "");
}
