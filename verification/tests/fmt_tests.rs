use glyim::fmt::TokenKind::{BlockComment, LBrace, LineComment, Other, RBrace, Semicolon, Whitespace};
use glyim::fmt::{format_tokens, FormatConfig, FormatError, Token, TokenKind};

fn tok(kind: TokenKind, text: &str) -> Token<'_> {
    Token { kind, text }
}

fn run(tokens: &[Token], config: &FormatConfig) -> String {
    match format_tokens(tokens, config) {
        Ok(s) => s,
        Err(e) => panic!("{}", e.message()),
    }
}

#[test]
fn default_config_values() {
    let c = FormatConfig::default();
    assert_eq!(c.indent_width, 4);
    assert_eq!(c.max_width, 100);
    assert!(c.use_spaces);
    assert!(c.trailing_newline);
}

#[test]
fn empty_input_is_a_newline_or_nothing() {
    assert_eq!(run(&[], &FormatConfig::default()), "\n");
    let c = FormatConfig { trailing_newline: false, ..FormatConfig::default() };
    assert_eq!(run(&[], &c), "");
}

#[test]
fn braces_indent_and_break_lines() {
    let tokens = vec![
        tok(Other, "fn"),
        tok(Whitespace, " "),
        tok(Other, "main"),
        tok(Other, "("),
        tok(Other, ")"),
        tok(Whitespace, " "),
        tok(LBrace, "{"),
        tok(Whitespace, "\n  "),
        tok(Other, "x"),
        tok(Semicolon, ";"),
        tok(Whitespace, "\n"),
        tok(RBrace, "}"),
    ];
    // Every token inside braces is indented, the line is not tracked.
    assert_eq!(run(&tokens, &FormatConfig::default()), "fnmain(){\n    x    ;\n    }\n");
    let tabs = FormatConfig { use_spaces: false, ..FormatConfig::default() };
    assert_eq!(run(&tokens, &tabs), "fnmain(){\n\tx\t;\n\t}\n");
}

#[test]
fn comments_are_placed() {
    let tokens = vec![tok(LineComment, "// hi"), tok(Other, "a"), tok(BlockComment, "/* b */"), tok(Other, "c")];
    assert_eq!(run(&tokens, &FormatConfig::default()), "\n// hi\na /* b */ c\n");
    let c = FormatConfig { trailing_newline: false, ..FormatConfig::default() };
    assert_eq!(run(&tokens, &c), "\n// hi\na /* b */ c");
}

#[test]
fn nested_braces_and_line_comment_inside() {
    let tokens = vec![
        tok(LBrace, "{"),
        tok(LBrace, "{"),
        tok(LineComment, "// deep"),
        tok(RBrace, "}"),
        tok(RBrace, "}"),
    ];
    let c = FormatConfig { indent_width: 2, ..FormatConfig::default() };
    assert_eq!(run(&tokens, &c), "{\n  {\n    // deep\n    }\n  }\n");
}

#[test]
fn format_error_message() {
    let e = FormatError::Internal("bad input".to_string());
    assert_eq!(e.message(), "format error: bad input");
}
