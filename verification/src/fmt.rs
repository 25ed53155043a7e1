use vstd::prelude::*;
use vstd::string::{StrSliceExecFns, StringExecFns};

verus! {

/// Configuration for the formatter.
#[derive(Debug, Clone)]
pub struct FormatConfig {
    /// Number of spaces per indentation level.
    pub indent_width: usize,
    /// Maximum line width before wrapping (not enforced).
    pub max_width: usize,
    /// Whether to indent with spaces (true) or tabs (false).
    pub use_spaces: bool,
    /// Whether to end the output with a newline.
    pub trailing_newline: bool,
}

impl Default for FormatConfig {
    fn default() -> (r: Self)
        ensures
            r.indent_width == 4,
            r.max_width == 100,
            r.use_spaces,
            r.trailing_newline,
    {
        FormatConfig { indent_width: 4, max_width: 100, use_spaces: true, trailing_newline: true }
    }
}

/// An error of the formatter.
#[derive(Debug, Clone, PartialEq, Eq)]
pub enum FormatError {
    Internal(String),
}

impl FormatError {
    /// The error's text: `format error: ` and its message.
    pub fn message(&self) -> (r: String)
        ensures
            match self {
                FormatError::Internal(msg) => r@ == "format error: "@ + msg@,
            },
    {
        match self {
            FormatError::Internal(msg) => {
                let mut r = String::new();
                r.append("format error: ");
                proof {
                    reveal_strlit("format error: ");
                }
                r.append(msg.as_str());
                r
            },
        }
    }
}

/// The kinds of token the formatter tells apart.
#[derive(Clone, Copy, Debug, PartialEq, Eq, Structural)]
pub enum TokenKind {
    Whitespace,
    LineComment,
    BlockComment,
    LBrace,
    RBrace,
    Semicolon,
    Other,
}

/// A token: its kind and its text in the source.
#[derive(Debug, Clone, Copy)]
pub struct Token<'a> {
    pub kind: TokenKind,
    pub text: &'a str,
}

/// The tokens as plain values.
pub open spec fn token_seq(ts: Seq<Token>) -> Seq<(TokenKind, Seq<char>)> {
    ts.map_values(|t: Token| (t.kind, t.text@))
}

/// The text ends with a newline.
pub open spec fn ends_nl(s: Seq<char>) -> bool {
    s.len() > 0 && s.last() == '\n'
}

/// One level of indentation: `indent_width` spaces, or a tab.
pub open spec fn indent_unit(cfg: FormatConfig) -> Seq<char> {
    if cfg.use_spaces { Seq::new(cfg.indent_width as nat, |i: int| ' ') } else { seq!['\t'] }
}

/// `depth` levels of indentation.
pub open spec fn indentation(depth: nat, cfg: FormatConfig) -> Seq<char>
    decreases depth,
{
    if depth == 0 { Seq::empty() } else { indentation((depth - 1) as nat, cfg) + indent_unit(cfg) }
}

/// `out` followed by the indentation of `depth` when it is positive.
pub open spec fn indented(out: Seq<char>, depth: int, cfg: FormatConfig) -> Seq<char> {
    if depth > 0 { out + indentation(depth as nat, cfg) } else { out }
}

/// The output and the brace depth after one more token. Whitespace is dropped; a line
/// comment goes on a line of its own (a newline first unless the output ends with one),
/// indented; a block comment is set off by spaces. Every other token is preceded by
/// the indentation of the current depth and written out; `{` then opens a level and
/// ends the line, `}` closes one and ends the line unless the output already does, and
/// `;` ends the line.
pub open spec fn fmt_step(st: (Seq<char>, int), kind: TokenKind, text: Seq<char>, cfg: FormatConfig) -> (Seq<char>, int) {
    let out = st.0;
    let d = st.1;
    match kind {
        TokenKind::Whitespace => st,
        TokenKind::LineComment => {
            let o1 = if ends_nl(out) { out } else { out.push('\n') };
            ((indented(o1, d, cfg) + text).push('\n'), d)
        },
        TokenKind::BlockComment => ((out.push(' ') + text).push(' '), d),
        _ => {
            let o = indented(out, d, cfg) + text;
            match kind {
                TokenKind::LBrace => (o.push('\n'), d + 1),
                TokenKind::RBrace => (if ends_nl(o) { o } else { o.push('\n') }, d - 1),
                TokenKind::Semicolon => (o.push('\n'), d),
                _ => (o, d),
            }
        },
    }
}

/// The output and depth after the first `n` tokens.
pub open spec fn fmt_fold(ts: Seq<(TokenKind, Seq<char>)>, n: nat, cfg: FormatConfig) -> (Seq<char>, int)
    decreases n,
{
    if n == 0 || n > ts.len() {
        (Seq::empty(), 0)
    } else {
        fmt_step(fmt_fold(ts, (n - 1) as nat, cfg), ts[n - 1].0, ts[n - 1].1, cfg)
    }
}

/// The formatted text: the output after all tokens, with a final newline when asked
/// for and missing.
pub open spec fn formatted(ts: Seq<(TokenKind, Seq<char>)>, cfg: FormatConfig) -> Seq<char> {
    let out = fmt_fold(ts, ts.len(), cfg).0;
    if cfg.trailing_newline && !ends_nl(out) { out.push('\n') } else { out }
}

/// The formatter can run on `ts`: no token that gets indented comes where more braces
/// were closed than opened, and the depth stays below `i32::MAX`.
pub open spec fn fmt_safe(ts: Seq<(TokenKind, Seq<char>)>, cfg: FormatConfig) -> bool {
    forall|k: int| 0 <= k < ts.len() ==> {
        &&& (!((#[trigger] ts[k]).0 is Whitespace) && !(ts[k].0 is BlockComment) ==> fmt_fold(ts, k as nat, cfg).1 >= 0)
        &&& fmt_fold(ts, k as nat, cfg).1 < i32::MAX
    }
}

/// Indentation is empty when a level is, and otherwise ends with a space or a tab.
proof fn lemma_indentation_end(depth: nat, cfg: FormatConfig)
    requires
        depth > 0,
    ensures
        cfg.use_spaces && cfg.indent_width == 0 ==> indentation(depth, cfg).len() == 0,
        !(cfg.use_spaces && cfg.indent_width == 0) ==> indentation(depth, cfg).len() > 0
            && indentation(depth, cfg).last() != '\n',
    decreases depth,
{
    if depth > 1 {
        lemma_indentation_end((depth - 1) as nat, cfg);
    } else {
        assert(indentation(0, cfg).len() == 0);
    }
    if cfg.use_spaces && cfg.indent_width == 0 {
        assert(indent_unit(cfg).len() == 0);
    } else if cfg.use_spaces {
        assert(indent_unit(cfg).last() == ' ');
    } else {
        assert(indent_unit(cfg).last() == '\t');
    }
}

/// Appends `depth` levels of indentation.
fn push_indent(out: &mut String, depth: usize, config: &FormatConfig)
    ensures
        final(out)@ == old(out)@ + indentation(depth as nat, *config),
{
    proof {
        reveal_strlit(" ");
        reveal_strlit("\t");
    }
    let mut k: usize = 0;
    while k < depth
        invariant
            0 <= k <= depth,
            out@ == old(out)@ + indentation(k as nat, *config),
        decreases depth - k,
    {
        let ghost before = out@;
        if config.use_spaces {
            let mut j: usize = 0;
            while j < config.indent_width
                invariant
                    0 <= j <= config.indent_width,
                    out@ == before + Seq::new(j as nat, |i: int| ' '),
                decreases config.indent_width - j,
            {
                proof { reveal_strlit(" "); }
                out.append(" ");
                assert(out@ =~= before + Seq::new((j + 1) as nat, |i: int| ' '));
                j = j + 1;
            }
            assert(Seq::new(config.indent_width as nat, |i: int| ' ') == indent_unit(*config));
        } else {
            proof { reveal_strlit("\t"); }
            out.append("\t");
            assert(seq!['\t'] =~= "\t"@);
        }
        assert(out@ =~= old(out)@ + indentation((k + 1) as nat, *config));
        k = k + 1;
    }
}

/// Whether `s` ends with a newline.
fn text_ends_nl(s: &str) -> (r: bool)
    ensures
        r == ends_nl(s@),
{
    let n = s.unicode_len();
    n > 0 && s.get_char(n - 1) == '\n'
}

/// Writes one token: see `fmt_step`. `nl` tells whether the output ends with a
/// newline; the new output, flag and depth are returned.
fn format_token(out: String, nl: bool, depth: i32, t: &Token, config: &FormatConfig) -> (r: (String, bool, i32))
    requires
        nl == ends_nl(out@),
        !(t.kind is Whitespace) && !(t.kind is BlockComment) ==> depth >= 0,
        depth < i32::MAX,
    ensures
        (r.0@, r.2 as int) == fmt_step((out@, depth as int), t.kind, t.text@, *config),
        r.1 == ends_nl(r.0@),
{
    proof {
        reveal_strlit("\n");
        reveal_strlit(" ");
    }
    let ghost exp = fmt_step((out@, depth as int), t.kind, t.text@, *config);
    let ghost o0 = out@;
    let mut out = out;
    let mut nl = nl;
    let mut depth = depth;
    match t.kind {
        TokenKind::Whitespace => {},
        TokenKind::LineComment => {
            if !nl {
                out.append("\n");
            }
            if depth > 0 {
                push_indent(&mut out, depth as usize, config);
            }
            let ghost o1 = if ends_nl(o0) { o0 } else { o0.push('\n') };
            assert(out@ =~= indented(o1, depth as int, *config));
            out.append(t.text);
            out.append("\n");
            nl = true;
            assert(out@ =~= exp.0);
        },
        TokenKind::BlockComment => {
            out.append(" ");
            out.append(t.text);
            out.append(" ");
            nl = false;
            assert(out@ =~= exp.0);
            assert(out@.last() == ' ');
        },
        _ => {
            if depth > 0 {
                push_indent(&mut out, depth as usize, config);
                proof { lemma_indentation_end(depth as nat, *config); }
                if !config.use_spaces || config.indent_width > 0 {
                    nl = false;
                }
            }
            let ghost before_text = out@;
            let tn = text_ends_nl(t.text);
            let empty = t.text.unicode_len() == 0;
            let was_nl = nl;
            out.append(t.text);
            nl = tn || (empty && was_nl);
            proof {
                if t.text@.len() == 0 {
                    assert(out@ =~= before_text);
                } else {
                    assert(out@.last() == t.text@.last());
                }
            }
            assert(out@ =~= indented(o0, depth as int, *config) + t.text@);
            match t.kind {
                TokenKind::LBrace => {
                    depth = depth + 1;
                    out.append("\n");
                    nl = true;
                },
                TokenKind::RBrace => {
                    depth = depth - 1;
                    if !nl {
                        out.append("\n");
                        nl = true;
                    }
                },
                TokenKind::Semicolon => {
                    out.append("\n");
                    nl = true;
                },
                _ => {},
            }
            assert(out@ =~= exp.0);
        },
    }
    (out, nl, depth)
}

/// Formats a sequence of tokens; see `formatted`. The formatter never fails.
#[verifier::rlimit(40)]
pub fn format_tokens(tokens: &[Token], config: &FormatConfig) -> (r: Result<String, FormatError>)
    requires
        fmt_safe(token_seq(tokens@), *config),
    ensures
        r matches Ok(s) && s@ == formatted(token_seq(tokens@), *config),
{
    let ghost ts = token_seq(tokens@);
    proof {
        reveal_strlit("\n");
    }
    if tokens.len() == 0 {
        let mut s = String::new();
        if config.trailing_newline {
            s.append("\n");
        }
        return Ok(s);
    }
    let mut out = String::new();
    let mut nl: bool = false;
    let mut depth: i32 = 0;
    let mut i: usize = 0;
    while i < tokens.len()
        invariant
            0 <= i <= tokens@.len(),
            ts == token_seq(tokens@),
            fmt_safe(ts, *config),
            (out@, depth as int) == fmt_fold(ts, i as nat, *config),
            nl == ends_nl(out@),
        decreases tokens@.len() - i,
    {
        let t = &tokens[i];
        proof {
            assert(ts[i as int] == (t.kind, t.text@));
            assert(fmt_fold(ts, (i + 1) as nat, *config) == fmt_step(fmt_fold(ts, i as nat, *config), t.kind, t.text@, *config));
        }
        let (o, n2, d2) = format_token(out, nl, depth, t, config);
        out = o;
        nl = n2;
        depth = d2;
        i = i + 1;
    }
    proof {
        reveal_strlit("\n");
    }
    if config.trailing_newline && !nl {
        out.append("\n");
    }
    Ok(out)
}

} // verus!
