//! Syntax highlighting of code with syntect's bundled syntaxes and themes:
//! which syntax and theme are used, and how syntect's coloured pieces become
//! styled spans.
use syntect::easy::HighlightLines;
use syntect::highlighting::ThemeSet;
use syntect::parsing::SyntaxSet;
use syntect::util::LinesWithEndings;
use vstd::prelude::*;

verus! {

#[verifier::external_type_specification]
#[verifier::external_body]
pub struct ExSyntaxSet(syntect::parsing::SyntaxSet);

#[verifier::external_type_specification]
#[verifier::external_body]
pub struct ExThemeSet(syntect::highlighting::ThemeSet);

/// syntect's bundled syntax set (for lines that keep their `'\n'`) and
/// bundled theme set. A value is only made by [`Highlighter::new`], so the
/// sets are always the bundled ones.
pub struct Highlighter {
    syntaxes: SyntaxSet,
    themes: ThemeSet,
}

/// `SyntaxSet::load_defaults_newlines`: the bundled syntaxes.
#[verifier::external_body]
fn bundled_syntaxes() -> (s: SyntaxSet) {
    SyntaxSet::load_defaults_newlines()
}

/// `ThemeSet::load_defaults`: the bundled themes.
#[verifier::external_body]
fn bundled_themes() -> (t: ThemeSet) {
    ThemeSet::load_defaults()
}

impl Highlighter {
    /// Loads the bundled syntaxes and themes.
    pub fn new() -> (h: Highlighter) {
        Highlighter { syntaxes: bundled_syntaxes(), themes: bundled_themes() }
    }
}

/// Whether a bundled syntax lists `ext` among its file extensions.
pub uninterp spec fn syntax_for_extension(ext: Seq<char>) -> bool;

/// Whether a bundled syntax has the name `name`.
pub uninterp spec fn syntax_named(name: Seq<char>) -> bool;

/// Whether a bundled theme has the name `name`.
pub uninterp spec fn theme_named(name: Seq<char>) -> bool;

/// A piece of a highlighted line: the red, green, blue and alpha parts of
/// its foreground colour, and its text.
pub type ColoredPiece = (u8, u8, u8, u8, String);

/// The value of a [`ColoredPiece`].
pub open spec fn piece_value(p: ColoredPiece) -> (u8, u8, u8, u8, Seq<char>) {
    (p.0, p.1, p.2, p.3, p.4@)
}

/// A line of code with its highlighted pieces, `None` where syntect failed
/// on the line.
pub type HighlightedLine = (String, Option<Vec<ColoredPiece>>);

/// The value of a [`HighlightedLine`].
pub open spec fn line_value(l: HighlightedLine) -> (
    Seq<char>,
    Option<Seq<(u8, u8, u8, u8, Seq<char>)>>,
) {
    (
        l.0@,
        match l.1 {
            Some(ps) => Some(ps@.map_values(|p: ColoredPiece| piece_value(p))),
            None => None,
        },
    )
}

/// The values of highlighted lines.
pub open spec fn lines_value(ls: Seq<HighlightedLine>) -> Seq<
    (Seq<char>, Option<Seq<(u8, u8, u8, u8, Seq<char>)>>),
> {
    ls.map_values(|l: HighlightedLine| line_value(l))
}

/// The texts of highlighted lines put together.
pub open spec fn lines_text(ls: Seq<(Seq<char>, Option<Seq<(u8, u8, u8, u8, Seq<char>)>>)>) -> Seq<
    char,
> {
    ls.map_values(|l: (Seq<char>, Option<Seq<(u8, u8, u8, u8, Seq<char>)>>)| l.0).flatten()
}

/// What syntect makes of `code`, line by line, with the syntax found for
/// the extension `ext` and the theme `theme`.
pub uninterp spec fn lines_by_extension(code: Seq<char>, ext: Seq<char>, theme: Seq<char>) -> Seq<
    (Seq<char>, Option<Seq<(u8, u8, u8, u8, Seq<char>)>>),
>;

/// What syntect makes of `code`, line by line, with the plain-text syntax
/// and the theme `theme`.
pub uninterp spec fn lines_plain_text(code: Seq<char>, theme: Seq<char>) -> Seq<
    (Seq<char>, Option<Seq<(u8, u8, u8, u8, Seq<char>)>>),
>;

/// `SyntaxSet::find_syntax_by_extension(ext).is_some()` on the bundled
/// syntaxes; named by [`syntax_for_extension`].
#[verifier::external_body]
fn has_syntax_for_extension(h: &Highlighter, ext: &str) -> (b: bool)
    ensures
        b == syntax_for_extension(ext@),
{
    h.syntaxes.find_syntax_by_extension(ext).is_some()
}

/// `SyntaxSet::find_syntax_by_name(name).is_some()` on the bundled
/// syntaxes; named by [`syntax_named`].
#[verifier::external_body]
fn has_syntax_named(h: &Highlighter, name: &str) -> (b: bool)
    ensures
        b == syntax_named(name@),
{
    h.syntaxes.find_syntax_by_name(name).is_some()
}

/// Whether the bundled themes (`ThemeSet::load_defaults`) hold one named
/// `name`; named by [`theme_named`]. The documentation of `load_defaults`
/// lists `base16-eighties.dark` among them.
#[verifier::external_body]
fn has_theme(h: &Highlighter, name: &str) -> (b: bool)
    ensures
        b == theme_named(name@),
        name@ == "base16-eighties.dark"@ ==> b,
{
    h.themes.themes.contains_key(name)
}

/// `HighlightLines::highlight_line` over each line of `code`, as
/// `LinesWithEndings` yields them (each with its line ending), with the
/// syntax for `ext` and the theme `theme`: each line with its coloured
/// pieces, or `None` where syntect failed on it. The lines put together are
/// `code`; what syntect makes of them is named by [`lines_by_extension`].
#[verifier::external_body]
fn highlight_by_extension(h: &Highlighter, code: &str, ext: &str, theme: &str) -> (r: Vec<
    HighlightedLine,
>)
    requires
        syntax_for_extension(ext@),
        theme_named(theme@),
    ensures
        lines_value(r@) == lines_by_extension(code@, ext@, theme@),
        lines_text(lines_value(r@)) == code@,
{
    let ss = &h.syntaxes;
    let mut hl = HighlightLines::new(ss.find_syntax_by_extension(ext).unwrap(), &h.themes.themes[theme]);
    LinesWithEndings::from(code).map(|line| {
        let pieces = hl.highlight_line(line, ss).ok().map(|v| v.into_iter().map(|(s, t)|
            (s.foreground.r, s.foreground.g, s.foreground.b, s.foreground.a, t.to_string())).collect());
        (line.to_string(), pieces)
    }).collect()
}

/// As [`highlight_by_extension`], with the plain-text syntax
/// (`SyntaxSet::find_syntax_plain_text`); named by [`lines_plain_text`].
#[verifier::external_body]
fn highlight_plain_text(h: &Highlighter, code: &str, theme: &str) -> (r: Vec<HighlightedLine>)
    requires
        syntax_named("Plain Text"@),
        theme_named(theme@),
    ensures
        lines_value(r@) == lines_plain_text(code@, theme@),
        lines_text(lines_value(r@)) == code@,
{
    let ss = &h.syntaxes;
    let mut hl = HighlightLines::new(ss.find_syntax_plain_text(), &h.themes.themes[theme]);
    LinesWithEndings::from(code).map(|line| {
        let pieces = hl.highlight_line(line, ss).ok().map(|v| v.into_iter().map(|(s, t)|
            (s.foreground.r, s.foreground.g, s.foreground.b, s.foreground.a, t.to_string())).collect());
        (line.to_string(), pieces)
    }).collect()
}

/// The colour a span is drawn in.
#[derive(Debug, Clone, Copy, PartialEq, Eq, Hash, Structural)]
pub enum SpanColor {
    /// No style at all (a line shown as it is).
    Plain,
    /// The terminal's default foreground.
    Reset,
    /// A foreground colour by its red, green and blue parts.
    Rgb(u8, u8, u8),
}

/// A piece of text and its colour.
#[derive(Debug, Clone, PartialEq, Eq)]
pub struct CodeSpan {
    pub text: String,
    pub color: SpanColor,
}

/// The value of a [`CodeSpan`].
pub open spec fn span_value(s: CodeSpan) -> (Seq<char>, SpanColor) {
    (s.text@, s.color)
}

/// The values of highlighted lines of spans.
pub open spec fn spans_value(v: Seq<Vec<CodeSpan>>) -> Seq<Seq<(Seq<char>, SpanColor)>> {
    v.map_values(|l: Vec<CodeSpan>| l@.map_values(|s: CodeSpan| span_value(s)))
}

/// The theme used for `theme`: itself when it is a bundled theme, else
/// `base16-eighties.dark`.
pub open spec fn theme_used(theme: Seq<char>) -> Seq<char> {
    if theme_named(theme) {
        theme
    } else {
        "base16-eighties.dark"@
    }
}

/// A syntax can be found for `ext`: its own, the one for `"txt"`, or plain
/// text.
pub open spec fn some_syntax(ext: Seq<char>) -> bool {
    syntax_for_extension(ext) || syntax_for_extension("txt"@) || syntax_named("Plain Text"@)
}

/// What syntect makes of `code` with the syntax for `ext` (else the one for
/// `"txt"`, else plain text) and the theme used for `theme`.
pub open spec fn chosen_lines(code: Seq<char>, ext: Seq<char>, theme: Seq<char>) -> Seq<
    (Seq<char>, Option<Seq<(u8, u8, u8, u8, Seq<char>)>>),
> {
    if syntax_for_extension(ext) {
        lines_by_extension(code, ext, theme_used(theme))
    } else if syntax_for_extension("txt"@) {
        lines_by_extension(code, "txt"@, theme_used(theme))
    } else {
        lines_plain_text(code, theme_used(theme))
    }
}

/// A coloured piece as a span: a colour with alpha 0 is the default colour.
pub open spec fn piece_span(p: (u8, u8, u8, u8, Seq<char>)) -> (Seq<char>, SpanColor) {
    (
        p.4,
        if p.3 == 0 {
            SpanColor::Reset
        } else {
            SpanColor::Rgb(p.0, p.1, p.2)
        },
    )
}

/// A highlighted line as spans: its pieces, or the line's own text
/// unstyled where syntect failed on it.
pub open spec fn line_spans(l: (Seq<char>, Option<Seq<(u8, u8, u8, u8, Seq<char>)>>)) -> Seq<
    (Seq<char>, SpanColor),
> {
    match l.1 {
        Some(ps) => ps.map_values(|p: (u8, u8, u8, u8, Seq<char>)| piece_span(p)),
        None => seq![(l.0, SpanColor::Plain)],
    }
}

/// The spans of each line of highlighted `code`.
pub open spec fn highlight_spec(code: Seq<char>, ext: Seq<char>, theme: Seq<char>) -> Seq<
    Seq<(Seq<char>, SpanColor)>,
> {
    chosen_lines(code, ext, theme).map_values(
        |l: (Seq<char>, Option<Seq<(u8, u8, u8, u8, Seq<char>)>>)| line_spans(l),
    )
}

fn piece_to_span(p: &ColoredPiece) -> (s: CodeSpan)
    ensures
        span_value(s) == piece_span(piece_value(*p)),
{
    let color = if p.3 == 0 {
        SpanColor::Reset
    } else {
        SpanColor::Rgb(p.0, p.1, p.2)
    };
    CodeSpan { text: p.4.clone(), color }
}

fn line_to_spans(l: &HighlightedLine) -> (r: Vec<CodeSpan>)
    ensures
        r@.map_values(|s: CodeSpan| span_value(s)) == line_spans(line_value(*l)),
{
    match &l.1 {
        None => {
            let mut r: Vec<CodeSpan> = Vec::new();
            r.push(CodeSpan { text: l.0.clone(), color: SpanColor::Plain });
            assert(r@.map_values(|s: CodeSpan| span_value(s)) =~= line_spans(line_value(*l)));
            r
        },
        Some(ps) => {
            let ghost pv = ps@.map_values(|p: ColoredPiece| piece_value(p));
            let mut r: Vec<CodeSpan> = Vec::new();
            let mut i: usize = 0;
            while i < ps.len()
                invariant
                    i <= ps@.len(),
                    pv == ps@.map_values(|p: ColoredPiece| piece_value(p)),
                    r@.map_values(|s: CodeSpan| span_value(s)) == pv.take(i as int).map_values(
                        |p: (u8, u8, u8, u8, Seq<char>)| piece_span(p),
                    ),
                decreases ps@.len() - i,
            {
                let s = piece_to_span(&ps[i]);
                assert(pv[i as int] == piece_value(ps@[i as int]));
                let ghost before = r@.map_values(|s: CodeSpan| span_value(s));
                r.push(s);
                assert(r@.map_values(|s: CodeSpan| span_value(s)) =~= before.push(span_value(s)));
                assert(pv.take(i + 1) =~= pv.take(i as int).push(pv[i as int]));
                assert(r@.map_values(|s: CodeSpan| span_value(s)) =~= pv.take(i + 1).map_values(
                    |p: (u8, u8, u8, u8, Seq<char>)| piece_span(p),
                ));
                i += 1;
            }
            assert(pv.take(ps@.len() as int) =~= pv);
            r
        },
    }
}

fn lines_to_spans(ls: &Vec<HighlightedLine>) -> (r: Vec<Vec<CodeSpan>>)
    ensures
        spans_value(r@) == lines_value(ls@).map_values(
            |l: (Seq<char>, Option<Seq<(u8, u8, u8, u8, Seq<char>)>>)| line_spans(l),
        ),
{
    let ghost lv = lines_value(ls@);
    let mut r: Vec<Vec<CodeSpan>> = Vec::new();
    let mut i: usize = 0;
    while i < ls.len()
        invariant
            i <= ls@.len(),
            lv == lines_value(ls@),
            spans_value(r@) == lv.take(i as int).map_values(
                |l: (Seq<char>, Option<Seq<(u8, u8, u8, u8, Seq<char>)>>)| line_spans(l),
            ),
        decreases ls@.len() - i,
    {
        let line = line_to_spans(&ls[i]);
        assert(lv[i as int] == line_value(ls@[i as int]));
        let ghost before = spans_value(r@);
        let ghost lsv = line@.map_values(|s: CodeSpan| span_value(s));
        r.push(line);
        assert(spans_value(r@) =~= before.push(lsv));
        assert(lv.take(i + 1) =~= lv.take(i as int).push(lv[i as int]));
        assert(spans_value(r@) =~= lv.take(i + 1).map_values(
            |l: (Seq<char>, Option<Seq<(u8, u8, u8, u8, Seq<char>)>>)| line_spans(l),
        ));
        i += 1;
    }
    assert(lv.take(ls@.len() as int) =~= lv);
    r
}

/// Highlights `code` line by line: with the syntax for the extension
/// `extension`, else the one for `"txt"`, else plain text; with the theme
/// `theme_name`, else `base16-eighties.dark`. Each piece becomes a span in
/// its foreground colour (the default colour where the colour's alpha is
/// 0); a line that syntect fails on is kept as its unstyled text.
pub fn highlight_code(h: &Highlighter, code: &str, extension: &str, theme_name: &str) -> (r: Vec<
    Vec<CodeSpan>,
>)
    requires
        some_syntax(extension@),
    ensures
        spans_value(r@) == highlight_spec(code@, extension@, theme_name@),
{
    let fallback = "base16-eighties.dark";
    let theme = if has_theme(h, theme_name) {
        theme_name
    } else {
        proof {
            reveal_strlit("base16-eighties.dark");
        }
        let ok = has_theme(h, fallback);
        assert(ok);
        fallback
    };
    assert(theme@ == theme_used(theme_name@));
    let txt = "txt";
    let lines = if has_syntax_for_extension(h, extension) {
        highlight_by_extension(h, code, extension, theme)
    } else if has_syntax_for_extension(h, txt) {
        highlight_by_extension(h, code, txt, theme)
    } else {
        let plain = "Plain Text";
        let ok = has_syntax_named(h, plain);
        assert(ok);
        highlight_plain_text(h, code, theme)
    };
    lines_to_spans(&lines)
}

/// As [`highlight_code`], except that empty code gives one empty line.
pub fn highlight_code_lines(h: &Highlighter, code: &str, extension: &str, theme_name: &str) -> (r:
    Vec<Vec<CodeSpan>>)
    requires
        some_syntax(extension@),
    ensures
        code@.len() == 0 ==> spans_value(r@) == seq![seq![(Seq::<char>::empty(), SpanColor::Plain)]],
        code@.len() > 0 ==> spans_value(r@) == highlight_spec(code@, extension@, theme_name@),
{
    if code.is_empty() {
        let mut line: Vec<CodeSpan> = Vec::new();
        line.push(CodeSpan { text: String::new(), color: SpanColor::Plain });
        let mut r: Vec<Vec<CodeSpan>> = Vec::new();
        r.push(line);
        assert(r@[0]@.map_values(|s: CodeSpan| span_value(s)) =~= seq![
            (Seq::<char>::empty(), SpanColor::Plain),
        ]);
        assert(spans_value(r@) =~= seq![seq![(Seq::<char>::empty(), SpanColor::Plain)]]);
        return r;
    }
    highlight_code(h, code, extension, theme_name)
}

/// [`highlight_code_lines`] when a syntax can be found for `extension`
/// (its own, the one for `"txt"` or plain text); `None` when none can, where
/// syntect would have no syntax to highlight with.
pub fn try_highlight_code_lines(h: &Highlighter, code: &str, extension: &str, theme_name: &str) -> (r:
    Option<Vec<Vec<CodeSpan>>>)
    ensures
        r is None <==> !some_syntax(extension@),
        code@.len() == 0 ==> (r matches Some(v) ==> spans_value(v@) == seq![
            seq![(Seq::<char>::empty(), SpanColor::Plain)],
        ]),
        code@.len() > 0 ==> (r matches Some(v) ==> spans_value(v@) == highlight_spec(
            code@,
            extension@,
            theme_name@,
        )),
{
    if has_syntax_for_extension(h, extension) || has_syntax_for_extension(h, "txt")
        || has_syntax_named(h, "Plain Text") {
        Some(highlight_code_lines(h, code, extension, theme_name))
    } else {
        None
    }
}

} // verus!
