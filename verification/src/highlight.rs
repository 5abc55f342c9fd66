use vstd::prelude::*;
use crate::color::Color;
use crate::error::RenderError;
use crate::lines::{SpanView, StyledSpan};
use crate::text::{lines_with_endings, split_lines};
use crate::theme::{code_background, fallback_background};

verus! {

/// `SyntaxSet` of the `syntect` crate: a set of syntax definitions. It is
/// carried through as it is.
#[verifier::external_type_specification]
#[verifier::external_body]
pub struct ExSyntaxSet(syntect::parsing::SyntaxSet);

/// `SyntaxReference` of the `syntect` crate: one syntax definition of a
/// set.
#[verifier::external_type_specification]
#[verifier::external_body]
pub struct ExSyntaxReference(syntect::parsing::SyntaxReference);

/// `Theme` of the `syntect` crate: the colours of a highlighting theme.
#[verifier::external_type_specification]
#[verifier::external_body]
pub struct ExTheme(syntect::highlighting::Theme);

/// `HighlightLines` of the `syntect` crate: the state of highlighting a
/// file line by line.
#[verifier::external_type_specification]
#[verifier::external_body]
pub struct ExHighlightLines<'a>(syntect::easy::HighlightLines<'a>);

/// `Error` of the `syntect` crate: why a line could not be highlighted.
#[verifier::external_type_specification]
#[verifier::external_body]
pub struct ExHighlightError(syntect::Error);

/// Whether a syntax set holds the syntaxes that the highlighter carries
/// with it, as `SyntaxSet::load_defaults_newlines` unpacks them.
pub uninterp spec fn is_default_set(set: syntect::parsing::SyntaxSet) -> bool;

/// The name of a syntax: its field `name`.
pub uninterp spec fn syntax_name(syntax: syntect::parsing::SyntaxReference) -> Seq<char>;

/// The name of the built-in syntax that a language token, a file
/// extension or a name finds, if it finds one.
pub uninterp spec fn syntax_found(token: Seq<char>) -> Option<Seq<char>>;

/// The key under which a theme stands in the map of built-in themes.
pub uninterp spec fn theme_key(theme: syntect::highlighting::Theme) -> Seq<char>;

/// The background that the built-in theme of this key declares, if it
/// declares one.
pub uninterp spec fn theme_background(key: Seq<char>) -> Option<Color>;

/// What a highlighter has been given: the name of its syntax, the key of
/// its theme, and then the lines that it has highlighted, in order.
pub uninterp spec fn highlighter_history(
    highlighter: syntect::easy::HighlightLines<'_>,
) -> Seq<Seq<char>>;

/// The spans that the highlighter cuts `line` into, with the syntax and
/// the theme of these names and after the lines `before`; `None` where it
/// fails on the line.
pub uninterp spec fn spans_of(
    syntax: Seq<char>,
    theme: Seq<char>,
    before: Seq<Seq<char>>,
    line: Seq<char>,
) -> Option<Seq<SpanView>>;

/// Whether the highlighter has a built-in theme under this key. Its seven
/// keys are listed in the documentation of `ThemeSet::load_defaults`.
pub open spec fn is_builtin_theme(key: Seq<char>) -> bool {
    ||| key == "base16-ocean.dark"@
    ||| key == "base16-eighties.dark"@
    ||| key == "base16-mocha.dark"@
    ||| key == "base16-ocean.light"@
    ||| key == "InspiredGitHub"@
    ||| key == "Solarized (dark)"@
    ||| key == "Solarized (light)"@
}

/// The texts of the spans of a line, one after the other.
pub open spec fn line_text(spans: Seq<SpanView>) -> Seq<char>
    decreases spans.len(),
{
    if spans.len() == 0 {
        Seq::empty()
    } else {
        line_text(spans.drop_last()) + spans.last().text
    }
}

/// Loads the built-in syntaxes. This is
/// `SyntaxSet::load_defaults_newlines` of the `syntect` crate, which
/// unpacks the set that the crate carries.
#[verifier::external_body]
fn load_syntaxes() -> (set: syntect::parsing::SyntaxSet)
    ensures
        is_default_set(set),
{
    syntect::parsing::SyntaxSet::load_defaults_newlines()
}

/// Looks a syntax up by a language token, a file extension or a name.
/// This is `SyntaxSet::find_syntax_by_token` of the `syntect` crate. In
/// the built-in set, where no two syntaxes have one name, which syntax it
/// finds depends on the token alone; that syntax is named here, not
/// stated.
#[verifier::external_body]
fn find_syntax<'a>(set: &'a syntect::parsing::SyntaxSet, token: &str) -> (syntax: Option<
    &'a syntect::parsing::SyntaxReference,
>)
    requires
        is_default_set(*set),
    ensures
        syntax is Some ==> syntax_found(token@) == Some(syntax_name(*syntax->0)),
        syntax is None ==> syntax_found(token@) is None,
{
    set.find_syntax_by_token(token)
}

/// The syntax for text that is no code. This is
/// `SyntaxSet::find_syntax_plain_text` of the `syntect` crate, which looks
/// for the syntax of the name `Plain Text` and panics on a set without
/// it; the built-in set has it.
#[verifier::external_body]
fn plain_text_syntax<'a>(set: &'a syntect::parsing::SyntaxSet) -> (syntax:
    &'a syntect::parsing::SyntaxReference)
    requires
        is_default_set(*set),
    ensures
        syntax_name(*syntax) == "Plain Text"@,
{
    set.find_syntax_plain_text()
}

/// The built-in theme under this key. This is `ThemeSet::load_defaults`
/// of the `syntect` crate, which unpacks the themes that the crate
/// carries, and the entry of its map `themes` under `key`. The
/// documentation of `load_defaults` lists the keys of the map.
#[verifier::external_body]
fn builtin_theme(key: &str) -> (theme: Option<syntect::highlighting::Theme>)
    ensures
        theme is Some <==> is_builtin_theme(key@),
        theme is Some ==> theme_key(theme->0) == key@,
{
    syntect::highlighting::ThemeSet::load_defaults().themes.remove(key)
}

/// The background that a theme declares, if it declares one: the field
/// `settings.background` of a `Theme` of the `syntect` crate, without its
/// alpha channel.
#[verifier::external_body]
fn declared_background(theme: &syntect::highlighting::Theme) -> (color: Option<Color>)
    ensures
        color == theme_background(theme_key(*theme)),
{
    theme.settings.background.map(|c| Color { r: c.r, g: c.g, b: c.b })
}

/// Starts highlighting at the top of a file. This is
/// `HighlightLines::new` of the `syntect` crate; the highlighter has then
/// been given its syntax and its theme, and no line yet.
#[verifier::external_body]
fn new_highlighter<'a>(
    syntax: &syntect::parsing::SyntaxReference,
    theme: &'a syntect::highlighting::Theme,
) -> (highlighter: syntect::easy::HighlightLines<'a>)
    ensures
        highlighter_history(highlighter) == seq![syntax_name(*syntax), theme_key(*theme)],
{
    syntect::easy::HighlightLines::new(syntax, theme)
}

/// Highlights the next line. This is `HighlightLines::highlight_line` of
/// the `syntect` crate. What it hands out depends on the syntax, the
/// theme, the lines that went before and the line; it is named here, not
/// stated. Each piece is taken over with its text and the red, green and
/// blue of its foreground. The iterator that yields the pieces documents,
/// at its method `next`, that the texts of the pieces, put together, are
/// the line.
#[verifier::external_body]
fn highlight_line(
    highlighter: &mut syntect::easy::HighlightLines<'_>,
    line: &str,
    set: &syntect::parsing::SyntaxSet,
) -> (spans: Result<Vec<StyledSpan>, syntect::Error>)
    requires
        is_default_set(*set),
        highlighter_history(*old(highlighter)).len() >= 2,
    ensures
        spans is Ok <==> spans_of(
            highlighter_history(*old(highlighter))[0],
            highlighter_history(*old(highlighter))[1],
            highlighter_history(*old(highlighter)).skip(2),
            line@,
        ) is Some,
        spans is Ok ==> spans->Ok_0.deep_view() == spans_of(
            highlighter_history(*old(highlighter))[0],
            highlighter_history(*old(highlighter))[1],
            highlighter_history(*old(highlighter)).skip(2),
            line@,
        )->0,
        spans is Ok ==> line_text(spans->Ok_0.deep_view()) == line@,
        spans is Ok ==> highlighter_history(*final(highlighter)) == highlighter_history(
            *old(highlighter),
        ).push(line@),
{
    let pieces = highlighter.highlight_line(line, set)?;
    let mut spans = Vec::new();
    for (style, text) in pieces {
        let f = style.foreground;
        spans.push(StyledSpan { text: text.to_string(), foreground: Color { r: f.r, g: f.g, b: f.b } });
    }
    Ok(spans)
}

/// Highlighted code: the background of its picture and its lines, each a
/// row of spans.
pub struct Highlighted {
    pub background: Color,
    pub lines: Vec<Vec<StyledSpan>>,
}

/// The name of the syntax that code in the language `lang` is highlighted
/// with: the built-in syntax that the token finds, or `Plain Text` where
/// it finds none.
pub open spec fn chosen_syntax(lang: Seq<char>) -> Seq<char> {
    match syntax_found(lang) {
        Some(name) => name,
        None => "Plain Text"@,
    }
}

/// The spans of line `i` of `code`, highlighted as `lang` in the theme
/// `theme` after the lines before it; `None` where the highlighter fails
/// on the line.
pub open spec fn highlighted_line(
    code: Seq<char>,
    lang: Seq<char>,
    theme: Seq<char>,
    i: int,
) -> Option<Seq<SpanView>> {
    let lines = lines_with_endings(code);
    spans_of(chosen_syntax(lang), theme, lines.take(i), lines[i])
}

/// Whether the highlighter reads every line of `code`.
pub open spec fn can_highlight(code: Seq<char>, lang: Seq<char>, theme: Seq<char>) -> bool {
    forall|i: int|
        0 <= i < lines_with_endings(code).len() ==> (#[trigger] highlighted_line(
            code,
            lang,
            theme,
            i,
        )) is Some
}

/// The background of code in the built-in theme `theme`: the one that the
/// theme declares, or the fallback where it declares none.
pub open spec fn background_of(theme: Seq<char>) -> Color {
    match theme_background(theme) {
        Some(c) => c,
        None => fallback_background(),
    }
}

/// Whether `lines` are the lines of `code`, each cut into spans: there is
/// one row of spans for each line, and the texts of a row, put together,
/// are its line with the line feed that ends it.
pub open spec fn covers_code(lines: Seq<Seq<SpanView>>, code: Seq<char>) -> bool {
    &&& lines.len() == lines_with_endings(code).len()
    &&& forall|i: int|
        0 <= i < lines.len() ==> line_text(#[trigger] lines[i]) == lines_with_endings(code)[i]
}

/// Highlights `code` as the language `lang` in the theme `theme_name`.
///
/// The theme has to be one of the built-in themes: another name is an
/// error. A language that is not known is no error: the code is then
/// highlighted as plain text. Every line is highlighted after the lines
/// before it, and the whole fails where the highlighter fails on a line.
/// The background is the one that the theme declares, or the fallback.
pub fn highlight(code: &str, lang: &str, theme_name: &str) -> (r: Result<Highlighted, RenderError>)
    ensures
        r is Ok <==> is_builtin_theme(theme_name@) && can_highlight(code@, lang@, theme_name@),
        r is Err ==> r->Err_0 == if is_builtin_theme(theme_name@) {
            RenderError::HighlightFailed
        } else {
            RenderError::ThemeNotFound
        },
        r is Ok ==> r->Ok_0.background == background_of(theme_name@),
        r is Ok ==> r->Ok_0.lines.len() == lines_with_endings(code@).len(),
        r is Ok ==> forall|i: int|
            0 <= i < r->Ok_0.lines.len() ==> (#[trigger] r->Ok_0.lines.deep_view()[i])
                == highlighted_line(code@, lang@, theme_name@, i)->0,
        r is Ok ==> covers_code(r->Ok_0.lines.deep_view(), code@),
{
    let theme = match builtin_theme(theme_name) {
        Some(t) => t,
        None => {
            return Err(RenderError::ThemeNotFound);
        },
    };
    let set = load_syntaxes();
    let syntax = match find_syntax(&set, lang) {
        Some(s) => s,
        None => plain_text_syntax(&set),
    };
    let background = code_background(declared_background(&theme));
    let mut highlighter = new_highlighter(syntax, &theme);
    let source = split_lines(code);
    let ghost all = lines_with_endings(code@);
    let ghost top = seq![chosen_syntax(lang@), theme_name@];
    let mut lines: Vec<Vec<StyledSpan>> = Vec::new();
    let mut i: usize = 0;
    proof {
        assert(source.deep_view().len() == source.len());
        assert(highlighter_history(highlighter) =~= top + all.take(0));
    }
    while i < source.len()
        invariant
            i <= source.len(),
            is_builtin_theme(theme_name@),
            is_default_set(set),
            all == lines_with_endings(code@),
            top == seq![chosen_syntax(lang@), theme_name@],
            source.deep_view() == all,
            source.len() == all.len(),
            highlighter_history(highlighter) == top + all.take(i as int),
            lines.len() == i,
            forall|k: int|
                0 <= k < i ==> (#[trigger] highlighted_line(code@, lang@, theme_name@, k))
                    is Some,
            forall|k: int|
                0 <= k < i ==> (#[trigger] lines@[k]).deep_view() == highlighted_line(
                    code@,
                    lang@,
                    theme_name@,
                    k,
                )->0,
            forall|k: int| 0 <= k < i ==> line_text((#[trigger] lines@[k]).deep_view()) == all[k],
        decreases source.len() - i,
    {
        let ghost past = highlighter_history(highlighter);
        proof {
            assert(source.deep_view()[i as int] == source@[i as int]@);
            assert(past[0] == chosen_syntax(lang@));
            assert(past[1] == theme_name@);
            assert(past.skip(2) =~= all.take(i as int));
        }
        let spans = match highlight_line(&mut highlighter, source[i].as_str(), &set) {
            Ok(s) => s,
            Err(e) => {
                proof {
                    assert(highlighted_line(code@, lang@, theme_name@, i as int) is None);
                }
                return Err(RenderError::HighlightFailed);
            },
        };
        proof {
            assert(past.push(all[i as int]) =~= top + all.take(i + 1));
        }
        lines.push(spans);
        i += 1;
    }
    proof {
        assert(lines.deep_view().len() == lines.len());
    }
    Ok(Highlighted { background, lines })
}

} // verus!
