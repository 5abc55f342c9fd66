use vstd::prelude::*;
use vstd::string::StringExecFns;
use crate::text::same_text;

verus! {

/// The style sheet of the dark page.
pub const DARK_CSS: &'static str = r#"
    body {
        margin: 0; padding: 24px 32px;
        background: #2b303b;
        color: #c0c5ce;
        font-family: -apple-system, 'Segoe UI', Helvetica, Arial, sans-serif,
                     'Apple Color Emoji', 'Segoe UI Emoji';
        font-size: 16px;
        line-height: 1.6;
    }
    h1, h2, h3, h4, h5, h6 {
        color: #ebcb8b;
        margin-top: 1em; margin-bottom: 0.4em;
        border-bottom: 1px solid #414959;
        padding-bottom: 0.3em;
    }
    h1 { font-size: 1.8em; }
    h2 { font-size: 1.4em; }
    h3 { font-size: 1.2em; }
    a { color: #8fa1b3; }
    strong { color: #d8dee9; }
    code {
        font-family: 'JetBrains Mono', 'SF Mono', 'Menlo', 'Consolas', monospace;
        background: #1e222a;
        padding: 2px 6px;
        border-radius: 4px;
        font-size: 0.9em;
    }
    pre {
        background: #1e222a;
        border: 1px solid #414959;
        border-radius: 6px;
        padding: 16px 20px;
        overflow-x: auto;
        line-height: 1.5;
    }
    pre code {
        background: none;
        padding: 0;
    }
    blockquote {
        border-left: 4px solid #ebcb8b;
        margin: 1em 0;
        padding: 0.5em 1em;
        background: #262b35;
        border-radius: 0 6px 6px 0;
    }
    table {
        border-collapse: collapse;
        border: 1px solid #414959;
        margin: 1em 0;
        width: auto;
    }
    th {
        background: #1e222a;
        color: #ebcb8b;
        padding: 10px 20px;
        border: 1px solid #414959;
        text-align: left;
        white-space: nowrap;
    }
    td {
        padding: 10px 20px;
        border: 1px solid #414959;
        white-space: nowrap;
    }
    tr:nth-child(even) td { background: #262b35; }
    tr:nth-child(odd) td  { background: #2b303b; }
    ul, ol { padding-left: 1.5em; }
    li { margin: 0.3em 0; }
    hr { border: none; border-top: 1px solid #414959; margin: 1.5em 0; }
    img { max-width: 100%; }
"#;

/// The style sheet of the light page.
pub const LIGHT_CSS: &'static str = r#"
    body {
        margin: 0; padding: 24px 32px;
        background: #ffffff;
        color: #333333;
        font-family: -apple-system, 'Segoe UI', Helvetica, Arial, sans-serif,
                     'Apple Color Emoji', 'Segoe UI Emoji';
        font-size: 16px;
        line-height: 1.6;
    }
    h1, h2, h3, h4, h5, h6 {
        color: #1a1a1a;
        margin-top: 1em; margin-bottom: 0.4em;
        border-bottom: 1px solid #e0e0e0;
        padding-bottom: 0.3em;
    }
    h1 { font-size: 1.8em; }
    h2 { font-size: 1.4em; }
    h3 { font-size: 1.2em; }
    a { color: #0366d6; }
    code {
        font-family: 'JetBrains Mono', 'SF Mono', 'Menlo', 'Consolas', monospace;
        background: #f0f0f0;
        padding: 2px 6px;
        border-radius: 4px;
        font-size: 0.9em;
    }
    pre {
        background: #f6f8fa;
        border: 1px solid #e0e0e0;
        border-radius: 6px;
        padding: 16px 20px;
        overflow-x: auto;
        line-height: 1.5;
    }
    pre code { background: none; padding: 0; }
    blockquote {
        border-left: 4px solid #0366d6;
        margin: 1em 0;
        padding: 0.5em 1em;
        background: #f6f8fa;
        border-radius: 0 6px 6px 0;
    }
    table {
        border-collapse: collapse;
        border: 1px solid #d0d0d0;
        margin: 1em 0;
        width: auto;
    }
    th {
        background: #f0f0f0;
        color: #1a1a1a;
        padding: 10px 20px;
        border: 1px solid #d0d0d0;
        text-align: left;
        white-space: nowrap;
    }
    td {
        padding: 10px 20px;
        border: 1px solid #d0d0d0;
        white-space: nowrap;
    }
    tr:nth-child(even) td { background: #f8f8f8; }
    ul, ol { padding-left: 1.5em; }
    li { margin: 0.3em 0; }
    hr { border: none; border-top: 1px solid #e0e0e0; margin: 1.5em 0; }
    img { max-width: 100%; }
"#;

/// The HTML that markdown text turns into, with or without the
/// extensions for tables, for strikethrough and for task lists.
pub uninterp spec fn rendered_markdown(
    md: Seq<char>,
    tables: bool,
    strikethrough: bool,
    tasklists: bool,
) -> Seq<char>;

/// The style sheet that goes by `name`: the light one for `light`, the
/// dark one for every other name.
pub open spec fn style_sheet(name: Seq<char>) -> Seq<char> {
    if name == "light"@ {
        LIGHT_CSS@
    } else {
        DARK_CSS@
    }
}

/// A whole HTML page with the style sheet `css` in its head and `body` as
/// its body.
pub open spec fn page(css: Seq<char>, body: Seq<char>) -> Seq<char> {
    "<!DOCTYPE html>\n<html>\n<head>\n<meta charset=\"UTF-8\">\n<style>"@ + css
        + "</style>\n</head>\n<body>\n"@ + body + "\n</body>\n</html>"@
}

/// Turns markdown into HTML. This is `html::push_html` of the
/// `pulldown-cmark` crate on a `Parser` for `md` with the three extensions
/// switched on or off. What it writes depends on the text and the
/// switches alone; it is not stated here, only named.
#[verifier::external_body]
fn render_markdown(md: &str, tables: bool, strikethrough: bool, tasklists: bool) -> (html: String)
    ensures
        html@ == rendered_markdown(md@, tables, strikethrough, tasklists),
{
    let mut options = pulldown_cmark::Options::empty();
    options.set(pulldown_cmark::Options::ENABLE_TABLES, tables);
    options.set(pulldown_cmark::Options::ENABLE_STRIKETHROUGH, strikethrough);
    options.set(pulldown_cmark::Options::ENABLE_TASKLISTS, tasklists);
    let mut html = String::new();
    pulldown_cmark::html::push_html(&mut html, pulldown_cmark::Parser::new_ext(md, options));
    html
}

/// The style sheet that goes by `name`. A name that is not known gives
/// the dark one.
pub fn theme_css(name: &str) -> (css: &'static str)
    ensures
        css@ == style_sheet(name@),
{
    if same_text(name, "light") {
        LIGHT_CSS
    } else {
        DARK_CSS
    }
}

/// Puts `body` into a whole HTML page with the style sheet `css`.
pub fn wrap_page(css: &str, body: &str) -> (html: String)
    ensures
        html@ == page(css@, body@),
{
    let mut html = String::from_str(
        "<!DOCTYPE html>\n<html>\n<head>\n<meta charset=\"UTF-8\">\n<style>",
    );
    html.append(css);
    html.append("</style>\n</head>\n<body>\n");
    html.append(body);
    html.append("\n</body>\n</html>");
    html
}

/// Turns markdown, with tables, strikethrough and task lists, into a
/// whole HTML page with the style sheet `css`.
pub fn markdown_to_html(md: &str, css: &str) -> (html: String)
    ensures
        html@ == page(css@, rendered_markdown(md@, true, true, true)),
{
    let body = render_markdown(md, true, true, true);
    wrap_page(css, body.as_str())
}

/// The page to show for the input: the input itself where it is HTML
/// already, else the page that its markdown turns into, in the style of
/// the theme `theme`.
pub fn page_source(input: &str, theme: &str, is_html: bool) -> (html: String)
    ensures
        html@ == if is_html {
            input@
        } else {
            page(style_sheet(theme@), rendered_markdown(input@, true, true, true))
        },
{
    if is_html {
        String::from_str(input)
    } else {
        markdown_to_html(input, theme_css(theme))
    }
}

} // verus!
