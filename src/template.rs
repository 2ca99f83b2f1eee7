//! Message templates: text with `{name}` or `{name:style,...}` holes, and
//! the terminal styles a hole may ask for.

use vstd::prelude::*;
use vstd::string::*;
use colored::Colorize;
use crate::text::{find_char, first_index, same_text, trim_range, trimmed};

verus! {

/// A terminal style that a template hole may name.
#[derive(Clone, Copy, Debug, PartialEq, Eq, Structural)]
pub enum TextStyle {
    Red,
    Green,
    Yellow,
    Blue,
    Magenta,
    Cyan,
    White,
    Bold,
    Dimmed,
    Underline,
    Italic,
    Blink,
}

/// The style a name stands for; `dim` and `dimmed` are the same one.
pub open spec fn style_named(t: Seq<char>) -> Option<TextStyle> {
    if t == "red"@ { Some(TextStyle::Red) }
    else if t == "green"@ { Some(TextStyle::Green) }
    else if t == "yellow"@ { Some(TextStyle::Yellow) }
    else if t == "blue"@ { Some(TextStyle::Blue) }
    else if t == "magenta"@ { Some(TextStyle::Magenta) }
    else if t == "cyan"@ { Some(TextStyle::Cyan) }
    else if t == "white"@ { Some(TextStyle::White) }
    else if t == "bold"@ { Some(TextStyle::Bold) }
    else if t == "dim"@ || t == "dimmed"@ { Some(TextStyle::Dimmed) }
    else if t == "underline"@ { Some(TextStyle::Underline) }
    else if t == "italic"@ { Some(TextStyle::Italic) }
    else if t == "blink"@ { Some(TextStyle::Blink) }
    else { None }
}

/// The styles named in the comma-separated list `s` from position `pos`
/// on, in order; each name is trimmed and unknown names are skipped.
pub open spec fn styles_from(s: Seq<char>, pos: int) -> Seq<TextStyle>
    decreases s.len() - pos,
    when 0 <= pos <= s.len()
{
    let j = pos + first_index(s.subrange(pos, s.len() as int), ',');
    let head = match style_named(trimmed(s.subrange(pos, j))) {
        Some(t) => seq![t],
        None => Seq::empty(),
    };
    if j < s.len() {
        head + styles_from(s, j + 1)
    } else {
        head
    }
}

/// The styles named in the comma-separated list `s`.
pub open spec fn styles_in(s: Seq<char>) -> Seq<TextStyle> {
    styles_from(s, 0)
}

/// The style named `t`, if any.
pub fn named_style(t: &str) -> (r: Option<TextStyle>)
    ensures
        r == style_named(t@),
{
    if same_text(t, "red") { Some(TextStyle::Red) }
    else if same_text(t, "green") { Some(TextStyle::Green) }
    else if same_text(t, "yellow") { Some(TextStyle::Yellow) }
    else if same_text(t, "blue") { Some(TextStyle::Blue) }
    else if same_text(t, "magenta") { Some(TextStyle::Magenta) }
    else if same_text(t, "cyan") { Some(TextStyle::Cyan) }
    else if same_text(t, "white") { Some(TextStyle::White) }
    else if same_text(t, "bold") { Some(TextStyle::Bold) }
    else if same_text(t, "dim") || same_text(t, "dimmed") { Some(TextStyle::Dimmed) }
    else if same_text(t, "underline") { Some(TextStyle::Underline) }
    else if same_text(t, "italic") { Some(TextStyle::Italic) }
    else if same_text(t, "blink") { Some(TextStyle::Blink) }
    else { None }
}

/// Reads a comma-separated list of style names, such as `red, bold`.
pub fn parse_styles(style: &str) -> (r: Vec<TextStyle>)
    ensures
        r@ == styles_in(style@),
{
    let n = style.unicode_len();
    let mut out: Vec<TextStyle> = Vec::new();
    let mut pos: usize = 0;
    loop
        invariant_except_break
            styles_in(style@) == out@ + styles_from(style@, pos as int),
        invariant
            n == style@.len(),
            pos <= n,
        ensures
            out@ == styles_in(style@),
        decreases n - pos,
    {
        let j = find_char(style, ',', pos, n);
        let name = trim_range(style, pos, j);
        let ghost before = out@;
        match named_style(name.as_str()) {
            Some(t) => out.push(t),
            None => {},
        }
        if j >= n {
            assert(out@ =~= before + styles_from(style@, pos as int));
            break;
        }
        assert(out@ + styles_from(style@, j + 1) =~= before + styles_from(style@, pos as int));
        pos = j + 1;
    }
    out
}

/// colored's `ColoredString`: text with the styles chosen so far, carried
/// opaque from one style call to the next.
#[verifier::external_type_specification]
#[verifier::external_body]
pub struct ExColoredString(colored::ColoredString);

/// Relies on colored's `Colorize::normal` for `&str`: the text, unstyled.
#[verifier::external_body]
fn colored_plain(value: &str) -> colored::ColoredString {
    value.normal()
}

/// Relies on colored's `Colorize::red` for `ColoredString`.
#[verifier::external_body]
fn colored_red(c: colored::ColoredString) -> colored::ColoredString {
    c.red()
}

/// Relies on colored's `Colorize::green` for `ColoredString`.
#[verifier::external_body]
fn colored_green(c: colored::ColoredString) -> colored::ColoredString {
    c.green()
}

/// Relies on colored's `Colorize::yellow` for `ColoredString`.
#[verifier::external_body]
fn colored_yellow(c: colored::ColoredString) -> colored::ColoredString {
    c.yellow()
}

/// Relies on colored's `Colorize::blue` for `ColoredString`.
#[verifier::external_body]
fn colored_blue(c: colored::ColoredString) -> colored::ColoredString {
    c.blue()
}

/// Relies on colored's `Colorize::magenta` for `ColoredString`.
#[verifier::external_body]
fn colored_magenta(c: colored::ColoredString) -> colored::ColoredString {
    c.magenta()
}

/// Relies on colored's `Colorize::cyan` for `ColoredString`.
#[verifier::external_body]
fn colored_cyan(c: colored::ColoredString) -> colored::ColoredString {
    c.cyan()
}

/// Relies on colored's `Colorize::white` for `ColoredString`.
#[verifier::external_body]
fn colored_white(c: colored::ColoredString) -> colored::ColoredString {
    c.white()
}

/// Relies on colored's `Colorize::bold` for `ColoredString`.
#[verifier::external_body]
fn colored_bold(c: colored::ColoredString) -> colored::ColoredString {
    c.bold()
}

/// Relies on colored's `Colorize::dimmed` for `ColoredString`.
#[verifier::external_body]
fn colored_dimmed(c: colored::ColoredString) -> colored::ColoredString {
    c.dimmed()
}

/// Relies on colored's `Colorize::underline` for `ColoredString`.
#[verifier::external_body]
fn colored_underline(c: colored::ColoredString) -> colored::ColoredString {
    c.underline()
}

/// Relies on colored's `Colorize::italic` for `ColoredString`.
#[verifier::external_body]
fn colored_italic(c: colored::ColoredString) -> colored::ColoredString {
    c.italic()
}

/// Relies on colored's `Colorize::blink` for `ColoredString`.
#[verifier::external_body]
fn colored_blink(c: colored::ColoredString) -> colored::ColoredString {
    c.blink()
}

/// Relies on colored's `Display` for `ColoredString`: the escape sequences
/// it writes depend on the environment (`NO_COLOR`, `CLICOLOR`, whether
/// output is a terminal), so nothing is stated of the text.
#[verifier::external_body]
fn colored_text(c: &colored::ColoredString) -> String {
    c.to_string()
}

/// A character of the codes inside a select graphic rendition sequence.
pub open spec fn is_code_char(c: char) -> bool {
    ('0' <= c && c <= '9') || c == ';'
}

/// A select graphic rendition sequence: escape, `[`, one or more code
/// characters, `m`.
pub open spec fn is_sgr(p: Seq<char>) -> bool {
    &&& p.len() >= 4
    &&& p[0] == '\u{1b}'
    &&& p[1] == '['
    &&& p.last() == 'm'
    &&& forall|i: int| 2 <= i < p.len() - 1 ==> is_code_char(#[trigger] p[i])
}

/// The sequence that resets every style.
pub open spec fn reset_sequence() -> Seq<char> {
    seq!['\u{1b}', '[', '0', 'm']
}

/// `r` is `v` between a select graphic rendition sequence and a reset.
pub open spec fn sgr_wrapped(r: Seq<char>, v: Seq<char>) -> bool {
    let k = r.len() - v.len() - 4;
    &&& r.len() >= v.len() + 8
    &&& is_sgr(r.subrange(0, k))
    &&& r.subrange(k, r.len() - 4) == v
    &&& r.subrange(r.len() - 4, r.len() as int) == reset_sequence()
}

/// What rendering `v` in some styles may give: `v` itself, or `v` wrapped
/// in escapes.
pub open spec fn styled_as(r: Seq<char>, v: Seq<char>) -> bool {
    r == v || sgr_wrapped(r, v)
}

/// Whether `r` is `v` between a select graphic rendition sequence and a
/// reset.
pub fn is_sgr_wrapped(r: &str, v: &str) -> (b: bool)
    ensures
        b == sgr_wrapped(r@, v@),
{
    let n = r.unicode_len();
    let m = v.unicode_len();
    if n < m || n - m < 8 {
        return false;
    }
    let k = n - m - 4;
    if r.get_char(0) != '\u{1b}' || r.get_char(1) != '[' || r.get_char(k - 1) != 'm' {
        proof {
            let p = r@.subrange(0, k as int);
            assert(p[0] == r@[0] && p[1] == r@[1] && p.last() == r@[k - 1]);
        }
        return false;
    }
    let mut i: usize = 2;
    while i < k - 1
        invariant
            n == r@.len(),
            m == v@.len(),
            k + m + 4 == n,
            2 <= i <= k - 1,
            k >= 4,
            forall|j: int| 2 <= j < i ==> is_code_char(#[trigger] r@[j]),
        decreases k - 1 - i,
    {
        let c = r.get_char(i);
        if !(('0' <= c && c <= '9') || c == ';') {
            proof {
                let p = r@.subrange(0, k as int);
                assert(p[i as int] == c);
                assert(!is_code_char(p[i as int]));
            }
            return false;
        }
        i = i + 1;
    }
    let mut j: usize = 0;
    while j < m
        invariant
            n == r@.len(),
            m == v@.len(),
            k + m + 4 == n,
            j <= m,
            forall|t: int| 0 <= t < j ==> r@[k + t] == v@[t],
        decreases m - j,
    {
        if r.get_char(k + j) != v.get_char(j) {
            proof {
                let q = r@.subrange(k as int, n - 4);
                assert(q[j as int] == r@[k + j]);
            }
            return false;
        }
        j = j + 1;
    }
    let tail = r.get_char(n - 4) == '\u{1b}' && r.get_char(n - 3) == '[' && r.get_char(n - 2) == '0' && r.get_char(n - 1) == 'm';
    proof {
        let p = r@.subrange(0, k as int);
        assert forall|t: int| 2 <= t < p.len() - 1 implies is_code_char(#[trigger] p[t]) by {
            assert(p[t] == r@[t]);
        }
        assert(r@.subrange(k as int, n - 4) =~= v@);
        let e = r@.subrange(n - 4, n as int);
        if tail {
            assert(e =~= reset_sequence());
        } else {
            assert(e[0] == r@[n - 4] && e[1] == r@[n - 3] && e[2] == r@[n - 2] && e[3] == r@[n - 1]);
        }
    }
    tail
}

/// Renders `value` in the styles named by `style` (a comma-separated list,
/// as in `red,bold`). Without a list, or with one that names no known
/// style, the value comes back as it is. Otherwise colored decides, from the
/// environment, whether to wrap it in escapes; output of any other shape
/// (colored repeats the style after a reset found inside the value) is not
/// passed on, and the value comes back unstyled.
pub fn apply_color(value: &str, style: Option<&str>) -> (r: String)
    ensures
        styled_as(r@, value@),
        style is None ==> r@ == value@,
        style is Some && styles_in(style->0@).len() == 0 ==> r@ == value@,
{
    let list = match style {
        Some(s) => s,
        None => return value.to_owned(),
    };
    let styles = parse_styles(list);
    if styles.len() == 0 {
        return value.to_owned();
    }
    let mut styled = colored_plain(value);
    let mut i: usize = 0;
    while i < styles.len()
        invariant
            i <= styles@.len(),
        decreases styles@.len() - i,
    {
        styled = match styles[i] {
            TextStyle::Red => colored_red(styled),
            TextStyle::Green => colored_green(styled),
            TextStyle::Yellow => colored_yellow(styled),
            TextStyle::Blue => colored_blue(styled),
            TextStyle::Magenta => colored_magenta(styled),
            TextStyle::Cyan => colored_cyan(styled),
            TextStyle::White => colored_white(styled),
            TextStyle::Bold => colored_bold(styled),
            TextStyle::Dimmed => colored_dimmed(styled),
            TextStyle::Underline => colored_underline(styled),
            TextStyle::Italic => colored_italic(styled),
            TextStyle::Blink => colored_blink(styled),
        };
        i = i + 1;
    }
    let out = colored_text(&styled);
    if same_text(out.as_str(), value) || is_sgr_wrapped(out.as_str(), value) {
        out
    } else {
        value.to_owned()
    }
}

/// A piece of a parsed template.
#[derive(Debug, Clone)]
pub enum Token {
    /// Literal text.
    Text(String),
    /// A hole `{name}` or `{name:color}`.
    Var { name: String, color: Option<String> },
}

/// A token as plain values.
pub enum TokenView {
    Text(Seq<char>),
    Var { name: Seq<char>, color: Option<Seq<char>> },
}

impl View for Token {
    type V = TokenView;

    open spec fn view(&self) -> TokenView {
        match self {
            Token::Text(t) => TokenView::Text(t@),
            Token::Var { name, color } => TokenView::Var {
                name: name@,
                color: match color {
                    Some(c) => Some(c@),
                    None => None,
                },
            },
        }
    }
}

/// The tokens as plain values.
pub open spec fn token_views(ts: Seq<Token>) -> Seq<TokenView> {
    ts.map_values(|t: Token| t@)
}

/// The token for the inside of a hole: the name is what comes before the
/// first `:`, the color list what follows it, both trimmed. A hole with an
/// empty name gives no token.
pub open spec fn hole_token(inner: Seq<char>) -> Seq<TokenView> {
    let i = first_index(inner, ':') as int;
    let name = trimmed(inner.subrange(0, i));
    let color = if i < inner.len() { Some(trimmed(inner.subrange(i + 1, inner.len() as int))) } else { None };
    if name.len() > 0 {
        seq![TokenView::Var { name, color }]
    } else {
        Seq::empty()
    }
}

/// The tokens of template `s` from position `pos` on. Text runs up to the
/// next `{`; a hole runs from there to the next `}`, or to the end when
/// none follows.
pub open spec fn tokens_from(s: Seq<char>, pos: int) -> Seq<TokenView>
    decreases s.len() - pos,
    when 0 <= pos <= s.len()
{
    let o = pos + first_index(s.subrange(pos, s.len() as int), '{');
    let text = s.subrange(pos, o);
    let head = if text.len() > 0 { seq![TokenView::Text(text)] } else { Seq::empty() };
    if o < s.len() {
        let c0 = (o + 1) + first_index(s.subrange(o + 1, s.len() as int), '}');
        let c = if c0 < s.len() { c0 } else { s.len() as int };
        let next = if c < s.len() { c + 1 } else { s.len() as int };
        head + hole_token(s.subrange(o + 1, c)) + tokens_from(s, next)
    } else {
        head
    }
}

/// The tokens of template `s`.
pub open spec fn tokens_of(s: Seq<char>) -> Seq<TokenView> {
    tokens_from(s, 0)
}

/// Splits a template into text and holes: `Hello {name}!` gives the text
/// `Hello `, the hole `name` and the text `!`.
pub fn parse_template(input: &str) -> (r: Vec<Token>)
    ensures
        token_views(r@) == tokens_of(input@),
{
    let n = input.unicode_len();
    let mut out: Vec<Token> = Vec::new();
    let mut pos: usize = 0;
    loop
        invariant_except_break
            tokens_of(input@) == token_views(out@) + tokens_from(input@, pos as int),
        invariant
            n == input@.len(),
            pos <= n,
        ensures
            token_views(out@) == tokens_of(input@),
        decreases n - pos,
    {
        let ghost before = token_views(out@);
        let o = find_char(input, '{', pos, n);
        if o > pos {
            let text = input.substring_char(pos, o).to_owned();
            out.push(Token::Text(text));
        }
        let ghost head = token_views(out@).subrange(before.len() as int, token_views(out@).len() as int);
        assert(token_views(out@) =~= before + head);
        if o >= n {
            assert(token_views(out@) =~= before + tokens_from(input@, pos as int));
            break;
        }
        let c = find_char(input, '}', o + 1, n);
        let k = find_char(input, ':', o + 1, c);
        let name = trim_range(input, o + 1, k);
        let color = if k < c { Some(trim_range(input, k + 1, c)) } else { None };
        proof {
            let inner = input@.subrange(o + 1, c as int);
            assert(inner.subrange(0, k - (o + 1)) =~= input@.subrange(o + 1, k as int));
            if k < c {
                assert(inner.subrange(k - (o + 1) + 1, inner.len() as int) =~= input@.subrange(k + 1, c as int));
            }
        }
        let ghost mid = token_views(out@);
        if name.unicode_len() > 0 {
            out.push(Token::Var { name, color });
        }
        let ghost hole = token_views(out@).subrange(mid.len() as int, token_views(out@).len() as int);
        assert(token_views(out@) =~= mid + hole);
        assert(hole =~= hole_token(input@.subrange(o + 1, c as int)));
        let next = if c < n { c + 1 } else { n };
        assert(before + head + hole + tokens_from(input@, next as int) =~= before + tokens_from(input@, pos as int));
        pos = next;
    }
    out
}

/// The value bound to `name`: that of the first pair with this name.
pub open spec fn lookup(vars: Seq<(Seq<char>, Seq<char>)>, name: Seq<char>) -> Option<Seq<char>>
    decreases vars.len(),
{
    if vars.len() == 0 {
        None
    } else if vars[0].0 == name {
        Some(vars[0].1)
    } else {
        lookup(vars.drop_first(), name)
    }
}

/// The variables as plain values.
pub open spec fn var_views(vars: Seq<(String, String)>) -> Seq<(Seq<char>, Seq<char>)> {
    vars.map_values(|p: (String, String)| (p.0@, p.1@))
}

/// What token `t` may render as: text as it is; a hole with no value as
/// `{name}`; a hole with a value as the value, which a known style may
/// wrap in terminal escapes.
pub open spec fn renders_as(t: TokenView, vars: Seq<(Seq<char>, Seq<char>)>, piece: Seq<char>) -> bool {
    match t {
        TokenView::Text(x) => piece == x,
        TokenView::Var { name, color } => match lookup(vars, name) {
            None => piece == "{"@ + name + "}"@,
            Some(v) => match color {
                None => piece == v,
                Some(c) => if styles_in(c).len() == 0 { piece == v } else { styled_as(piece, v) },
            },
        },
    }
}

/// `pieces` joined, first to last.
pub open spec fn joined_text(pieces: Seq<Seq<char>>) -> Seq<char>
    decreases pieces.len(),
{
    if pieces.len() == 0 {
        Seq::empty()
    } else {
        joined_text(pieces.drop_last()) + pieces.last()
    }
}

fn lookup_var<'a>(vars: &'a Vec<(String, String)>, name: &str) -> (r: Option<&'a String>)
    ensures
        match lookup(var_views(vars@), name@) {
            Some(v) => r is Some && r->0@ == v,
            None => r is None,
        },
{
    let mut i: usize = 0;
    assert(var_views(vars@).subrange(0, vars@.len() as int) =~= var_views(vars@));
    while i < vars.len()
        invariant
            i <= vars@.len(),
            lookup(var_views(vars@), name@) == lookup(var_views(vars@).subrange(i as int, vars@.len() as int), name@),
        decreases vars@.len() - i,
    {
        let ghost rest = var_views(vars@).subrange(i as int, vars@.len() as int);
        if same_text(vars[i].0.as_str(), name) {
            return Some(&vars[i].1);
        }
        assert(rest.drop_first() =~= var_views(vars@).subrange(i + 1, vars@.len() as int));
        i = i + 1;
    }
    None
}

/// Fills the holes of `tokens` from `vars`: a hole whose name has a value
/// shows the value, in the hole's styles; one without shows `{name}`.
pub fn render(tokens: &Vec<Token>, vars: &Vec<(String, String)>) -> (r: String)
    ensures
        exists|pieces: Seq<Seq<char>>|
            pieces.len() == tokens@.len() && r@ == joined_text(pieces) && forall|i: int|
                0 <= i < tokens@.len() ==> renders_as(tokens@[i]@, var_views(vars@), #[trigger] pieces[i]),
{
    let mut out = String::new();
    let ghost mut pieces: Seq<Seq<char>> = Seq::empty();
    let mut i: usize = 0;
    while i < tokens.len()
        invariant
            i <= tokens@.len(),
            pieces.len() == i,
            out@ == joined_text(pieces),
            forall|k: int| 0 <= k < i ==> renders_as(tokens@[k]@, var_views(vars@), #[trigger] pieces[k]),
        decreases tokens@.len() - i,
    {
        let piece = match &tokens[i] {
            Token::Text(t) => t.clone(),
            Token::Var { name, color } => match lookup_var(vars, name.as_str()) {
                Some(value) => match color {
                    Some(c) => apply_color(value.as_str(), Some(c.as_str())),
                    None => value.clone(),
                },
                None => {
                    let mut s = "{".to_owned();
                    s.append(name.as_str());
                    s.append("}");
                    s
                },
            },
        };
        out.append(piece.as_str());
        proof {
            let next = pieces.push(piece@);
            assert(next.drop_last() =~= pieces);
            pieces = next;
        }
        i = i + 1;
    }
    out
}

} // verus!
