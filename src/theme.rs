//! The theme: the base, gutter and status line styles, and the styles of
//! highlighted token scopes; and the parsing of `#rrggbb` colors.

use vstd::prelude::*;
use crate::style::{Color, Style, plain_style};
use crate::text::chars_of;

verus! {

/// The status line's styles: the outer segments (mode and position), the
/// inner segment (file name), and the glyphs between segments.
#[derive(Clone, Copy, Debug)]
pub struct StatuslineStyle {
    pub outer_style: Style,
    pub outer_chars: [char; 4],
    pub inner_style: Style,
}

/// The style of the tokens of the given scopes.
#[derive(Debug)]
pub struct TokenStyle {
    pub name: Option<String>,
    pub scope: Vec<String>,
    pub style: Style,
}

/// The styles the editor draws with.
#[derive(Debug)]
pub struct Theme {
    pub name: String,
    pub style: Style,
    pub token_styles: Vec<TokenStyle>,
    pub gutter_style: Style,
    pub statusline_style: StatuslineStyle,
}

impl Default for StatuslineStyle {
    fn default() -> (r: StatuslineStyle)
        ensures
            r.outer_style == plain_style(),
            r.inner_style == plain_style(),
            r.outer_chars@ == seq![' ', '\u{e0b0}', '\u{e0b2}', ' '],
    {
        let r = StatuslineStyle {
            outer_style: Style::default(),
            outer_chars: [' ', '\u{e0b0}', '\u{e0b2}', ' '],
            inner_style: Style::default(),
        };
        proof {
            assert(r.outer_chars@ =~= seq![' ', '\u{e0b0}', '\u{e0b2}', ' ']);
        }
        r
    }
}

impl Default for Theme {
    fn default() -> (r: Theme)
        ensures
            r.name@ == Seq::<char>::empty(),
            r.style == plain_style(),
            r.gutter_style == plain_style(),
            r.token_styles@.len() == 0,
    {
        Theme {
            name: String::new(),
            style: Style::default(),
            token_styles: Vec::new(),
            gutter_style: Style::default(),
            statusline_style: StatuslineStyle::default(),
        }
    }
}

/// Why a color text is not of the form `#rrggbb`.
#[derive(Clone, Copy, Debug, PartialEq, Eq, Structural)]
pub enum ColorError {
    /// The text does not start with `#`.
    MissingHash,
    /// The text is not seven characters long.
    WrongLength,
    /// A character after `#` is not a hexadecimal digit.
    InvalidDigit,
}

/// The value of a hexadecimal digit.
pub open spec fn hex_value(c: char) -> Option<u8> {
    if '0' <= c <= '9' {
        Some((c as u32 - '0' as u32) as u8)
    } else if 'a' <= c <= 'f' {
        Some((c as u32 - 'a' as u32 + 10) as u8)
    } else if 'A' <= c <= 'F' {
        Some((c as u32 - 'A' as u32 + 10) as u8)
    } else {
        None
    }
}

/// The byte written by the two hexadecimal digits `hi` and `lo`.
pub open spec fn hex_byte(hi: char, lo: char) -> Option<u8> {
    match (hex_value(hi), hex_value(lo)) {
        (Some(h), Some(l)) => Some((h * 16 + l) as u8),
        _ => None,
    }
}

/// What a color text `#rrggbb` stands for.
pub open spec fn rgb_of(s: Seq<char>) -> Result<Color, ColorError> {
    if s.len() == 0 || s[0] != '#' {
        Err(ColorError::MissingHash)
    } else if s.len() != 7 {
        Err(ColorError::WrongLength)
    } else {
        match (hex_byte(s[1], s[2]), hex_byte(s[3], s[4]), hex_byte(s[5], s[6])) {
            (Some(r), Some(g), Some(b)) => Ok(Color::Rgb { r, g, b }),
            _ => Err(ColorError::InvalidDigit),
        }
    }
}

fn hex_digit(c: char) -> (r: Option<u8>)
    ensures
        r == hex_value(c),
{
    if '0' <= c && c <= '9' {
        Some((c as u32 - '0' as u32) as u8)
    } else if 'a' <= c && c <= 'f' {
        Some((c as u32 - 'a' as u32 + 10) as u8)
    } else if 'A' <= c && c <= 'F' {
        Some((c as u32 - 'A' as u32 + 10) as u8)
    } else {
        None
    }
}

fn parse_byte(hi: char, lo: char) -> (r: Option<u8>)
    ensures
        r == hex_byte(hi, lo),
{
    match (hex_digit(hi), hex_digit(lo)) {
        (Some(h), Some(l)) => Some(h * 16 + l),
        _ => None,
    }
}

/// Parses a color written `#rrggbb`, with digits of either case.
pub fn parse_rgb(s: &str) -> (r: Result<Color, ColorError>)
    ensures
        r == rgb_of(s@),
{
    let cs = chars_of(s);
    if cs.len() == 0 || cs[0] != '#' {
        return Err(ColorError::MissingHash);
    }
    if cs.len() != 7 {
        return Err(ColorError::WrongLength);
    }
    match (parse_byte(cs[1], cs[2]), parse_byte(cs[3], cs[4]), parse_byte(cs[5], cs[6])) {
        (Some(r), Some(g), Some(b)) => Ok(Color::Rgb { r, g, b }),
        _ => Err(ColorError::InvalidDigit),
    }
}

/// Whether `a` and `b` hold the same characters.
pub fn same_text(a: &str, b: &str) -> (r: bool)
    ensures
        r == (a@ == b@),
{
    let x = chars_of(a);
    let y = chars_of(b);
    if x.len() != y.len() {
        return false;
    }
    let mut i: usize = 0;
    while i < x.len()
        invariant
            x@ == a@,
            y@ == b@,
            x@.len() == y@.len(),
            i <= x@.len(),
            forall|j: int| 0 <= j < i ==> x@[j] == y@[j],
        decreases x.len() - i,
    {
        if x[i] != y[i] {
            proof {
                assert(x@[i as int] != y@[i as int]);
            }
            return false;
        }
        i = i + 1;
    }
    proof {
        assert(x@ =~= y@);
    }
    true
}

/// Whether `pat` occurs in `s`.
pub open spec fn occurs_in(pat: Seq<char>, s: Seq<char>) -> bool {
    exists|i: int| 0 <= i && i + pat.len() <= s.len() && #[trigger] s.subrange(i, i + pat.len()) == pat
}

/// Whether `pat` occurs in `s`.
pub fn contains_text(s: &str, pat: &str) -> (r: bool)
    ensures
        r == occurs_in(pat@, s@),
{
    let x = chars_of(s);
    let p = chars_of(pat);
    if p.len() > x.len() {
        return false;
    }
    let xl = x.len();
    let mut i: usize = 0;
    while i <= x.len() - p.len()
        invariant
            x@ == s@,
            p@ == pat@,
            xl == x@.len(),
            p@.len() <= x@.len(),
            i <= x@.len() - p@.len() + 1,
            forall|k: int| 0 <= k < i ==> #[trigger] x@.subrange(k, k + p@.len()) != p@,
        decreases x.len() - p.len() + 1 - i,
    {
        let mut j: usize = 0;
        let mut same = true;
        while j < p.len()
            invariant
                xl == x@.len(),
                i + p@.len() <= x@.len(),
                j <= p@.len(),
                same == (forall|t: int| 0 <= t < j ==> x@[i + t] == p@[t]),
            decreases p.len() - j,
        {
            if x[i + j] != p[j] {
                same = false;
            }
            j = j + 1;
        }
        if same {
            proof {
                assert(x@.subrange(i as int, i + p@.len()) =~= p@);
                assert(occurs_in(p@, x@));
            }
            return true;
        }
        proof {
            let t = choose|t: int| 0 <= t < p@.len() && x@[i + t] != p@[t];
            assert(x@.subrange(i as int, i + p@.len())[t] != p@[t]);
        }
        i = i + 1;
    }
    false
}

/// The highlighter's name for a theme's scope name; other names stay as
/// they are.
pub open spec fn scope_name(s: Seq<char>) -> Seq<char> {
    if s == "constant"@ {
        "constant"@
    } else if s == "entity.name.type"@ {
        "type"@
    } else if s == "support.type"@ {
        "type"@
    } else if s == "entity.name.function.constructor"@ {
        "constructor"@
    } else if s == "variable.other.enummember"@ {
        "constructor"@
    } else if s == "entity.name.function"@ {
        "function"@
    } else if s == "meta.function-call"@ {
        "function"@
    } else if s == "entity.name.function.member"@ {
        "function.method"@
    } else if s == "variable.function"@ {
        "function.method"@
    } else if s == "entity.name.function.macro"@ {
        "function.macro"@
    } else if s == "support.function.macro"@ {
        "function.macro"@
    } else if s == "variable.other.member"@ {
        "property"@
    } else if s == "variable.other.property"@ {
        "property"@
    } else if s == "variable.parameter"@ {
        "variable.parameter"@
    } else if s == "entity.name.label"@ {
        "label"@
    } else if s == "comment"@ {
        "comment"@
    } else if s == "punctuation.definition.comment"@ {
        "comment"@
    } else if s == "punctuation.section.block"@ {
        "punctuation.bracket"@
    } else if s == "punctuation.definition.brackets"@ {
        "punctuation.bracket"@
    } else if s == "punctuation.separator"@ {
        "punctuation.delimiter"@
    } else if s == "punctuation.accessor"@ {
        "punctuation.delimiter"@
    } else if s == "keyword"@ {
        "keyword"@
    } else if s == "keyword.control"@ {
        "keyword"@
    } else if s == "support.type.primitive"@ {
        "type.builtin"@
    } else if s == "keyword.type"@ {
        "type.builtin"@
    } else if s == "variable.language"@ {
        "variable.builtin"@
    } else if s == "support.variable"@ {
        "variable.builtin"@
    } else if s == "string.quoted.double"@ {
        "string"@
    } else if s == "string.quoted.single"@ {
        "string"@
    } else if s == "constant.language"@ {
        "constant.builtin"@
    } else if s == "constant.numeric"@ {
        "constant.builtin"@
    } else if s == "constant.character"@ {
        "constant.builtin"@
    } else if s == "constant.character.escape"@ {
        "escape"@
    } else if s == "keyword.operator"@ {
        "operator"@
    } else if s == "storage.modifier.attribute"@ {
        "attribute"@
    } else if s == "meta.attribute"@ {
        "attribute"@
    } else {
        s
    }
}

/// Translates a theme's scope name into the highlighter's name for it
/// (see [`scope_name`]).
pub fn translate_scope(vscode_scope: String) -> (r: String)
    ensures
        r@ == scope_name(vscode_scope@),
{
    let s = vscode_scope.as_str();
    if same_text(s, "constant") {
        return "constant".to_string();
    }
    if same_text(s, "entity.name.type") {
        return "type".to_string();
    }
    if same_text(s, "support.type") {
        return "type".to_string();
    }
    if same_text(s, "entity.name.function.constructor") {
        return "constructor".to_string();
    }
    if same_text(s, "variable.other.enummember") {
        return "constructor".to_string();
    }
    if same_text(s, "entity.name.function") {
        return "function".to_string();
    }
    if same_text(s, "meta.function-call") {
        return "function".to_string();
    }
    if same_text(s, "entity.name.function.member") {
        return "function.method".to_string();
    }
    if same_text(s, "variable.function") {
        return "function.method".to_string();
    }
    if same_text(s, "entity.name.function.macro") {
        return "function.macro".to_string();
    }
    if same_text(s, "support.function.macro") {
        return "function.macro".to_string();
    }
    if same_text(s, "variable.other.member") {
        return "property".to_string();
    }
    if same_text(s, "variable.other.property") {
        return "property".to_string();
    }
    if same_text(s, "variable.parameter") {
        return "variable.parameter".to_string();
    }
    if same_text(s, "entity.name.label") {
        return "label".to_string();
    }
    if same_text(s, "comment") {
        return "comment".to_string();
    }
    if same_text(s, "punctuation.definition.comment") {
        return "comment".to_string();
    }
    if same_text(s, "punctuation.section.block") {
        return "punctuation.bracket".to_string();
    }
    if same_text(s, "punctuation.definition.brackets") {
        return "punctuation.bracket".to_string();
    }
    if same_text(s, "punctuation.separator") {
        return "punctuation.delimiter".to_string();
    }
    if same_text(s, "punctuation.accessor") {
        return "punctuation.delimiter".to_string();
    }
    if same_text(s, "keyword") {
        return "keyword".to_string();
    }
    if same_text(s, "keyword.control") {
        return "keyword".to_string();
    }
    if same_text(s, "support.type.primitive") {
        return "type.builtin".to_string();
    }
    if same_text(s, "keyword.type") {
        return "type.builtin".to_string();
    }
    if same_text(s, "variable.language") {
        return "variable.builtin".to_string();
    }
    if same_text(s, "support.variable") {
        return "variable.builtin".to_string();
    }
    if same_text(s, "string.quoted.double") {
        return "string".to_string();
    }
    if same_text(s, "string.quoted.single") {
        return "string".to_string();
    }
    if same_text(s, "constant.language") {
        return "constant.builtin".to_string();
    }
    if same_text(s, "constant.numeric") {
        return "constant.builtin".to_string();
    }
    if same_text(s, "constant.character") {
        return "constant.builtin".to_string();
    }
    if same_text(s, "constant.character.escape") {
        return "escape".to_string();
    }
    if same_text(s, "keyword.operator") {
        return "operator".to_string();
    }
    if same_text(s, "storage.modifier.attribute") {
        return "attribute".to_string();
    }
    if same_text(s, "meta.attribute") {
        return "attribute".to_string();
    }
    vscode_scope
}


/// The characters of an optional text.
pub open spec fn opt_text(o: Option<&str>) -> Option<Seq<char>> {
    match o {
        Some(s) => Some(s@),
        None => None,
    }
}

/// The color an optional `#rrggbb` text gives, if any.
pub open spec fn opt_rgb(o: Option<Seq<char>>) -> Result<Option<Color>, ColorError> {
    match o {
        Some(s) => match rgb_of(s) {
            Ok(c) => Ok(Some(c)),
            Err(e) => Err(e),
        },
        None => Ok(None),
    }
}

/// The style that a token color's settings describe: the colors given,
/// bold and italic where the font style names them; the first color that
/// does not parse is the error.
pub open spec fn settings_style(
    fg: Option<Seq<char>>,
    bg: Option<Seq<char>>,
    font: Option<Seq<char>>,
) -> Result<Style, ColorError> {
    match (opt_rgb(fg), opt_rgb(bg)) {
        (Err(e), _) => Err(e),
        (Ok(_), Err(e)) => Err(e),
        (Ok(f), Ok(b)) => Ok(
            Style {
                fg: f,
                bg: b,
                bold: font is Some && occurs_in("bold"@, font->0),
                italic: font is Some && occurs_in("italic"@, font->0),
            },
        ),
    }
}

fn parse_opt_rgb(o: Option<&str>) -> (r: Result<Option<Color>, ColorError>)
    ensures
        r == opt_rgb(opt_text(o)),
{
    match o {
        Some(s) => match parse_rgb(s) {
            Ok(c) => Ok(Some(c)),
            Err(e) => Err(e),
        },
        None => Ok(None),
    }
}

/// The style that a token color's settings describe (see
/// [`settings_style`]).
pub fn token_style(fg: Option<&str>, bg: Option<&str>, font_style: Option<&str>) -> (r: Result<Style, ColorError>)
    ensures
        r == settings_style(opt_text(fg), opt_text(bg), opt_text(font_style)),
{
    let f = match parse_opt_rgb(fg) {
        Ok(c) => c,
        Err(e) => return Err(e),
    };
    let b = match parse_opt_rgb(bg) {
        Ok(c) => c,
        Err(e) => return Err(e),
    };
    let (bold, italic) = match font_style {
        Some(fs) => (contains_text(fs, "bold"), contains_text(fs, "italic")),
        None => (false, false),
    };
    Ok(Style { fg: f, bg: b, bold, italic })
}

/// Why a theme cannot be built.
#[derive(Clone, Copy, Debug, PartialEq, Eq, Structural)]
pub enum ThemeError {
    /// The editor's foreground color is not given.
    MissingForeground,
    /// The editor's background color is not given.
    MissingBackground,
    /// A color does not parse.
    BadColor(ColorError),
}

/// The status line's fixed styles: dark text on violet outside, white text
/// on slate inside, with powerline glyphs between.
pub open spec fn default_statusline() -> StatuslineStyle {
    StatuslineStyle {
        outer_style: Style {
            fg: Some(Color::Rgb { r: 0, g: 0, b: 0 }),
            bg: Some(Color::Rgb { r: 184, g: 144, b: 243 }),
            bold: true,
            italic: false,
        },
        outer_chars: [' ', '\u{e0b0}', '\u{e0b2}', ' '],
        inner_style: Style {
            fg: Some(Color::Rgb { r: 255, g: 255, b: 255 }),
            bg: Some(Color::Rgb { r: 67, g: 70, b: 89 }),
            bold: true,
            italic: false,
        },
    }
}

/// Builds a theme from the editor's colors (`editor.foreground`,
/// `editor.background`, both required), the optional line-number colors,
/// and the token styles.
pub fn theme_from_colors(
    name: Option<String>,
    fg: Option<&str>,
    bg: Option<&str>,
    line_fg: Option<&str>,
    line_bg: Option<&str>,
    token_styles: Vec<TokenStyle>,
) -> (r: Result<Theme, ThemeError>)
    ensures
        fg is None ==> r == Err::<Theme, ThemeError>(ThemeError::MissingForeground),
        fg is Some && bg is None ==> r == Err::<Theme, ThemeError>(ThemeError::MissingBackground),
        fg is Some && bg is Some ==> match (
            rgb_of(fg->0@),
            rgb_of(bg->0@),
            opt_rgb(opt_text(line_fg)),
            opt_rgb(opt_text(line_bg)),
        ) {
            (Err(e), _, _, _) => r == Err::<Theme, ThemeError>(ThemeError::BadColor(e)),
            (Ok(_), Err(e), _, _) => r == Err::<Theme, ThemeError>(ThemeError::BadColor(e)),
            (Ok(_), Ok(_), Err(e), _) => r == Err::<Theme, ThemeError>(ThemeError::BadColor(e)),
            (Ok(_), Ok(_), Ok(_), Err(e)) => r == Err::<Theme, ThemeError>(ThemeError::BadColor(e)),
            (Ok(f), Ok(b), Ok(gf), Ok(gb)) => r is Ok && ({
                let t = r->Ok_0;
                &&& t.name@ == match name {
                    Some(n) => n@,
                    None => Seq::<char>::empty(),
                }
                &&& t.style == (Style { fg: Some(f), bg: Some(b), bold: false, italic: false })
                &&& t.gutter_style == (Style { fg: gf, bg: gb, bold: false, italic: false })
                &&& t.token_styles == token_styles
                &&& t.statusline_style.outer_style == default_statusline().outer_style
                &&& t.statusline_style.inner_style == default_statusline().inner_style
                &&& t.statusline_style.outer_chars@ == default_statusline().outer_chars@
            }),
        },
{
    let fg = match fg {
        Some(s) => s,
        None => return Err(ThemeError::MissingForeground),
    };
    let bg = match bg {
        Some(s) => s,
        None => return Err(ThemeError::MissingBackground),
    };
    let f = match parse_rgb(fg) {
        Ok(c) => c,
        Err(e) => return Err(ThemeError::BadColor(e)),
    };
    let b = match parse_rgb(bg) {
        Ok(c) => c,
        Err(e) => return Err(ThemeError::BadColor(e)),
    };
    let gf = match parse_opt_rgb(line_fg) {
        Ok(c) => c,
        Err(e) => return Err(ThemeError::BadColor(e)),
    };
    let gb = match parse_opt_rgb(line_bg) {
        Ok(c) => c,
        Err(e) => return Err(ThemeError::BadColor(e)),
    };
    let statusline_style = StatuslineStyle {
        outer_style: Style {
            fg: Some(Color::Rgb { r: 0, g: 0, b: 0 }),
            bg: Some(Color::Rgb { r: 184, g: 144, b: 243 }),
            bold: true,
            italic: false,
        },
        outer_chars: [' ', '\u{e0b0}', '\u{e0b2}', ' '],
        inner_style: Style {
            fg: Some(Color::Rgb { r: 255, g: 255, b: 255 }),
            bg: Some(Color::Rgb { r: 67, g: 70, b: 89 }),
            bold: true,
            italic: false,
        },
    };
    let name = match name {
        Some(n) => n,
        None => String::new(),
    };
    Ok(Theme {
        name,
        style: Style { fg: Some(f), bg: Some(b), bold: false, italic: false },
        token_styles,
        gutter_style: Style { fg: gf, bg: gb, bold: false, italic: false },
        statusline_style,
    })
}

} // verus!
