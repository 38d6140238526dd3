//! The launcher's configuration: two colors and a font pattern. A config
//! file is a TOML document with optional top-level string entries
//! `foreground`, `background` and `font`; a missing file falls back to
//! hard-coded defaults. Reading the file from disk happens outside this
//! crate; this module turns its text, when there is one, into a `Config`.

use vstd::prelude::*;

use crate::color::{color_channels, Color};
use crate::errors::ConfigError;

verus! {

#[derive(Clone, Debug)]
pub struct Config {
    pub foreground: Color,
    pub background: Color,
    pub font: String,
}

/// Whether toml accepts the text as a document; a deterministic function
/// of the text.
pub uninterp spec fn toml_parses(s: Seq<char>) -> bool;

/// The top-level string-valued entries of the TOML document `s`,
/// meaningful when `toml_parses(s)`.
pub uninterp spec fn toml_str_entries(s: Seq<char>) -> Map<Seq<char>, Seq<char>>;

/// The top-level string-valued entries a parsed table holds.
pub uninterp spec fn table_str_entries(t: toml::Table) -> Map<Seq<char>, Seq<char>>;

#[verifier::external_type_specification]
#[verifier::external_body]
#[verifier::reject_recursive_types(K)]
#[verifier::reject_recursive_types(V)]
pub struct ExTomlMap<K, V>(toml::map::Map<K, V>);

#[verifier::external_type_specification]
#[verifier::external_body]
pub struct ExTomlValue(toml::Value);

/// Relies on `str::parse::<toml::Table>` (toml's `FromStr`): parsing
/// succeeds or fails on the text alone, and yields the document's table.
#[verifier::external_body]
fn parse_table(content: &str) -> (r: Option<toml::Table>)
    ensures
        (r is Some) == toml_parses(content@),
        r matches Some(t) ==> table_str_entries(t) == toml_str_entries(content@),
{
    match content.parse::<toml::Table>() {
        Ok(t) => Some(t),
        Err(_) => None,
    }
}

/// Relies on `toml::map::Map::get` and `toml::Value::as_str`: the string
/// recorded at top level under `key`, or nothing when the key is absent
/// or its value is not a string.
#[verifier::external_body]
fn table_get_str(t: &toml::Table, key: &str) -> (r: Option<String>)
    ensures
        (r is Some) == table_str_entries(*t).contains_key(key@),
        r matches Some(s) ==> s@ == table_str_entries(*t)[key@],
{
    match t.get(key) {
        Some(v) => match v.as_str() {
            Some(s) => Some(s.to_owned()),
            None => None,
        },
        None => None,
    }
}

/// The font used when the config file has no `font` entry, and when there
/// is no config file at all.
pub open spec fn default_font() -> Seq<char> {
    "DejaVu Sans Mono:size=11:antialias=true"@
}

/// The color text an entry map prescribes under `key`: a missing entry
/// reads as the empty string, which stands for black.
pub open spec fn entry_or_empty(m: Map<Seq<char>, Seq<char>>, key: Seq<char>) -> Seq<char> {
    if m.contains_key(key) {
        m[key]
    } else {
        Seq::empty()
    }
}

/// The color text is acceptable: empty, or three valid channels.
pub open spec fn color_ok(s: Seq<char>) -> bool {
    s.len() == 0 || color_channels(s) is Some
}

/// `c` is the color the text `s` denotes.
pub open spec fn color_from(c: Color, s: Seq<char>) -> bool {
    if s.len() == 0 {
        c.spec_r() == 0 && c.spec_g() == 0 && c.spec_b() == 0
    } else {
        match color_channels(s) {
            Some(t) => c.spec_r() == t.0 && c.spec_g() == t.1 && c.spec_b() == t.2,
            None => false,
        }
    }
}

impl Config {
    /// Builds the configuration from the config file's text, or from
    /// nothing when no config file exists. With no text, hard-coded
    /// defaults apply: white on black, default font. With text, the
    /// document must parse, its color entries must be acceptable (a
    /// missing one reads as black), and a missing font entry falls back
    /// to the default; the foreground is read before the background, so
    /// with both colors bad it is the foreground that is reported.
    pub fn load(content: Option<&str>) -> (r: Result<Config, ConfigError>)
        ensures
            content is None ==> (r matches Ok(c) && c.foreground.spec_r() == 255
                && c.foreground.spec_g() == 255 && c.foreground.spec_b() == 255
                && c.background.spec_r() == 0 && c.background.spec_g() == 0
                && c.background.spec_b() == 0 && c.font@ == default_font()),
            content matches Some(s) ==> {
                let m = toml_str_entries(s@);
                let fg = entry_or_empty(m, "foreground"@);
                let bg = entry_or_empty(m, "background"@);
                if !toml_parses(s@) {
                    r == Err::<Config, ConfigError>(ConfigError::BadToml)
                } else if !color_ok(fg) || !color_ok(bg) {
                    r == Err::<Config, ConfigError>(ConfigError::BadColor)
                } else {
                    r matches Ok(c) && color_from(c.foreground, fg) && color_from(c.background, bg)
                        && c.font@ == (if m.contains_key("font"@) {
                        m["font"@]
                    } else {
                        default_font()
                    })
                }
            },
            r matches Ok(c) ==> c.foreground.wf() && c.background.wf(),
    {
        match content {
            None => Ok(
                Config {
                    foreground: Color::new(255, 255, 255),
                    background: Color::new(0, 0, 0),
                    font: "DejaVu Sans Mono:size=11:antialias=true".to_owned(),
                },
            ),
            Some(text) => {
                match parse_table(text) {
                    None => Err(ConfigError::BadToml),
                    Some(table) => {
                        let fg_text = match table_get_str(&table, "foreground") {
                            Some(x) => x,
                            None => String::new(),
                        };
                        let bg_text = match table_get_str(&table, "background") {
                            Some(x) => x,
                            None => String::new(),
                        };
                        let foreground = match Color::from_str(fg_text.as_str()) {
                            Ok(c) => c,
                            Err(e) => {
                                return Err(e);
                            },
                        };
                        let background = match Color::from_str(bg_text.as_str()) {
                            Ok(c) => c,
                            Err(e) => {
                                return Err(e);
                            },
                        };
                        let font = match table_get_str(&table, "font") {
                            Some(x) => x,
                            None => "DejaVu Sans Mono:size=11:antialias=true".to_owned(),
                        };
                        Ok(Config { foreground, background, font })
                    },
                }
            },
        }
    }
}

} // verus!
