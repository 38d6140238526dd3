//! A 24-bit RGB color with two serializations: a dash-separated decimal
//! form (`"R-G-B"`) read from the configuration file, and a packed 24-bit
//! integer plus a `#rrggbb` hex form handed to the display backend.

use vstd::prelude::*;

use crate::errors::ConfigError;
use crate::text::{all_digits, dec_val, is_digit, lemma_dec_val_nonneg, push_char};
use vstd::string::StrSliceExecFns;

verus! {

/// The pieces of `s` between dashes, in order; `n` dashes give `n + 1`
/// pieces, so `"a-b"` splits into `"a"` and `"b"`, and `"-"` into two
/// empty pieces.
pub open spec fn split_dash(s: Seq<char>) -> Seq<Seq<char>>
    decreases s.len(),
{
    if s.len() == 0 {
        seq![Seq::empty()]
    } else if s.last() == '-' {
        split_dash(s.drop_last()).push(Seq::empty())
    } else {
        let rest = split_dash(s.drop_last());
        rest.update(rest.len() - 1, rest.last().push(s.last()))
    }
}

pub proof fn lemma_split_dash_len(s: Seq<char>)
    ensures
        split_dash(s).len() >= 1,
    decreases s.len(),
{
    if s.len() > 0 {
        lemma_split_dash_len(s.drop_last());
    }
}

/// A color channel as written in the config file: one or more decimal
/// digits whose value fits in eight bits.
pub open spec fn valid_channel(s: Seq<char>) -> bool {
    s.len() > 0 && all_digits(s) && dec_val(s) <= 255
}

/// The channels encoded by a non-empty `"R-G-B"` color string, when it is
/// well-formed: exactly three dash-separated pieces, each a valid channel.
pub open spec fn color_channels(s: Seq<char>) -> Option<(int, int, int)> {
    let parts = split_dash(s);
    if parts.len() == 3 && valid_channel(parts[0]) && valid_channel(parts[1]) && valid_channel(
        parts[2],
    ) {
        Some((dec_val(parts[0]), dec_val(parts[1]), dec_val(parts[2])))
    } else {
        None
    }
}

/// The lower-case hex digit for a value below sixteen.
pub open spec fn spec_hex_digit(d: int) -> char {
    if d == 0 { '0' } else if d == 1 { '1' } else if d == 2 { '2' } else if d == 3 { '3' }
    else if d == 4 { '4' } else if d == 5 { '5' } else if d == 6 { '6' } else if d == 7 { '7' }
    else if d == 8 { '8' } else if d == 9 { '9' } else if d == 10 { 'a' } else if d == 11 { 'b' }
    else if d == 12 { 'c' } else if d == 13 { 'd' } else if d == 14 { 'e' } else { 'f' }
}

/// The `#rrggbb` form of a color, two lower-case hex digits per channel.
pub open spec fn color_hex(c: Color) -> Seq<char> {
    seq![
        '#',
        spec_hex_digit(c.spec_r() as int / 16),
        spec_hex_digit(c.spec_r() as int % 16),
        spec_hex_digit(c.spec_g() as int / 16),
        spec_hex_digit(c.spec_g() as int % 16),
        spec_hex_digit(c.spec_b() as int / 16),
        spec_hex_digit(c.spec_b() as int % 16),
    ]
}

fn hex_digit_char(d: u8) -> (c: char)
    requires
        d < 16,
    ensures
        c == spec_hex_digit(d as int),
{
    match d {
        0 => '0',
        1 => '1',
        2 => '2',
        3 => '3',
        4 => '4',
        5 => '5',
        6 => '6',
        7 => '7',
        8 => '8',
        9 => '9',
        10 => 'a',
        11 => 'b',
        12 => 'c',
        13 => 'd',
        14 => 'e',
        _ => 'f',
    }
}

/// Reads one channel: `Some` exactly when the piece is a valid channel,
/// and then its decimal value.
fn parse_channel(s: &String) -> (r: Option<u64>)
    ensures
        valid_channel(s@) ==> r == Some(dec_val(s@) as u64),
        !valid_channel(s@) ==> r is None,
{
    let n: usize = s.as_str().unicode_len();
    if n == 0 {
        return None;
    }
    let mut val: u64 = 0;
    let mut i: usize = 0;
    while i < n
        invariant
            n == s@.len(),
            n <= usize::MAX,
            i <= n,
            all_digits(s@.take(i as int)),
            dec_val(s@.take(i as int)) <= 255 ==> val == dec_val(s@.take(i as int)),
            dec_val(s@.take(i as int)) > 255 ==> val == 256,
            val <= 256,
        decreases n - i,
    {
        let c = s.as_str().get_char(i);
        let u = c as u32;
        if u < 48 || u > 57 {
            proof {
                assert(!is_digit(s@[i as int]));
                assert(!all_digits(s@));
            }
            return None;
        }
        let d = (u - 48) as u64;
        proof {
            assert(s@.take(i + 1).drop_last() =~= s@.take(i as int));
            assert(s@.take(i + 1).last() == s@[i as int]);
            lemma_dec_val_nonneg(s@.take(i as int));
        }
        if val <= 255 {
            let t = val * 10 + d;
            val = if t > 255 {
                256
            } else {
                t
            };
        }
        i = i + 1;
    }
    proof {
        assert(s@.take(n as int) =~= s@);
        lemma_dec_val_nonneg(s@);
    }
    if val > 255 {
        None
    } else {
        Some(val)
    }
}

/// A 24-bit RGB triple. Each channel is held in a `u64` and kept below 256.
#[derive(Clone, Copy, Debug, PartialEq, Eq)]
pub struct Color {
    r: u64,
    g: u64,
    b: u64,
}

impl Color {
    /// Each channel of a well-formed color fits in eight bits.
    pub open spec fn wf(self) -> bool {
        self.spec_r() < 256 && self.spec_g() < 256 && self.spec_b() < 256
    }

    pub closed spec fn spec_r(self) -> u64 {
        self.r
    }

    pub closed spec fn spec_g(self) -> u64 {
        self.g
    }

    pub closed spec fn spec_b(self) -> u64 {
        self.b
    }

    pub fn new(r: u64, g: u64, b: u64) -> (c: Color)
        requires
            r < 256,
            g < 256,
            b < 256,
        ensures
            c.spec_r() == r,
            c.spec_g() == g,
            c.spec_b() == b,
            c.wf(),
    {
        Color { r, g, b }
    }

    /// Reads the dash-separated decimal form. The empty string stands for
    /// black; any other string must be three dash-separated channels, each
    /// one or more digits with a value below 256.
    pub fn from_str(rgb: &str) -> (r: Result<Color, ConfigError>)
        ensures
            rgb@.len() == 0 ==> (r matches Ok(c) && c.spec_r() == 0 && c.spec_g() == 0
                && c.spec_b() == 0),
            rgb@.len() > 0 ==> match color_channels(rgb@) {
                Some(t) => (r matches Ok(c) && c.spec_r() == t.0 && c.spec_g() == t.1
                    && c.spec_b() == t.2),
                None => r == Err::<Color, ConfigError>(ConfigError::BadColor),
            },
            r matches Ok(c) ==> c.wf(),
    {
        let n: usize = rgb.unicode_len();
        if n == 0 {
            return Ok(Color::new(0, 0, 0));
        }
        let mut parts: Vec<String> = Vec::new();
        let mut cur: String = String::new();
        let mut i: usize = 0;
        while i < n
            invariant
                n == rgb@.len(),
                n <= usize::MAX,
                i <= n,
                split_dash(rgb@.take(i as int)) == parts@.map_values(|p: String| p@).push(cur@),
            decreases n - i,
        {
            let c = rgb.get_char(i);
            proof {
                assert(rgb@.take(i + 1).drop_last() =~= rgb@.take(i as int));
                assert(rgb@.take(i + 1).last() == rgb@[i as int]);
                lemma_split_dash_len(rgb@.take(i as int));
            }
            let ghost old_parts = parts@;
            let ghost old_cur = cur@;
            if c == '-' {
                parts.push(cur);
                cur = String::new();
                proof {
                    assert(split_dash(rgb@.take(i + 1)) =~~= parts@.map_values(
                        |p: String| p@,
                    ).push(cur@)) by {
                        assert(parts@.map_values(|p: String| p@) =~= old_parts.map_values(
                            |p: String| p@,
                        ).push(old_cur));
                    }
                }
            } else {
                push_char(&mut cur, c);
                proof {
                    let prev = old_parts.map_values(|p: String| p@).push(old_cur);
                    assert(split_dash(rgb@.take(i + 1)) == prev.update(
                        prev.len() - 1,
                        prev.last().push(rgb@[i as int]),
                    ));
                    assert(split_dash(rgb@.take(i + 1)) =~~= parts@.map_values(
                        |p: String| p@,
                    ).push(cur@));
                }
            }
            i = i + 1;
        }
        proof {
            assert(rgb@.take(n as int) =~= rgb@);
        }
        parts.push(cur);
        proof {
            assert(parts@.map_values(|p: String| p@) =~= split_dash(rgb@));
        }
        if parts.len() != 3 {
            return Err(ConfigError::BadColor);
        }
        let v0 = parse_channel(&parts[0]);
        let v1 = parse_channel(&parts[1]);
        let v2 = parse_channel(&parts[2]);
        proof {
            assert(parts@.map_values(|p: String| p@)[0] == parts@[0]@);
            assert(parts@.map_values(|p: String| p@)[1] == parts@[1]@);
            assert(parts@.map_values(|p: String| p@)[2] == parts@[2]@);
            if valid_channel(parts@[0]@) {
                lemma_dec_val_nonneg(parts@[0]@);
            }
            if valid_channel(parts@[1]@) {
                lemma_dec_val_nonneg(parts@[1]@);
            }
            if valid_channel(parts@[2]@) {
                lemma_dec_val_nonneg(parts@[2]@);
            }
        }
        match (v0, v1, v2) {
            (Some(a), Some(g), Some(b)) => Ok(Color::new(a, g, b)),
            _ => Err(ConfigError::BadColor),
        }
    }

    /// The packed 24-bit integer form: red in the high byte, blue in the low.
    pub fn encode(&self) -> (n: u64)
        requires
            self.wf(),
        ensures
            n == self.spec_b() + self.spec_g() * 256 + self.spec_r() * 65536,
            n < 0x1000000,
    {
        self.b + self.g * 256 + self.r * 65536
    }

    /// The `#rrggbb` hex form handed to the display backend, two digits
    /// per channel.
    pub fn hex(&self) -> (s: String)
        requires
            self.wf(),
        ensures
            s@ == color_hex(*self),
    {
        let mut s = String::new();
        push_char(&mut s, '#');
        push_char(&mut s, hex_digit_char((self.r / 16) as u8));
        push_char(&mut s, hex_digit_char((self.r % 16) as u8));
        push_char(&mut s, hex_digit_char((self.g / 16) as u8));
        push_char(&mut s, hex_digit_char((self.g % 16) as u8));
        push_char(&mut s, hex_digit_char((self.b / 16) as u8));
        push_char(&mut s, hex_digit_char((self.b % 16) as u8));
        proof {
            assert(s@ =~= color_hex(*self));
        }
        s
    }
}

} // verus!
