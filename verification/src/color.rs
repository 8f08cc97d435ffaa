//! The color classifier: turns a raw color token into a typed color value,
//! a sentinel "unparsed" value, or a numeric fault.

use vstd::prelude::*;
use vstd::string::StringExecFns;

use crate::names::{named_hex, named_lookup, lemma_named_hex_wf};
use crate::num::{
    Ratio, ratio_of, num_token_parse, parse_num_token, pow10, pow10_checked, lemma_pow10_pos,
};
use crate::text::{
    ch_pred, scan_back, split_commas, split_commas_chars, starts_with, starts_with_str,
    str_to_chars, strip_prefix_rep, strip_prefix_rep_chars, strip_trailing_chars, trim_chars,
    trim_ws,
};

verus! {

/// The one unrecoverable fault: a numeric channel that is not valid numeric
/// text (or whose exact value does not fit the machine representation).
#[derive(PartialEq, Eq, Structural, Clone, Copy, Debug)]
pub struct NumberFault;

/// Typed color data: exact channel values, or the sentinel for an
/// unclassifiable token.
#[derive(PartialEq, Eq, Structural, Clone, Copy, Debug)]
pub enum ColorData {
    RGBA { r: Ratio, g: Ratio, b: Ratio, a: Ratio },
    HSLA { h: Ratio, s: Ratio, l: Ratio, a: Ratio },
    NONE,
}

/// A classified color. `original` is the raw source token, re-emitted
/// verbatim by the serializer; `pattern` is a format tag kept only for
/// introspection.
#[derive(PartialEq, Clone, Debug)]
pub struct Color {
    pub original: String,
    pub pattern: String,
    pub data: ColorData,
}

/// Mathematical shape of a [`Color`].
pub ghost struct ColorView {
    pub original: Seq<char>,
    pub pattern: Seq<char>,
    pub data: ColorData,
}

impl View for Color {
    type V = ColorView;

    open spec fn view(&self) -> ColorView {
        ColorView { original: self.original@, pattern: self.pattern@, data: self.data }
    }
}

/// Hexadecimal digit, either case.
pub open spec fn is_hex(c: char) -> bool {
    ('0' <= c && c <= '9') || ('a' <= c && c <= 'f') || ('A' <= c && c <= 'F')
}

/// Value of one hexadecimal digit (zero for anything else).
pub open spec fn hex_val(c: char) -> nat {
    if '0' <= c && c <= '9' {
        (c as nat - '0' as nat) as nat
    } else if 'a' <= c && c <= 'f' {
        (c as nat - 'a' as nat + 10) as nat
    } else if 'A' <= c && c <= 'F' {
        (c as nat - 'A' as nat + 10) as nat
    } else {
        0
    }
}

/// Value of a two-digit hexadecimal pair; an unparseable pair decodes to
/// zero, as `u8::from_str_radix` failure does in this classifier.
pub open spec fn pair_val(c1: char, c2: char) -> nat {
    if is_hex(c1) && is_hex(c2) {
        16 * hex_val(c1) + hex_val(c2)
    } else {
        0
    }
}

/// Value of one shorthand hexadecimal digit duplicated to a byte.
pub open spec fn dup_val(c: char) -> nat {
    pair_val(c, c)
}

/// Decodes the byte pair of two hexadecimal characters.
pub fn hex_to_digit(c1: char, c2: char) -> (v: u8)
    ensures
        v as nat == pair_val(c1, c2),
{
    let h1: u8 = if '0' <= c1 && c1 <= '9' {
        (c1 as u8) - ('0' as u8)
    } else if 'a' <= c1 && c1 <= 'f' {
        (c1 as u8) - ('a' as u8) + 10
    } else if 'A' <= c1 && c1 <= 'F' {
        (c1 as u8) - ('A' as u8) + 10
    } else {
        return 0;
    };
    let h2: u8 = if '0' <= c2 && c2 <= '9' {
        (c2 as u8) - ('0' as u8)
    } else if 'a' <= c2 && c2 <= 'f' {
        (c2 as u8) - ('a' as u8) + 10
    } else if 'A' <= c2 && c2 <= 'F' {
        (c2 as u8) - ('A' as u8) + 10
    } else {
        return 0;
    };
    16 * h1 + h2
}

/// The fully opaque channel value one.
pub open spec fn ratio_one() -> Ratio {
    ratio_of(false, 1, 1)
}

/// Channel data of a `#RRGGBB` token (also used for the named colors).
pub open spec fn rgba_of_hex6(h: Seq<char>) -> ColorData
    recommends
        h.len() == 7,
{
    ColorData::RGBA {
        r: ratio_of(false, pair_val(h[1], h[2]), 1),
        g: ratio_of(false, pair_val(h[3], h[4]), 1),
        b: ratio_of(false, pair_val(h[5], h[6]), 1),
        a: ratio_one(),
    }
}

/// Channel data of a `#RRGGBBAA` token.
pub open spec fn rgba_of_hex8(h: Seq<char>) -> ColorData
    recommends
        h.len() == 9,
{
    ColorData::RGBA {
        r: ratio_of(false, pair_val(h[1], h[2]), 1),
        g: ratio_of(false, pair_val(h[3], h[4]), 1),
        b: ratio_of(false, pair_val(h[5], h[6]), 1),
        a: ratio_of(false, pair_val(h[7], h[8]), 255),
    }
}

/// Channel data of a `#RGB` token: each digit duplicated to a byte.
pub open spec fn rgba_of_hex3(h: Seq<char>) -> ColorData
    recommends
        h.len() == 4,
{
    ColorData::RGBA {
        r: ratio_of(false, dup_val(h[1]), 1),
        g: ratio_of(false, dup_val(h[2]), 1),
        b: ratio_of(false, dup_val(h[3]), 1),
        a: ratio_one(),
    }
}

/// Channel data of a `#RGBA` token.
pub open spec fn rgba_of_hex4(h: Seq<char>) -> ColorData
    recommends
        h.len() == 5,
{
    ColorData::RGBA {
        r: ratio_of(false, dup_val(h[1]), 1),
        g: ratio_of(false, dup_val(h[2]), 1),
        b: ratio_of(false, dup_val(h[3]), 1),
        a: ratio_of(false, dup_val(h[4]), 255),
    }
}

/// The sentinel color for a token that cannot be classified.
pub open spec fn none_view(s: Seq<char>) -> ColorView {
    ColorView { original: s, pattern: "none"@, data: ColorData::NONE }
}

/// The fallback color: opaque black, recorded as the token `#000`.
pub open spec fn default_color_view() -> ColorView {
    ColorView {
        original: "#000"@,
        pattern: "#XXX"@,
        data: ColorData::RGBA {
            r: ratio_of(false, 0, 1),
            g: ratio_of(false, 0, 1),
            b: ratio_of(false, 0, 1),
            a: ratio_one(),
        },
    }
}

/// One channel of an `rgb(...)` or `rgba(...)` form: trimmed, a trailing `%`
/// scales the value by 255/100, and for the alpha channel the result is
/// divided by 255. `None` is the numeric fault.
pub open spec fn chan_rgb(t: Seq<char>, alpha: bool) -> Option<Ratio> {
    let tr = trim_ws(t);
    let pct = tr.len() > 0 && tr[tr.len() - 1] == '%';
    let body = if pct {
        tr.take(scan_back(tr, tr.len() as int, ch_pred('%')))
    } else {
        tr
    };
    match num_token_parse(body) {
        Option::None => None,
        Option::Some(p) => {
            let n0 = if pct {
                p.1 * 51
            } else {
                p.1
            };
            let d0 = pow10(p.2) * (if pct {
                20nat
            } else {
                1nat
            }) * (if alpha {
                255nat
            } else {
                1nat
            });
            if n0 <= u128::MAX && d0 <= u128::MAX {
                Some(ratio_of(p.0, n0, d0))
            } else {
                None
            }
        },
    }
}

/// One channel of an `hsl(...)` or `hsla(...)` form: trimmed, optionally with
/// every trailing `%` removed, and taken at face value (never divided).
pub open spec fn chan_hsl(t: Seq<char>, strip_pct: bool) -> Option<Ratio> {
    let tr = trim_ws(t);
    let body = if strip_pct {
        tr.take(scan_back(tr, tr.len() as int, ch_pred('%')))
    } else {
        tr
    };
    match num_token_parse(body) {
        Option::None => None,
        Option::Some(p) => {
            let d0 = pow10(p.2);
            if p.1 <= u128::MAX && d0 <= u128::MAX {
                Some(ratio_of(p.0, p.1, d0))
            } else {
                None
            }
        },
    }
}

/// The comma-separated body of a function-style token: every leading
/// repetition of the prefix and every trailing `)` removed.
pub open spec fn fn_body(s: Seq<char>, p: Seq<char>) -> Seq<char> {
    let t = strip_prefix_rep(s, p);
    t.take(scan_back(t, t.len() as int, ch_pred(')')))
}

/// Classification of an `rgba(...)` token.
pub open spec fn classify_rgba(s: Seq<char>) -> Option<ColorView> {
    let parts = split_commas(fn_body(s, "rgba("@));
    if parts.len() < 3 {
        Some(none_view(s))
    } else if parts.len() < 4 {
        None
    } else if forall|i: int|
        0 <= i < parts.len() ==> chan_rgb(#[trigger] parts[i], i == 3) is Some {
        Some(
            ColorView {
                original: s,
                pattern: "rgba"@,
                data: ColorData::RGBA {
                    r: chan_rgb(parts[0], false).unwrap(),
                    g: chan_rgb(parts[1], false).unwrap(),
                    b: chan_rgb(parts[2], false).unwrap(),
                    a: chan_rgb(parts[3], true).unwrap(),
                },
            },
        )
    } else {
        None
    }
}

/// Classification of an `rgb(...)` token.
pub open spec fn classify_rgb(s: Seq<char>) -> Option<ColorView> {
    let parts = split_commas(fn_body(s, "rgb("@));
    if parts.len() < 3 {
        Some(none_view(s))
    } else if forall|i: int| 0 <= i < parts.len() ==> chan_rgb(#[trigger] parts[i], false) is Some {
        Some(
            ColorView {
                original: s,
                pattern: "rgb"@,
                data: ColorData::RGBA {
                    r: chan_rgb(parts[0], false).unwrap(),
                    g: chan_rgb(parts[1], false).unwrap(),
                    b: chan_rgb(parts[2], false).unwrap(),
                    a: ratio_one(),
                },
            },
        )
    } else {
        None
    }
}

/// Classification of an `hsla(...)` token. Only the four used channels are
/// parsed; the alpha channel is taken at face value, unlike `rgba`.
pub open spec fn classify_hsla(s: Seq<char>) -> Option<ColorView> {
    let parts = split_commas(fn_body(s, "hsla("@));
    if parts.len() < 3 {
        Some(none_view(s))
    } else if parts.len() < 4 {
        None
    } else if chan_hsl(parts[0], false) is Some && chan_hsl(parts[1], true) is Some && chan_hsl(
        parts[2],
        true,
    ) is Some && chan_hsl(parts[3], false) is Some {
        Some(
            ColorView {
                original: s,
                pattern: "hsla"@,
                data: ColorData::HSLA {
                    h: chan_hsl(parts[0], false).unwrap(),
                    s: chan_hsl(parts[1], true).unwrap(),
                    l: chan_hsl(parts[2], true).unwrap(),
                    a: chan_hsl(parts[3], false).unwrap(),
                },
            },
        )
    } else {
        None
    }
}

/// Classification of an `hsl(...)` token.
pub open spec fn classify_hsl(s: Seq<char>) -> Option<ColorView> {
    let parts = split_commas(fn_body(s, "hsl("@));
    if parts.len() < 3 {
        Some(none_view(s))
    } else if chan_hsl(parts[0], false) is Some && chan_hsl(parts[1], true) is Some && chan_hsl(
        parts[2],
        true,
    ) is Some {
        Some(
            ColorView {
                original: s,
                pattern: "hsl"@,
                data: ColorData::HSLA {
                    h: chan_hsl(parts[0], false).unwrap(),
                    s: chan_hsl(parts[1], true).unwrap(),
                    l: chan_hsl(parts[2], true).unwrap(),
                    a: ratio_one(),
                },
            },
        )
    } else {
        None
    }
}

/// The whole classification, first match wins: named colors, the too-short
/// sentinel, hex forms by exact length, the four function forms, and the
/// sentinel for everything else. `None` is the numeric fault.
pub open spec fn classify_v(s: Seq<char>) -> Option<ColorView> {
    match named_hex(s) {
        Option::Some(h) => Some(
            ColorView { original: s, pattern: "#XXXXXX"@, data: rgba_of_hex6(h) },
        ),
        Option::None => if s.len() < 4 {
            Some(none_view(s))
        } else if s[0] == '#' {
            if s.len() == 9 {
                Some(ColorView { original: s, pattern: "#XXXXXXXX"@, data: rgba_of_hex8(s) })
            } else if s.len() == 7 {
                Some(ColorView { original: s, pattern: "#XXXXXX"@, data: rgba_of_hex6(s) })
            } else if s.len() == 5 {
                Some(ColorView { original: s, pattern: "#XXXX"@, data: rgba_of_hex4(s) })
            } else if s.len() == 4 {
                Some(ColorView { original: s, pattern: "#XXX"@, data: rgba_of_hex3(s) })
            } else {
                Some(default_color_view())
            }
        } else if starts_with(s, "rgba("@) {
            classify_rgba(s)
        } else if starts_with(s, "rgb("@) {
            classify_rgb(s)
        } else if starts_with(s, "hsla("@) {
            classify_hsla(s)
        } else if starts_with(s, "hsl("@) {
            classify_hsl(s)
        } else {
            Some(none_view(s))
        },
    }
}

/// Reads one `rgb`/`rgba` channel as [`chan_rgb`] describes it.
fn chan_rgb_exec(t: &Vec<char>, alpha: bool) -> (r: Result<Ratio, NumberFault>)
    ensures
        chan_rgb(t@, alpha) matches Some(c) ==> (r matches Ok(cc) && cc == c),
        chan_rgb(t@, alpha) is None ==> r is Err,
{
    let tr = trim_chars(t);
    let pct = tr.len() > 0 && tr[tr.len() - 1] == '%';
    let body = if pct {
        strip_trailing_chars(&tr, '%')
    } else {
        tr
    };
    match parse_num_token(&body) {
        None => {
            proof {
                if num_token_parse(body@) is Some {
                    // the mantissa does not fit; neither does the numerator
                    let m0 = num_token_parse(body@).unwrap().1;
                    assert(m0 * 51 >= m0 * 1) by (nonlinear_arith);
                }
            }
            Err(NumberFault)
        },
        Some((neg, m, sc)) => {
            match pow10_checked(sc) {
                None => {
                    proof {
                        let f1: nat = if pct {
                            20nat
                        } else {
                            1nat
                        };
                        let f2: nat = if alpha {
                            255nat
                        } else {
                            1nat
                        };
                        assert(pow10(sc as nat) * f1 * f2 >= pow10(sc as nat) * 1 * 1) by (
                        nonlinear_arith)
                            requires
                                f1 >= 1 && f2 >= 1,
                        ;
                    }
                    Err(NumberFault)
                },
                Some(p10) => {
                    let n0 = if pct {
                        m.checked_mul(51)
                    } else {
                        Some(m)
                    };
                    let d1 = if pct {
                        p10.checked_mul(20)
                    } else {
                        Some(p10)
                    };
                    proof {
                        let f2: nat = if alpha {
                            255nat
                        } else {
                            1nat
                        };
                        if pct {
                            assert(p10 * 20 * f2 >= p10 * 20 * 1) by (nonlinear_arith)
                                requires
                                    f2 >= 1,
                            ;
                        } else {
                            assert(p10 * 1 * f2 == p10 * f2) by (nonlinear_arith);
                        }
                    }
                    match (n0, d1) {
                        (Some(n0v), Some(d1v)) => {
                            let d2 = if alpha {
                                d1v.checked_mul(255)
                            } else {
                                Some(d1v)
                            };
                            match d2 {
                                Some(d2v) => {
                                    proof {
                                        lemma_pow10_pos(sc as nat);
                                        assert(d2v >= 1) by (nonlinear_arith)
                                            requires
                                                d2v == pow10(sc as nat) * (if pct {
                                                    20nat
                                                } else {
                                                    1nat
                                                }) * (if alpha {
                                                    255nat
                                                } else {
                                                    1nat
                                                }) && pow10(sc as nat) >= 1,
                                        ;
                                    }
                                    Ok(Ratio::new(neg, n0v, d2v))
                                },
                                None => Err(NumberFault),
                            }
                        },
                        _ => {
                            proof {
                                let f2: nat = if alpha {
                                    255nat
                                } else {
                                    1nat
                                };
                                if pct && d1 is None {
                                    assert(p10 * 20 * f2 >= p10 * 20) by (nonlinear_arith)
                                        requires
                                            f2 >= 1,
                                    ;
                                }
                            }
                            Err(NumberFault)
                        },
                    }
                },
            }
        },
    }
}

/// Reads one `hsl`/`hsla` channel as [`chan_hsl`] describes it.
fn chan_hsl_exec(t: &Vec<char>, strip_pct: bool) -> (r: Result<Ratio, NumberFault>)
    ensures
        chan_hsl(t@, strip_pct) matches Some(c) ==> (r matches Ok(cc) && cc == c),
        chan_hsl(t@, strip_pct) is None ==> r is Err,
{
    let tr = trim_chars(t);
    let body = if strip_pct {
        strip_trailing_chars(&tr, '%')
    } else {
        tr
    };
    match parse_num_token(&body) {
        None => Err(NumberFault),
        Some((neg, m, sc)) => {
            match pow10_checked(sc) {
                None => Err(NumberFault),
                Some(p10) => {
                    proof {
                        lemma_pow10_pos(sc as nat);
                    }
                    Ok(Ratio::new(neg, m, p10))
                },
            }
        },
    }
}

impl Color {
    /// The sentinel color: data `NONE`, original text preserved.
    pub fn none(color: &str) -> (c: Self)
        ensures
            c@ == none_view(color@),
    {
        Color {
            pattern: String::from_str("none"),
            data: ColorData::NONE,
            original: color.to_owned(),
        }
    }

    /// A named color: its keyword maps to a canonical six-digit hex string,
    /// decoded with alpha one.
    fn original(original_color: &str) -> (c: Self)
        requires
            (named_hex(original_color@) is Some),
        ensures
            c@ == (ColorView {
                original: original_color@,
                pattern: "#XXXXXX"@,
                data: rgba_of_hex6(named_hex(original_color@).unwrap()),
            }),
    {
        let cs = str_to_chars(original_color);
        proof {
            lemma_named_hex_wf(cs@);
        }
        let hex_color = match named_lookup(&cs) {
            Some(h) => h,
            None => "#000000",
        };
        Color {
            pattern: String::from_str("#XXXXXX"),
            data: ColorData::RGBA {
                r: Ratio::from_int(hex_to_digit(hex_color.get_char(1), hex_color.get_char(2))
                    as u128),
                g: Ratio::from_int(hex_to_digit(hex_color.get_char(3), hex_color.get_char(4))
                    as u128),
                b: Ratio::from_int(hex_to_digit(hex_color.get_char(5), hex_color.get_char(6))
                    as u128),
                a: Ratio::from_int(1),
            },
            original: original_color.to_owned(),
        }
    }

    /// Classifies a raw color token; `Err` is the numeric hard fault.
    pub fn new(color: &str) -> (r: Result<Self, NumberFault>)
        ensures
            classify_v(color@) matches Some(cv) ==> (r matches Ok(c) && c@ == cv),
            (classify_v(color@) is None) ==> r is Err,
    {
        let cs = str_to_chars(color);
        if let Some(_) = named_lookup(&cs) {
            return Ok(Color::original(color));
        }
        if cs.len() < 4 {
            return Ok(Color::none(color));
        }
        if cs[0] == '#' {
            return Ok(Color::from_hex(color, &cs));
        }
        if starts_with_str(&cs, "rgba(") {
            return Color::from_rgba(color, &cs);
        }
        if starts_with_str(&cs, "rgb(") {
            return Color::from_rgb(color, &cs);
        }
        if starts_with_str(&cs, "hsla(") {
            return Color::from_hsla(color, &cs);
        }
        if starts_with_str(&cs, "hsl(") {
            return Color::from_hsl(color, &cs);
        }
        Ok(Color::none(color))
    }

    /// A `#`-prefixed token, decoded by its exact length.
    fn from_hex(color: &str, cs: &Vec<char>) -> (c: Self)
        requires
            cs@ == color@,
            cs@.len() >= 4,
            cs@[0] == '#',
        ensures
            c@.original == (if 4 <= cs@.len() <= 9 && cs@.len() != 6 && cs@.len() != 8 {
                cs@
            } else {
                "#000"@
            }),
            cs@.len() == 9 ==> c@ == (ColorView {
                original: cs@,
                pattern: "#XXXXXXXX"@,
                data: rgba_of_hex8(cs@),
            }),
            cs@.len() == 7 ==> c@ == (ColorView {
                original: cs@,
                pattern: "#XXXXXX"@,
                data: rgba_of_hex6(cs@),
            }),
            cs@.len() == 5 ==> c@ == (ColorView {
                original: cs@,
                pattern: "#XXXX"@,
                data: rgba_of_hex4(cs@),
            }),
            cs@.len() == 4 ==> c@ == (ColorView {
                original: cs@,
                pattern: "#XXX"@,
                data: rgba_of_hex3(cs@),
            }),
            cs@.len() == 6 || cs@.len() == 8 || cs@.len() > 9 ==> c@ == default_color_view(),
    {
        let n = cs.len();
        if n == 9 {
            Color {
                pattern: String::from_str("#XXXXXXXX"),
                data: ColorData::RGBA {
                    r: Ratio::from_int(hex_to_digit(cs[1], cs[2]) as u128),
                    g: Ratio::from_int(hex_to_digit(cs[3], cs[4]) as u128),
                    b: Ratio::from_int(hex_to_digit(cs[5], cs[6]) as u128),
                    a: Ratio::new(false, hex_to_digit(cs[7], cs[8]) as u128, 255),
                },
                original: color.to_owned(),
            }
        } else if n == 7 {
            Color {
                pattern: String::from_str("#XXXXXX"),
                data: ColorData::RGBA {
                    r: Ratio::from_int(hex_to_digit(cs[1], cs[2]) as u128),
                    g: Ratio::from_int(hex_to_digit(cs[3], cs[4]) as u128),
                    b: Ratio::from_int(hex_to_digit(cs[5], cs[6]) as u128),
                    a: Ratio::from_int(1),
                },
                original: color.to_owned(),
            }
        } else if n == 5 {
            Color {
                pattern: String::from_str("#XXXX"),
                data: ColorData::RGBA {
                    r: Ratio::from_int(hex_to_digit(cs[1], cs[1]) as u128),
                    g: Ratio::from_int(hex_to_digit(cs[2], cs[2]) as u128),
                    b: Ratio::from_int(hex_to_digit(cs[3], cs[3]) as u128),
                    a: Ratio::new(false, hex_to_digit(cs[4], cs[4]) as u128, 255),
                },
                original: color.to_owned(),
            }
        } else if n == 4 {
            Color {
                pattern: String::from_str("#XXX"),
                data: ColorData::RGBA {
                    r: Ratio::from_int(hex_to_digit(cs[1], cs[1]) as u128),
                    g: Ratio::from_int(hex_to_digit(cs[2], cs[2]) as u128),
                    b: Ratio::from_int(hex_to_digit(cs[3], cs[3]) as u128),
                    a: Ratio::from_int(1),
                },
                original: color.to_owned(),
            }
        } else {
            Color::default()
        }
    }

    /// An `rgba(...)` token.
    #[verifier::loop_isolation(false)]
    fn from_rgba(color: &str, cs: &Vec<char>) -> (r: Result<Self, NumberFault>)
        requires
            cs@ == color@,
        ensures
            classify_rgba(cs@) matches Some(cv) ==> (r matches Ok(c) && c@ == cv),
            (classify_rgba(cs@) is None) ==> r is Err,
    {
        proof {
            reveal_strlit("rgba(");
        }
        let stripped = strip_prefix_rep_chars(cs, "rgba(");
        let body = strip_trailing_chars(&stripped, ')');
        let parts = split_commas_chars(&body);
        let ghost sp = split_commas(fn_body(cs@, "rgba("@));
        proof {
            assert(sp == parts@.map_values(|x: Vec<char>| x@));
            assert(forall|i: int| 0 <= i < parts@.len() ==> sp[i] == #[trigger] parts@[i]@);
        }
        if parts.len() < 3 {
            return Ok(Color::none(color));
        }
        if parts.len() < 4 {
            return Err(NumberFault);
        }
        let r = match chan_rgb_exec(&parts[0], false) {
            Ok(c) => c,
            Err(f) => {
                return Err(f);
            },
        };
        let g = match chan_rgb_exec(&parts[1], false) {
            Ok(c) => c,
            Err(f) => {
                return Err(f);
            },
        };
        let b = match chan_rgb_exec(&parts[2], false) {
            Ok(c) => c,
            Err(f) => {
                return Err(f);
            },
        };
        let a = match chan_rgb_exec(&parts[3], true) {
            Ok(c) => c,
            Err(f) => {
                return Err(f);
            },
        };
        let mut i: usize = 4;
        while i < parts.len()
            invariant
                4 <= i <= parts@.len(),
                sp == parts@.map_values(|x: Vec<char>| x@),
                forall|j: int| 0 <= j < parts@.len() ==> sp[j] == #[trigger] parts@[j]@,
                forall|j: int| 4 <= j < i ==> (chan_rgb(#[trigger] sp[j], false) is Some),
            decreases parts@.len() - i,
        {
            match chan_rgb_exec(&parts[i], false) {
                Ok(_) => {},
                Err(f) => {
                    proof {
                        assert(chan_rgb(sp[i as int], i as int == 3) is None);
                    }
                    return Err(f);
                },
            }
            i = i + 1;
        }
        proof {
            assert forall|j: int| 0 <= j < sp.len() implies chan_rgb(
                #[trigger] sp[j],
                j == 3,
            ) is Some by {
                if j < 4 {
                    assert(chan_rgb(sp[j], j == 3) is Some);
                }
            }
        }
        Ok(
            Color {
                pattern: String::from_str("rgba"),
                data: ColorData::RGBA { r, g, b, a },
                original: color.to_owned(),
            },
        )
    }

    /// An `rgb(...)` token.
    #[verifier::loop_isolation(false)]
    fn from_rgb(color: &str, cs: &Vec<char>) -> (r: Result<Self, NumberFault>)
        requires
            cs@ == color@,
        ensures
            classify_rgb(cs@) matches Some(cv) ==> (r matches Ok(c) && c@ == cv),
            (classify_rgb(cs@) is None) ==> r is Err,
    {
        proof {
            reveal_strlit("rgb(");
        }
        let stripped = strip_prefix_rep_chars(cs, "rgb(");
        let body = strip_trailing_chars(&stripped, ')');
        let parts = split_commas_chars(&body);
        let ghost sp = split_commas(fn_body(cs@, "rgb("@));
        proof {
            assert(sp == parts@.map_values(|x: Vec<char>| x@));
            assert(forall|i: int| 0 <= i < parts@.len() ==> sp[i] == #[trigger] parts@[i]@);
        }
        if parts.len() < 3 {
            return Ok(Color::none(color));
        }
        let r = match chan_rgb_exec(&parts[0], false) {
            Ok(c) => c,
            Err(f) => {
                return Err(f);
            },
        };
        let g = match chan_rgb_exec(&parts[1], false) {
            Ok(c) => c,
            Err(f) => {
                return Err(f);
            },
        };
        let b = match chan_rgb_exec(&parts[2], false) {
            Ok(c) => c,
            Err(f) => {
                return Err(f);
            },
        };
        let mut i: usize = 3;
        while i < parts.len()
            invariant
                3 <= i <= parts@.len(),
                sp == parts@.map_values(|x: Vec<char>| x@),
                forall|j: int| 0 <= j < parts@.len() ==> sp[j] == #[trigger] parts@[j]@,
                forall|j: int| 3 <= j < i ==> (chan_rgb(#[trigger] sp[j], false) is Some),
            decreases parts@.len() - i,
        {
            match chan_rgb_exec(&parts[i], false) {
                Ok(_) => {},
                Err(f) => {
                    return Err(f);
                },
            }
            i = i + 1;
        }
        proof {
            assert forall|j: int| 0 <= j < sp.len() implies chan_rgb(
                #[trigger] sp[j],
                false,
            ) is Some by {
                if j < 3 {
                    assert(chan_rgb(sp[j], false) is Some);
                }
            }
        }
        Ok(
            Color {
                pattern: String::from_str("rgb"),
                data: ColorData::RGBA { r, g, b, a: Ratio::from_int(1) },
                original: color.to_owned(),
            },
        )
    }

    /// An `hsla(...)` token.
    fn from_hsla(color: &str, cs: &Vec<char>) -> (r: Result<Self, NumberFault>)
        requires
            cs@ == color@,
        ensures
            classify_hsla(cs@) matches Some(cv) ==> (r matches Ok(c) && c@ == cv),
            (classify_hsla(cs@) is None) ==> r is Err,
    {
        proof {
            reveal_strlit("hsla(");
        }
        let stripped = strip_prefix_rep_chars(cs, "hsla(");
        let body = strip_trailing_chars(&stripped, ')');
        let parts = split_commas_chars(&body);
        let ghost sp = split_commas(fn_body(cs@, "hsla("@));
        proof {
            assert(sp == parts@.map_values(|x: Vec<char>| x@));
            assert(forall|i: int| 0 <= i < parts@.len() ==> sp[i] == #[trigger] parts@[i]@);
        }
        if parts.len() < 3 {
            return Ok(Color::none(color));
        }
        if parts.len() < 4 {
            return Err(NumberFault);
        }
        let h = match chan_hsl_exec(&parts[0], false) {
            Ok(c) => c,
            Err(f) => {
                return Err(f);
            },
        };
        let s = match chan_hsl_exec(&parts[1], true) {
            Ok(c) => c,
            Err(f) => {
                return Err(f);
            },
        };
        let l = match chan_hsl_exec(&parts[2], true) {
            Ok(c) => c,
            Err(f) => {
                return Err(f);
            },
        };
        let a = match chan_hsl_exec(&parts[3], false) {
            Ok(c) => c,
            Err(f) => {
                return Err(f);
            },
        };
        Ok(
            Color {
                pattern: String::from_str("hsla"),
                data: ColorData::HSLA { h, s, l, a },
                original: color.to_owned(),
            },
        )
    }

    /// An `hsl(...)` token.
    fn from_hsl(color: &str, cs: &Vec<char>) -> (r: Result<Self, NumberFault>)
        requires
            cs@ == color@,
        ensures
            classify_hsl(cs@) matches Some(cv) ==> (r matches Ok(c) && c@ == cv),
            (classify_hsl(cs@) is None) ==> r is Err,
    {
        proof {
            reveal_strlit("hsl(");
        }
        let stripped = strip_prefix_rep_chars(cs, "hsl(");
        let body = strip_trailing_chars(&stripped, ')');
        let parts = split_commas_chars(&body);
        let ghost sp = split_commas(fn_body(cs@, "hsl("@));
        proof {
            assert(sp == parts@.map_values(|x: Vec<char>| x@));
            assert(forall|i: int| 0 <= i < parts@.len() ==> sp[i] == #[trigger] parts@[i]@);
        }
        if parts.len() < 3 {
            return Ok(Color::none(color));
        }
        let h = match chan_hsl_exec(&parts[0], false) {
            Ok(c) => c,
            Err(f) => {
                return Err(f);
            },
        };
        let s = match chan_hsl_exec(&parts[1], true) {
            Ok(c) => c,
            Err(f) => {
                return Err(f);
            },
        };
        let l = match chan_hsl_exec(&parts[2], true) {
            Ok(c) => c,
            Err(f) => {
                return Err(f);
            },
        };
        Ok(
            Color {
                pattern: String::from_str("hsl"),
                data: ColorData::HSLA { h, s, l, a: Ratio::from_int(1) },
                original: color.to_owned(),
            },
        )
    }
}

impl Default for Color {
    /// The fallback color: opaque black, recorded as the token `#000`.
    fn default() -> (c: Self)
        ensures
            c@ == default_color_view(),
    {
        Color {
            original: String::from_str("#000"),
            pattern: String::from_str("#XXX"),
            data: ColorData::RGBA {
                r: Ratio::from_int(0),
                g: Ratio::from_int(0),
                b: Ratio::from_int(0),
                a: Ratio::from_int(1),
            },
        }
    }
}

} // verus!
