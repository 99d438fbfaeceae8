//! Conversion of parsed fixes to decimal coordinates and their text form.
//!
//! A degree-minute-second axis reading converts to decimal degrees as
//! `degree + minute/60 + second/3600`, negated for the southern and western
//! hemispheres. The library carries the exact value as a whole number of
//! arc-seconds (`degree*3600 + minute*60 + second`) and renders it with four
//! decimal places, truncated toward zero.

use vstd::prelude::*;

use crate::parser::{Coordinate, CoordinateDms, DirectionLat, DirectionLon};
use crate::strutil::{
    dec_digits,
    digit_char,
    digit_to_char,
    push_dec_u64,
    str_to_chars,
    string_from_chars,
};

verus! {

/// Total arc-seconds of one axis reading: `deg*3600 + min*60 + sec`. One
/// arc-second is 1/3600 of a degree, so this is the exact coordinate value
/// scaled by 3600.
pub open spec fn dms_total_arcsec(deg: int, min: int, sec: int) -> int {
    deg * 3600 + min * 60 + sec
}

/// The greatest total arc-second value one axis can reach with all three
/// components at the signed 8-bit maximum: `127*3600 + 127*60 + 127`.
pub open spec fn max_axis_arcsec() -> int {
    464947
}

/// The four decimal places of `frac`, zero-padded.
pub open spec fn padded4(frac: int) -> Seq<char> {
    seq![
        digit_char(frac / 1000 % 10),
        digit_char(frac / 100 % 10),
        digit_char(frac / 10 % 10),
        digit_char(frac % 10),
    ]
}

/// Text of one axis value given as total arc-seconds: an optional minus sign,
/// the whole degrees, a point, and four decimal places truncated toward zero.
pub open spec fn decimal_axis_string(negative: bool, total_arcsec: int) -> Seq<char>
    recommends
        total_arcsec >= 0,
{
    (if negative {
        seq!['-']
    } else {
        Seq::<char>::empty()
    }) + dec_digits((total_arcsec / 3600) as nat) + seq!['.'] + padded4(
        total_arcsec % 3600 * 10000 / 3600,
    )
}

/// Decimal conversion law, magnitude: with minutes and seconds below 60, the
/// value `degree + minute/60 + second/3600` has whole part `degree`, and its
/// fraction of a degree is exactly `minute*60 + second` arc-seconds. The
/// rendered text therefore shows the whole degrees before the point and the
/// scaled remaining arc-seconds after it.
pub proof fn lemma_decimal_parts(deg: int, min: int, sec: int)
    requires
        0 <= deg,
        0 <= min < 60,
        0 <= sec < 60,
    ensures
        dms_total_arcsec(deg, min, sec) / 3600 == deg,
        dms_total_arcsec(deg, min, sec) % 3600 == min * 60 + sec,
{
    let total = dms_total_arcsec(deg, min, sec);
    assert(total == 3600 * deg + (min * 60 + sec));
    vstd::arithmetic::div_mod::lemma_div_multiples_vanish_fancy(deg, min * 60 + sec, 3600);
    vstd::arithmetic::div_mod::lemma_fundamental_div_mod(total, 3600);
}

/// Decimal conversion law, hemisphere sign: a southern or western reading
/// renders as the minus sign followed by the text of the same magnitude.
pub proof fn lemma_hemisphere_negates(total_arcsec: int)
    ensures
        decimal_axis_string(true, total_arcsec) == seq!['-'] + decimal_axis_string(
            false,
            total_arcsec,
        ),
{
    assert(decimal_axis_string(true, total_arcsec) =~= seq!['-'] + decimal_axis_string(
        false,
        total_arcsec,
    ));
}

impl CoordinateDms {
    /// All eight components hold plausible parsed values: non-negative and
    /// within the signed 8-bit storage. Every fix the parser produces
    /// satisfies this.
    pub open spec fn wf(self) -> bool {
        &&& 0 <= self.lat_degree
        &&& 0 <= self.lat_min
        &&& 0 <= self.lat_sec
        &&& 0 <= self.lon_degree
        &&& 0 <= self.lon_min
        &&& 0 <= self.lon_sec
    }

    /// Latitude of this fix in total arc-seconds.
    pub open spec fn lat_arcsec(self) -> int {
        dms_total_arcsec(self.lat_degree as int, self.lat_min as int, self.lat_sec as int)
    }

    /// Longitude of this fix in total arc-seconds.
    pub open spec fn lon_arcsec(self) -> int {
        dms_total_arcsec(self.lon_degree as int, self.lon_min as int, self.lon_sec as int)
    }

    /// The southern hemisphere carries a negative latitude.
    pub open spec fn lat_negative(self) -> bool {
        self.lat_direction == DirectionLat::South
    }

    /// The western hemisphere carries a negative longitude.
    pub open spec fn lon_negative(self) -> bool {
        self.lon_direction == DirectionLon::West
    }

    /// Latitude of this fix in total arc-seconds, as an executable value.
    pub fn lat_arcsec_value(&self) -> (r: u32)
        requires
            self.wf(),
        ensures
            r == self.lat_arcsec(),
    {
        (self.lat_degree as u32) * 3600 + (self.lat_min as u32) * 60 + (self.lat_sec as u32)
    }

    /// Longitude of this fix in total arc-seconds, as an executable value.
    pub fn lon_arcsec_value(&self) -> (r: u32)
        requires
            self.wf(),
        ensures
            r == self.lon_arcsec(),
    {
        (self.lon_degree as u32) * 3600 + (self.lon_min as u32) * 60 + (self.lon_sec as u32)
    }
}

/// Appends the decimal text of one axis value to `out`; executable form of
/// `decimal_axis_string`.
fn push_axis_decimal(out: &mut Vec<char>, negative: bool, total_arcsec: u32)
    ensures
        final (out)@ == old(out)@ + decimal_axis_string(negative, total_arcsec as int),
{
    let ghost start = out@;
    if negative {
        out.push('-');
    }
    let whole: u32 = total_arcsec / 3600;
    let frac: u32 = total_arcsec % 3600 * 10000 / 3600;
    push_dec_u64(out, whole as u64);
    out.push('.');
    out.push(digit_to_char((frac / 1000 % 10) as u64));
    out.push(digit_to_char((frac / 100 % 10) as u64));
    out.push(digit_to_char((frac / 10 % 10) as u64));
    out.push(digit_to_char((frac % 10) as u64));
    proof {
        assert(out@ =~= start + decimal_axis_string(negative, total_arcsec as int));
    }
}

/// The latitude placeholder, `{lat}`.
pub open spec fn lat_token() -> Seq<char> {
    seq!['{', 'l', 'a', 't', '}']
}

/// The longitude placeholder, `{lon}`.
pub open spec fn lon_token() -> Seq<char> {
    seq!['{', 'l', 'o', 'n', '}']
}

/// The template with every `{lat}` replaced by `lat` and every `{lon}`
/// replaced by `lon`, scanned left to right.
pub open spec fn render_template(t: Seq<char>, lat: Seq<char>, lon: Seq<char>) -> Seq<char>
    decreases t.len(),
{
    if t.len() == 0 {
        t
    } else if t.len() >= 5 && t.subrange(0, 5) == lat_token() {
        lat + render_template(t.skip(5), lat, lon)
    } else if t.len() >= 5 && t.subrange(0, 5) == lon_token() {
        lon + render_template(t.skip(5), lat, lon)
    } else {
        seq![t[0]] + render_template(t.skip(1), lat, lon)
    }
}

/// Appends every character of `piece` to `out`.
fn push_all(out: &mut Vec<char>, piece: &Vec<char>)
    ensures
        final (out)@ == old(out)@ + piece@,
{
    let ghost start = out@;
    let mut k: usize = 0;
    proof {
        assert(out@ =~= start + piece@.subrange(0, 0));
    }
    while k < piece.len()
        invariant
            k <= piece@.len(),
            out@ == start + piece@.subrange(0, k as int),
        decreases piece@.len() - k,
    {
        out.push(piece[k]);
        proof {
            assert(out@ =~= start + piece@.subrange(0, k as int + 1));
        }
        k = k + 1;
    }
    proof {
        assert(out@ =~= start + piece@);
    }
}

/// Tests whether the five template characters starting at `i` are the given
/// placeholder token.
fn token_at(t: &Vec<char>, i: usize, c1: char, c2: char, c3: char) -> (r: bool)
    requires
        i < t@.len(),
    ensures
        r == (i + 5 <= t@.len() && t@.subrange(i as int, t@.len() as int).subrange(0, 5) == seq![
            '{',
            c1,
            c2,
            c3,
            '}',
        ]),
{
    let ghost rest = t@.subrange(i as int, t@.len() as int);
    if t.len() - i < 5 {
        return false;
    }
    let hit = t[i] == '{' && t[i + 1] == c1 && t[i + 2] == c2 && t[i + 3] == c3 && t[i + 4] == '}';
    proof {
        if hit {
            assert(rest.subrange(0, 5) =~= seq!['{', c1, c2, c3, '}']);
        } else {
            if rest.subrange(0, 5) == seq!['{', c1, c2, c3, '}'] {
                assert(rest.subrange(0, 5)[0] == '{' && rest.subrange(0, 5)[1] == c1
                    && rest.subrange(0, 5)[2] == c2 && rest.subrange(0, 5)[3] == c3
                    && rest.subrange(0, 5)[4] == '}');
                assert(false);
            }
        }
    }
    hit
}

/// Renders a template: every `{lat}` placeholder becomes `lat`, every `{lon}`
/// placeholder becomes `lon`; all other characters are kept.
fn render_chars(t: &Vec<char>, lat: &Vec<char>, lon: &Vec<char>) -> (r: Vec<char>)
    ensures
        r@ == render_template(t@, lat@, lon@),
{
    let mut out: Vec<char> = Vec::new();
    let mut i: usize = 0;
    proof {
        assert(t@.subrange(0, t@.len() as int) =~= t@);
    }
    while i < t.len()
        invariant
            i <= t@.len(),
            render_template(t@, lat@, lon@) == out@ + render_template(
                t@.subrange(i as int, t@.len() as int),
                lat@,
                lon@,
            ),
        decreases t@.len() - i,
    {
        let ghost rest = t@.subrange(i as int, t@.len() as int);
        let ghost prev = out@;
        if token_at(t, i, 'l', 'a', 't') {
            proof {
                assert(rest.subrange(0, 5) == lat_token());
                assert(rest.skip(5) =~= t@.subrange(i as int + 5, t@.len() as int));
            }
            push_all(&mut out, lat);
            i = i + 5;
            proof {
                let tail = render_template(t@.subrange(i as int, t@.len() as int), lat@, lon@);
                assert((prev + lat@) + tail =~= prev + (lat@ + tail));
            }
        } else if token_at(t, i, 'l', 'o', 'n') {
            proof {
                assert(rest.subrange(0, 5) == lon_token());
                assert(rest.skip(5) =~= t@.subrange(i as int + 5, t@.len() as int));
            }
            push_all(&mut out, lon);
            i = i + 5;
            proof {
                let tail = render_template(t@.subrange(i as int, t@.len() as int), lat@, lon@);
                assert((prev + lon@) + tail =~= prev + (lon@ + tail));
            }
        } else {
            proof {
                assert(rest[0] == t@[i as int]);
                assert(rest.skip(1) =~= t@.subrange(i as int + 1, t@.len() as int));
            }
            out.push(t[i]);
            i = i + 1;
            proof {
                let tail = render_template(t@.subrange(i as int, t@.len() as int), lat@, lon@);
                assert(out@ =~= prev + seq![t@[i - 1]]);
                assert((prev + seq![t@[i - 1]]) + tail =~= prev + (seq![t@[i - 1]] + tail));
            }
        }
    }
    proof {
        assert(t@.subrange(t@.len() as int, t@.len() as int) =~= Seq::<char>::empty());
        assert(render_template(Seq::<char>::empty(), lat@, lon@) =~= Seq::<char>::empty());
        assert(out@ =~= render_template(t@, lat@, lon@));
    }
    out
}

impl Coordinate {
    /// The decimal rendering of this coordinate: latitude, a comma and a
    /// space, then longitude, each with four decimal places.
    pub open spec fn spec_decimal(self) -> Seq<char> {
        match self {
            Coordinate::DegreeMinSec(d) => decimal_axis_string(d.lat_negative(), d.lat_arcsec())
                + seq![',', ' '] + decimal_axis_string(d.lon_negative(), d.lon_arcsec()),
        }
    }

    /// The component readings of this coordinate are plausible parsed values.
    pub open spec fn wf(self) -> bool {
        match self {
            Coordinate::DegreeMinSec(d) => d.wf(),
        }
    }

    /// Converts this coordinate to its decimal text, `latitude, longitude`,
    /// with the southern and western hemispheres negated.
    pub fn to_decimal(&self) -> (r: String)
        requires
            self.wf(),
        ensures
            r@ == self.spec_decimal(),
    {
        let mut out: Vec<char> = Vec::new();
        match self {
            Coordinate::DegreeMinSec(d) => {
                let lat_neg = matches!(d.lat_direction, DirectionLat::South);
                let lon_neg = matches!(d.lon_direction, DirectionLon::West);
                push_axis_decimal(&mut out, lat_neg, d.lat_arcsec_value());
                out.push(',');
                out.push(' ');
                push_axis_decimal(&mut out, lon_neg, d.lon_arcsec_value());
                proof {
                    assert(out@ =~= self.spec_decimal());
                }
            },
        }
        string_from_chars(&out)
    }

    /// Decimal text of this coordinate's latitude alone.
    pub open spec fn spec_lat_string(self) -> Seq<char> {
        match self {
            Coordinate::DegreeMinSec(d) => decimal_axis_string(d.lat_negative(), d.lat_arcsec()),
        }
    }

    /// Decimal text of this coordinate's longitude alone.
    pub open spec fn spec_lon_string(self) -> Seq<char> {
        match self {
            Coordinate::DegreeMinSec(d) => decimal_axis_string(d.lon_negative(), d.lon_arcsec()),
        }
    }

    /// Signed arc-second pair of this coordinate: latitude then longitude,
    /// negative for the southern and western hemispheres.
    pub open spec fn signed_arcsec(self) -> (int, int) {
        match self {
            Coordinate::DegreeMinSec(d) => (
                if d.lat_negative() {
                    -d.lat_arcsec()
                } else {
                    d.lat_arcsec()
                },
                if d.lon_negative() {
                    -d.lon_arcsec()
                } else {
                    d.lon_arcsec()
                },
            ),
        }
    }

    /// Executable signed arc-second pair; see `signed_arcsec`.
    pub fn signed_arcsec_values(&self) -> (r: (i64, i64))
        requires
            self.wf(),
        ensures
            r.0 == self.signed_arcsec().0,
            r.1 == self.signed_arcsec().1,
            -max_axis_arcsec() <= r.0 <= max_axis_arcsec(),
            -max_axis_arcsec() <= r.1 <= max_axis_arcsec(),
    {
        match self {
            Coordinate::DegreeMinSec(d) => {
                let lat: i64 = d.lat_arcsec_value() as i64;
                let lon: i64 = d.lon_arcsec_value() as i64;
                (
                    if matches!(d.lat_direction, DirectionLat::South) {
                        -lat
                    } else {
                        lat
                    },
                    if matches!(d.lon_direction, DirectionLon::West) {
                        -lon
                    } else {
                        lon
                    },
                )
            },
        }
    }

    /// Renders this coordinate through an output template: every `{lat}` in
    /// the template becomes the decimal latitude, every `{lon}` the decimal
    /// longitude.
    pub fn to_decimal_with_format(&self, template: &str) -> (r: String)
        requires
            self.wf(),
        ensures
            r@ == render_template(template@, self.spec_lat_string(), self.spec_lon_string()),
    {
        match self {
            Coordinate::DegreeMinSec(d) => {
                let mut lat_text: Vec<char> = Vec::new();
                let mut lon_text: Vec<char> = Vec::new();
                let lat_neg = matches!(d.lat_direction, DirectionLat::South);
                let lon_neg = matches!(d.lon_direction, DirectionLon::West);
                push_axis_decimal(&mut lat_text, lat_neg, d.lat_arcsec_value());
                push_axis_decimal(&mut lon_text, lon_neg, d.lon_arcsec_value());
                let template_chars = str_to_chars(template);
                let out = render_chars(&template_chars, &lat_text, &lon_text);
                string_from_chars(&out)
            },
        }
    }
}

} // verus!
