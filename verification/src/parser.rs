//! Noise-tolerant parser for degree-minute-second (DMS) telemetry lines.
//!
//! A dashcam burns lines such as `N51°25 48” E0°19 20” 51MPH 12:42:29` into
//! each frame; optical character recognition returns them with heavy noise
//! (stray punctuation, misread separators, the letters `O` and `Q` in place of
//! the digit `0`). The parser first normalizes the two zero-like letters, then
//! scans each line for a hemisphere letter, a degree digit run, a degree
//! marker, a minute digit run and a second digit run — for latitude first and
//! then longitude on the same line. Runs of junk characters are skipped
//! between the fields; a line is rejected only when one of the eight required
//! fields is absent or when a numeric field does not fit its signed 8-bit
//! storage.

use vstd::prelude::*;

use crate::strutil::{digit_val, is_digit, is_digit_char, str_to_chars};

verus! {

/// Latitude hemisphere of a parsed fix.
#[derive(Clone, Copy, Debug, PartialEq, Eq, Structural)]
pub enum DirectionLat {
    North,
    South,
}

/// Longitude hemisphere of a parsed fix.
#[derive(Clone, Copy, Debug, PartialEq, Eq, Structural)]
pub enum DirectionLon {
    East,
    West,
}

/// One decoded telemetry reading: hemisphere letters and degree, minute and
/// second components for both axes. Components are stored as signed 8-bit
/// integers and are always non-negative.
#[derive(Clone, Copy, Debug, PartialEq, Eq, Structural)]
pub struct CoordinateDms {
    pub lat_direction: DirectionLat,
    pub lat_degree: i8,
    pub lat_min: i8,
    pub lat_sec: i8,
    pub lon_direction: DirectionLon,
    pub lon_degree: i8,
    pub lon_min: i8,
    pub lon_sec: i8,
}

/// A coordinate reading in one of the supported encodings.
#[derive(Clone, Copy, Debug, PartialEq, Eq, Structural)]
pub enum Coordinate {
    DegreeMinSec(CoordinateDms),
}

/// Why a text line yielded no fix.
#[derive(Clone, Copy, Debug, PartialEq, Eq, Structural)]
pub enum ParseError {
    /// The line does not contain the full latitude-plus-longitude pattern.
    NoMatch,
    /// The pattern matched but a numeric field exceeds the signed 8-bit range.
    FieldOutOfRange,
}

/// Replaces the two letters that optical character recognition commonly
/// substitutes for the digit zero.
pub open spec fn normalize_char(c: char) -> char {
    if c == 'O' || c == 'Q' {
        '0'
    } else {
        c
    }
}

/// The line with the zero-like letter substitutions applied.
pub open spec fn normalize_line(s: Seq<char>) -> Seq<char> {
    s.map(|_i: int, c: char| normalize_char(c))
}

/// True for a latitude hemisphere letter.
pub open spec fn is_lat_letter(c: char) -> bool {
    c == 'N' || c == 'S'
}

/// True for a longitude hemisphere letter.
pub open spec fn is_lon_letter(c: char) -> bool {
    c == 'E' || c == 'W'
}

/// True for the degree marker.
pub open spec fn is_deg_marker(c: char) -> bool {
    c == '°'
}

/// First index at or after `i` holding a decimal digit, or the length of `s`
/// if there is none.
pub open spec fn next_digit(s: Seq<char>, i: int) -> int
    decreases s.len() - i,
{
    if i >= s.len() {
        s.len() as int
    } else if is_digit_char(s[i]) {
        i
    } else {
        next_digit(s, i + 1)
    }
}

/// First index at or after `i` holding the degree marker, or the length of
/// `s` if there is none.
pub open spec fn next_deg_marker(s: Seq<char>, i: int) -> int
    decreases s.len() - i,
{
    if i >= s.len() {
        s.len() as int
    } else if is_deg_marker(s[i]) {
        i
    } else {
        next_deg_marker(s, i + 1)
    }
}

/// End of the digit run that starts at `i`: the first index at or after `i`
/// holding no digit, or the length of `s`.
pub open spec fn run_end(s: Seq<char>, i: int) -> int
    decreases s.len() - i,
{
    if i >= s.len() {
        s.len() as int
    } else if !is_digit_char(s[i]) {
        i
    } else {
        run_end(s, i + 1)
    }
}

/// Numeric value of the digit run `s[start..end]`.
pub open spec fn run_val(s: Seq<char>, start: int, end: int) -> int
    decreases end - start,
{
    if start >= end {
        0
    } else {
        run_val(s, start, end - 1) * 10 + digit_val(s[end - 1])
    }
}

/// Positions of one axis's three numeric fields: degree run, minute run and
/// second run, each given by its start and end index.
pub struct AxisRuns {
    pub deg_start: int,
    pub deg_end: int,
    pub min_start: int,
    pub min_end: int,
    pub sec_start: int,
    pub sec_end: int,
}

/// Scans one axis's numeric fields from index `i` on: the first digit run (the
/// degrees), then the first degree marker after it, then the next digit run
/// (the minutes), then the next digit run after that (the seconds). Junk
/// characters between the fields are skipped. `None` when any field is absent.
pub open spec fn scan_axis(s: Seq<char>, i: int) -> Option<AxisRuns> {
    let ds = next_digit(s, i);
    if ds >= s.len() {
        None
    } else {
        let de = run_end(s, ds);
        let mark = next_deg_marker(s, de);
        if mark >= s.len() {
            None
        } else {
            let ms = next_digit(s, mark + 1);
            if ms >= s.len() {
                None
            } else {
                let me = run_end(s, ms);
                let ss = next_digit(s, me);
                if ss >= s.len() {
                    None
                } else {
                    Some(
                        AxisRuns {
                            deg_start: ds,
                            deg_end: de,
                            min_start: ms,
                            min_end: me,
                            sec_start: ss,
                            sec_end: run_end(s, ss),
                        },
                    )
                }
            }
        }
    }
}

/// The longitude half of a match: the first longitude hemisphere letter at or
/// after `q` whose axis fields all scan, together with those fields.
pub open spec fn scan_lon(s: Seq<char>, q: int) -> Option<(int, AxisRuns)>
    decreases s.len() - q,
{
    if q >= s.len() {
        None
    } else if is_lon_letter(s[q]) {
        match scan_axis(s, q + 1) {
            Some(ax) => Some((q, ax)),
            None => scan_lon(s, q + 1),
        }
    } else {
        scan_lon(s, q + 1)
    }
}

/// A full structural match: the latitude hemisphere position and fields, and
/// the longitude hemisphere position and fields.
pub struct LineMatch {
    pub lat_pos: int,
    pub lat: AxisRuns,
    pub lon_pos: int,
    pub lon: AxisRuns,
}

/// The leftmost structural match from index `i` on: the first latitude
/// hemisphere letter whose axis fields scan and that is followed by a
/// longitude hemisphere letter whose fields scan as well.
pub open spec fn find_match(s: Seq<char>, i: int) -> Option<LineMatch>
    decreases s.len() - i,
{
    if i >= s.len() {
        None
    } else if is_lat_letter(s[i]) {
        match scan_axis(s, i + 1) {
            Some(lat_ax) => match scan_lon(s, lat_ax.sec_end) {
                Some((ew, lon_ax)) => Some(
                    LineMatch { lat_pos: i, lat: lat_ax, lon_pos: ew, lon: lon_ax },
                ),
                None => find_match(s, i + 1),
            },
            None => find_match(s, i + 1),
        }
    } else {
        find_match(s, i + 1)
    }
}

/// True when every numeric field of a structural match fits the signed 8-bit
/// component storage.
pub open spec fn fields_in_range(s: Seq<char>, m: LineMatch) -> bool {
    &&& run_val(s, m.lat.deg_start, m.lat.deg_end) <= 127
    &&& run_val(s, m.lat.min_start, m.lat.min_end) <= 127
    &&& run_val(s, m.lat.sec_start, m.lat.sec_end) <= 127
    &&& run_val(s, m.lon.deg_start, m.lon.deg_end) <= 127
    &&& run_val(s, m.lon.min_start, m.lon.min_end) <= 127
    &&& run_val(s, m.lon.sec_start, m.lon.sec_end) <= 127
}

/// The fix described by a structural match of the normalized line `s`.
pub open spec fn fix_of_match(s: Seq<char>, m: LineMatch) -> CoordinateDms {
    CoordinateDms {
        lat_direction: if s[m.lat_pos] == 'N' {
            DirectionLat::North
        } else {
            DirectionLat::South
        },
        lat_degree: run_val(s, m.lat.deg_start, m.lat.deg_end) as i8,
        lat_min: run_val(s, m.lat.min_start, m.lat.min_end) as i8,
        lat_sec: run_val(s, m.lat.sec_start, m.lat.sec_end) as i8,
        lon_direction: if s[m.lon_pos] == 'E' {
            DirectionLon::East
        } else {
            DirectionLon::West
        },
        lon_degree: run_val(s, m.lon.deg_start, m.lon.deg_end) as i8,
        lon_min: run_val(s, m.lon.min_start, m.lon.min_end) as i8,
        lon_sec: run_val(s, m.lon.sec_start, m.lon.sec_end) as i8,
    }
}

/// What one raw text line yields: the fix of the leftmost structural match of
/// the normalized line, provided all of its numeric fields are in range.
pub open spec fn spec_parse_line(raw: Seq<char>) -> Option<CoordinateDms> {
    let s = normalize_line(raw);
    match find_match(s, 0) {
        None => None,
        Some(m) => if fields_in_range(s, m) {
            Some(fix_of_match(s, m))
        } else {
            None
        },
    }
}

/// The text split at newline characters, as Rust's `str::split` does it: one
/// entry per line, the separators dropped, an empty final entry after a
/// trailing newline, and a single empty entry for the empty text.
pub open spec fn split_lines(s: Seq<char>) -> Seq<Seq<char>>
    decreases s.len(),
{
    if s.len() == 0 {
        seq![Seq::<char>::empty()]
    } else if s[0] == '\n' {
        seq![Seq::<char>::empty()] + split_lines(s.drop_first())
    } else {
        let rest = split_lines(s.drop_first());
        seq![seq![s[0]] + rest[0]] + rest.drop_first()
    }
}

/// The fixes of a sequence of lines, in order, one per line that parses.
pub open spec fn fixes_of_lines(ls: Seq<Seq<char>>) -> Seq<CoordinateDms>
    decreases ls.len(),
{
    if ls.len() == 0 {
        Seq::<CoordinateDms>::empty()
    } else {
        (match spec_parse_line(ls[0]) {
            Some(f) => seq![f],
            None => Seq::<CoordinateDms>::empty(),
        }) + fixes_of_lines(ls.drop_first())
    }
}

/// All fixes found in a multi-line text: each line parsed independently, the
/// fixes kept in line order.
pub open spec fn spec_parse_lines(s: Seq<char>) -> Seq<CoordinateDms> {
    fixes_of_lines(split_lines(s))
}

/// A text without newlines is one single line.
proof fn lemma_split_no_newline(a: Seq<char>)
    requires
        forall|k: int| 0 <= k < a.len() ==> a[k] != '\n',
    ensures
        split_lines(a) == seq![a],
    decreases a.len(),
{
    if a.len() == 0 {
        assert(a =~= Seq::<char>::empty());
        assert(split_lines(a) =~~= seq![a]);
    } else {
        lemma_split_no_newline(a.drop_first());
        let rest = split_lines(a.drop_first());
        assert(rest == seq![a.drop_first()]);
        assert(seq![a[0]] + rest[0] =~= a);
        assert(rest.drop_first() =~= Seq::<Seq<char>>::empty());
        assert(split_lines(a) =~~= seq![a]);
    }
}

/// Splitting a text that starts with one newline-free line followed by a
/// newline peels that line off the front.
proof fn lemma_split_prefix(a: Seq<char>, b: Seq<char>)
    requires
        forall|k: int| 0 <= k < a.len() ==> a[k] != '\n',
    ensures
        split_lines(a + seq!['\n'] + b) == seq![a] + split_lines(b),
    decreases a.len(),
{
    let s = a + seq!['\n'] + b;
    if a.len() == 0 {
        assert(s[0] == '\n');
        assert(s.drop_first() =~= b);
        assert(a =~= Seq::<char>::empty());
        assert(split_lines(s) =~~= seq![a] + split_lines(b));
    } else {
        lemma_split_prefix(a.drop_first(), b);
        assert(s[0] == a[0]);
        assert(s.drop_first() =~= a.drop_first() + seq!['\n'] + b);
        let rest = split_lines(s.drop_first());
        assert(rest == seq![a.drop_first()] + split_lines(b));
        assert(rest[0] == a.drop_first());
        assert(seq![s[0]] + rest[0] =~= a);
        assert(rest.drop_first() =~= split_lines(b));
        assert(split_lines(s) =~~= seq![a] + split_lines(b));
    }
}

/// The fixes of concatenated line sequences are the concatenated fixes.
proof fn lemma_fixes_concat(x: Seq<Seq<char>>, y: Seq<Seq<char>>)
    ensures
        fixes_of_lines(x + y) == fixes_of_lines(x) + fixes_of_lines(y),
    decreases x.len(),
{
    if x.len() == 0 {
        assert(x + y =~= y);
        assert(fixes_of_lines(x) =~= Seq::<CoordinateDms>::empty());
        assert(fixes_of_lines(x + y) =~= fixes_of_lines(x) + fixes_of_lines(y));
    } else {
        lemma_fixes_concat(x.drop_first(), y);
        assert((x + y).drop_first() =~= x.drop_first() + y);
        assert((x + y)[0] == x[0]);
        assert(fixes_of_lines(x + y) =~= fixes_of_lines(x) + fixes_of_lines(y));
    }
}

/// Parses every line of a (possibly multi-line) text and collects the fixes
/// found, one per line that holds the full pattern, in line order.
pub fn parse_coordinate_from_lines(lines: &str) -> (r: Vec<Coordinate>)
    ensures
        r@ == spec_parse_lines(lines@).map_values(
            |f: CoordinateDms| Coordinate::DegreeMinSec(f),
        ),
        forall|k: int| 0 <= k < r@.len() ==> (#[trigger] r@[k]).wf(),
{
    let chars = str_to_chars(lines);
    let n: usize = chars.len();
    let mut out: Vec<Coordinate> = Vec::new();
    let ghost mut acc: Seq<CoordinateDms> = Seq::empty();
    let mut cur: Vec<char> = Vec::new();
    let mut i: usize = 0;
    proof {
        assert(cur@ + chars@.subrange(0, n as int) =~= chars@);
    }
    while i < n
        invariant
            i <= n,
            n == chars@.len(),
            out@.len() == acc.len(),
            forall|k: int| 0 <= k < acc.len() ==> out@[k] == Coordinate::DegreeMinSec(acc[k]),
            forall|k: int| 0 <= k < out@.len() ==> (#[trigger] out@[k]).wf(),
            forall|k: int| 0 <= k < cur@.len() ==> cur@[k] != '\n',
            spec_parse_lines(chars@) == acc + fixes_of_lines(
                split_lines(cur@ + chars@.subrange(i as int, n as int)),
            ),
        decreases n - i,
    {
        let c: char = chars[i];
        if c == '\n' {
            let ghost line = cur@;
            let ghost rest = chars@.subrange(i as int + 1, n as int);
            proof {
                assert(cur@ + chars@.subrange(i as int, n as int) =~= line + seq!['\n'] + rest);
                lemma_split_prefix(line, rest);
                lemma_fixes_concat(seq![line], split_lines(rest));
                assert((seq![line]).drop_first() =~= Seq::<Seq<char>>::empty());
                assert(fixes_of_lines((seq![line]).drop_first()) =~= Seq::<CoordinateDms>::empty());
            }
            match CoordinateDms::parse_line_chars(&cur) {
                Ok(fix) => {
                    out.push(Coordinate::DegreeMinSec(fix));
                    proof {
                        assert(fixes_of_lines(seq![line]) =~= seq![fix]);
                        assert(acc + seq![fix] + fixes_of_lines(split_lines(rest)) =~= acc + (seq![
                            fix,
                        ] + fixes_of_lines(split_lines(rest))));
                        acc = acc + seq![fix];
                    }
                },
                Err(_) => {
                    proof {
                        assert(fixes_of_lines(seq![line]) =~= Seq::<CoordinateDms>::empty());
                        assert(acc + fixes_of_lines(split_lines(rest)) =~= acc + (
                        Seq::<CoordinateDms>::empty() + fixes_of_lines(split_lines(rest))));
                    }
                },
            }
            cur = Vec::new();
            proof {
                assert(cur@ + chars@.subrange(i as int + 1, n as int) =~= rest);
            }
        } else {
            let ghost prev = cur@;
            cur.push(c);
            proof {
                assert(cur@ + chars@.subrange(i as int + 1, n as int) =~= prev + chars@.subrange(
                    i as int,
                    n as int,
                ));
            }
        }
        i = i + 1;
    }
    let ghost line = cur@;
    proof {
        assert(cur@ + chars@.subrange(n as int, n as int) =~= line);
        lemma_split_no_newline(line);
        assert((seq![line]).drop_first() =~= Seq::<Seq<char>>::empty());
        assert(fixes_of_lines((seq![line]).drop_first()) =~= Seq::<CoordinateDms>::empty());
    }
    match CoordinateDms::parse_line_chars(&cur) {
        Ok(fix) => {
            out.push(Coordinate::DegreeMinSec(fix));
            proof {
                assert(fixes_of_lines(seq![line]) =~= seq![fix]);
                assert(spec_parse_lines(chars@) =~= acc + seq![fix]);
                acc = acc + seq![fix];
            }
        },
        Err(_) => {
            proof {
                assert(fixes_of_lines(seq![line]) =~= Seq::<CoordinateDms>::empty());
                assert(spec_parse_lines(chars@) =~= acc);
            }
        },
    }
    proof {
        let m = spec_parse_lines(chars@).map_values(
            |f: CoordinateDms| Coordinate::DegreeMinSec(f),
        );
        assert(spec_parse_lines(chars@) == acc);
        assert(m.len() == acc.len());
        assert forall|k: int| 0 <= k < m.len() implies out@[k] == m[k] by {
            assert(m[k] == Coordinate::DegreeMinSec(acc[k]));
        }
        assert(out@ =~= m);
    }
    out
}

/// Executable axis-run positions; `as_axis` maps them to the spec view.
struct Runs {
    deg_start: usize,
    deg_end: usize,
    min_start: usize,
    min_end: usize,
    sec_start: usize,
    sec_end: usize,
}

impl Runs {
    /// The spec-level view of these run positions.
    spec fn as_axis(self) -> AxisRuns {
        AxisRuns {
            deg_start: self.deg_start as int,
            deg_end: self.deg_end as int,
            min_start: self.min_start as int,
            min_end: self.min_end as int,
            sec_start: self.sec_start as int,
            sec_end: self.sec_end as int,
        }
    }

    /// All three runs hold digits only, within bounds of `s`.
    spec fn wf(self, s: Seq<char>) -> bool {
        &&& self.deg_start <= self.deg_end <= s.len()
        &&& self.min_start <= self.min_end <= s.len()
        &&& self.sec_start <= self.sec_end <= s.len()
        &&& forall|k: int|
            self.deg_start <= k < self.deg_end ==> is_digit_char(s[k])
        &&& forall|k: int|
            self.min_start <= k < self.min_end ==> is_digit_char(s[k])
        &&& forall|k: int|
            self.sec_start <= k < self.sec_end ==> is_digit_char(s[k])
    }
}

/// Applies the zero-like letter substitutions to a character vector.
fn normalize_chars(s: &Vec<char>) -> (r: Vec<char>)
    ensures
        r@ == normalize_line(s@),
{
    let mut r: Vec<char> = Vec::new();
    let mut i: usize = 0;
    proof {
        assert(r@ =~= normalize_line(s@).subrange(0, 0));
    }
    while i < s.len()
        invariant
            i <= s@.len(),
            r@ == normalize_line(s@).subrange(0, i as int),
        decreases s@.len() - i,
    {
        let c: char = s[i];
        if c == 'O' || c == 'Q' {
            r.push('0');
        } else {
            r.push(c);
        }
        proof {
            assert(r@ =~= normalize_line(s@).subrange(0, i as int + 1));
        }
        i = i + 1;
    }
    proof {
        assert(r@ =~= normalize_line(s@));
    }
    r
}

/// First digit position at or after `i`, executable form of `next_digit`.
fn exec_next_digit(s: &Vec<char>, i: usize) -> (r: usize)
    requires
        i <= s@.len(),
    ensures
        r == next_digit(s@, i as int),
        i <= r <= s@.len(),
        r < s@.len() ==> is_digit_char(s@[r as int]),
{
    let mut j: usize = i;
    while j < s.len() && !is_digit(s[j])
        invariant
            i <= j <= s@.len(),
            next_digit(s@, i as int) == next_digit(s@, j as int),
        decreases s@.len() - j,
    {
        j = j + 1;
    }
    j
}

/// First degree-marker position at or after `i`, executable form of
/// `next_deg_marker`.
fn exec_next_deg_marker(s: &Vec<char>, i: usize) -> (r: usize)
    requires
        i <= s@.len(),
    ensures
        r == next_deg_marker(s@, i as int),
        i <= r <= s@.len(),
{
    let mut j: usize = i;
    while j < s.len() && s[j] != '°'
        invariant
            i <= j <= s@.len(),
            next_deg_marker(s@, i as int) == next_deg_marker(s@, j as int),
        decreases s@.len() - j,
    {
        j = j + 1;
    }
    j
}

/// End of the digit run starting at `i`, executable form of `run_end`.
fn exec_run_end(s: &Vec<char>, i: usize) -> (r: usize)
    requires
        i <= s@.len(),
    ensures
        r == run_end(s@, i as int),
        i <= r <= s@.len(),
        forall|k: int| i <= k < r ==> is_digit_char(s@[k]),
{
    let mut j: usize = i;
    while j < s.len() && is_digit(s[j])
        invariant
            i <= j <= s@.len(),
            run_end(s@, i as int) == run_end(s@, j as int),
            forall|k: int| i <= k < j ==> is_digit_char(s@[k]),
        decreases s@.len() - j,
    {
        j = j + 1;
    }
    j
}

/// Scans one axis's fields from `i` on, executable form of `scan_axis`.
fn exec_scan_axis(s: &Vec<char>, i: usize) -> (r: Option<Runs>)
    requires
        i <= s@.len(),
    ensures
        match r {
            Some(runs) => {
                &&& scan_axis(s@, i as int) == Some(runs.as_axis())
                &&& runs.wf(s@)
            },
            None => scan_axis(s@, i as int) is None,
        },
{
    let ds = exec_next_digit(s, i);
    if ds >= s.len() {
        return None;
    }
    let de = exec_run_end(s, ds);
    let mark = exec_next_deg_marker(s, de);
    if mark >= s.len() {
        return None;
    }
    let ms = exec_next_digit(s, mark + 1);
    if ms >= s.len() {
        return None;
    }
    let me = exec_run_end(s, ms);
    let ss = exec_next_digit(s, me);
    if ss >= s.len() {
        return None;
    }
    let se = exec_run_end(s, ss);
    Some(
        Runs {
            deg_start: ds,
            deg_end: de,
            min_start: ms,
            min_end: me,
            sec_start: ss,
            sec_end: se,
        },
    )
}

/// Finds the longitude half of a match from `q` on, executable form of
/// `scan_lon`.
fn exec_scan_lon(s: &Vec<char>, q: usize) -> (r: Option<(usize, Runs)>)
    requires
        q <= s@.len(),
    ensures
        match r {
            Some((ew, runs)) => {
                &&& scan_lon(s@, q as int) == Some((ew as int, runs.as_axis()))
                &&& runs.wf(s@)
                &&& ew < s@.len()
                &&& is_lon_letter(s@[ew as int])
            },
            None => scan_lon(s@, q as int) is None,
        },
{
    let mut j: usize = q;
    while j < s.len()
        invariant
            q <= j <= s@.len(),
            scan_lon(s@, q as int) == scan_lon(s@, j as int),
        decreases s@.len() - j,
    {
        let c: char = s[j];
        if c == 'E' || c == 'W' {
            match exec_scan_axis(s, j + 1) {
                Some(runs) => {
                    return Some((j, runs));
                },
                None => {},
            }
        }
        j = j + 1;
    }
    None
}

/// Finds the leftmost structural match, executable form of `find_match`.
fn exec_find_match(s: &Vec<char>) -> (r: Option<(usize, Runs, usize, Runs)>)
    ensures
        match r {
            Some((p, lat, ew, lon)) => {
                &&& find_match(s@, 0) == Some(
                    LineMatch {
                        lat_pos: p as int,
                        lat: lat.as_axis(),
                        lon_pos: ew as int,
                        lon: lon.as_axis(),
                    },
                )
                &&& lat.wf(s@)
                &&& lon.wf(s@)
                &&& p < s@.len()
                &&& is_lat_letter(s@[p as int])
                &&& ew < s@.len()
                &&& is_lon_letter(s@[ew as int])
            },
            None => find_match(s@, 0) is None,
        },
{
    let mut i: usize = 0;
    while i < s.len()
        invariant
            i <= s@.len(),
            find_match(s@, 0) == find_match(s@, i as int),
        decreases s@.len() - i,
    {
        let c: char = s[i];
        if c == 'N' || c == 'S' {
            match exec_scan_axis(s, i + 1) {
                Some(lat_runs) => {
                    match exec_scan_lon(s, lat_runs.sec_end) {
                        Some((ew, lon_runs)) => {
                            return Some((i, lat_runs, ew, lon_runs));
                        },
                        None => {},
                    }
                },
                None => {},
            }
        }
        i = i + 1;
    }
    None
}

/// Digit runs are non-negative numbers.
proof fn lemma_run_val_nonneg(s: Seq<char>, start: int, end: int)
    requires
        forall|k: int| start <= k < end ==> is_digit_char(s[k]),
    ensures
        run_val(s, start, end) >= 0,
    decreases end - start,
{
    if start < end {
        lemma_run_val_nonneg(s, start, end - 1);
    }
}

/// Extending a digit run never decreases its value.
proof fn lemma_run_val_monotone(s: Seq<char>, start: int, mid: int, end: int)
    requires
        start <= mid <= end,
        forall|k: int| start <= k < end ==> is_digit_char(s[k]),
    ensures
        run_val(s, start, end) >= run_val(s, start, mid),
    decreases end - mid,
{
    if mid < end {
        lemma_run_val_monotone(s, start, mid, end - 1);
        lemma_run_val_nonneg(s, start, end - 1);
    }
}

/// Converts the digit run `s[start..end]` into a signed 8-bit component;
/// `None` when the run's value exceeds that range.
fn run_value(s: &Vec<char>, start: usize, end: usize) -> (r: Option<i8>)
    requires
        start <= end <= s@.len(),
        forall|k: int| start <= k < end ==> is_digit_char(s@[k]),
    ensures
        match r {
            Some(v) => run_val(s@, start as int, end as int) == v as int && 0 <= v,
            None => run_val(s@, start as int, end as int) > 127,
        },
{
    let mut v: u32 = 0;
    let mut k: usize = start;
    while k < end
        invariant
            start <= k <= end <= s@.len(),
            forall|j: int| start <= j < end ==> is_digit_char(s@[j]),
            v == run_val(s@, start as int, k as int),
            v <= 127,
        decreases end - k,
    {
        let c: char = s[k];
        let d: u32 = (c as u32) - ('0' as u32);
        let nv: u32 = v * 10 + d;
        proof {
            assert(run_val(s@, start as int, k as int + 1) == run_val(s@, start as int, k as int)
                * 10 + digit_val(s@[k as int]));
        }
        if nv > 127 {
            proof {
                lemma_run_val_monotone(s@, start as int, k as int + 1, end as int);
            }
            return None;
        }
        v = nv;
        k = k + 1;
    }
    Some(v as i8)
}

impl CoordinateDms {
    /// Parses one raw text line into a fix, exactly as `spec_parse_line`
    /// describes: the zero-like letters are normalized, the leftmost full
    /// latitude-plus-longitude pattern is located, and its eight fields are
    /// extracted. `Ok` exactly when the line holds the full pattern with all
    /// numeric fields in signed 8-bit range.
    pub fn try_parse(input: &str) -> (r: Result<CoordinateDms, ParseError>)
        ensures
            match r {
                Ok(fix) => spec_parse_line(input@) == Some(fix) && fix.wf(),
                Err(ParseError::NoMatch) => find_match(normalize_line(input@), 0) is None,
                Err(ParseError::FieldOutOfRange) => {
                    &&& find_match(normalize_line(input@), 0) is Some
                    &&& !fields_in_range(
                        normalize_line(input@),
                        find_match(normalize_line(input@), 0)->Some_0,
                    )
                },
            },
            r is Ok <==> spec_parse_line(input@) is Some,
    {
        let chars = str_to_chars(input);
        Self::parse_line_chars(&chars)
    }

    /// Parses one line given as a character vector; see `try_parse`.
    pub fn parse_line_chars(line: &Vec<char>) -> (r: Result<CoordinateDms, ParseError>)
        ensures
            match r {
                Ok(fix) => spec_parse_line(line@) == Some(fix) && fix.wf(),
                Err(ParseError::NoMatch) => find_match(normalize_line(line@), 0) is None,
                Err(ParseError::FieldOutOfRange) => {
                    &&& find_match(normalize_line(line@), 0) is Some
                    &&& !fields_in_range(
                        normalize_line(line@),
                        find_match(normalize_line(line@), 0)->Some_0,
                    )
                },
            },
            r is Ok <==> spec_parse_line(line@) is Some,
    {
        let n = normalize_chars(line);
        match exec_find_match(&n) {
            None => Err(ParseError::NoMatch),
            Some((p, lat, ew, lon)) => {
                let lat_deg = run_value(&n, lat.deg_start, lat.deg_end);
                let lat_min = run_value(&n, lat.min_start, lat.min_end);
                let lat_sec = run_value(&n, lat.sec_start, lat.sec_end);
                let lon_deg = run_value(&n, lon.deg_start, lon.deg_end);
                let lon_min = run_value(&n, lon.min_start, lon.min_end);
                let lon_sec = run_value(&n, lon.sec_start, lon.sec_end);
                match (lat_deg, lat_min, lat_sec, lon_deg, lon_min, lon_sec) {
                    (Some(a), Some(b), Some(c), Some(d), Some(e), Some(f)) => {
                        let fix = CoordinateDms {
                            lat_direction: if n[p] == 'N' {
                                DirectionLat::North
                            } else {
                                DirectionLat::South
                            },
                            lat_degree: a,
                            lat_min: b,
                            lat_sec: c,
                            lon_direction: if n[ew] == 'E' {
                                DirectionLon::East
                            } else {
                                DirectionLon::West
                            },
                            lon_degree: d,
                            lon_min: e,
                            lon_sec: f,
                        };
                        Ok(fix)
                    },
                    _ => Err(ParseError::FieldOutOfRange),
                }
            },
        }
    }
}

} // verus!
