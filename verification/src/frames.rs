//! Frame file bookkeeping: the sequence index embedded in an extracted
//! frame's filename, the name of a frame's preprocessed sibling, the crop
//! geometry of the telemetry overlay strip, the extractor's settings, and the
//! check for recognition training data.

use vstd::prelude::*;

use crate::parser::run_val;
use crate::strutil::{
    dec_digits,
    digit_val,
    digit_value,
    is_digit,
    is_digit_char,
    push_dec_u64,
    str_to_chars,
    string_from_chars,
};

verus! {

/// Height in pixels of the overlay strip at the bottom of each frame.
pub const OVERLAY_STRIP_HEIGHT: u32 = 50;

/// The extractor writes frames as `f` followed by a nine-digit one-based
/// sequence number; the digits sit at character positions 1 through 9 of the
/// filename. The derived zero-based index, or `None` when the name does not
/// carry nine digits there or the number is zero.
pub open spec fn spec_frame_index(name: Seq<char>) -> Option<int> {
    if name.len() >= 10 && (forall|k: int| 1 <= k < 10 ==> is_digit_char(name[k])) {
        let v = run_val(name, 1, 10);
        if v >= 1 {
            Some(v - 1)
        } else {
            None
        }
    } else {
        None
    }
}

/// Reads the zero-based sequence index out of a frame's filename; see
/// `spec_frame_index`.
pub fn frame_index_from_name(name: &str) -> (r: Option<u64>)
    ensures
        match r {
            Some(v) => spec_frame_index(name@) == Some(v as int),
            None => spec_frame_index(name@) is None,
        },
{
    let chars = str_to_chars(name);
    if chars.len() < 10 {
        return None;
    }
    let mut k: usize = 1;
    while k < 10
        invariant
            1 <= k <= 10,
            chars@.len() >= 10,
            chars@ == name@,
            forall|j: int| 1 <= j < k ==> is_digit_char(name@[j]),
        decreases 10 - k,
    {
        if !is_digit(chars[k]) {
            return None;
        }
        k = k + 1;
    }
    let mut v: u64 = digit_value(chars[1]);
    proof {
        assert(run_val(name@, 1, 1) == 0);
        assert(run_val(name@, 1, 2) == run_val(name@, 1, 1) * 10 + digit_val(name@[1]));
    }
    v = v * 10 + digit_value(chars[2]);
    proof {
        assert(run_val(name@, 1, 3) == run_val(name@, 1, 2) * 10 + digit_val(name@[2]));
    }
    v = v * 10 + digit_value(chars[3]);
    proof {
        assert(run_val(name@, 1, 4) == run_val(name@, 1, 3) * 10 + digit_val(name@[3]));
    }
    v = v * 10 + digit_value(chars[4]);
    proof {
        assert(run_val(name@, 1, 5) == run_val(name@, 1, 4) * 10 + digit_val(name@[4]));
    }
    v = v * 10 + digit_value(chars[5]);
    proof {
        assert(run_val(name@, 1, 6) == run_val(name@, 1, 5) * 10 + digit_val(name@[5]));
    }
    v = v * 10 + digit_value(chars[6]);
    proof {
        assert(run_val(name@, 1, 7) == run_val(name@, 1, 6) * 10 + digit_val(name@[6]));
    }
    v = v * 10 + digit_value(chars[7]);
    proof {
        assert(run_val(name@, 1, 8) == run_val(name@, 1, 7) * 10 + digit_val(name@[7]));
    }
    v = v * 10 + digit_value(chars[8]);
    proof {
        assert(run_val(name@, 1, 9) == run_val(name@, 1, 8) * 10 + digit_val(name@[8]));
    }
    v = v * 10 + digit_value(chars[9]);
    proof {
        assert(run_val(name@, 1, 10) == run_val(name@, 1, 9) * 10 + digit_val(name@[9]));
    }
    if v == 0 {
        return None;
    }
    Some(v - 1)
}

/// One rectangle of a frame image.
pub struct CropRect {
    pub x: u32,
    pub y: u32,
    pub width: u32,
    pub height: u32,
}

/// The overlay region: a strip of `OVERLAY_STRIP_HEIGHT` pixels across the
/// full width at the bottom of the frame — the whole frame where the frame is
/// shorter than the strip.
pub fn overlay_crop_rect(width: u32, height: u32) -> (r: CropRect)
    ensures
        r.x == 0,
        r.width == width,
        height >= OVERLAY_STRIP_HEIGHT ==> r.y == height - OVERLAY_STRIP_HEIGHT && r.height
            == OVERLAY_STRIP_HEIGHT,
        height < OVERLAY_STRIP_HEIGHT ==> r.y == 0 && r.height == height,
{
    if height >= OVERLAY_STRIP_HEIGHT {
        CropRect { x: 0, y: height - OVERLAY_STRIP_HEIGHT, width, height: OVERLAY_STRIP_HEIGHT }
    } else {
        CropRect { x: 0, y: 0, width, height }
    }
}

/// The suffix appended to a frame's filename to name its preprocessed
/// sibling.
pub open spec fn edit_suffix() -> Seq<char> {
    seq!['-', 'e', 'd', 'i', 't', '.', 'j', 'p', 'g']
}

/// Name of the preprocessed sibling of a frame file: the frame's filename
/// with `-edit.jpg` appended. Each worker's output name is derived from its
/// own frame's name, so concurrent workers never collide.
pub fn preprocessed_name(name: &str) -> (r: String)
    ensures
        r@ == name@ + edit_suffix(),
{
    let mut out = str_to_chars(name);
    out.push('-');
    out.push('e');
    out.push('d');
    out.push('i');
    out.push('t');
    out.push('.');
    out.push('j');
    out.push('p');
    out.push('g');
    proof {
        assert(out@ =~= name@ + edit_suffix());
    }
    string_from_chars(&out)
}

/// The frame extractor's settings, ready to hand to the external transcoder:
/// a rate filter taking one frame per sampling interval, the fixed output
/// resolution, the worker thread count, and the nine-digit output name
/// pattern.
pub struct ExtractionSettings {
    pub rate_filter: String,
    pub output_size: String,
    pub thread_count: String,
    pub name_pattern: String,
}

/// The rate filter text: `fps=1/` followed by the interval in seconds.
pub open spec fn spec_rate_filter(interval_sec: u32) -> Seq<char> {
    seq!['f', 'p', 's', '=', '1', '/'] + dec_digits(interval_sec as nat)
}

/// Builds the extractor settings for a sampling interval and a thread count.
pub fn extraction_settings(interval_sec: u32, threads: u8) -> (r: ExtractionSettings)
    ensures
        r.rate_filter@ == spec_rate_filter(interval_sec),
        r.output_size@ == seq!['1', '2', '8', '0', 'x', '7', '2', '0'],
        r.thread_count@ == dec_digits(threads as nat),
        r.name_pattern@ == seq!['f', '%', '0', '9', 'd', '.', 'j', 'p', 'g'],
{
    let mut rate: Vec<char> = Vec::new();
    rate.push('f');
    rate.push('p');
    rate.push('s');
    rate.push('=');
    rate.push('1');
    rate.push('/');
    push_dec_u64(&mut rate, interval_sec as u64);
    proof {
        assert(rate@ =~= spec_rate_filter(interval_sec));
    }
    let mut size: Vec<char> = Vec::new();
    size.push('1');
    size.push('2');
    size.push('8');
    size.push('0');
    size.push('x');
    size.push('7');
    size.push('2');
    size.push('0');
    proof {
        assert(size@ =~= seq!['1', '2', '8', '0', 'x', '7', '2', '0']);
    }
    let mut count: Vec<char> = Vec::new();
    push_dec_u64(&mut count, threads as u64);
    proof {
        assert(count@ =~= dec_digits(threads as nat));
    }
    let mut pattern: Vec<char> = Vec::new();
    pattern.push('f');
    pattern.push('%');
    pattern.push('0');
    pattern.push('9');
    pattern.push('d');
    pattern.push('.');
    pattern.push('j');
    pattern.push('p');
    pattern.push('g');
    proof {
        assert(pattern@ =~= seq!['f', '%', '0', '9', 'd', '.', 'j', 'p', 'g']);
    }
    ExtractionSettings {
        rate_filter: string_from_chars(&rate),
        output_size: string_from_chars(&size),
        thread_count: string_from_chars(&count),
        name_pattern: string_from_chars(&pattern),
    }
}

/// The filename suffix that marks a recognition training-data file.
pub open spec fn traineddata_suffix() -> Seq<char> {
    seq!['.', 't', 'r', 'a', 'i', 'n', 'e', 'd', 'd', 'a', 't', 'a']
}

/// Whether `s` ends with `suffix`.
pub open spec fn seq_ends_with(s: Seq<char>, suffix: Seq<char>) -> bool {
    s.len() >= suffix.len() && s.subrange(s.len() - suffix.len(), s.len() as int) == suffix
}

/// Tests whether the characters of `s` end with those of `suffix`.
fn vec_ends_with(s: &Vec<char>, suffix: &Vec<char>) -> (r: bool)
    ensures
        r == seq_ends_with(s@, suffix@),
{
    let n_s: usize = s.len();
    let n_suf: usize = suffix.len();
    if n_s < n_suf {
        return false;
    }
    let base: usize = n_s - n_suf;
    let ghost tail = s@.subrange(s@.len() - suffix@.len(), s@.len() as int);
    let mut k: usize = 0;
    while k < n_suf
        invariant
            k <= n_suf,
            n_s == s@.len(),
            n_suf == suffix@.len(),
            n_suf <= n_s,
            base == n_s - n_suf,
            tail == s@.subrange(s@.len() - suffix@.len(), s@.len() as int),
            forall|j: int| 0 <= j < k ==> tail[j] == suffix@[j],
        decreases n_suf - k,
    {
        if s[base + k] != suffix[k] {
            proof {
                assert(tail[k as int] != suffix@[k as int]);
                assert(tail != suffix@);
            }
            return false;
        }
        k = k + 1;
    }
    proof {
        assert(tail =~= suffix@);
    }
    true
}

/// Whether a file of this name holds recognition training data, going by the
/// `.traineddata` suffix.
pub fn is_training_data_name(name: &str) -> (r: bool)
    ensures
        r == seq_ends_with(name@, traineddata_suffix()),
{
    let chars = str_to_chars(name);
    let mut suffix: Vec<char> = Vec::new();
    suffix.push('.');
    suffix.push('t');
    suffix.push('r');
    suffix.push('a');
    suffix.push('i');
    suffix.push('n');
    suffix.push('e');
    suffix.push('d');
    suffix.push('d');
    suffix.push('a');
    suffix.push('t');
    suffix.push('a');
    proof {
        assert(suffix@ =~= traineddata_suffix());
    }
    vec_ends_with(&chars, &suffix)
}

/// Whether any of the given file names holds recognition training data. The
/// recognition engine cannot start without at least one such file in its data
/// directory.
pub fn has_training_data(names: &Vec<String>) -> (r: bool)
    ensures
        r == exists|k: int|
            0 <= k < names@.len() && seq_ends_with(#[trigger] names@[k]@, traineddata_suffix()),
{
    let mut i: usize = 0;
    while i < names.len()
        invariant
            i <= names@.len(),
            forall|k: int|
                0 <= k < i ==> !seq_ends_with(#[trigger] names@[k]@, traineddata_suffix()),
        decreases names@.len() - i,
    {
        if is_training_data_name(names[i].as_str()) {
            return true;
        }
        i = i + 1;
    }
    false
}

} // verus!
