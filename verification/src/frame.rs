//! Captured frames and their derived identifiers: the frame ID, the storage
//! key with its date-partitioned path, and the pixel-format conversion used
//! when a platform hands over raw screen data.

use vstd::prelude::*;

use crate::calendar::{spec_civil_time_of_ms, civil_time_of_ms, CivilTime};
use crate::text::{
    pow10, spec_dec, spec_dec_padded, spec_lex_le, lemma_dec_chars_are_digits,
    lemma_dec_injective, lemma_dec_len_le, lemma_dec_len_pos, lemma_lex_common_head,
    lemma_lex_le_refl, lemma_lex_lt_extends, lemma_lex_lt_implies_le, lemma_padded_lex,
    push_char, push_dec, push_dec_padded, push_str_piece,
};

verus! {

/// Information about a display.
#[derive(Debug, Clone, Copy, PartialEq, Eq, Structural)]
pub struct MonitorInfo {
    pub id: u32,
    pub width: u32,
    pub height: u32,
    pub is_primary: bool,
}

/// A captured frame with metadata. Immutable once produced; it lives only
/// within one scheduler tick, until uploaded or dropped.
#[derive(Debug, Clone)]
pub struct CapturedFrame {
    /// JPEG-encoded frame data.
    pub data: Vec<u8>,
    /// Frame width in pixels.
    pub width: u32,
    /// Frame height in pixels.
    pub height: u32,
    /// Capture timestamp, in milliseconds since the Unix epoch.
    pub timestamp_ms: u64,
    /// Monitor ID that was captured.
    pub monitor_id: u32,
    /// Duration it took to capture and encode the frame, in milliseconds.
    pub capture_duration_ms: u64,
}

/// The frame identifier: date and time of day packed into digits, with the
/// milliseconds appended.
pub open spec fn spec_frame_id(ms: int) -> Seq<char> {
    let t = spec_civil_time_of_ms(ms);
    spec_dec_padded(t.date.year as nat, 4) + spec_dec_padded(t.date.month as nat, 2)
        + spec_dec_padded(t.date.day as nat, 2) + seq!['-'] + spec_dec_padded(t.hour as nat, 2)
        + spec_dec_padded(t.minute as nat, 2) + spec_dec_padded(t.second as nat, 2)
        + spec_dec_padded(t.millisecond as nat, 3)
}

/// The date path inside a storage key: zero-padded year, month, day and
/// hour, separated by slashes, so that the path of a later timestamp never
/// sorts before that of an earlier one.
pub open spec fn spec_date_path(t: CivilTime) -> Seq<char> {
    spec_dec_padded(t.date.year as nat, 4) + seq!['/'] + spec_dec_padded(t.date.month as nat, 2)
        + seq!['/'] + spec_dec_padded(t.date.day as nat, 2) + seq!['/'] + spec_dec_padded(
        t.hour as nat,
        2,
    )
}

/// The file name inside a storage key: the capture timestamp in
/// milliseconds between a fixed stem and a fixed extension.
pub open spec fn spec_frame_file(ms: int) -> Seq<char> {
    "frame-"@ + spec_dec(ms as nat) + ".jpg"@
}

/// A prefix with its trailing slashes removed.
pub open spec fn spec_trim_trailing_slashes(s: Seq<char>) -> Seq<char>
    decreases s.len(),
{
    if s.len() > 0 && s.last() == '/' {
        spec_trim_trailing_slashes(s.drop_last())
    } else {
        s
    }
}

/// The leading part of a storage key: the trimmed prefix and a slash when a
/// non-empty prefix is configured, nothing otherwise.
pub open spec fn spec_key_prefix_part(prefix: Option<Seq<char>>) -> Seq<char> {
    match prefix {
        Some(p) => if p.len() > 0 {
            spec_trim_trailing_slashes(p) + seq!['/']
        } else {
            Seq::empty()
        },
        None => Seq::empty(),
    }
}

/// The storage key of a frame captured at the given timestamp: prefix part,
/// date path, and timestamp-named file.
pub open spec fn spec_s3_key(prefix: Option<Seq<char>>, ms: int) -> Seq<char> {
    spec_key_prefix_part(prefix) + spec_date_path(spec_civil_time_of_ms(ms)) + seq!['/']
        + spec_frame_file(ms)
}

/// Two equal sequences that both end in the frame file shape carry the same
/// timestamp, whatever stands before the file name.
proof fn lemma_frame_file_tail_injective(x1: Seq<char>, x2: Seq<char>, n1: nat, n2: nat)
    requires
        x1 + spec_frame_file(n1 as int) == x2 + spec_frame_file(n2 as int),
    ensures
        n1 == n2,
{
    reveal_strlit("frame-");
    reveal_strlit(".jpg");
    lemma_dec_len_pos(n1);
    lemma_dec_len_pos(n2);
    lemma_dec_chars_are_digits(n1);
    lemma_dec_chars_are_digits(n2);
    let key = x1 + spec_frame_file(n1 as int);
    let len = key.len() as int;
    let k1 = spec_dec(n1).len() as int;
    let k2 = spec_dec(n2).len() as int;
    // The character just before the digits is the '-' of the stem; inside
    // the digits everything is a digit, so the digit runs have one length.
    assert(key[len - 5 - k1] == '-');
    assert((x2 + spec_frame_file(n2 as int))[len - 5 - k2] == '-');
    if k1 < k2 {
        assert(key[len - 5 - k1] == spec_dec(n2)[k2 - 1 - k1]);
        assert(48 <= spec_dec(n2)[k2 - 1 - k1] as int <= 57);
        assert('-' as int == 45);
        assert(false);
    }
    if k2 < k1 {
        assert(key[len - 5 - k2] == spec_dec(n1)[k1 - 1 - k2]);
        assert(48 <= spec_dec(n1)[k1 - 1 - k2] as int <= 57);
        assert('-' as int == 45);
        assert(false);
    }
    assert(spec_dec(n1) =~= spec_dec(n2)) by {
        assert(forall|j: int|
            0 <= j < k1 ==> #[trigger] spec_dec(n1)[j] == key[len - 4 - k1 + j]);
        assert(forall|j: int|
            0 <= j < k1 ==> #[trigger] spec_dec(n2)[j] == key[len - 4 - k1 + j]);
    }
    lemma_dec_injective(n1, n2);
}

/// Storage keys are injective in the capture timestamp: under one
/// configured prefix, frames captured at different millisecond timestamps
/// get distinct keys.
pub proof fn lemma_s3_key_injective(prefix: Option<Seq<char>>, ms1: int, ms2: int)
    requires
        0 <= ms1,
        0 <= ms2,
        spec_s3_key(prefix, ms1) == spec_s3_key(prefix, ms2),
    ensures
        ms1 == ms2,
{
    let x1 = spec_key_prefix_part(prefix) + spec_date_path(spec_civil_time_of_ms(ms1)) + seq![
        '/',
    ];
    let x2 = spec_key_prefix_part(prefix) + spec_date_path(spec_civil_time_of_ms(ms2)) + seq![
        '/',
    ];
    assert(x1 + spec_frame_file(ms1) =~= spec_s3_key(prefix, ms1));
    assert(x2 + spec_frame_file(ms2) =~= spec_s3_key(prefix, ms2));
    lemma_frame_file_tail_injective(x1, x2, ms1 as nat, ms2 as nat);
}

/// The date path of year, month, day and hour fields, over plain values.
pub open spec fn spec_ymdh_path(y: nat, m: nat, d: nat, h: nat) -> Seq<char> {
    spec_dec_padded(y, 4) + seq!['/'] + spec_dec_padded(m, 2) + seq!['/'] + spec_dec_padded(d, 2)
        + seq!['/'] + spec_dec_padded(h, 2)
}

/// Fields in year-month-day-hour order give date paths in lexicographic
/// order, as long as each field fits its width.
#[verifier::rlimit(100)]
proof fn lemma_ymdh_path_le(
    y1: nat,
    m1: nat,
    d1: nat,
    h1: nat,
    y2: nat,
    m2: nat,
    d2: nat,
    h2: nat,
)
    requires
        spec_dec(y1).len() <= 4,
        spec_dec(y2).len() <= 4,
        spec_dec(m1).len() <= 2,
        spec_dec(m2).len() <= 2,
        spec_dec(d1).len() <= 2,
        spec_dec(d2).len() <= 2,
        spec_dec(h1).len() <= 2,
        spec_dec(h2).len() <= 2,
        y1 < y2 || (y1 == y2 && (m1 < m2 || (m1 == m2 && (d1 < d2 || (d1 == d2 && h1 <= h2))))),
    ensures
        spec_lex_le(spec_ymdh_path(y1, m1, d1, h1), spec_ymdh_path(y2, m2, d2, h2)),
{
    let py1 = spec_dec_padded(y1, 4);
    let py2 = spec_dec_padded(y2, 4);
    let pm1 = spec_dec_padded(m1, 2);
    let pm2 = spec_dec_padded(m2, 2);
    let pd1 = spec_dec_padded(d1, 2);
    let pd2 = spec_dec_padded(d2, 2);
    let ph1 = spec_dec_padded(h1, 2);
    let ph2 = spec_dec_padded(h2, 2);
    let path1 = spec_ymdh_path(y1, m1, d1, h1);
    let path2 = spec_ymdh_path(y2, m2, d2, h2);
    lemma_padded_lex(y1, y2, 4);
    lemma_padded_lex(m1, m2, 2);
    lemma_padded_lex(d1, d2, 2);
    lemma_padded_lex(h1, h2, 2);
    if y1 < y2 {
        assert(path1 =~= py1 + (seq!['/'] + pm1 + seq!['/'] + pd1 + seq!['/'] + ph1));
        assert(path2 =~= py2 + (seq!['/'] + pm2 + seq!['/'] + pd2 + seq!['/'] + ph2));
        lemma_lex_lt_extends(
            py1,
            py2,
            seq!['/'] + pm1 + seq!['/'] + pd1 + seq!['/'] + ph1,
            seq!['/'] + pm2 + seq!['/'] + pd2 + seq!['/'] + ph2,
        );
    } else if m1 < m2 {
        let head = py1 + seq!['/'];
        assert(path1 =~= head + (pm1 + (seq!['/'] + pd1 + seq!['/'] + ph1)));
        assert(path2 =~= head + (pm2 + (seq!['/'] + pd2 + seq!['/'] + ph2)));
        lemma_lex_lt_extends(
            pm1,
            pm2,
            seq!['/'] + pd1 + seq!['/'] + ph1,
            seq!['/'] + pd2 + seq!['/'] + ph2,
        );
        lemma_lex_common_head(
            head,
            pm1 + (seq!['/'] + pd1 + seq!['/'] + ph1),
            pm2 + (seq!['/'] + pd2 + seq!['/'] + ph2),
        );
    } else if d1 < d2 {
        let head = py1 + seq!['/'] + pm1 + seq!['/'];
        assert(path1 =~= head + (pd1 + (seq!['/'] + ph1)));
        assert(path2 =~= head + (pd2 + (seq!['/'] + ph2)));
        lemma_lex_lt_extends(pd1, pd2, seq!['/'] + ph1, seq!['/'] + ph2);
        lemma_lex_common_head(head, pd1 + (seq!['/'] + ph1), pd2 + (seq!['/'] + ph2));
    } else {
        let head = py1 + seq!['/'] + pm1 + seq!['/'] + pd1 + seq!['/'];
        assert(path1 =~= head + ph1);
        assert(path2 =~= head + ph2);
        if h1 < h2 {
            lemma_lex_lt_implies_le(ph1, ph2);
        } else {
            lemma_lex_le_refl(ph1);
        }
        lemma_lex_common_head(head, ph1, ph2);
    }
}

/// The date path is stable and sortable: of two 64-bit millisecond capture
/// timestamps with four-digit years, the earlier one's date path never
/// sorts lexicographically after the later one's.
#[verifier::rlimit(60)]
pub proof fn lemma_date_path_sorted(ms1: int, ms2: int)
    requires
        0 <= ms1 <= ms2 <= u64::MAX,
        spec_civil_time_of_ms(ms2).date.year <= 9999,
    ensures
        spec_lex_le(
            spec_date_path(spec_civil_time_of_ms(ms1)),
            spec_date_path(spec_civil_time_of_ms(ms2)),
        ),
{
    let day_ms = crate::calendar::MS_PER_DAY as int;
    let hour_ms = crate::calendar::MS_PER_HOUR as int;
    let days1 = ms1 / day_ms;
    let days2 = ms2 / day_ms;
    let t1 = spec_civil_time_of_ms(ms1);
    let t2 = spec_civil_time_of_ms(ms2);
    vstd::arithmetic::div_mod::lemma_div_is_ordered(ms1, ms2, day_ms);
    assert(days2 <= crate::calendar::MAX_EPOCH_DAY) by {
        vstd::arithmetic::div_mod::lemma_fundamental_div_mod(ms2, day_ms);
        vstd::arithmetic::div_mod::lemma_mod_division_less_than_divisor(ms2, day_ms);
        assert(86400000 * days2 <= ms2);
        assert(days2 <= 213503982335int) by (nonlinear_arith)
            requires
                86400000 * days2 <= 0xffffffffffffffffint,
        ;
    }
    assert(0 <= days1 <= days2) by {
        vstd::arithmetic::div_mod::lemma_div_is_ordered(0, ms1, day_ms);
    }
    crate::calendar::lemma_date_of_day_exists(days1);
    crate::calendar::lemma_date_of_day_exists(days2);
    crate::calendar::lemma_date_of_day_monotone(days1, days2);
    let y1 = t1.date.year as nat;
    let m1 = t1.date.month as nat;
    let d1 = t1.date.day as nat;
    let y2 = t2.date.year as nat;
    let m2 = t2.date.month as nat;
    let d2 = t2.date.day as nat;
    let h1 = t1.hour as nat;
    let h2 = t2.hour as nat;
    assert(pow10(2) == 100 && pow10(4) == 10000) by {
        reveal_with_fuel(pow10, 5);
    }
    lemma_dec_len_le(y1, 4);
    lemma_dec_len_le(y2, 4);
    lemma_dec_len_le(m1, 2);
    lemma_dec_len_le(m2, 2);
    lemma_dec_len_le(d1, 2);
    lemma_dec_len_le(d2, 2);
    // The hour fields stay below 24, and within one day they follow the
    // timestamps.
    let r1 = ms1 % day_ms;
    let r2 = ms2 % day_ms;
    vstd::arithmetic::div_mod::lemma_mod_division_less_than_divisor(ms1, day_ms);
    vstd::arithmetic::div_mod::lemma_mod_division_less_than_divisor(ms2, day_ms);
    assert(r1 / hour_ms < 24 && r2 / hour_ms < 24) by {
        vstd::arithmetic::div_mod::lemma_div_is_ordered(r1, day_ms - 1, hour_ms);
        vstd::arithmetic::div_mod::lemma_div_is_ordered(r2, day_ms - 1, hour_ms);
        assert((86400000 - 1) / 3600000 == 23);
    }
    assert(r1 / hour_ms >= 0 && r2 / hour_ms >= 0) by {
        vstd::arithmetic::div_mod::lemma_div_is_ordered(0, r1, hour_ms);
        vstd::arithmetic::div_mod::lemma_div_is_ordered(0, r2, hour_ms);
    }
    lemma_dec_len_le(h1, 2);
    lemma_dec_len_le(h2, 2);
    if days1 == days2 {
        // Same calendar date: the hour fields follow the timestamps.
        assert(r1 <= r2) by {
            vstd::arithmetic::div_mod::lemma_fundamental_div_mod(ms1, day_ms);
            vstd::arithmetic::div_mod::lemma_fundamental_div_mod(ms2, day_ms);
        }
        assert(h1 <= h2) by {
            vstd::arithmetic::div_mod::lemma_div_is_ordered(r1, r2, hour_ms);
        }
    } else {
        // Different days: the dates differ, so an earlier field decides.
        if y1 == y2 && m1 == m2 && d1 == d2 {
            assert(false);
        }
    }
    lemma_ymdh_path_le(y1, m1, d1, h1, y2, m2, d2, h2);
    assert(spec_date_path(t1) == spec_ymdh_path(y1, m1, d1, h1));
    assert(spec_date_path(t2) == spec_ymdh_path(y2, m2, d2, h2));
}

/// Remove trailing slashes from a prefix.
pub fn trim_trailing_slashes(s: &str) -> (r: String)
    ensures
        r@ == spec_trim_trailing_slashes(s@),
{
    let n = s.unicode_len();
    let mut end = n;
    proof {
        assert(s@.subrange(0, n as int) =~= s@);
    }
    while end > 0 && s.get_char(end - 1) == '/'
        invariant
            end <= n,
            n == s@.len(),
            spec_trim_trailing_slashes(s@) == spec_trim_trailing_slashes(
                s@.subrange(0, end as int),
            ),
        decreases end,
    {
        proof {
            let cur = s@.subrange(0, end as int);
            assert(cur.last() == s@[end - 1]);
            assert(cur.drop_last() =~= s@.subrange(0, end - 1));
        }
        end = end - 1;
    }
    proof {
        assert(s@.subrange(0, n as int) =~= s@);
        let cur = s@.subrange(0, end as int);
        if end > 0 {
            assert(cur.last() == s@[end - 1]);
        }
        assert(spec_trim_trailing_slashes(cur) == cur);
    }
    s.substring_char(0, end).to_owned()
}

/// The unique frame identifier derived from a capture timestamp.
pub fn frame_id_of_ms(ms: u64) -> (r: String)
    ensures
        r@ == spec_frame_id(ms as int),
{
    let t = civil_time_of_ms(ms);
    let mut s = String::new();
    push_dec_padded(&mut s, t.date.year, 4);
    push_dec_padded(&mut s, t.date.month, 2);
    push_dec_padded(&mut s, t.date.day, 2);
    push_char(&mut s, '-');
    push_dec_padded(&mut s, t.hour, 2);
    push_dec_padded(&mut s, t.minute, 2);
    push_dec_padded(&mut s, t.second, 2);
    push_dec_padded(&mut s, t.millisecond, 3);
    proof {
        assert(s@ =~= spec_frame_id(ms as int));
    }
    s
}

impl CapturedFrame {
    /// The unique frame identifier derived from the capture timestamp.
    pub fn frame_id(&self) -> (r: String)
        ensures
            r@ == spec_frame_id(self.timestamp_ms as int),
    {
        frame_id_of_ms(self.timestamp_ms)
    }

    /// The storage key for this frame: optional prefix, the date path of
    /// the capture timestamp, and the timestamp-named file.
    pub fn s3_key(&self, prefix: Option<&str>) -> (r: String)
        ensures
            r@ == spec_s3_key(
                match prefix {
                    Some(p) => Some(p@),
                    None => None,
                },
                self.timestamp_ms as int,
            ),
    {
        let t = civil_time_of_ms(self.timestamp_ms);
        let mut s = String::new();
        if let Some(p) = prefix {
            if p.unicode_len() > 0 {
                let trimmed = trim_trailing_slashes(p);
                push_str_piece(&mut s, trimmed.as_str());
                push_char(&mut s, '/');
            }
        }
        push_dec_padded(&mut s, t.date.year, 4);
        push_char(&mut s, '/');
        push_dec_padded(&mut s, t.date.month, 2);
        push_char(&mut s, '/');
        push_dec_padded(&mut s, t.date.day, 2);
        push_char(&mut s, '/');
        push_dec_padded(&mut s, t.hour, 2);
        push_char(&mut s, '/');
        push_str_piece(&mut s, "frame-");
        push_dec(&mut s, self.timestamp_ms);
        push_str_piece(&mut s, ".jpg");
        proof {
            assert(s@ =~= spec_s3_key(
                match prefix {
                    Some(p) => Some(p@),
                    None => None,
                },
                self.timestamp_ms as int,
            ));
        }
        s
    }
}

/// Raw pixel data whose layout the conversion does not understand.
#[derive(Debug, Clone, Copy, PartialEq, Eq, Structural)]
pub struct UnsupportedDepth {
    pub depth: u8,
}

/// How many pixels of a 4-byte-per-pixel buffer are completely present.
pub open spec fn complete_pixels_4(pixel_count: int, len: int) -> int {
    let available = if len >= 3 {
        (len - 3) / 4 + 1
    } else {
        0
    };
    if pixel_count <= available {
        pixel_count
    } else {
        available
    }
}

/// How many pixels of a 2-byte-per-pixel buffer are completely present.
pub open spec fn complete_pixels_2(pixel_count: int, len: int) -> int {
    let available = len / 2;
    if pixel_count <= available {
        pixel_count
    } else {
        available
    }
}

/// One pixel of 32-bit data turned into the four output channels: red and
/// blue swap places, alpha becomes opaque.
pub open spec fn rgba_of_bgrx(data: Seq<u8>, i: int) -> Seq<u8> {
    seq![data[4 * i + 2], data[4 * i + 1], data[4 * i], 255u8]
}

/// One pixel of 16-bit data (5-6-5 layout, little endian) widened to the
/// four output channels.
pub open spec fn rgba_of_565(data: Seq<u8>, i: int) -> Seq<u8> {
    let pixel = (data[2 * i] as u16) | ((data[2 * i + 1] as u16) << 8);
    let r = ((pixel >> 11) & 0x1f) as u8;
    let g = ((pixel >> 5) & 0x3f) as u8;
    let b = (pixel & 0x1f) as u8;
    seq![(r << 3) | (r >> 2), (g << 2) | (g >> 4), (b << 3) | (b >> 2), 255u8]
}

/// The full conversion of a 32-bit buffer.
pub open spec fn spec_rgba_from_32(data: Seq<u8>, n: int) -> Seq<u8> {
    Seq::new((4 * n) as nat, |j: int| rgba_of_bgrx(data, j / 4)[j % 4])
}

/// The full conversion of a 16-bit buffer.
pub open spec fn spec_rgba_from_16(data: Seq<u8>, n: int) -> Seq<u8> {
    Seq::new((4 * n) as nat, |j: int| rgba_of_565(data, j / 4)[j % 4])
}

/// Convert raw display pixel data to RGBA bytes. 32- and 24-bit data is
/// laid out four bytes per pixel with the blue channel first; 16-bit data
/// is two bytes per pixel in the 5-6-5 layout. A trailing incomplete pixel
/// is dropped, as is any data beyond `width * height` pixels. Any other
/// depth is rejected.
pub fn convert_to_rgba(data: &[u8], width: u32, height: u32, depth: u8) -> (r: Result<
    Vec<u8>,
    UnsupportedDepth,
>)
    ensures
        (depth == 32 || depth == 24) ==> (r matches Ok(v) && v@ == spec_rgba_from_32(
            data@,
            complete_pixels_4(width as int * height as int, data@.len() as int),
        )),
        depth == 16 ==> (r matches Ok(v) && v@ == spec_rgba_from_16(
            data@,
            complete_pixels_2(width as int * height as int, data@.len() as int),
        )),
        !(depth == 32 || depth == 24 || depth == 16) ==> r == Result::<
            Vec<u8>,
            UnsupportedDepth,
        >::Err(UnsupportedDepth { depth }),
{
    proof {
        assert((width as int) * (height as int) < 0x10000000000000000int) by (nonlinear_arith)
            requires
                width < 0x100000000,
                height < 0x100000000,
        ;
    }
    let pixel_count: u64 = (width as u64) * (height as u64);
    let len: u64 = data.len() as u64;
    let mut rgba: Vec<u8> = Vec::new();
    if depth == 32 || depth == 24 {
        let avail: u64 = if len >= 3 {
            (len - 3) / 4 + 1
        } else {
            0
        };
        let n: u64 = if pixel_count <= avail {
            pixel_count
        } else {
            avail
        };
        assert(n == complete_pixels_4(pixel_count as int, len as int));
        let mut i: u64 = 0;
        while i < n
            invariant
                i <= n,
                len == data@.len(),
                4 * n <= len + 1,
                n == complete_pixels_4(pixel_count as int, len as int),
                rgba@ =~= spec_rgba_from_32(data@, i as int),
            decreases n - i,
        {
            let offset = 4 * i;
            rgba.push(data[(offset + 2) as usize]);
            rgba.push(data[(offset + 1) as usize]);
            rgba.push(data[offset as usize]);
            rgba.push(255);
            proof {
                assert(rgba@ =~= spec_rgba_from_32(data@, i + 1));
            }
            i = i + 1;
        }
        Ok(rgba)
    } else if depth == 16 {
        let avail: u64 = len / 2;
        let n: u64 = if pixel_count <= avail {
            pixel_count
        } else {
            avail
        };
        assert(n == complete_pixels_2(pixel_count as int, len as int));
        let mut i: u64 = 0;
        while i < n
            invariant
                i <= n,
                len == data@.len(),
                2 * n <= len,
                n == complete_pixels_2(pixel_count as int, len as int),
                rgba@ =~= spec_rgba_from_16(data@, i as int),
            decreases n - i,
        {
            let offset = 2 * i;
            let pixel: u16 = (data[offset as usize] as u16) | ((data[(offset + 1) as usize]
                as u16) << 8);
            let r5 = (pixel >> 11) & 0x1f;
            let g6 = (pixel >> 5) & 0x3f;
            let b5 = pixel & 0x1f;
            assert(r5 < 32 && g6 < 64 && b5 < 32) by (bit_vector)
                requires
                    r5 == (pixel >> 11) & 0x1f,
                    g6 == (pixel >> 5) & 0x3f,
                    b5 == pixel & 0x1f,
            ;
            let r = r5 as u8;
            let g = g6 as u8;
            let b = b5 as u8;
            rgba.push((r << 3) | (r >> 2));
            rgba.push((g << 2) | (g >> 4));
            rgba.push((b << 3) | (b >> 2));
            rgba.push(255);
            proof {
                assert(rgba@ =~= spec_rgba_from_16(data@, i + 1));
            }
            i = i + 1;
        }
        Ok(rgba)
    } else {
        Err(UnsupportedDepth { depth })
    }
}

} // verus!
