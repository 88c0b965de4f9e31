use vstd::prelude::*;

use vstd::arithmetic::div_mod::{
    lemma_div_is_ordered, lemma_fundamental_div_mod_converse_div,
    lemma_fundamental_div_mod_converse_mod,
};

use chrono::{Datelike, Timelike};

use crate::error::Error;

verus! {

/// A local-clock reading, split to microseconds.
pub struct Timestamp {
    pub year: u32,
    pub month: u32,
    pub day: u32,
    pub hour: u32,
    pub minute: u32,
    pub second: u32,
    pub micro: u32,
}

impl Timestamp {
    /// The shape the raw-capture name relies on: a four-digit year, calendar
    /// field ranges, and sub-second microseconds.
    pub open spec fn wf(self) -> bool {
        &&& self.year <= 9999
        &&& 1 <= self.month <= 12
        &&& 1 <= self.day <= 31
        &&& self.hour <= 23
        &&& self.minute <= 59
        &&& self.second <= 59
        &&& self.micro <= 999_999
    }

    /// The reading as one integer, most significant field first: a later
    /// instant -- even by one microsecond -- gives a strictly larger key.
    pub open spec fn key(self) -> int {
        (((((self.year * 100 + self.month) * 100 + self.day) * 100 + self.hour) * 100
            + self.minute) * 100 + self.second) * 1_000_000 + self.micro
    }
}

/// Ten to the w.
pub open spec fn pow10(w: nat) -> int
    decreases w,
{
    if w == 0 {
        1
    } else {
        10 * pow10((w - 1) as nat)
    }
}

/// The decimal digit d as a character.
pub open spec fn digit_char(d: int) -> char {
    if d == 0 {
        '0'
    } else if d == 1 {
        '1'
    } else if d == 2 {
        '2'
    } else if d == 3 {
        '3'
    } else if d == 4 {
        '4'
    } else if d == 5 {
        '5'
    } else if d == 6 {
        '6'
    } else if d == 7 {
        '7'
    } else if d == 8 {
        '8'
    } else {
        '9'
    }
}

/// n written in decimal, zero-padded to exactly w digits (high digits
/// beyond w are dropped; the names below never let that happen).
pub open spec fn dec_seq(n: int, w: nat) -> Seq<char>
    decreases w,
{
    if w == 0 {
        Seq::empty()
    } else {
        dec_seq(n / 10, (w - 1) as nat) + seq![digit_char(n % 10)]
    }
}

/// A zero-padded decimal is as long as its width.
pub proof fn lemma_dec_seq_len(n: int, w: nat)
    ensures
        dec_seq(n, w).len() == w,
    decreases w,
{
    if w > 0 {
        lemma_dec_seq_len(n / 10, (w - 1) as nat);
    }
}

fn digit_str(d: u64) -> (r: &'static str)
    requires
        d < 10,
    ensures
        r@ == seq![digit_char(d as int)],
{
    let r: &'static str = if d == 0 {
        "0"
    } else if d == 1 {
        "1"
    } else if d == 2 {
        "2"
    } else if d == 3 {
        "3"
    } else if d == 4 {
        "4"
    } else if d == 5 {
        "5"
    } else if d == 6 {
        "6"
    } else if d == 7 {
        "7"
    } else if d == 8 {
        "8"
    } else {
        "9"
    };
    proof {
        reveal_strlit("0");
        reveal_strlit("1");
        reveal_strlit("2");
        reveal_strlit("3");
        reveal_strlit("4");
        reveal_strlit("5");
        reveal_strlit("6");
        reveal_strlit("7");
        reveal_strlit("8");
        reveal_strlit("9");
        assert(r@ =~= seq![digit_char(d as int)]);
    }
    r
}

/// Appends n in decimal, zero-padded to exactly w digits.
fn push_decimal(out: String, n: u64, w: u64) -> (r: String)
    ensures
        r@ == out@ + dec_seq(n as int, w as nat),
    decreases w,
{
    if w == 0 {
        proof {
            assert(out@ + dec_seq(n as int, 0) =~= out@);
        }
        out
    } else {
        let hi = push_decimal(out, n / 10, w - 1);
        let r = hi.concat(digit_str(n % 10));
        proof {
            assert((n / 10) as int == (n as int) / 10);
            assert((n % 10) as int == (n as int) % 10);
            assert(r@ =~= out@ + dec_seq(n as int, w as nat));
        }
        r
    }
}

/// The raw-capture filename for one clock reading: the reading's twenty
/// digits, most significant first, then the fixed suffix.
pub open spec fn raw_name_seq(t: Timestamp) -> Seq<char> {
    dec_seq(t.key(), 20) + "_loadmore.json"@
}

/// Splitting a number whose low part has exactly wlo digits splits its
/// zero-padded decimal writing at that digit boundary.
proof fn lemma_dec_seq_split(hi: int, lo: int, whi: nat, wlo: nat)
    requires
        0 <= hi,
        0 <= lo < pow10(wlo),
    ensures
        dec_seq(hi * pow10(wlo) + lo, whi + wlo) == dec_seq(hi, whi) + dec_seq(lo, wlo),
    decreases wlo,
{
    if wlo == 0 {
        assert(lo == 0);
        assert(hi * pow10(0) + lo == hi);
        assert(dec_seq(hi, whi) + dec_seq(lo, 0) =~= dec_seq(hi, whi));
    } else {
        let n = hi * pow10(wlo) + lo;
        let pw = pow10((wlo - 1) as nat);
        assert(pow10(wlo) == 10 * pw);
        assert(0 < pw) by {
            lemma_pow10_pos((wlo - 1) as nat);
        }
        assert(n == (hi * pw + lo / 10) * 10 + lo % 10) by (nonlinear_arith)
            requires
                n == hi * (10 * pw) + lo,
                0 <= lo,
        {}
        lemma_fundamental_div_mod_converse_div(n, 10, hi * pw + lo / 10, lo % 10);
        lemma_fundamental_div_mod_converse_mod(n, 10, hi * pw + lo / 10, lo % 10);
        assert(lo / 10 < pw) by {
            lemma_div_is_ordered(lo, 10 * pw - 1, 10);
            assert((10 * pw - 1) / 10 == pw - 1) by {
                lemma_fundamental_div_mod_converse_div(10 * pw - 1, 10, pw - 1, 9);
            }
        }
        lemma_dec_seq_split(hi, lo / 10, whi, (wlo - 1) as nat);
        assert(dec_seq(n, whi + wlo) == dec_seq(n / 10, (whi + wlo - 1) as nat) + seq![
            digit_char(n % 10),
        ]);
        assert((dec_seq(hi, whi) + dec_seq(lo / 10, (wlo - 1) as nat)) + seq![
            digit_char(lo % 10),
        ] =~= dec_seq(hi, whi) + (dec_seq(lo / 10, (wlo - 1) as nat) + seq![
            digit_char(lo % 10),
        ]));
    }
}

/// Ten to anything is positive.
proof fn lemma_pow10_pos(w: nat)
    ensures
        0 < pow10(w),
    decreases w,
{
    if w > 0 {
        lemma_pow10_pos((w - 1) as nat);
    }
}

proof fn lemma_pow10_add2(w: nat)
    ensures
        pow10(w + 2) == 100 * pow10(w),
{
    assert(pow10(w + 2) == 10 * pow10(w + 1));
    assert(pow10(w + 1) == 10 * pow10(w));
}

proof fn lemma_pow10_add6(w: nat)
    ensures
        pow10(w + 6) == 1_000_000 * pow10(w),
{
    lemma_pow10_add2(w + 4);
    lemma_pow10_add2(w + 2);
    lemma_pow10_add2(w);
}

/// A well-formed reading's key has at most twenty digits.
proof fn lemma_key_bound(t: Timestamp)
    requires
        t.wf(),
    ensures
        0 <= t.key() < pow10(20),
{
    assert(pow10(0) == 1);
    assert(pow10(1) == 10);
    assert(pow10(2) == 100);
    assert(pow10(3) == 1000);
    assert(pow10(4) == 10_000);
    lemma_pow10_add2(4);
    lemma_pow10_add2(6);
    lemma_pow10_add2(8);
    lemma_pow10_add2(10);
    lemma_pow10_add2(12);
    lemma_pow10_add6(14);
}

/// Writes one clock reading as the raw-capture stamp and suffix.
pub fn raw_file_name(t: &Timestamp) -> (r: String)
    requires
        t.wf(),
    ensures
        r@ == raw_name_seq(*t),
{
    let s = String::new();
    let s = push_decimal(s, t.year as u64, 4);
    let s = push_decimal(s, t.month as u64, 2);
    let s = push_decimal(s, t.day as u64, 2);
    let s = push_decimal(s, t.hour as u64, 2);
    let s = push_decimal(s, t.minute as u64, 2);
    let s = push_decimal(s, t.second as u64, 2);
    let s = push_decimal(s, t.micro as u64, 6);
    let r = s.concat("_loadmore.json");
    proof {
        let y = t.year as int;
        let a2 = y * 100 + t.month;
        let a3 = a2 * 100 + t.day;
        let a4 = a3 * 100 + t.hour;
        let a5 = a4 * 100 + t.minute;
        let a6 = a5 * 100 + t.second;
        assert(pow10(0) == 1);
        assert(pow10(1) == 10);
        assert(pow10(2) == 100);
        assert(pow10(3) == 1000);
        assert(pow10(4) == 10_000);
        assert(pow10(5) == 100_000);
        assert(pow10(6) == 1_000_000);
        lemma_dec_seq_split(y, t.month as int, 4, 2);
        lemma_dec_seq_split(a2, t.day as int, 6, 2);
        lemma_dec_seq_split(a3, t.hour as int, 8, 2);
        lemma_dec_seq_split(a4, t.minute as int, 10, 2);
        lemma_dec_seq_split(a5, t.second as int, 12, 2);
        lemma_dec_seq_split(a6, t.micro as int, 14, 6);
        assert(r@ =~= raw_name_seq(*t));
    }
    r
}

/// Strict lexicographic order on character sequences, by code point: the
/// order in which a directory listing shows the names.
pub open spec fn lex_lt(a: Seq<char>, b: Seq<char>) -> bool {
    (exists|i: int|
        0 <= i < a.len() && i < b.len() && (forall|j: int| 0 <= j < i ==> a[j] == b[j]) && (
        #[trigger] a[i] as int) < (b[i] as int)) || (a.len() < b.len() && a == b.take(
        a.len() as int,
    ))
}

proof fn lemma_digit_char_mono(d1: int, d2: int)
    requires
        0 <= d1 < d2 <= 9,
    ensures
        (digit_char(d1) as int) < (digit_char(d2) as int),
{
}

/// A smaller number, written zero-padded at the same width, comes earlier
/// in lexicographic order.
proof fn lemma_dec_seq_lt(n1: int, n2: int, w: nat)
    requires
        0 <= n1 < n2 < pow10(w),
    ensures
        lex_lt(dec_seq(n1, w), dec_seq(n2, w)),
    decreases w,
{
    lemma_pow10_pos(w);
    if w == 0 {
        assert(false);
    } else {
        let wl = (w - 1) as nat;
        let h1 = n1 / 10;
        let h2 = n2 / 10;
        let l1 = n1 % 10;
        let l2 = n2 % 10;
        let a = dec_seq(n1, w);
        let b = dec_seq(n2, w);
        lemma_dec_seq_len(h1, wl);
        lemma_dec_seq_len(h2, wl);
        assert(a == dec_seq(h1, wl) + seq![digit_char(l1)]);
        assert(b == dec_seq(h2, wl) + seq![digit_char(l2)]);
        lemma_div_is_ordered(n1, n2, 10);
        lemma_pow10_pos(wl);
        assert(h2 < pow10(wl)) by {
            lemma_div_is_ordered(n2, 10 * pow10(wl) - 1, 10);
            lemma_fundamental_div_mod_converse_div(10 * pow10(wl) - 1, 10, pow10(wl) - 1, 9);
        }
        if h1 == h2 {
            assert(n1 == 10 * h1 + l1) by {
                vstd::arithmetic::div_mod::lemma_fundamental_div_mod(n1, 10);
            }
            assert(n2 == 10 * h2 + l2) by {
                vstd::arithmetic::div_mod::lemma_fundamental_div_mod(n2, 10);
            }
            assert(l1 < l2);
            lemma_digit_char_mono(l1, l2);
            let i = w - 1;
            assert(a[i] == digit_char(l1));
            assert(b[i] == digit_char(l2));
            assert(forall|j: int| 0 <= j < i ==> a[j] == b[j]);
            assert(lex_lt(a, b));
        } else {
            lemma_dec_seq_lt(h1, h2, wl);
            let pre1 = dec_seq(h1, wl);
            let pre2 = dec_seq(h2, wl);
            assert(pre1.len() == pre2.len());
            let i = choose|i: int|
                0 <= i < pre1.len() && i < pre2.len() && (forall|j: int| 0 <= j < i ==> pre1[j] == pre2[j])
                    && (#[trigger] pre1[i] as int) < (pre2[i] as int);
            assert(a[i] == pre1[i]);
            assert(b[i] == pre2[i]);
            assert(forall|j: int| 0 <= j < i ==> a[j] == b[j]);
            assert(lex_lt(a, b));
        }
    }
}

/// Law: raw-capture names order as their instants do. Of two well-formed
/// clock readings at least one microsecond apart, the earlier one gets the
/// lexicographically smaller filename -- so names grow monotonically over a
/// run, and two captures never collide.
pub proof fn lemma_raw_name_monotone(t1: Timestamp, t2: Timestamp)
    requires
        t1.wf(),
        t2.wf(),
        t1.key() < t2.key(),
    ensures
        lex_lt(raw_name_seq(t1), raw_name_seq(t2)),
        raw_name_seq(t1) != raw_name_seq(t2),
{
    lemma_key_bound(t1);
    lemma_key_bound(t2);
    lemma_dec_seq_lt(t1.key(), t2.key(), 20);
    let a = dec_seq(t1.key(), 20);
    let b = dec_seq(t2.key(), 20);
    lemma_dec_seq_len(t1.key(), 20);
    lemma_dec_seq_len(t2.key(), 20);
    let i = choose|i: int|
        0 <= i < a.len() && i < b.len() && (forall|j: int| 0 <= j < i ==> a[j] == b[j]) && (
        #[trigger] a[i] as int) < (b[i] as int);
    let r1 = raw_name_seq(t1);
    let r2 = raw_name_seq(t2);
    assert(r1[i] == a[i]);
    assert(r2[i] == b[i]);
    assert(forall|j: int| 0 <= j < i ==> r1[j] == r2[j]);
    assert(lex_lt(r1, r2));
    assert(r1 != r2) by {
        if r1 == r2 {
            assert(r1[i] == r2[i]);
        }
    }
}

/// Law: distinct instants give distinct raw-capture names.
pub proof fn lemma_raw_name_injective(t1: Timestamp, t2: Timestamp)
    requires
        t1.wf(),
        t2.wf(),
        t1.key() != t2.key(),
    ensures
        raw_name_seq(t1) != raw_name_seq(t2),
{
    if t1.key() < t2.key() {
        lemma_raw_name_monotone(t1, t2);
    } else {
        lemma_raw_name_monotone(t2, t1);
    }
}

/// Relies on chrono::Local::now and its Datelike/Timelike accessors: the
/// calendar fields come in their documented ranges (microseconds may reach
/// 1_999_999 during a leap second); the year is whatever the local clock
/// says, of any sign or size.
#[verifier::external_body]
fn local_now_parts() -> (r: (i64, u32, u32, u32, u32, u32, u32))
    ensures
        1 <= r.1 <= 12,
        1 <= r.2 <= 31,
        r.3 <= 23,
        r.4 <= 59,
        r.5 <= 59,
        r.6 <= 1_999_999,
{
    let now = chrono::Local::now();
    (
        now.year() as i64,
        now.month(),
        now.day(),
        now.hour(),
        now.minute(),
        now.second(),
        now.timestamp_subsec_micros(),
    )
}

/// Decides and builds the raw-capture name for one clock reading, given as
/// plain parts in the ranges the clock guarantees: exactly the readings
/// that fit the name shape -- a four-digit year and sub-second microseconds
/// -- get a name, and that name is the stamp of this very reading; any
/// other reading (a year outside four digits, a leap-second microsecond
/// count) gets none, and the run aborts rather than writing a wrong name.
pub fn raw_name_from_parts(
    year: i64,
    month: u32,
    day: u32,
    hour: u32,
    minute: u32,
    second: u32,
    micro: u32,
) -> (r: Option<String>)
    requires
        1 <= month <= 12,
        1 <= day <= 31,
        hour <= 23,
        minute <= 59,
        second <= 59,
        micro <= 1_999_999,
    ensures
        r is Some <==> (0 <= year <= 9999 && micro <= 999_999),
        r matches Some(n) ==> n@ == raw_name_seq(
            Timestamp { year: year as u32, month, day, hour, minute, second, micro },
        ),
{
    if 0 <= year && year <= 9999 && micro <= 999_999 {
        let t = Timestamp { year: year as u32, month, day, hour, minute, second, micro };
        Some(raw_file_name(&t))
    } else {
        None
    }
}

/// Names a fresh raw capture after the local clock: the stamp of the current
/// instant, when the reading fits the four-digit-year, six-digit-microsecond
/// name shape; the shape decision itself is `raw_name_from_parts`, verified
/// for every reading the clock can hand back.
pub fn now_raw_file_name() -> (r: Option<String>)
    ensures
        r matches Some(s) ==> exists|t: Timestamp| t.wf() && s@ == raw_name_seq(t),
{
    let (y, mo, d, h, mi, sec, us) = local_now_parts();
    let r = raw_name_from_parts(y, mo, d, h, mi, sec, us);
    proof {
        if r is Some {
            let t = Timestamp {
                year: y as u32,
                month: mo,
                day: d,
                hour: h,
                minute: mi,
                second: sec,
                micro: us,
            };
            assert(t.wf() && r.unwrap()@ == raw_name_seq(t));
        }
    }
    r
}

/// Joining under a directory, PathBuf-style: an empty base keeps the path
/// relative, any other base contributes itself and a separator.
pub open spec fn dir_join(base: Seq<char>, rel: Seq<char>) -> Seq<char> {
    if base.len() == 0 {
        rel
    } else {
        base + "/"@ + rel
    }
}

fn join_under(base: &str, rel: &str) -> (r: String)
    ensures
        r@ == dir_join(base@, rel@),
{
    if base.is_empty() {
        rel.to_owned()
    } else {
        base.to_owned().concat("/").concat(rel)
    }
}

/// The directory raw captures go to, under the output root.
pub open spec fn raw_dir_of(save_path: Seq<char>) -> Seq<char> {
    dir_join(save_path, "instagram/raw"@)
}

/// The directory media files go to, under the output root.
pub open spec fn media_dir_of(save_path: Seq<char>) -> Seq<char> {
    dir_join(save_path, "instagram/media"@)
}

/// The raw directory for this output root; it must exist before any network
/// activity starts.
pub fn raw_dir(save_path: &str) -> (r: String)
    ensures
        r@ == raw_dir_of(save_path@),
{
    join_under(save_path, "instagram/raw")
}

/// The media directory for this output root; it must exist before any
/// network activity starts.
pub fn media_dir(save_path: &str) -> (r: String)
    ensures
        r@ == media_dir_of(save_path@),
{
    join_under(save_path, "instagram/media")
}

/// The full path one raw capture is written to.
pub fn raw_file_path(save_path: &str, name: &str) -> (r: String)
    ensures
        r@ == dir_join(raw_dir_of(save_path@), name@),
{
    let d = raw_dir(save_path);
    join_under(d.as_str(), name)
}

/// The full path one media file is written to.
pub fn media_file_path(save_path: &str, basename: &str) -> (r: String)
    ensures
        r@ == dir_join(media_dir_of(save_path@), basename@),
{
    let d = media_dir(save_path);
    join_under(d.as_str(), basename)
}

/// What a URL's final path segment is. Left unstated: it names the result
/// of the url crate's parse and path split, a function of the URL text
/// alone.
pub uninterp spec fn last_path_segment_of(url: Seq<char>) -> Option<Seq<char>>;

/// Relies on url::Url::parse and Url::path_segments: the URL's final path
/// segment, determined by the URL text alone; None when the text is not a
/// valid absolute URL or its path cannot be split into segments.
#[verifier::external_body]
fn url_last_segment(u: &str) -> (r: Option<String>)
    ensures
        r is Some <==> last_path_segment_of(u@) is Some,
        r matches Some(s) ==> last_path_segment_of(u@) == Some(s@),
{
    let parsed = url::Url::parse(u).ok()?;
    let seg = parsed.path_segments()?.last()?;
    Some(seg.to_owned())
}

/// The basename a media download is saved under: the URL's final path
/// segment; a URL without one cannot be persisted and is the extraction
/// error. Colliding basenames silently overwrite -- accepted mirror
/// behavior.
pub fn media_basename(url: &str) -> (r: Result<String, Error>)
    ensures
        match r {
            Ok(s) => last_path_segment_of(url@) == Some(s@),
            Err(e) => last_path_segment_of(url@) is None && e == Error::ExtractionError,
        },
{
    match url_last_segment(url) {
        Some(s) => Ok(s),
        None => Err(Error::ExtractionError),
    }
}

/// Gates a media download on its status: only a 200 body may be persisted;
/// anything else aborts the run.
pub fn on_media_response(status: u16) -> (r: Result<(), Error>)
    ensures
        status == 200 ==> r == Ok::<(), Error>(()),
        status != 200 ==> r == Err::<(), Error>(Error::IoError),
{
    if status == 200 {
        Ok(())
    } else {
        Err(Error::IoError)
    }
}

} // verus!
