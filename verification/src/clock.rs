//! Wall-clock timestamps and their fixed `YYYY-MM-DD@HH:MM:SS` rendering.

use vstd::prelude::*;

use crate::text::esc_free;
use crate::text::lemma_esc_free_concat;

verus! {

/// One local wall-clock reading, split into plain calendar fields.
#[derive(Clone, Copy, Debug)]
pub struct Timestamp {
    pub year: i32,
    pub month: u8,
    pub day: u8,
    pub hour: u8,
    pub minute: u8,
    pub second: u8,
}

impl Timestamp {
    /// The ranges a calendar reading satisfies: what the date and time
    /// libraries guarantee of a valid local time.
    pub open spec fn wf(self) -> bool {
        &&& -262144 <= self.year <= 262143
        &&& 1 <= self.month <= 12
        &&& 1 <= self.day <= 31
        &&& self.hour <= 23
        &&& self.minute <= 59
        &&& self.second <= 59
    }
}

/// Relies on `chrono::Local::now` and the `Datelike` / `Timelike` accessors
/// (`year`, `month`, `day`, `hour`, `minute`, `second`) to read the local
/// wall clock.  chrono documents month as 1-based, day of month as 1-based,
/// hour 0..=23, minute 0..=59, second 0..=59, and dates within about
/// ±262,000 years; nothing more is assumed — in particular not that two
/// readings agree.
#[verifier::external_body]
pub fn local_now() -> (r: Timestamp)
    ensures
        r.wf(),
{
    let now = chrono::Local::now();
    Timestamp {
        year: chrono::Datelike::year(&now),
        month: chrono::Datelike::month(&now) as u8,
        day: chrono::Datelike::day(&now) as u8,
        hour: chrono::Timelike::hour(&now) as u8,
        minute: chrono::Timelike::minute(&now) as u8,
        second: chrono::Timelike::second(&now) as u8,
    }
}

/// The character of one decimal digit.
pub open spec fn digit_char(d: nat) -> char {
    if d == 0 {
        '0'
    } else if d == 1 {
        '1'
    } else if d == 2 {
        '2'
    } else if d == 3 {
        '3'
    } else if d == 4 {
        '4'
    } else if d == 5 {
        '5'
    } else if d == 6 {
        '6'
    } else if d == 7 {
        '7'
    } else if d == 8 {
        '8'
    } else {
        '9'
    }
}

/// The decimal digits of `n`, most significant first, without leading zeros.
pub open spec fn dec_digits(n: nat) -> Seq<char>
    decreases n,
{
    if n < 10 {
        seq![digit_char(n)]
    } else {
        dec_digits(n / 10) + seq![digit_char(n % 10)]
    }
}

/// A run of `n` zero characters.
pub open spec fn zeros(n: nat) -> Seq<char> {
    Seq::new(n, |i: int| '0')
}

/// `n` in decimal, left-padded with zeros to at least `w` characters.
pub open spec fn padded_dec(n: nat, w: nat) -> Seq<char> {
    if dec_digits(n).len() >= w {
        dec_digits(n)
    } else {
        zeros((w - dec_digits(n).len()) as nat) + dec_digits(n)
    }
}

/// A year, four digits at least, a leading minus sign when negative.
pub open spec fn year_text(y: int) -> Seq<char> {
    if y >= 0 {
        padded_dec(y as nat, 4)
    } else {
        seq!['-'] + padded_dec((-y) as nat, 4)
    }
}

/// The full `YYYY-MM-DD@HH:MM:SS` text of a reading.
pub open spec fn timestamp_spec(t: Timestamp) -> Seq<char> {
    year_text(t.year as int) + seq!['-'] + padded_dec(t.month as nat, 2) + seq!['-'] + padded_dec(
        t.day as nat,
        2,
    ) + seq!['@'] + padded_dec(t.hour as nat, 2) + seq![':'] + padded_dec(t.minute as nat, 2)
        + seq![':'] + padded_dec(t.second as nat, 2)
}

/// Powers of ten.
pub open spec fn pow10(k: nat) -> nat
    decreases k,
{
    if k == 0 {
        1nat
    } else {
        10 * pow10((k - 1) as nat)
    }
}

/// A number below `10^k` has at most `k` digits.
pub proof fn lemma_dec_len(n: nat, k: nat)
    requires
        k >= 1,
        n < pow10(k),
    ensures
        dec_digits(n).len() <= k,
    decreases k,
{
    if n < 10 {
    } else {
        assert(pow10(k) == 10 * pow10((k - 1) as nat));
        assert(n / 10 < pow10((k - 1) as nat)) by (nonlinear_arith)
            requires
                n < 10 * pow10((k - 1) as nat),
        ;
        lemma_dec_len(n / 10, (k - 1) as nat);
    }
}

/// Decimal digits are ordinary printable characters.
pub proof fn lemma_dec_plain(n: nat)
    ensures
        esc_free(dec_digits(n)),
    decreases n,
{
    if n < 10 {
    } else {
        lemma_dec_plain(n / 10);
        assert forall|i: int| 0 <= i < dec_digits(n).len() implies dec_digits(n)[i] != '\u{1b}' by {
            if i < dec_digits(n / 10).len() {
                assert(dec_digits(n)[i] == dec_digits(n / 10)[i]);
            } else {
                assert(dec_digits(n)[i] == digit_char(n % 10));
            }
        }
    }
}

/// Padded decimals are ordinary printable characters, at least `w` of them.
pub proof fn lemma_padded_plain(n: nat, w: nat)
    ensures
        esc_free(padded_dec(n, w)),
        padded_dec(n, w).len() >= w,
{
    lemma_dec_plain(n);
    if dec_digits(n).len() >= w {
    } else {
        assert(esc_free(zeros((w - dec_digits(n).len()) as nat)));
        lemma_esc_free_concat(zeros((w - dec_digits(n).len()) as nat), dec_digits(n));
    }
}

/// The year text is short and escape-free for a valid reading.
proof fn lemma_year_text(y: int)
    requires
        -262144 <= y <= 262143,
    ensures
        esc_free(year_text(y)),
        4 <= year_text(y).len() <= 7,
{
    let a: nat = if y >= 0 {
        y as nat
    } else {
        (-y) as nat
    };
    assert(pow10(6) == 1000000) by {
        reveal_with_fuel(pow10, 7);
    }
    lemma_dec_len(a, 6);
    lemma_padded_plain(a, 4);
    if y >= 0 {
    } else {
        assert(esc_free(seq!['-']));
        lemma_esc_free_concat(seq!['-'], padded_dec(a, 4));
    }
}

/// A two-digit field renders as exactly two characters.
proof fn lemma_two_digit(n: nat)
    requires
        n <= 99,
    ensures
        esc_free(padded_dec(n, 2)),
        padded_dec(n, 2).len() == 2,
{
    assert(pow10(2) == 100) by {
        reveal_with_fuel(pow10, 3);
    }
    lemma_dec_len(n, 2);
    lemma_padded_plain(n, 2);
}

/// The timestamp text of a valid reading is short and contains no styling
/// escape characters.
#[verifier::rlimit(60)]
pub proof fn lemma_timestamp_text(t: Timestamp)
    requires
        t.wf(),
    ensures
        timestamp_spec(t).len() <= 26,
        esc_free(timestamp_spec(t)),
{
    lemma_year_text(t.year as int);
    lemma_two_digit(t.month as nat);
    lemma_two_digit(t.day as nat);
    lemma_two_digit(t.hour as nat);
    lemma_two_digit(t.minute as nat);
    lemma_two_digit(t.second as nat);
    let p1 = year_text(t.year as int) + seq!['-'];
    let p2 = p1 + padded_dec(t.month as nat, 2);
    let p3 = p2 + seq!['-'];
    let p4 = p3 + padded_dec(t.day as nat, 2);
    let p5 = p4 + seq!['@'];
    let p6 = p5 + padded_dec(t.hour as nat, 2);
    let p7 = p6 + seq![':'];
    let p8 = p7 + padded_dec(t.minute as nat, 2);
    let p9 = p8 + seq![':'];
    lemma_esc_free_concat(year_text(t.year as int), seq!['-']);
    lemma_esc_free_concat(p1, padded_dec(t.month as nat, 2));
    lemma_esc_free_concat(p2, seq!['-']);
    lemma_esc_free_concat(p3, padded_dec(t.day as nat, 2));
    lemma_esc_free_concat(p4, seq!['@']);
    lemma_esc_free_concat(p5, padded_dec(t.hour as nat, 2));
    lemma_esc_free_concat(p6, seq![':']);
    lemma_esc_free_concat(p7, padded_dec(t.minute as nat, 2));
    lemma_esc_free_concat(p8, seq![':']);
    lemma_esc_free_concat(p9, padded_dec(t.second as nat, 2));
    assert(timestamp_spec(t) == p9 + padded_dec(t.second as nat, 2));
}

/// One decimal digit as text.
fn digit_str(d: u32) -> (r: &'static str)
    requires
        d < 10,
    ensures
        r@ == seq![digit_char(d as nat)],
{
    proof {
        reveal_strlit("0");
        reveal_strlit("1");
        reveal_strlit("2");
        reveal_strlit("3");
        reveal_strlit("4");
        reveal_strlit("5");
        reveal_strlit("6");
        reveal_strlit("7");
        reveal_strlit("8");
        reveal_strlit("9");
    }
    let r = if d == 0 {
        "0"
    } else if d == 1 {
        "1"
    } else if d == 2 {
        "2"
    } else if d == 3 {
        "3"
    } else if d == 4 {
        "4"
    } else if d == 5 {
        "5"
    } else if d == 6 {
        "6"
    } else if d == 7 {
        "7"
    } else if d == 8 {
        "8"
    } else {
        "9"
    };
    proof {
        assert(r@ =~= seq![digit_char(d as nat)]);
    }
    r
}

/// The decimal digits of `n`.
fn dec_string(n: u32) -> (r: String)
    ensures
        r@ == dec_digits(n as nat),
    decreases n,
{
    if n < 10 {
        digit_str(n).to_owned()
    } else {
        let mut s = dec_string(n / 10);
        s.append(digit_str(n % 10));
        s
    }
}

/// `n` in decimal, zero-padded to at least `w` characters.
fn padded_string(n: u32, w: usize) -> (r: String)
    ensures
        r@ == padded_dec(n as nat, w as nat),
{
    let d = dec_string(n);
    let dl = d.as_str().unicode_len();
    if dl >= w {
        proof {
            assert(d@ =~= padded_dec(n as nat, w as nat));
        }
        d
    } else {
        let mut out = String::new();
        let mut i: usize = 0;
        proof {
            reveal_strlit("0");
        }
        while i < w - dl
            invariant
                out@ =~= zeros(i as nat),
                "0"@ =~= seq!['0'],
                i <= w - dl,
                dl < w,
            decreases w - dl - i,
        {
            out.append("0");
            proof {
                assert(zeros(i as nat) + seq!['0'] =~= zeros(i as nat + 1));
            }
            i = i + 1;
        }
        out.append(d.as_str());
        proof {
            assert(out@ =~= padded_dec(n as nat, w as nat));
        }
        out
    }
}

/// The `YYYY-MM-DD@HH:MM:SS` text of a reading.
pub fn format_timestamp(t: &Timestamp) -> (r: String)
    requires
        t.wf(),
    ensures
        r@ == timestamp_spec(*t),
{
    proof {
        reveal_strlit("-");
        reveal_strlit("@");
        reveal_strlit(":");
    }
    let mut out: String;
    if t.year >= 0 {
        out = padded_string(t.year as u32, 4);
    } else {
        out = "-".to_owned();
        let y = -(t.year as i64);
        out.append(padded_string(y as u32, 4).as_str());
        proof {
            assert(out@ =~= year_text(t.year as int));
        }
    }
    out.append("-");
    out.append(padded_string(t.month as u32, 2).as_str());
    out.append("-");
    out.append(padded_string(t.day as u32, 2).as_str());
    out.append("@");
    out.append(padded_string(t.hour as u32, 2).as_str());
    out.append(":");
    out.append(padded_string(t.minute as u32, 2).as_str());
    out.append(":");
    out.append(padded_string(t.second as u32, 2).as_str());
    proof {
        assert(out@ =~= timestamp_spec(*t));
    }
    out
}

} // verus!
