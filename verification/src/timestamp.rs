//! Naive publish timestamps (no timezone conversion: stored and compared as
//! plain calendar/clock fields) and zero-padded decimal formatting, used for
//! ordering posts and deriving their canonical URLs.

use vstd::prelude::*;

verus! {

/// A naive date and time. Comparison is lexicographic on the fields, which for
/// calendar values agrees with chronological order.
#[derive(Clone, Copy, PartialEq, Eq, Structural, Debug)]
pub struct Timestamp {
    pub year: u32,
    pub month: u32,
    pub day: u32,
    pub hour: u32,
    pub minute: u32,
    pub second: u32,
}

/// Strict chronological order on naive timestamps.
pub open spec fn ts_lt(a: Timestamp, b: Timestamp) -> bool {
    if a.year != b.year {
        a.year < b.year
    } else if a.month != b.month {
        a.month < b.month
    } else if a.day != b.day {
        a.day < b.day
    } else if a.hour != b.hour {
        a.hour < b.hour
    } else if a.minute != b.minute {
        a.minute < b.minute
    } else {
        a.second < b.second
    }
}

impl Timestamp {
    pub fn new(year: u32, month: u32, day: u32, hour: u32, minute: u32, second: u32) -> (r:
        Timestamp)
        ensures
            r == (Timestamp { year, month, day, hour, minute, second }),
    {
        Timestamp { year, month, day, hour, minute, second }
    }

    /// Whether `self` is strictly earlier than `other`.
    pub fn lt(&self, other: &Timestamp) -> (r: bool)
        ensures
            r == ts_lt(*self, *other),
    {
        if self.year != other.year {
            self.year < other.year
        } else if self.month != other.month {
            self.month < other.month
        } else if self.day != other.day {
            self.day < other.day
        } else if self.hour != other.hour {
            self.hour < other.hour
        } else if self.minute != other.minute {
            self.minute < other.minute
        } else {
            self.second < other.second
        }
    }
}

/// The character for one decimal digit.
pub open spec fn dec_digit(d: nat) -> char {
    if d == 0 {
        '0'
    } else if d == 1 {
        '1'
    } else if d == 2 {
        '2'
    } else if d == 3 {
        '3'
    } else if d == 4 {
        '4'
    } else if d == 5 {
        '5'
    } else if d == 6 {
        '6'
    } else if d == 7 {
        '7'
    } else if d == 8 {
        '8'
    } else {
        '9'
    }
}

/// The decimal representation of `n`, most significant digit first, with no
/// leading zeros (except for `n == 0` itself).
pub open spec fn dec_rep(n: nat) -> Seq<char>
    decreases n,
{
    if n < 10 {
        seq![dec_digit(n)]
    } else {
        dec_rep(n / 10) + seq![dec_digit(n % 10)]
    }
}

/// The decimal representation of `n`, left-padded with zeros to at least
/// `width` characters.
pub open spec fn padded_dec(n: nat, width: nat) -> Seq<char> {
    if dec_rep(n).len() >= width {
        dec_rep(n)
    } else {
        Seq::new((width - dec_rep(n).len()) as nat, |i: int| '0') + dec_rep(n)
    }
}

fn digit_str(d: u32) -> (r: &'static str)
    requires
        d < 10,
    ensures
        r@ == seq![dec_digit(d as nat)],
{
    let r: &'static str = if d == 0 {
        "0"
    } else if d == 1 {
        "1"
    } else if d == 2 {
        "2"
    } else if d == 3 {
        "3"
    } else if d == 4 {
        "4"
    } else if d == 5 {
        "5"
    } else if d == 6 {
        "6"
    } else if d == 7 {
        "7"
    } else if d == 8 {
        "8"
    } else {
        "9"
    };
    proof {
        reveal_strlit("0");
        reveal_strlit("1");
        reveal_strlit("2");
        reveal_strlit("3");
        reveal_strlit("4");
        reveal_strlit("5");
        reveal_strlit("6");
        reveal_strlit("7");
        reveal_strlit("8");
        reveal_strlit("9");
        assert(r@ =~= seq![dec_digit(d as nat)]);
    }
    r
}

/// The decimal characters of the digit stack `ds` (least significant digit
/// first), read back most significant digit first.
spec fn rev_digit_chars(ds: Seq<u32>) -> Seq<char>
    decreases ds.len(),
{
    if ds.len() == 0 {
        Seq::<char>::empty()
    } else {
        seq![dec_digit(ds.last() as nat)] + rev_digit_chars(ds.drop_last())
    }
}

proof fn lemma_rev_digit_chars_len(ds: Seq<u32>)
    ensures
        rev_digit_chars(ds).len() == ds.len(),
    decreases ds.len(),
{
    if ds.len() > 0 {
        lemma_rev_digit_chars_len(ds.drop_last());
    }
}

/// Appends the decimal representation of `n`, left-padded with zeros to at
/// least `width` characters, to `out`.
pub fn append_padded_dec(out: &mut String, n: u32, width: usize)
    ensures
        final(out)@ == old(out)@ + padded_dec(n as nat, width as nat),
{
    let ghost base = out@;
    let mut digits: Vec<u32> = Vec::new();
    let mut m: u32 = n;
    loop
        invariant_except_break
            dec_rep(n as nat) =~= dec_rep(m as nat) + rev_digit_chars(digits@),
        invariant
            out@ == base,
            forall|i: int| 0 <= i < digits@.len() ==> digits@[i] < 10,
        ensures
            dec_rep(n as nat) =~= rev_digit_chars(digits@),
        decreases m,
    {
        let ghost pre = digits@;
        let ghost m0: nat = m as nat;
        let d = m % 10;
        m = m / 10;
        digits.push(d);
        proof {
            assert(digits@.last() == d);
            assert(digits@.drop_last() =~= pre);
            assert(rev_digit_chars(digits@) =~= seq![dec_digit(d as nat)] + rev_digit_chars(pre));
            if m == 0 {
                assert(dec_rep(m0) =~= seq![dec_digit(d as nat)]);
                assert(dec_rep(n as nat) =~= rev_digit_chars(digits@));
            } else {
                assert(dec_rep(m0) =~= dec_rep(m as nat) + seq![dec_digit(d as nat)]);
                assert(dec_rep(n as nat) =~= dec_rep(m as nat) + rev_digit_chars(digits@));
            }
        }
        if m == 0 {
            break ;
        }
    }
    proof {
        lemma_rev_digit_chars_len(digits@);
    }
    let dlen = digits.len();
    let mut j: usize = 0;
    let pad: usize = if width > dlen {
        width - dlen
    } else {
        0
    };
    while j < pad
        invariant
            j <= pad,
            out@ =~= base + Seq::new(j as nat, |i: int| '0'),
        decreases pad - j,
    {
        out.append("0");
        proof {
            reveal_strlit("0");
            assert(out@ =~= base + Seq::new((j + 1) as nat, |i: int| '0'));
        }
        j = j + 1;
    }
    let ghost padded_base = out@;
    proof {
        assert(digits@.take(dlen as int) =~= digits@);
    }
    let mut k: usize = dlen;
    while k > 0
        invariant
            k <= dlen,
            dlen == digits@.len(),
            forall|i: int| 0 <= i < digits@.len() ==> digits@[i] < 10,
            out@ + rev_digit_chars(digits@.take(k as int)) =~= padded_base + rev_digit_chars(
                digits@,
            ),
        decreases k,
    {
        let d = digits[k - 1];
        out.append(digit_str(d));
        proof {
            let ds = digits@;
            assert(ds.take(k as int).last() == ds[k - 1]);
            assert(ds.take(k as int).drop_last() =~= ds.take(k as int - 1));
            assert(out@ + rev_digit_chars(ds.take(k as int - 1)) =~= padded_base
                + rev_digit_chars(ds));
        }
        k = k - 1;
    }
    proof {
        assert(rev_digit_chars(digits@.take(0)) =~= Seq::<char>::empty());
        assert(out@ =~= padded_base + rev_digit_chars(digits@));
        assert(dec_rep(n as nat).len() == dlen);
        if dec_rep(n as nat).len() >= width as nat {
            assert(padded_base =~= base);
            assert(out@ =~= base + padded_dec(n as nat, width as nat));
        } else {
            assert(padded_base =~= base + Seq::new((width - dec_rep(n as nat).len()) as nat, |i: int| '0'));
            assert(out@ =~= base + padded_dec(n as nat, width as nat));
        }
    }
}

} // verus!
