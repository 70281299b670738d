//! Times of day at minute resolution, their text form, and the
//! midnight-aware distance between two of them.
use vstd::prelude::*;
use vstd::string::*;

verus! {

/// Minutes in one day.
pub const MINUTES_PER_DAY: u32 = 1440;

/// A time of day: `hour` in `0..24`, `minute` in `0..60`.
#[derive(Clone, Copy, PartialEq, Eq, Structural, Debug)]
pub struct SimpleTime {
    pub hour: u8,
    pub minute: u8,
}

/// The minutes from `start` to `end`, reading an `end` earlier than `start`
/// as a time on the following day.
pub open spec fn wrap_minutes(end: SimpleTime, start: SimpleTime) -> int {
    let d = end.minute_of_day() - start.minute_of_day();
    if d < 0 { d + 1440 } else { d }
}

/// Whether `c` is an ASCII decimal digit.
pub open spec fn is_digit(c: char) -> bool {
    '0' <= c && c <= '9'
}

/// The value of an ASCII decimal digit.
pub open spec fn digit_value(c: char) -> int {
    (c as int) - ('0' as int)
}

/// Whether every character of `s` is a decimal digit.
pub open spec fn all_digits(s: Seq<char>) -> bool {
    forall|i: int| 0 <= i < s.len() ==> is_digit(#[trigger] s[i])
}

/// The number written in decimal by the digits `s` (0 for no digits).
pub open spec fn decimal_value(s: Seq<char>) -> nat
    decreases s.len(),
{
    if s.len() == 0 {
        0
    } else {
        (decimal_value(s.drop_last()) * 10 + digit_value(s.last())) as nat
    }
}

/// What parsing `s` as a `u8` gives: an optional `+`, then one or more
/// decimal digits whose value is at most 255.
pub open spec fn parse_u8_spec(s: Seq<char>) -> Option<u8> {
    let d = if s.len() > 0 && s[0] == '+' { s.drop_first() } else { s };
    if d.len() > 0 && all_digits(d) && decimal_value(d) <= 255 {
        Some(decimal_value(d) as u8)
    } else {
        None
    }
}

/// The index of the first `:` in `s`, if any.
pub open spec fn first_colon(s: Seq<char>) -> Option<int> {
    if exists|i: int| 0 <= i < s.len() && s[i] == ':' {
        Some(choose|i: int| 0 <= i < s.len() && s[i] == ':' && forall|j: int| 0 <= j < i ==> s[j] != ':')
    } else {
        None
    }
}

/// The hour and minute fields of a time written `H:M` (split at the first
/// colon) or as four characters `HHMM`, each read as a `u8`.
pub open spec fn time_fields(s: Seq<char>) -> Option<(u8, u8)> {
    let parts: Option<(Seq<char>, Seq<char>)> = match first_colon(s) {
        Some(k) => Some((s.subrange(0, k), s.subrange(k + 1, s.len() as int))),
        None => if s.len() == 4 { Some((s.subrange(0, 2), s.subrange(2, 4))) } else { None },
    };
    match parts {
        Some((h, m)) => match (parse_u8_spec(h), parse_u8_spec(m)) {
            (Some(hv), Some(mv)) => Some((hv, mv)),
            _ => None,
        },
        None => None,
    }
}

/// The time that the text `s` denotes, if it denotes a valid one.
pub open spec fn parse_time_spec(s: Seq<char>) -> Option<SimpleTime> {
    match time_fields(s) {
        Some((h, m)) => if h < 24 && m < 60 { Some(SimpleTime { hour: h, minute: m }) } else { None },
        None => None,
    }
}

proof fn lemma_decimal_value_prefix(s: Seq<char>, i: int)
    requires
        0 <= i <= s.len(),
        all_digits(s),
    ensures
        decimal_value(s.subrange(0, i)) <= decimal_value(s),
    decreases s.len() - i,
{
    if i < s.len() {
        lemma_decimal_value_prefix(s, i + 1);
        let p = s.subrange(0, i + 1);
        assert(p.drop_last() =~= s.subrange(0, i));
        assert(is_digit(s[i]));
    } else {
        assert(s.subrange(0, i) =~= s);
    }
}

impl SimpleTime {
    /// Whether the hour and minute are in range.
    pub open spec fn wf(self) -> bool {
        self.hour < 24 && self.minute < 60
    }

    /// Minutes since midnight.
    pub open spec fn minute_of_day(self) -> int {
        self.hour as int * 60 + self.minute as int
    }

    /// The time `hour:minute`, or `None` where either is out of range.
    pub fn try_new(hour: u8, minute: u8) -> (r: Option<Self>)
        ensures
            r == (if hour < 24 && minute < 60 {
                Some(SimpleTime { hour, minute })
            } else {
                None
            }),
    {
        if hour < 24 && minute < 60 {
            Some(Self { hour, minute })
        } else {
            None
        }
    }

    /// The minutes from `rhs` to `self`; where `self` is earlier in the day
    /// than `rhs`, the span crosses midnight (01:00 minus 23:00 is 120).
    pub fn sub(self, rhs: SimpleTime) -> (r: u32)
        requires
            self.wf(),
            rhs.wf(),
        ensures
            r as int == wrap_minutes(self, rhs),
            r < MINUTES_PER_DAY,
    {
        let lhs_minute: u32 = self.hour as u32 * 60 + self.minute as u32;
        let rhs_minute: u32 = rhs.hour as u32 * 60 + rhs.minute as u32;
        if lhs_minute >= rhs_minute {
            lhs_minute - rhs_minute
        } else {
            lhs_minute + MINUTES_PER_DAY - rhs_minute
        }
    }

    /// Reads a time written `H:M` or `HHMM`; `None` unless both fields read
    /// as numbers and the time is valid.
    pub fn parse(s: &str) -> (r: Option<SimpleTime>)
        ensures
            r == parse_time_spec(s@),
    {
        let n = s.unicode_len();
        let mut k: usize = 0;
        let mut found = false;
        while k < n && !found
            invariant
                k <= n,
                n == s@.len(),
                forall|j: int| 0 <= j < k ==> s@[j] != ':',
                found ==> k < n && s@[k as int] == ':',
            decreases n - k + (if found { 0int } else { 1 }),
        {
            if s.get_char(k) == ':' {
                found = true;
            } else {
                k = k + 1;
            }
        }
        let fields: Option<(u8, u8)>;
        if found {
            assert(first_colon(s@) == Some(k as int)) by {
                let c = choose|i: int|
                    0 <= i < s@.len() && s@[i] == ':' && forall|j: int| 0 <= j < i ==> s@[j] != ':';
                assert(0 <= c < s@.len() && s@[c] == ':' && forall|j: int| 0 <= j < c ==> s@[j] != ':');
                assert(c == k as int);
            }
            let h = parse_u8_range(s, 0, k);
            let m = parse_u8_range(s, k + 1, n);
            fields = match (h, m) {
                (Some(hv), Some(mv)) => Some((hv, mv)),
                _ => None,
            };
        } else if n == 4 {
            assert(first_colon(s@) == None::<int>);
            let h = parse_u8_range(s, 0, 2);
            let m = parse_u8_range(s, 2, 4);
            fields = match (h, m) {
                (Some(hv), Some(mv)) => Some((hv, mv)),
                _ => None,
            };
        } else {
            assert(first_colon(s@) == None::<int>);
            fields = None;
        }
        assert(fields == time_fields(s@));
        match fields {
            Some((h, m)) => SimpleTime::try_new(h, m),
            None => None,
        }
    }

    /// The time as `HH:MM`.
    pub fn to_text(&self) -> (r: String)
        requires
            self.wf(),
        ensures
            r@ == two_digits(self.hour as nat) + seq![':'] + two_digits(self.minute as nat),
    {
        let mut v: Vec<char> = Vec::new();
        v.push(digit_char(self.hour / 10));
        v.push(digit_char(self.hour % 10));
        v.push(':');
        v.push(digit_char(self.minute / 10));
        v.push(digit_char(self.minute % 10));
        assert(v@ =~= two_digits(self.hour as nat) + seq![':'] + two_digits(self.minute as nat));
        chars_to_string(v)
    }
}

/// The two-digit decimal form of `n < 100`.
pub open spec fn two_digits(n: nat) -> Seq<char> {
    seq![char_of_digit(n / 10), char_of_digit(n % 10)]
}

/// The character of the decimal digit `d < 10`.
pub open spec fn char_of_digit(d: nat) -> char {
    ((d + 48) as u8) as char
}

fn digit_char(d: u8) -> (c: char)
    requires
        d < 10,
    ensures
        c == char_of_digit(d as nat),
{
    (d + 48) as char
}

/// Relies on `String::from_iter` over `char`s: the string holds those
/// characters in order.
#[verifier::external_body]
pub(crate) fn chars_to_string(v: Vec<char>) -> (r: String)
    ensures
        r@ == v@,
{
    String::from_iter(v)
}

/// Parses the characters `lo..hi` of `s` as a `u8`.
fn parse_u8_range(s: &str, lo: usize, hi: usize) -> (r: Option<u8>)
    requires
        lo <= hi <= s@.len(),
    ensures
        r == parse_u8_spec(s@.subrange(lo as int, hi as int)),
{
    let ghost t = s@.subrange(lo as int, hi as int);
    let mut start = lo;
    if lo < hi && s.get_char(lo) == '+' {
        start = lo + 1;
    }
    let ghost d = s@.subrange(start as int, hi as int);
    assert(d =~= (if t.len() > 0 && t[0] == '+' { t.drop_first() } else { t }));
    if start == hi {
        return None;
    }
    let mut acc: u32 = 0;
    let mut i = start;
    while i < hi
        invariant
            start <= i <= hi,
            hi <= s@.len(),
            d == s@.subrange(start as int, hi as int),
            d == (if t.len() > 0 && t[0] == '+' { t.drop_first() } else { t }),
            d.len() > 0,
            t == s@.subrange(lo as int, hi as int),
            forall|j: int| start <= j < i ==> is_digit(#[trigger] s@[j]),
            acc as nat == decimal_value(s@.subrange(start as int, i as int)),
            acc <= 255,
        decreases hi - i,
    {
        let c = s.get_char(i);
        if !('0' <= c && c <= '9') {
            assert(d[i - start] == c);
            return None;
        }
        let ghost p = s@.subrange(start as int, i as int + 1);
        assert(p.drop_last() =~= s@.subrange(start as int, i as int));
        assert(p.last() == c);
        acc = acc * 10 + (c as u32 - '0' as u32);
        assert(acc as nat == decimal_value(p));
        if acc > 255 {
            assert(all_digits(d) ==> decimal_value(d) > 255) by {
                if all_digits(d) {
                    lemma_decimal_value_prefix(d, i - start + 1);
                    assert(d.subrange(0, i - start + 1) =~= p);
                }
            }
            return None;
        }
        i = i + 1;
    }
    assert(s@.subrange(start as int, i as int) =~= d);
    Some(acc as u8)
}

/// The decimal form of `n`, without leading zeros.
pub open spec fn decimal_text(n: nat) -> Seq<char>
    decreases n,
{
    if n < 10 {
        seq![char_of_digit(n)]
    } else {
        decimal_text(n / 10).push(char_of_digit(n % 10))
    }
}

/// How a duration of `minutes` is shown: whole hours as `<h>h`, then the
/// remaining minutes as `<m>m`, each left out where it is zero (so zero
/// minutes show as nothing).
pub open spec fn duration_text_spec(minutes: nat) -> Seq<char> {
    let h = minutes / 60;
    let m = minutes % 60;
    (if h != 0 { decimal_text(h).push('h') } else { Seq::empty() }) + (if m != 0 {
        decimal_text(m).push('m')
    } else {
        Seq::empty()
    })
}

fn push_decimal(n: u64, out: &mut Vec<char>)
    ensures
        final(out)@ == old(out)@ + decimal_text(n as nat),
    decreases n,
{
    if n >= 10 {
        push_decimal(n / 10, out);
    }
    let d = (n % 10) as u8;
    let ghost before = out@;
    out.push(digit_char(d));
    assert(out@ =~= old(out)@ + decimal_text(n as nat));
}

/// A duration of `minutes` as text, such as `1h30m`, `2h` or `45m`.
pub fn duration_to_string(minutes: u64) -> (r: String)
    ensures
        r@ == duration_text_spec(minutes as nat),
{
    let mut v: Vec<char> = Vec::new();
    let h = minutes / 60;
    let m = minutes % 60;
    if h != 0 {
        push_decimal(h, &mut v);
        v.push('h');
    }
    if m != 0 {
        push_decimal(m, &mut v);
        v.push('m');
    }
    assert(v@ =~= duration_text_spec(minutes as nat));
    chars_to_string(v)
}

impl SimpleTime {
    /// The time `minutes` after midnight.
    pub fn from_minutes(minutes: u32) -> (r: SimpleTime)
        requires
            minutes < MINUTES_PER_DAY,
        ensures
            r.wf(),
            r.minute_of_day() == minutes,
    {
        SimpleTime { hour: (minutes / 60) as u8, minute: (minutes % 60) as u8 }
    }
}

} // verus!
