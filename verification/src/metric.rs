//! The numbers that a matched line carries: the hours, minutes and seconds
//! of a clock, and the frame rate.

use vstd::prelude::*;
use vstd::string::*;
use vstd::utf8::is_ascii_chars;
use crate::pattern::{GroupTexts, Groups};

verus! {

/// The most seconds that a clock of three two-digit fields can show.
pub const MAX_SECONDS: u64 = 362439;

/// The most hundredths that a frame rate can hold.
pub const MAX_HUNDREDTHS: u32 = 9999;

/// Which of the three numbers of the stream is meant.
#[derive(Clone, Copy, Debug, PartialEq, Eq, Structural)]
pub enum Metric {
    /// The total duration of the job.
    Duration,
    /// The frame rate of the video.
    FrameRate,
    /// The position that the job has reached.
    Position,
}

/// Frames per second, kept exactly as the stream printed it: in hundredths.
#[derive(Clone, Copy, Debug, PartialEq, Eq, Structural)]
pub struct FrameRate {
    pub hundredths: u32,
}

/// `count` as a machine number, where it fits one.
pub open spec fn fitting(count: nat) -> Option<u64> {
    if count <= u64::MAX {
        Some(count as u64)
    } else {
        None
    }
}

impl FrameRate {
    /// The frames that pass in `secs` seconds at this rate: the seconds times
    /// the rate, the fraction of a frame cut off.
    pub open spec fn frames(self, secs: nat) -> nat {
        secs * self.hundredths as nat / 100
    }

    /// The frames that pass in `secs` seconds at this rate, the fraction of a
    /// frame cut off. `None` where they are more than can be counted.
    pub fn frames_in(self, secs: u64) -> (frames: Option<u64>)
        ensures
            frames == fitting(self.frames(secs as nat)),
    {
        assert(secs * self.hundredths <= 0xffff_ffff_ffff_ffff * 0xffff_ffff) by (nonlinear_arith)
            requires
                secs <= 0xffff_ffff_ffff_ffff,
                self.hundredths <= 0xffff_ffff,
        ;
        let frames: u128 = (secs as u128) * (self.hundredths as u128) / 100;
        if frames <= u64::MAX as u128 {
            Some(frames as u64)
        } else {
            None
        }
    }
}

/// Whether `c` is one of the ten ASCII digits.
pub open spec fn is_digit(c: char) -> bool {
    '0' <= c <= '9'
}

/// The number that the ASCII digit `c` stands for; 0 for any other character.
pub open spec fn digit_value(c: char) -> nat {
    if is_digit(c) {
        (c as u32 - '0' as u32) as nat
    } else {
        0
    }
}

/// Whether `s` is made of ASCII digits alone.
pub open spec fn all_digits(s: Seq<char>) -> bool {
    forall|i: int| 0 <= i < s.len() ==> is_digit(#[trigger] s[i])
}

/// The number that the digits of `s` write in base ten.
pub open spec fn digits_value(s: Seq<char>) -> nat
    decreases s.len(),
{
    if s.len() == 0 {
        0
    } else {
        digits_value(s.drop_last()) * 10 + digit_value(s.last())
    }
}

/// `s` without the plus sign that may stand before its digits.
pub open spec fn unsigned_part(s: Seq<char>) -> Seq<char> {
    if s.len() > 0 && s[0] == '+' {
        s.skip(1)
    } else {
        s
    }
}

/// The number written by `s`: one or more ASCII digits, before them a plus
/// sign or nothing, and a value that fits a machine number.
pub open spec fn integer(s: Seq<char>) -> Option<nat> {
    let digits = unsigned_part(s);
    if digits.len() > 0 && all_digits(digits) && digits_value(digits) <= u64::MAX {
        Some(digits_value(digits))
    } else {
        None
    }
}

/// The number written by `s`, where `s` is exactly two ASCII digits.
pub open spec fn two_digits(s: Seq<char>) -> Option<nat> {
    if s.len() == 2 && is_digit(s[0]) && is_digit(s[1]) {
        Some(digit_value(s[0]) * 10 + digit_value(s[1]))
    } else {
        None
    }
}

/// The number in group `i`, where that group took part in the match and
/// writes one.
pub open spec fn field(groups: GroupTexts, i: int) -> Option<nat> {
    if 0 <= i < groups.len() && groups[i] is Some {
        integer(groups[i]->0)
    } else {
        None
    }
}

/// The seconds that three numbers stand for, read as hours, minutes and
/// seconds.
pub open spec fn seconds_of(hours: nat, minutes: nat, seconds: nat) -> nat {
    ((hours * 60) + minutes) * 60 + seconds
}

/// The seconds that groups 1 to 3 stand for, read as hours, minutes and
/// seconds, where each of them writes a number and the seconds fit a machine
/// number.
pub open spec fn clock_seconds(groups: GroupTexts) -> Option<nat> {
    if field(groups, 1) is Some && field(groups, 2) is Some && field(groups, 3) is Some {
        let secs = seconds_of(field(groups, 1)->0, field(groups, 2)->0, field(groups, 3)->0);
        if secs <= u64::MAX {
            Some(secs)
        } else {
            None
        }
    } else {
        None
    }
}

/// The hundredths written by `s`, where `s` is two ASCII digits, alone or
/// followed by a full stop and two more.
pub open spec fn rate_hundredths(s: Seq<char>) -> Option<nat> {
    if s.len() == 2 {
        match two_digits(s) {
            Some(w) => Some(w * 100),
            None => None,
        }
    } else if s.len() == 5 && s[2] == '.' {
        match (two_digits(s.subrange(0, 2)), two_digits(s.subrange(3, 5))) {
            (Some(w), Some(f)) => Some(w * 100 + f),
            _ => None,
        }
    } else {
        None
    }
}

/// The frame rate that group 1 stands for.
pub open spec fn frame_rate_of(groups: GroupTexts) -> Option<FrameRate> {
    if 1 < groups.len() && groups[1] is Some && rate_hundredths(groups[1]->0) is Some {
        Some(FrameRate { hundredths: rate_hundredths(groups[1]->0)->0 as u32 })
    } else {
        None
    }
}

/// The digits of a number write no less than those before any place in it.
pub proof fn lemma_digits_grow(s: Seq<char>, k: int)
    requires
        0 <= k <= s.len(),
    ensures
        digits_value(s.take(k)) <= digits_value(s),
    decreases s.len(),
{
    if k == s.len() {
        assert(s.take(k) =~= s);
    } else {
        assert(s.take(k) =~= s.drop_last().take(k));
        lemma_digits_grow(s.drop_last(), k);
    }
}

/// Two ASCII digits write a number: their tens and their ones, 99 at most.
pub proof fn lemma_two_digits(s: Seq<char>)
    requires
        two_digits(s) is Some,
    ensures
        integer(s) == two_digits(s),
        two_digits(s)->0 <= 99,
{
    let tens = s.drop_last();
    assert(tens.drop_last().len() == 0);
    assert(digits_value(tens) == digits_value(tens.drop_last()) * 10 + digit_value(tens.last()));
    assert(tens.last() == s[0]);
    assert(s.last() == s[1]);
    assert(digits_value(s) == digits_value(tens) * 10 + digit_value(s.last()));
    assert(unsigned_part(s) == s);
    assert(all_digits(s)) by {
        assert forall|i: int| 0 <= i < s.len() implies is_digit(#[trigger] s[i]) by {
            if i == 0 {
            } else {
                assert(i == 1);
            }
        }
    }
}

/// A clock of three two-digit fields shows no more than [`MAX_SECONDS`], and
/// a frame rate holds no more than [`MAX_HUNDREDTHS`].
pub proof fn lemma_metric_bounds(groups: GroupTexts)
    ensures
        groups.len() > 3 && groups[1] is Some && groups[2] is Some && groups[3] is Some
            && two_digits(groups[1]->0) is Some && two_digits(groups[2]->0) is Some && two_digits(
            groups[3]->0,
        ) is Some ==> clock_seconds(groups) is Some && clock_seconds(groups)->0 <= MAX_SECONDS,
        frame_rate_of(groups) matches Some(rate) ==> rate.hundredths <= MAX_HUNDREDTHS,
{
    if groups.len() > 3 && groups[1] is Some && groups[2] is Some && groups[3] is Some
        && two_digits(groups[1]->0) is Some && two_digits(groups[2]->0) is Some && two_digits(
        groups[3]->0,
    ) is Some {
        lemma_two_digits(groups[1]->0);
        lemma_two_digits(groups[2]->0);
        lemma_two_digits(groups[3]->0);
    }
}

/// The number that `c` stands for, where `c` is an ASCII digit.
pub fn read_digit(c: char) -> (d: Option<u64>)
    ensures
        d is Some <==> is_digit(c),
        d matches Some(v) ==> v == digit_value(c),
{
    if '0' <= c && c <= '9' {
        Some((c as u32 - '0' as u32) as u64)
    } else {
        None
    }
}

/// Reads a number of exactly two ASCII digits, as the frame rate has them
/// before and behind its full stop.
pub fn read_two_digits(s: &str) -> (n: Option<u64>)
    ensures
        n is Some <==> two_digits(s@) is Some,
        n matches Some(v) ==> v == two_digits(s@)->0 && v <= 99,
{
    if s.unicode_len() != 2 {
        return None;
    }
    match (read_digit(s.get_char(0)), read_digit(s.get_char(1))) {
        (Some(tens), Some(ones)) => Some(tens * 10 + ones),
        _ => None,
    }
}

/// A text that writes a number is made of ASCII characters alone.
pub proof fn lemma_integer_is_ascii(s: Seq<char>)
    requires
        integer(s) is Some,
    ensures
        is_ascii_chars(s),
{
    let digits = unsigned_part(s);
    assert forall|i: int| 0 <= i < s.len() implies '\0' <= #[trigger] s[i] <= '\u{7f}' by {
        if digits.len() == s.len() {
            assert(is_digit(digits[i]));
        } else if i > 0 {
            assert(digits[i - 1] == s[i]);
            assert(is_digit(digits[i - 1]));
        }
    }
}

/// Reads a number: one or more ASCII digits, before them a plus sign or
/// nothing. `None` where `s` is of another shape, or writes more than a
/// machine number holds.
pub fn read_integer(s: &str) -> (n: Option<u64>)
    ensures
        n == match integer(s@) {
            Some(v) => Some(v as u64),
            None => None,
        },
{
    if !s.is_ascii() {
        proof {
            if integer(s@) is Some {
                lemma_integer_is_ascii(s@);
            }
        }
        return None;
    }
    let len = s.unicode_len();
    let start: usize = if len > 0 && s.get_ascii(0) == 43 {
        1
    } else {
        0
    };
    let ghost digits = unsigned_part(s@);
    proof {
        if len > 0 {
            let first = s@[0];
            assert('\0' <= first <= '\u{7f}');
            assert(first == '+' <==> first as u8 == 43u8);
        }
    }
    if start == len {
        return None;
    }
    let mut value: u64 = 0;
    let mut i: usize = start;
    assert(digits.take(0).len() == 0);
    while i < len
        invariant
            start <= i <= len,
            len == s@.len(),
            is_ascii_chars(s@),
            digits == unsigned_part(s@),
            digits == s@.skip(start as int),
            digits.len() == len - start,
            value == digits_value(digits.take(i - start)),
            all_digits(digits.take(i - start)),
        decreases len - i,
    {
        let ghost seen = digits.take(i - start);
        let ghost more = digits.take(i - start + 1);
        let ghost c = s@[i as int];
        let byte = s.get_ascii(i);
        proof {
            assert('\0' <= c <= '\u{7f}');
            assert(is_digit(c) <==> 48 <= byte <= 57);
            assert(is_digit(c) ==> digit_value(c) == byte - 48);
            assert(digits[i - start] == c);
            assert(more.drop_last() =~= seen);
            assert(more.last() == c);
            assert(digits_value(more) == digits_value(seen) * 10 + digit_value(c));
            lemma_digits_grow(digits, i - start + 1);
        }
        if byte < 48 || byte > 57 {
            assert(!is_digit(digits[i - start]));
            return None;
        }
        let digit = (byte - 48) as u64;
        let tenfold = match value.checked_mul(10) {
            Some(tenfold) => tenfold,
            None => return None,
        };
        value = match tenfold.checked_add(digit) {
            Some(sum) => sum,
            None => return None,
        };
        i += 1;
        proof {
            assert forall|j: int| 0 <= j < more.len() implies is_digit(#[trigger] more[j]) by {
                if j < seen.len() {
                    assert(more[j] == seen[j]);
                }
            }
        }
    }
    assert(digits.take(len - start) =~= digits);
    Some(value)
}

/// Reads group `i` as a number.
pub fn read_field(groups: &Groups, i: usize) -> (n: Option<u64>)
    ensures
        n == match field(groups.deep_view(), i as int) {
            Some(v) => Some(v as u64),
            None => None,
        },
{
    if i < groups.len() {
        match &groups[i] {
            Some(text) => read_integer(text.as_str()),
            None => None,
        }
    } else {
        None
    }
}

/// Reads groups 1 to 3 as hours, minutes and seconds, and gives the seconds
/// they add up to: `((hours * 60) + minutes) * 60 + seconds`. `None` where one
/// of the three is missing or writes no number, or where the seconds are more
/// than a machine number holds.
pub fn time_to_secs(groups: &Groups) -> (secs: Option<u64>)
    ensures
        secs == match clock_seconds(groups.deep_view()) {
            Some(v) => Some(v as u64),
            None => None,
        },
{
    let (hours, minutes, seconds) = match (
        read_field(groups, 1),
        read_field(groups, 2),
        read_field(groups, 3),
    ) {
        (Some(hours), Some(minutes), Some(seconds)) => (hours, minutes, seconds),
        _ => return None,
    };
    assert(seconds_of(hours as nat, minutes as nat, seconds as nat) >= (hours * 60 + minutes) * 60
        >= hours * 60 + minutes >= hours * 60) by (nonlinear_arith);
    let in_minutes = match hours.checked_mul(60) {
        Some(product) => match product.checked_add(minutes) {
            Some(sum) => sum,
            None => return None,
        },
        None => return None,
    };
    match in_minutes.checked_mul(60) {
        Some(product) => product.checked_add(seconds),
        None => None,
    }
}

/// Reads a frame rate of two ASCII digits, alone or followed by a full stop
/// and two more.
pub fn read_rate(s: &str) -> (n: Option<u32>)
    ensures
        n is Some <==> rate_hundredths(s@) is Some,
        n matches Some(v) ==> v == rate_hundredths(s@)->0 && v <= MAX_HUNDREDTHS,
{
    let len = s.unicode_len();
    if len == 2 {
        match read_two_digits(s) {
            Some(w) => Some((w * 100) as u32),
            None => None,
        }
    } else if len == 5 && s.get_char(2) == '.' {
        let whole = (read_digit(s.get_char(0)), read_digit(s.get_char(1)));
        let part = (read_digit(s.get_char(3)), read_digit(s.get_char(4)));
        match (whole, part) {
            ((Some(a), Some(b)), (Some(c), Some(d))) => Some(((a * 10 + b) * 100 + c * 10 + d) as u32),
            _ => None,
        }
    } else {
        None
    }
}

/// Reads group 1 as the frame rate. `None` where the group is missing or is
/// not of the shape that [`rate_hundredths`] takes.
pub fn read_frame_rate(groups: &Groups) -> (rate: Option<FrameRate>)
    ensures
        rate == frame_rate_of(groups.deep_view()),
        rate matches Some(r) ==> r.hundredths <= MAX_HUNDREDTHS,
{
    if 1 < groups.len() {
        match &groups[1] {
            Some(text) => match read_rate(text.as_str()) {
                Some(hundredths) => Some(FrameRate { hundredths }),
                None => None,
            },
            None => None,
        }
    } else {
        None
    }
}

} // verus!
