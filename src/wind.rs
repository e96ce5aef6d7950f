use vstd::prelude::*;

use crate::text::{chars_of, digit_char, digit_value, is_digit, is_word_char, word_char};

verus! {

/// The forecast wind at one station and one altitude.
#[derive(Clone, Copy, Debug, PartialEq, Eq, Structural)]
pub struct Wind {
    /// True direction the wind blows from, in degrees.
    pub direction: u32,
    /// Speed in knots.
    pub speed: u32,
    /// Altitude in feet.
    pub altitude: u32,
}

impl Wind {
    pub fn new(direction: u32, speed: u32, altitude: u32) -> (r: Wind)
        ensures
            r == (Wind { direction, speed, altitude }),
    {
        Wind { direction, speed, altitude }
    }
}

/// What `u32::from_str` gives for the two-character text `a b`: two decimal digits,
/// or a `+` sign followed by one digit; anything else is refused.
pub open spec fn field_value(a: char, b: char) -> Option<u32> {
    if is_digit(a) && is_digit(b) {
        Some((10 * digit_value(a) + digit_value(b)) as u32)
    } else if a == '+' && is_digit(b) {
        Some(digit_value(b))
    } else {
        None
    }
}

pub open spec fn has_word_char(t: Seq<char>) -> bool {
    exists|i: int| 0 <= i < t.len() && is_word_char(#[trigger] t[i])
}

/// The wind that the token `t` encodes at `altitude`: the token holds a word character,
/// its first two characters give the direction in tens of degrees and the next two
/// the speed in knots; whatever follows (a temperature) is not read.
pub open spec fn wind_of(t: Seq<char>, altitude: u32) -> Option<Wind> {
    if t.len() >= 4 && has_word_char(t) {
        match (field_value(t[0], t[1]), field_value(t[2], t[3])) {
            (Some(d), Some(s)) => Some(Wind { direction: (d * 10) as u32, speed: s, altitude }),
            _ => None,
        }
    } else {
        None
    }
}

fn field_at(cs: &Vec<char>, i: usize) -> (r: Option<u32>)
    requires
        i + 1 < cs@.len(),
    ensures
        r == field_value(cs@[i as int], cs@[i + 1]),
        r matches Some(v) ==> v <= 99,
{
    let n = cs.len();
    assert(i + 1 < n);
    let low = match digit_char(cs[i + 1]) {
        Some(d) => d,
        None => return None,
    };
    match digit_char(cs[i]) {
        Some(high) => Some(10 * high + low),
        None => {
            if cs[i] == '+' {
                Some(low)
            } else {
                None
            }
        },
    }
}

/// The wind encoded by the characters `cs[lo..hi]`, at `altitude`.
pub(crate) fn wind_in(cs: &Vec<char>, lo: usize, hi: usize, altitude: u32) -> (r: Option<Wind>)
    requires
        lo <= hi <= cs@.len(),
    ensures
        r == wind_of(cs@.subrange(lo as int, hi as int), altitude),
{
    let ghost t = cs@.subrange(lo as int, hi as int);
    if hi - lo < 4 {
        return None;
    }
    let mut found = false;
    let mut i: usize = lo;
    while i < hi
        invariant
            lo <= i <= hi <= cs@.len(),
            t == cs@.subrange(lo as int, hi as int),
            found == exists|j: int| 0 <= j < i - lo && is_word_char(#[trigger] t[j]),
        decreases hi - i,
    {
        if word_char(cs[i]) {
            found = true;
            assert(t[i - lo] == cs@[i as int]);
        }
        proof {
            if !found {
                assert forall|j: int| 0 <= j < i + 1 - lo implies !is_word_char(#[trigger] t[j]) by {
                    if j == i - lo {
                        assert(t[j] == cs@[i as int]);
                    }
                }
            }
        }
        i = i + 1;
    }
    if !found {
        return None;
    }
    assert(t[0] == cs@[lo as int] && t[1] == cs@[lo + 1] && t[2] == cs@[lo + 2] && t[3] == cs@[lo + 3]);
    let direction = match field_at(cs, lo) {
        Some(d) => d * 10,
        None => return None,
    };
    let speed = match field_at(cs, lo + 2) {
        Some(s) => s,
        None => return None,
    };
    Some(Wind::new(direction, speed, altitude))
}

/// Reads one wind token of the bulletin (`"ddff"`, possibly followed by a temperature
/// such as `"-32"`) as the wind at `altitude`. A token shorter than four characters, or
/// one whose direction or speed is not a number, gives `None`.
pub fn parse_wind(wind: &str, altitude: u32) -> (r: Option<Wind>)
    ensures
        r == wind_of(wind@, altitude),
        wind@.len() < 4 ==> r is None,
{
    let cs = chars_of(wind);
    let r = wind_in(&cs, 0, cs.len(), altitude);
    assert(cs@.subrange(0, cs@.len() as int) == wind@);
    r
}

} // verus!
