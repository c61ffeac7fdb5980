//! What a line of input selects: the line is read as a number, and the number
//! is looked up among the versions on offer.

use vstd::prelude::*;
use crate::error::SwitchError;
use crate::text::{chars_of, code_point, names, str_eq};

verus! {

broadcast use vstd::string::group_string_axioms;

/// The name that stands for "no managed version": what entry 0 selects.
pub open spec fn system_name() -> Seq<char> {
    seq!['s', 'y', 's', 't', 'e', 'm']
}

/// White space, as Unicode defines it: what may surround the number.
pub open spec fn is_space(c: char) -> bool {
    let n = code_point(c);
    ||| 0x09 <= n <= 0x0D
    ||| n == 0x20
    ||| n == 0x85
    ||| n == 0xA0
    ||| n == 0x1680
    ||| 0x2000 <= n <= 0x200A
    ||| n == 0x2028
    ||| n == 0x2029
    ||| n == 0x202F
    ||| n == 0x205F
    ||| n == 0x3000
}

/// `s` without the white space at its start.
pub open spec fn trim_start(s: Seq<char>) -> Seq<char>
    decreases s.len(),
{
    if s.len() > 0 && is_space(s[0]) {
        trim_start(s.drop_first())
    } else {
        s
    }
}

/// `s` without the white space at its end.
pub open spec fn trim_end(s: Seq<char>) -> Seq<char>
    decreases s.len(),
{
    if s.len() > 0 && is_space(s.last()) {
        trim_end(s.drop_last())
    } else {
        s
    }
}

/// `s` without the white space at either end.
pub open spec fn trimmed(s: Seq<char>) -> Seq<char> {
    trim_end(trim_start(s))
}

/// Whether `c` is one of the ten ASCII digits.
pub open spec fn is_digit(c: char) -> bool {
    0x30 <= code_point(c) <= 0x39
}

/// The value of a digit; 0 for any other character.
pub open spec fn digit_value(c: char) -> nat {
    if is_digit(c) {
        (code_point(c) - 0x30) as nat
    } else {
        0
    }
}

/// Whether `d` holds digits only.
pub open spec fn all_digits(d: Seq<char>) -> bool {
    forall|i: int| 0 <= i < d.len() ==> is_digit(#[trigger] d[i])
}

/// The number that the digits `d` write in base ten.
pub open spec fn digits_value(d: Seq<char>) -> nat
    decreases d.len(),
{
    if d.len() == 0 {
        0
    } else {
        digits_value(d.drop_last()) * 10 + digit_value(d.last())
    }
}

/// `t` without a plus sign in front, if it has one.
pub open spec fn unsigned_part(t: Seq<char>) -> Seq<char> {
    if t.len() > 0 && t[0] == '+' {
        t.drop_first()
    } else {
        t
    }
}

/// The number that a line of input writes, if it writes one: white space at
/// both ends is ignored, a plus sign may come first, and what is left must be
/// one or more digits. Leading zeros are allowed; a minus sign is not.
pub open spec fn parsed_index(line: Seq<char>) -> Option<nat> {
    let d = unsigned_part(trimmed(line));
    if d.len() > 0 && all_digits(d) {
        Some(digits_value(d))
    } else {
        None
    }
}

/// What reading a line as an index gives: the number it writes, or
/// `InvalidInput` where it writes none or one too large for the machine.
pub open spec fn index_of_line(line: Seq<char>) -> Result<usize, SwitchError> {
    match parsed_index(line) {
        Some(v) => if v <= usize::MAX {
            Ok(v as usize)
        } else {
            Err(SwitchError::InvalidInput)
        },
        None => Err(SwitchError::InvalidInput),
    }
}

/// What an index selects among `versions`: 0 the system's own version, `i`
/// the `i`-th version, and anything past the last version nothing.
pub open spec fn selection(versions: Seq<Seq<char>>, index: nat) -> Result<
    Seq<char>,
    SwitchError,
> {
    if index > versions.len() {
        Err(SwitchError::IndexOutOfRange)
    } else if index == 0 {
        Ok(system_name())
    } else {
        Ok(versions[index - 1])
    }
}

/// What a line of input selects among `versions`; `None` stands for input
/// that ended before a line was read.
pub open spec fn resolved(versions: Seq<Seq<char>>, input: Option<Seq<char>>) -> Result<
    Seq<char>,
    SwitchError,
> {
    match input {
        None => Err(SwitchError::InputClosed),
        Some(line) => match index_of_line(line) {
            Ok(index) => selection(versions, index as nat),
            Err(e) => Err(e),
        },
    }
}

/// The line that was read, as its characters; `None` where none was read.
pub open spec fn line_of(input: Option<&str>) -> Option<Seq<char>> {
    match input {
        Some(line) => Some(line@),
        None => None,
    }
}

/// A name or an error, the name as its characters.
pub open spec fn name_of(r: Result<String, SwitchError>) -> Result<Seq<char>, SwitchError> {
    match r {
        Ok(s) => Ok(s@),
        Err(e) => Err(e),
    }
}

/// A prefix of a number's digits writes a number that is no larger.
pub proof fn lemma_digits_value_prefix(d: Seq<char>, k: int)
    requires
        0 <= k <= d.len(),
    ensures
        digits_value(d.take(k)) <= digits_value(d),
    decreases d.len(),
{
    if k == d.len() {
        assert(d.take(k) =~= d);
    } else {
        assert(d.take(k) =~= d.drop_last().take(k));
        lemma_digits_value_prefix(d.drop_last(), k);
    }
}

fn is_space_char(c: char) -> (r: bool)
    ensures
        r == is_space(c),
{
    let n: u32 = c as u32;
    (0x09 <= n && n <= 0x0D) || n == 0x20 || n == 0x85 || n == 0xA0 || n == 0x1680 || (0x2000 <= n
        && n <= 0x200A) || n == 0x2028 || n == 0x2029 || n == 0x202F || n == 0x205F || n == 0x3000
}

fn digit_of(c: char) -> (r: Option<usize>)
    ensures
        r == if is_digit(c) {
            Some(digit_value(c) as usize)
        } else {
            None
        },
{
    let n: u32 = c as u32;
    if 0x30 <= n && n <= 0x39 {
        Some((n - 0x30) as usize)
    } else {
        None
    }
}

/// The name that stands for "no managed version".
pub fn system_version() -> (s: String)
    ensures
        s@ == system_name(),
{
    proof {
        reveal_strlit("system");
    }
    let s = String::from_str("system");
    assert(s@ =~= system_name());
    s
}

/// Whether `name` is the name that stands for "no managed version".
pub fn is_system(name: &str) -> (r: bool)
    ensures
        r == (name@ == system_name()),
{
    let s = system_version();
    str_eq(name, s.as_str())
}

/// Reads a line of input as an index into the menu.
pub fn parse_index(line: &str) -> (r: Result<usize, SwitchError>)
    ensures
        r == index_of_line(line@),
{
    let chars = chars_of(line);
    let n = chars.len();
    let mut start: usize = 0;
    assert(chars@.skip(0) =~= chars@);
    while start < n && is_space_char(chars[start])
        invariant
            start <= n,
            n == chars@.len(),
            trim_start(chars@) == trim_start(chars@.skip(start as int)),
        decreases n - start,
    {
        assert(chars@.skip(start as int).drop_first() =~= chars@.skip(start + 1));
        start += 1;
    }
    assert(trim_start(chars@) == chars@.skip(start as int));
    let mut end: usize = n;
    assert(chars@.skip(start as int) =~= chars@.subrange(start as int, end as int));
    while end > start && is_space_char(chars[end - 1])
        invariant
            start <= end <= n,
            n == chars@.len(),
            trimmed(chars@) == trim_end(chars@.subrange(start as int, end as int)),
        decreases end,
    {
        assert(chars@.subrange(start as int, end as int).drop_last() =~= chars@.subrange(
            start as int,
            end - 1,
        ));
        end -= 1;
    }
    assert(trimmed(chars@) == chars@.subrange(start as int, end as int));
    let mut pos: usize = start;
    if pos < end && chars[pos] == '+' {
        assert(chars@.subrange(start as int, end as int).drop_first() =~= chars@.subrange(
            start + 1,
            end as int,
        ));
        pos += 1;
    }
    let ghost d = chars@.subrange(pos as int, end as int);
    assert(d == unsigned_part(trimmed(chars@)));
    if pos == end {
        return Err(SwitchError::InvalidInput);
    }
    let mut value: usize = 0;
    let mut k: usize = pos;
    assert(d.take(0) =~= Seq::<char>::empty());
    while k < end
        invariant
            pos <= k <= end <= n,
            n == chars@.len(),
            chars@ == line@,
            d == chars@.subrange(pos as int, end as int),
            d == unsigned_part(trimmed(line@)),
            forall|j: int| 0 <= j < k - pos ==> is_digit(#[trigger] d[j]),
            value == digits_value(d.take(k - pos)),
        decreases end - k,
    {
        let ghost next = d.take(k - pos + 1);
        proof {
            assert(next.drop_last() =~= d.take(k - pos));
            assert(next.last() == d[k - pos]);
            assert(d[k - pos] == chars@[k as int]);
        }
        match digit_of(chars[k]) {
            None => {
                assert(!is_digit(d[k - pos]));
                return Err(SwitchError::InvalidInput);
            },
            Some(digit) => {
                let grown = match value.checked_mul(10) {
                    Some(tens) => tens.checked_add(digit),
                    None => None,
                };
                match grown {
                    None => {
                        proof {
                            assert(digits_value(next) > usize::MAX);
                            lemma_digits_value_prefix(d, k - pos + 1);
                        }
                        return Err(SwitchError::InvalidInput);
                    },
                    Some(v) => {
                        value = v;
                    },
                }
            },
        }
        k += 1;
    }
    assert(d.take(d.len() as int) =~= d);
    Ok(value)
}

/// Looks an index up among `versions`.
pub fn version_at(versions: &Vec<String>, index: usize) -> (r: Result<String, SwitchError>)
    ensures
        name_of(r) == selection(names(versions@), index as nat),
{
    if index > versions.len() {
        Err(SwitchError::IndexOutOfRange)
    } else if index == 0 {
        Ok(system_version())
    } else {
        Ok(versions[index - 1].clone())
    }
}

/// Resolves the operator's answer to the menu: `input` is the line that was
/// read, or `None` where the input ended first. One answer is read and
/// judged; nothing is asked again.
pub fn resolve_selection(versions: &Vec<String>, input: Option<&str>) -> (r: Result<
    String,
    SwitchError,
>)
    ensures
        name_of(r) == resolved(names(versions@), line_of(input)),
{
    match input {
        None => Err(SwitchError::InputClosed),
        Some(line) => match parse_index(line) {
            Ok(index) => version_at(versions, index),
            Err(e) => Err(e),
        },
    }
}

} // verus!
