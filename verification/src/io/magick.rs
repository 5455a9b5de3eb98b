use vstd::prelude::*;

use super::str_chars;
use crate::hash::{hex_char, hex_digit};

verus! {

/// Magick I/O errors
#[derive(Debug, Clone, Copy, PartialEq, Eq, Structural)]
pub enum Error {
    /// The shape reported by `identify` cannot be read
    InvalidImageShape,
    /// The color cannot be handled
    InvalidColor,
    /// The file does not exist
    FileDoesNotExist,
    /// The decoded data does not match the image shape
    InvalidImageData,
    /// The command cannot be run
    UnableToExecuteCommand,
    /// The image cannot be sent to the command
    ErrorWritingImage,
}

/// Magick command struct: the command lines that identify and convert images
pub struct Magick {
    /// Command that prints an image's shape
    pub identify: &'static [&'static str],
    /// Command that converts between image formats
    pub convert: &'static [&'static str],
}

/// `char::is_whitespace`: the characters with Unicode's `White_Space` property
pub open spec fn is_white_space(c: char) -> bool {
    let u = c as u32;
    (0x09 <= u <= 0x0d) || u == 0x20 || u == 0x85 || u == 0xa0 || u == 0x1680 || (0x2000 <= u
        <= 0x200a) || u == 0x2028 || u == 0x2029 || u == 0x202f || u == 0x205f || u == 0x3000
}

/// `s` without its leading and trailing white space, as `str::trim` gives it
pub open spec fn trim(s: Seq<char>) -> Seq<char>
    decreases s.len(),
{
    if s.len() > 0 && is_white_space(s[0]) {
        trim(s.drop_first())
    } else if s.len() > 0 && is_white_space(s.last()) {
        trim(s.drop_last())
    } else {
        s
    }
}

/// True when every character of `s` is an ASCII digit
pub open spec fn all_digits(s: Seq<char>) -> bool {
    forall|i: int| 0 <= i < s.len() ==> '0' <= #[trigger] s[i] <= '9'
}

/// Value of a string of ASCII digits
pub open spec fn digits_value(s: Seq<char>) -> nat
    decreases s.len(),
{
    if s.len() == 0 {
        0
    } else {
        digits_value(s.drop_last()) * 10 + (s.last() as nat - '0' as nat) as nat
    }
}

/// What `str::parse::<usize>` gives for `s`: an optional `+` followed by at least one ASCII
/// digit, whose value fits a `usize`
pub open spec fn parse_usize(s: Seq<char>) -> Option<usize> {
    let d = if s.len() > 0 && s[0] == '+' {
        s.drop_first()
    } else {
        s
    };
    if d.len() > 0 && all_digits(d) && digits_value(d) <= usize::MAX {
        Some(digits_value(d) as usize)
    } else {
        None
    }
}

/// Index of the first space in `s`, if there is one
pub open spec fn first_space(s: Seq<char>) -> Option<int>
    decreases s.len(),
{
    if s.len() == 0 {
        None
    } else if s[0] == ' ' {
        Some(0)
    } else {
        match first_space(s.drop_first()) {
            Some(i) => Some(i + 1),
            None => None,
        }
    }
}

/// The piece of `s` before its first space, or all of `s`
pub open spec fn first_piece(s: Seq<char>) -> Seq<char> {
    match first_space(s) {
        Some(i) => s.subrange(0, i),
        None => s,
    }
}

/// The image shape printed by `identify -format "%w %h"`: the output is split at spaces, there
/// must be at least two pieces, and the first two, trimmed, must parse as `usize` values
pub open spec fn shape_of_output(s: Seq<char>) -> Option<(usize, usize)> {
    match first_space(s) {
        None => None,
        Some(i) => {
            let rest = s.subrange(i + 1, s.len() as int);
            match (parse_usize(trim(s.subrange(0, i))), parse_usize(trim(first_piece(rest)))) {
                (Some(w), Some(h)) => Some((w, h)),
                _ => None,
            }
        },
    }
}

proof fn lemma_first_space(s: Seq<char>)
    ensures
        first_space(s) matches Some(i) ==> 0 <= i < s.len() && s[i] == ' ' && forall|k: int|
            0 <= k < i ==> s[k] != ' ',
        first_space(s) is None ==> forall|k: int| 0 <= k < s.len() ==> s[k] != ' ',
    decreases s.len(),
{
    if s.len() > 0 && s[0] != ' ' {
        lemma_first_space(s.drop_first());
        assert forall|k: int| 0 < k < s.len() implies s[k] == s.drop_first()[k - 1] by {}
    }
}

/// Index of the first space of `s` at or after `from`
fn find_space(s: &Vec<char>, from: usize) -> (r: Option<usize>)
    requires
        from <= s@.len(),
    ensures
        first_space(s@.subrange(from as int, s@.len() as int)) matches Some(i) ==> r == Some(
            (from + i) as usize,
        ),
        first_space(s@.subrange(from as int, s@.len() as int)) is None ==> r is None,
{
    let n = s.len();
    let mut i = from;
    proof {
        lemma_first_space(s@.subrange(from as int, n as int));
    }
    while i < n
        invariant
            n == s@.len(),
            from <= i <= n,
            forall|k: int| from <= k < i ==> s@[k] != ' ',
        decreases n - i,
    {
        if s[i] == ' ' {
            let ghost t = s@.subrange(from as int, n as int);
            proof {
                lemma_first_space(t);
                match first_space(t) {
                    Some(j) => {
                        if j < i - from {
                            assert(t[j] == s@[from + j]);
                        } else if j > i - from {
                            assert(t[i - from] == s@[i as int]);
                        }
                    },
                    None => {
                        assert(t[i - from] == s@[i as int]);
                    },
                }
            }
            return Some(i);
        }
        i = i + 1;
    }
    proof {
        let t = s@.subrange(from as int, n as int);
        lemma_first_space(t);
        if let Some(j) = first_space(t) {
            assert(t[j] == s@[from + j]);
        }
    }
    None
}

/// `str::trim` on the characters `s[from..to]`: the bounds of the trimmed piece
fn trim_bounds(s: &Vec<char>, from: usize, to: usize) -> (r: (usize, usize))
    requires
        from <= to <= s@.len(),
    ensures
        r.0 <= r.1 <= s@.len(),
        s@.subrange(r.0 as int, r.1 as int) == trim(s@.subrange(from as int, to as int)),
    decreases to - from,
{
    let ghost t = s@.subrange(from as int, to as int);
    if from < to && is_space(s[from]) {
        assert(t.drop_first() =~= s@.subrange(from + 1, to as int));
        trim_bounds(s, from + 1, to)
    } else if from < to && is_space(s[to - 1]) {
        assert(t.drop_last() =~= s@.subrange(from as int, to - 1));
        trim_bounds(s, from, to - 1)
    } else {
        (from, to)
    }
}

/// `char::is_whitespace`
fn is_space(c: char) -> (r: bool)
    ensures
        r == is_white_space(c),
{
    let u = c as u32;
    (0x09 <= u && u <= 0x0d) || u == 0x20 || u == 0x85 || u == 0xa0 || u == 0x1680 || (0x2000 <= u
        && u <= 0x200a) || u == 0x2028 || u == 0x2029 || u == 0x202f || u == 0x205f || u == 0x3000
}

proof fn lemma_digits_value_push(s: Seq<char>, c: char)
    ensures
        digits_value(s.push(c)) == digits_value(s) * 10 + (c as nat - '0' as nat) as nat,
{
    assert(s.push(c).drop_last() =~= s);
}

/// `str::parse::<usize>` on the characters `s[from..to]`
fn parse_range(s: &Vec<char>, from: usize, to: usize) -> (r: Option<usize>)
    requires
        from <= to <= s@.len(),
    ensures
        r == parse_usize(s@.subrange(from as int, to as int)),
{
    let ghost t = s@.subrange(from as int, to as int);
    let mut start = from;
    if from < to && s[from] == '+' {
        start = from + 1;
    }
    let ghost d = s@.subrange(start as int, to as int);
    assert(d =~= if t.len() > 0 && t[0] == '+' {
        t.drop_first()
    } else {
        t
    });
    if start == to {
        return None;
    }
    let mut value: usize = 0;
    let mut i = start;
    while i < to
        invariant
            start <= i <= to <= s@.len(),
            start < to,
            d == s@.subrange(start as int, to as int),
            parse_usize(s@.subrange(from as int, to as int)) == if d.len() > 0 && all_digits(d)
                && digits_value(d) <= usize::MAX {
                Some(digits_value(d) as usize)
            } else {
                None
            },
            all_digits(s@.subrange(start as int, i as int)),
            value == digits_value(s@.subrange(start as int, i as int)),
        decreases to - i,
    {
        let c = s[i];
        proof {
            assert(s@.subrange(start as int, i + 1) =~= s@.subrange(start as int, i as int).push(
                c,
            ));
            lemma_digits_value_push(s@.subrange(start as int, i as int), c);
        }
        if c < '0' || c > '9' {
            proof {
                assert(d[i - start] == c);
                assert(!all_digits(d));
            }
            return None;
        }
        let digit = (c as u32 - '0' as u32) as usize;
        if value > (usize::MAX - digit) / 10 {
            proof {
                lemma_digits_grow(s@, start as int, i + 1, to as int);
                assert(value * 10 + digit > usize::MAX) by (nonlinear_arith)
                    requires
                        value > (usize::MAX - digit) / 10,
                        0 <= digit <= 9,
                ;
                assert(digits_value(s@.subrange(start as int, i + 1)) == value * 10 + digit);
                if all_digits(d) {
                    assert(digits_value(d) > usize::MAX);
                }
            }
            return None;
        }
        proof {
            assert(value * 10 + digit <= usize::MAX) by (nonlinear_arith)
                requires
                    value <= (usize::MAX - digit) / 10,
                    0 <= digit <= 9,
            ;
        }
        value = value * 10 + digit;
        i = i + 1;
    }
    assert(s@.subrange(start as int, i as int) == d);
    Some(value)
}

/// Extending a run of digits never makes its value smaller
proof fn lemma_digits_grow(s: Seq<char>, start: int, i: int, to: int)
    requires
        0 <= start <= i <= to <= s.len(),
    ensures
        all_digits(s.subrange(start, to)) ==> digits_value(s.subrange(start, i)) <= digits_value(
            s.subrange(start, to),
        ),
    decreases to - i,
{
    if i < to {
        lemma_digits_grow(s, start, i + 1, to);
        if all_digits(s.subrange(start, to)) {
            assert(s.subrange(start, i + 1) =~= s.subrange(start, i).push(s[i]));
            lemma_digits_value_push(s.subrange(start, i), s[i]);
            assert(s.subrange(start, to)[i - start] == s[i]);
        }
    }
}

/// Read the image shape from the output of `identify -format "%w %h"`
pub fn parse_shape(output: &str) -> (r: Result<(usize, usize), Error>)
    ensures
        shape_of_output(output@) matches Some(wh) ==> r == Ok::<(usize, usize), Error>(wh),
        shape_of_output(output@) is None ==> r == Err::<(usize, usize), Error>(
            Error::InvalidImageShape,
        ),
{
    let s = str_chars(output);
    let n = s.len();
    assert(s@.subrange(0, n as int) =~= s@);
    let sp = match find_space(&s, 0) {
        Some(i) => i,
        None => {
            return Err(Error::InvalidImageShape);
        },
    };
    proof {
        lemma_first_space(s@.subrange(0, n as int));
    }
    let end = match find_space(&s, sp + 1) {
        Some(j) => j,
        None => n,
    };
    proof {
        let rest = s@.subrange(sp + 1, n as int);
        lemma_first_space(rest);
        match first_space(rest) {
            Some(j) => {
                assert(first_piece(rest) =~= s@.subrange(sp + 1, end as int));
            },
            None => {
                assert(first_piece(rest) =~= s@.subrange(sp + 1, end as int));
            },
        }
    }
    let (a0, a1) = trim_bounds(&s, 0, sp);
    let (b0, b1) = trim_bounds(&s, sp + 1, end);
    let w = parse_range(&s, a0, a1);
    let h = parse_range(&s, b0, b1);
    match (w, h) {
        (Some(w), Some(h)) => Ok((w, h)),
        _ => Err(Error::InvalidImageShape),
    }
}

/// Check that a decoded buffer of `len` bytes holds exactly `width * height * channels` values
/// of `type_size` bytes
pub fn check_data_len(len: usize, type_size: usize, width: usize, height: usize, channels: usize) -> (r:
    Result<(), Error>)
    ensures
        r is Ok <==> len == type_size * width * height * channels,
        r matches Err(e) ==> e == Error::InvalidImageData,
{
    let ghost p = type_size * width * height * channels;
    if type_size == 0 || width == 0 || height == 0 || channels == 0 {
        assert(p == 0) by (nonlinear_arith)
            requires
                p == type_size * width * height * channels,
                type_size == 0 || width == 0 || height == 0 || channels == 0,
        ;
        if len == 0 {
            return Ok(());
        } else {
            return Err(Error::InvalidImageData);
        }
    }
    proof {
        let t = type_size as int;
        let w = width as int;
        let h = height as int;
        let ch = channels as int;
        assert(t * w <= t * w * h && t * w * h <= t * w * h * ch) by (nonlinear_arith)
            requires
                1 <= t,
                1 <= w,
                1 <= h,
                1 <= ch,
        ;
    }
    let a = match type_size.checked_mul(width) {
        Some(a) => a,
        None => {
            return Err(Error::InvalidImageData);
        },
    };
    let b = match a.checked_mul(height) {
        Some(b) => b,
        None => {
            return Err(Error::InvalidImageData);
        },
    };
    let c = match b.checked_mul(channels) {
        Some(c) => c,
        None => {
            return Err(Error::InvalidImageData);
        },
    };
    if len == c {
        Ok(())
    } else {
        Err(Error::InvalidImageData)
    }
}

/// The `convert` format argument for raw values of the named color: the name followed by `:-`
pub fn kind(name: &str) -> (r: String)
    ensures
        r@ == name@ + ":-"@,
{
    let mut r = String::from_str(name);
    r.append(":-");
    r
}

/// Decimal spelling of `n`, without leading zeros
pub open spec fn decimal(n: nat) -> Seq<char>
    decreases n,
{
    if n < 10 {
        seq![hex_digit(n as u8)]
    } else {
        decimal(n / 10).push(hex_digit((n % 10) as u8))
    }
}

/// Decimal spelling of `n`, as `format!("{}", n)` writes it
pub fn decimal_string(n: usize) -> (r: String)
    ensures
        r@ == decimal(n as nat),
    decreases n,
{
    if n < 10 {
        String::from_str(hex_char(n as u8))
    } else {
        let mut s = decimal_string(n / 10);
        s.append(hex_char((n % 10) as u8));
        s
    }
}

/// The arguments that set the sample depth of raw values: `-depth` and the number of bits,
/// followed, for floating-point values, by the define that makes samples floating point
pub fn depth_args(bits: usize, float: bool) -> (r: Vec<String>)
    ensures
        r@.len() == if float { 4int } else { 2int },
        r@[0]@ == "-depth"@,
        r@[1]@ == decimal(bits as nat),
        float ==> r@[2]@ == "-define"@ && r@[3]@ == "quantum:format=floating-point"@,
{
    let mut r: Vec<String> = Vec::new();
    r.push(String::from_str("-depth"));
    r.push(decimal_string(bits));
    if float {
        r.push(String::from_str("-define"));
        r.push(String::from_str("quantum:format=floating-point"));
    }
    r
}

/// The arguments that give the size of raw input: `-size` and `{width}x{height}`
pub fn size_args(width: usize, height: usize) -> (r: Vec<String>)
    ensures
        r@.len() == 2,
        r@[0]@ == "-size"@,
        r@[1]@ == decimal(width as nat) + "x"@ + decimal(height as nat),
{
    let mut size = decimal_string(width);
    size.append("x");
    let h = decimal_string(height);
    size.append(h.as_str());
    let mut r: Vec<String> = Vec::new();
    r.push(String::from_str("-size"));
    r.push(size);
    r
}

/// `decimal(n)` is the base-10 spelling of `n`: it is made of ASCII digits only, it has no
/// leading zero (but for `0` itself), the value of its digits is `n`, and parsing it back as
/// `str::parse::<usize>` does gives `n`
pub proof fn law_decimal_spelling(n: usize)
    ensures
        decimal(n as nat).len() > 0,
        all_digits(decimal(n as nat)),
        digits_value(decimal(n as nat)) == n,
        n > 0 ==> decimal(n as nat)[0] != '0',
        n == 0 ==> decimal(n as nat) == seq!['0'],
        parse_usize(decimal(n as nat)) == Some(n),
{
    lemma_decimal(n as nat);
    assert(decimal(n as nat)[0] != '+');
}

proof fn lemma_decimal_digit(v: nat)
    requires
        v < 10,
    ensures
        '0' <= hex_digit(v as u8) <= '9',
        (hex_digit(v as u8) as nat - '0' as nat) as nat == v,
{
}

proof fn lemma_decimal(n: nat)
    ensures
        decimal(n).len() > 0,
        all_digits(decimal(n)),
        digits_value(decimal(n)) == n,
        n > 0 ==> decimal(n)[0] != '0',
        n == 0 ==> decimal(n) == seq!['0'],
    decreases n,
{
    if n < 10 {
        lemma_decimal_digit(n);
        let d = seq![hex_digit(n as u8)];
        assert(d.drop_last() =~= Seq::<char>::empty());
        assert(digits_value(d) == digits_value(d.drop_last()) * 10 + (d.last() as nat
            - '0' as nat) as nat);
        if n == 0 {
            assert(hex_digit(0u8) == '0');
        } else {
            assert(hex_digit(n as u8) != '0');
        }
    } else {
        lemma_decimal(n / 10);
        lemma_decimal_digit(n % 10);
        let prefix = decimal(n / 10);
        let c = hex_digit((n % 10) as u8);
        lemma_digits_value_push(prefix, c);
        assert(decimal(n) == prefix.push(c));
        assert(n == (n / 10) * 10 + n % 10);
        assert forall|i: int| 0 <= i < decimal(n).len() implies '0' <= #[trigger] decimal(n)[i]
            <= '9' by {
            if i < prefix.len() {
                assert(decimal(n)[i] == prefix[i]);
            }
        }
        assert(decimal(n)[0] == prefix[0]);
    }
}

} // verus!
