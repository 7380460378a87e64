use vstd::prelude::*;
use vstd::string::StrSliceExecFns;
use vstd::string::StringExecFns;

verus! {

/// The upper-case character for one digit value below 16.
pub open spec fn spec_digit_char(d: int) -> char {
    if d == 0 {
        '0'
    } else if d == 1 {
        '1'
    } else if d == 2 {
        '2'
    } else if d == 3 {
        '3'
    } else if d == 4 {
        '4'
    } else if d == 5 {
        '5'
    } else if d == 6 {
        '6'
    } else if d == 7 {
        '7'
    } else if d == 8 {
        '8'
    } else if d == 9 {
        '9'
    } else if d == 10 {
        'A'
    } else if d == 11 {
        'B'
    } else if d == 12 {
        'C'
    } else if d == 13 {
        'D'
    } else if d == 14 {
        'E'
    } else {
        'F'
    }
}

/// The lower-case character for one digit value below 16.
pub open spec fn spec_digit_char_lower(d: int) -> char {
    if d < 10 {
        spec_digit_char(d)
    } else if d == 10 {
        'a'
    } else if d == 11 {
        'b'
    } else if d == 12 {
        'c'
    } else if d == 13 {
        'd'
    } else if d == 14 {
        'e'
    } else {
        'f'
    }
}

/// One upper-case digit as a string slice.
fn digit_str(d: u8) -> (s: &'static str)
    requires
        d < 16,
    ensures
        s@ =~= seq![spec_digit_char(d as int)],
{
    proof {
        reveal_strlit("0");
        reveal_strlit("1");
        reveal_strlit("2");
        reveal_strlit("3");
        reveal_strlit("4");
        reveal_strlit("5");
        reveal_strlit("6");
        reveal_strlit("7");
        reveal_strlit("8");
        reveal_strlit("9");
        reveal_strlit("A");
        reveal_strlit("B");
        reveal_strlit("C");
        reveal_strlit("D");
        reveal_strlit("E");
        reveal_strlit("F");
    }
    match d {
        0 => "0",
        1 => "1",
        2 => "2",
        3 => "3",
        4 => "4",
        5 => "5",
        6 => "6",
        7 => "7",
        8 => "8",
        9 => "9",
        10 => "A",
        11 => "B",
        12 => "C",
        13 => "D",
        14 => "E",
        _ => "F",
    }
}

/// One lower-case digit as a string slice.
fn digit_str_lower(d: u8) -> (s: &'static str)
    requires
        d < 16,
    ensures
        s@ =~= seq![spec_digit_char_lower(d as int)],
{
    proof {
        reveal_strlit("a");
        reveal_strlit("b");
        reveal_strlit("c");
        reveal_strlit("d");
        reveal_strlit("e");
        reveal_strlit("f");
    }
    if d < 10 {
        digit_str(d)
    } else {
        match d {
            10 => "a",
            11 => "b",
            12 => "c",
            13 => "d",
            14 => "e",
            _ => "f",
        }
    }
}

/// Decimal digits of `n`, most significant first, without sign or padding.
pub open spec fn spec_dec_digits(n: nat) -> Seq<char>
    decreases n,
{
    if n < 10 {
        seq![spec_digit_char(n as int)]
    } else {
        spec_dec_digits(n / 10) + seq![spec_digit_char((n % 10) as int)]
    }
}

/// Render an unsigned number in decimal.
pub fn u64_to_dec(n: u64) -> (s: String)
    ensures
        s@ == spec_dec_digits(n as nat),
    decreases n,
{
    if n < 10 {
        String::from_str(digit_str(n as u8))
    } else {
        let mut s = u64_to_dec(n / 10);
        s.append(digit_str((n % 10) as u8));
        s
    }
}

/// Decimal rendering of a possibly negative number: a minus sign before the
/// digits of the magnitude.
pub open spec fn spec_int_dec(v: int) -> Seq<char> {
    if v < 0 {
        seq!['-'] + spec_dec_digits((-v) as nat)
    } else {
        spec_dec_digits(v as nat)
    }
}

/// Render a signed number in decimal.
pub fn i64_to_dec(v: i64) -> (s: String)
    ensures
        s@ == spec_int_dec(v as int),
{
    if v >= 0 {
        u64_to_dec(v as u64)
    } else {
        let magnitude: u64 = (-(v as i128)) as u64;
        let mut s = String::from_str("-");
        let digits = u64_to_dec(magnitude);
        s.append(digits.as_str());
        proof {
            reveal_strlit("-");
        }
        s
    }
}

/// The low `width` hexadecimal digits of `n`, most significant first,
/// zero-padded, in upper case.
pub open spec fn spec_hex_digits(n: nat, width: nat) -> Seq<char>
    decreases width,
{
    if width == 0 {
        Seq::empty()
    } else {
        spec_hex_digits(n / 16, (width - 1) as nat) + seq![spec_digit_char((n % 16) as int)]
    }
}

/// The low `width` hexadecimal digits of `n`, zero-padded, in lower case.
pub open spec fn spec_hex_digits_lower(n: nat, width: nat) -> Seq<char>
    decreases width,
{
    if width == 0 {
        Seq::empty()
    } else {
        spec_hex_digits_lower(n / 16, (width - 1) as nat) + seq![
            spec_digit_char_lower((n % 16) as int),
        ]
    }
}

/// Render the low `width` hexadecimal digits of `n`, zero-padded, upper case.
pub fn u32_to_hex(n: u32, width: usize) -> (s: String)
    ensures
        s@ == spec_hex_digits(n as nat, width as nat),
    decreases width,
{
    if width == 0 {
        String::new()
    } else {
        let mut s = u32_to_hex(n / 16, width - 1);
        s.append(digit_str((n % 16) as u8));
        s
    }
}

/// Render the low `width` hexadecimal digits of `n`, zero-padded, lower case.
pub fn u32_to_hex_lower(n: u32, width: usize) -> (s: String)
    ensures
        s@ == spec_hex_digits_lower(n as nat, width as nat),
    decreases width,
{
    if width == 0 {
        String::new()
    } else {
        let mut s = u32_to_hex_lower(n / 16, width - 1);
        s.append(digit_str_lower((n % 16) as u8));
        s
    }
}

/// Whether `c` is a decimal digit.
pub open spec fn spec_is_dec_digit(c: char) -> bool {
    '0' <= c <= '9'
}

/// Whether `c` is a hexadecimal digit of either case.
pub open spec fn spec_is_hex_digit(c: char) -> bool {
    spec_is_dec_digit(c) || ('a' <= c <= 'f') || ('A' <= c <= 'F')
}

/// The value of a hexadecimal digit character.
pub open spec fn spec_hex_digit_val(c: char) -> int {
    if spec_is_dec_digit(c) {
        c as int - '0' as int
    } else if 'a' <= c <= 'f' {
        c as int - 'a' as int + 10
    } else {
        c as int - 'A' as int + 10
    }
}

/// The numeric value of a digit string read in the given radix, most
/// significant digit first.
pub open spec fn spec_radix_val(s: Seq<char>, radix: int) -> int
    decreases s.len(),
{
    if s.len() == 0 {
        0
    } else {
        spec_radix_val(s.drop_last(), radix) * radix + spec_hex_digit_val(s.last())
    }
}

/// Whether every character of `s` is a digit of the given radix (10 or 16).
pub open spec fn spec_all_digits(s: Seq<char>, radix: int) -> bool {
    forall|i: int|
        0 <= i < s.len() ==> (if radix == 10 {
            spec_is_dec_digit(s[i])
        } else {
            spec_is_hex_digit(s[i])
        })
}

/// A digit string's value never shrinks as more digits are read.
proof fn lemma_radix_val_nonneg(s: Seq<char>, radix: int)
    requires
        spec_all_digits(s, radix),
        radix == 10 || radix == 16,
    ensures
        spec_radix_val(s, radix) >= 0,
    decreases s.len(),
{
    if s.len() > 0 {
        lemma_radix_val_nonneg(s.drop_last(), radix);
    }
}

/// Extending a digit string multiplies its value up: the value of any prefix
/// is at most the value of the whole string.
proof fn lemma_radix_val_prefix(s: Seq<char>, radix: int, i: int)
    requires
        spec_all_digits(s, radix),
        radix == 10 || radix == 16,
        0 <= i <= s.len(),
    ensures
        spec_radix_val(s.take(i), radix) <= spec_radix_val(s, radix),
    decreases s.len() - i,
{
    if i < s.len() {
        lemma_radix_val_prefix(s, radix, i + 1);
        assert(s.take(i + 1).drop_last() =~= s.take(i));
        assert(s.take(i + 1).last() == s[i]);
        lemma_radix_val_nonneg(s.take(i), radix);
    } else {
        assert(s.take(i) =~= s);
    }
}

/// The optional sign prefix accepted before the digits: Rust's integer
/// parsers allow one leading plus sign.
pub open spec fn spec_digit_part(s: Seq<char>) -> Seq<char> {
    if s.len() > 0 && s[0] == '+' {
        s.skip(1)
    } else {
        s
    }
}

/// Whether `s` parses as an unsigned number in the given radix with a value
/// of at most `u64::MAX`: an optional plus sign, then at least one digit.
pub open spec fn spec_parses_as(s: Seq<char>, radix: int) -> bool {
    let d = spec_digit_part(s);
    d.len() > 0 && spec_all_digits(d, radix) && spec_radix_val(d, radix) <= u64::MAX
}

/// The parsed value of `s` in the given radix.
pub open spec fn spec_parsed_val(s: Seq<char>, radix: int) -> int {
    spec_radix_val(spec_digit_part(s), radix)
}

/// Classify and evaluate one character as a digit of the given radix.
fn digit_val(c: char, radix: u32) -> (r: Option<u32>)
    requires
        radix == 10 || radix == 16,
    ensures
        r is Some <==> (if radix == 10 {
            spec_is_dec_digit(c)
        } else {
            spec_is_hex_digit(c)
        }),
        r matches Some(v) ==> v == spec_hex_digit_val(c) && v < radix,
{
    let code = c as u32;
    if c >= '0' && c <= '9' {
        Some(code - 48)
    } else if radix == 16 && c >= 'a' && c <= 'f' {
        Some(code - 97 + 10)
    } else if radix == 16 && c >= 'A' && c <= 'F' {
        Some(code - 65 + 10)
    } else {
        None
    }
}

/// One parsing step either stays within `u64::MAX` or provably overflows it,
/// depending on how the accumulator compares to the guard quotient.
proof fn lemma_parse_step(acc: int, v: int, r: int)
    requires
        r == 10 || r == 16,
        0 <= v < r,
        0 <= acc,
    ensures
        acc <= (u64::MAX - v) / r ==> acc * r + v <= u64::MAX,
        acc > (u64::MAX - v) / r ==> acc * r + v > u64::MAX,
{
    let m = u64::MAX - v;
    vstd::arithmetic::div_mod::lemma_fundamental_div_mod(m, r);
    if r == 10 {
        assert(acc * r == acc * 10);
        assert((m / 10) * 10 == 10 * (m / 10));
    } else {
        assert(acc * r == acc * 16);
        assert((m / 16) * 16 == 16 * (m / 16));
    }
}

/// Parse an unsigned number from `s` in the given radix (10 or 16), with
/// Rust's `from_str_radix` shape: an optional leading plus sign, then one or
/// more digits. Returns `None` on an empty digit part, a stray character, or
/// a value above `u64::MAX`.
pub fn parse_u64_radix(s: &str, radix: u32) -> (r: Option<u64>)
    requires
        radix == 10 || radix == 16,
    ensures
        r is Some <==> spec_parses_as(s@, radix as int),
        r matches Some(v) ==> v == spec_parsed_val(s@, radix as int),
{
    let len = s.unicode_len();
    let start: usize = if len > 0 && s.get_char(0) == '+' {
        1
    } else {
        0
    };
    let ghost d = spec_digit_part(s@);
    assert(d =~= s@.skip(start as int));
    if len == start {
        return None;
    }
    let r64: u64 = radix as u64;
    let mut acc: u64 = 0;
    let mut i: usize = start;
    while i < len
        invariant
            radix == 10 || radix == 16,
            r64 == radix,
            start <= i <= len,
            len == s@.len(),
            d == s@.skip(start as int),
            d == spec_digit_part(s@),
            d.len() == len - start,
            spec_all_digits(d.take(i - start), radix as int),
            acc == spec_radix_val(d.take(i - start), radix as int),
        decreases len - i,
    {
        let c = s.get_char(i);
        assert(d[i - start] == c);
        let v = match digit_val(c, radix) {
            Some(v) => v,
            None => {
                proof {
                    assert(!spec_all_digits(d, radix as int)) by {
                        if radix == 10 {
                            assert(!spec_is_dec_digit(d[i - start]));
                        } else {
                            assert(!spec_is_hex_digit(d[i - start]));
                        }
                    }
                }
                return None;
            },
        };
        proof {
            assert(d.take(i - start + 1).drop_last() =~= d.take(i - start));
            assert(d.take(i - start + 1).last() == d[i - start]);
            lemma_radix_val_nonneg(d.take(i - start), radix as int);
            lemma_parse_step(acc as int, v as int, radix as int);
        }
        if acc > (u64::MAX - v as u64) / r64 {
            proof {
                assert(spec_radix_val(d.take(i - start + 1), radix as int) > u64::MAX);
                if spec_all_digits(d, radix as int) {
                    lemma_radix_val_prefix(d, radix as int, i - start + 1);
                }
            }
            return None;
        }
        acc = acc * r64 + v as u64;
        i = i + 1;
    }
    proof {
        assert(d.take(i - start) =~= d);
    }
    Some(acc)
}

/// Compare two string slices character by character.
pub fn str_eq(a: &str, b: &str) -> (r: bool)
    ensures
        r == (a@ == b@),
{
    let alen = a.unicode_len();
    let blen = b.unicode_len();
    if alen != blen {
        assert(a@ !~= b@);
        return false;
    }
    let mut i: usize = 0;
    while i < alen
        invariant
            i <= alen,
            alen == a@.len() == b@.len(),
            forall|j: int| 0 <= j < i ==> a@[j] == b@[j],
        decreases alen - i,
    {
        if a.get_char(i) != b.get_char(i) {
            return false;
        }
        i = i + 1;
    }
    assert(a@ =~= b@);
    true
}

} // verus!
