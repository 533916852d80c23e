//! Border color values and the parsing of configured color strings: a hex
//! `#RRGGBB` form and a decimal `rgb(r,g,b)` form. Color spaces that need
//! floating-point conversion (such as hue/saturation/lightness strings)
//! are left to the embedding application.

use vstd::prelude::*;

verus! {

/// A packed red-green-blue color value.
#[derive(Debug, Clone, Copy, PartialEq, Eq, Structural)]
pub struct Color(pub u32);

/// Why a color string was rejected.
#[derive(Debug, Clone, PartialEq, Eq)]
pub enum ColorParserError {
    InvalidFormat(String),
}

impl Default for Color {
    /// The built-in fallback color.
    fn default() -> (r: Self)
        ensures
            r.0 == 0x252525,
    {
        Color(0x252525)
    }
}

/// Packs three channel bytes into one value, red high.
pub fn rgb_to_u32(r: u8, g: u8, b: u8) -> (v: u32)
    ensures
        v == (r as int) * 0x10000 + (g as int) * 0x100 + (b as int),
{
    let x = r as u32;
    let y = g as u32;
    let z = b as u32;
    proof {
        assert((x << 16) | (y << 8) | z == x * 0x10000 + y * 0x100 + z) by (bit_vector)
            requires
                x < 256,
                y < 256,
                z < 256,
        ;
    }
    (x << 16) | (y << 8) | z
}

/// The value of a hexadecimal digit, or a negative number for any other
/// character.
pub open spec fn spec_hex_digit_val(c: char) -> int {
    if ('0' as int) <= (c as int) <= ('9' as int) {
        (c as int) - ('0' as int)
    } else if ('a' as int) <= (c as int) <= ('f' as int) {
        10 + (c as int) - ('a' as int)
    } else if ('A' as int) <= (c as int) <= ('F' as int) {
        10 + (c as int) - ('A' as int)
    } else {
        -1
    }
}

/// The value of a decimal digit, or a negative number for any other
/// character.
pub open spec fn spec_dec_digit_val(c: char) -> int {
    if ('0' as int) <= (c as int) <= ('9' as int) {
        (c as int) - ('0' as int)
    } else {
        -1
    }
}

/// The number a big-endian string of hexadecimal digits denotes.
pub open spec fn spec_hex_value(s: Seq<char>) -> int
    decreases s.len(),
{
    if s.len() == 0 {
        0
    } else {
        spec_hex_value(s.drop_last()) * 16 + spec_hex_digit_val(s.last())
    }
}

/// The number a big-endian string of decimal digits denotes.
pub open spec fn spec_dec_value(s: Seq<char>) -> int
    decreases s.len(),
{
    if s.len() == 0 {
        0
    } else {
        spec_dec_value(s.drop_last()) * 10 + spec_dec_digit_val(s.last())
    }
}

/// The whitespace that component parsing strips from both ends.
pub open spec fn spec_is_space(c: char) -> bool {
    c == ' ' || c == '\t' || c == '\n' || c == '\r'
}

/// A string with its leading whitespace dropped.
pub open spec fn spec_trim_front(s: Seq<char>) -> Seq<char>
    decreases s.len(),
{
    if s.len() > 0 && spec_is_space(s[0]) {
        spec_trim_front(s.drop_first())
    } else {
        s
    }
}

/// A string with its trailing whitespace dropped.
pub open spec fn spec_trim_back(s: Seq<char>) -> Seq<char>
    decreases s.len(),
{
    if s.len() > 0 && spec_is_space(s.last()) {
        spec_trim_back(s.drop_last())
    } else {
        s
    }
}

/// A string with whitespace dropped from both ends.
pub open spec fn spec_trim(s: Seq<char>) -> Seq<char> {
    spec_trim_back(spec_trim_front(s))
}

/// The byte value a decimal component string denotes: at least one digit,
/// digits only, value at most 255.
pub open spec fn spec_parse_u8(s: Seq<char>) -> Option<u8> {
    if s.len() >= 1 && (forall|i: int| 0 <= i < s.len() ==> spec_dec_digit_val(s[i]) >= 0)
        && spec_dec_value(s) <= 255 {
        Some(spec_dec_value(s) as u8)
    } else {
        None
    }
}

/// The first position of a character in a string, or the length when the
/// string does not contain it.
pub open spec fn spec_find(s: Seq<char>, c: char) -> int
    decreases s.len(),
{
    if s.len() == 0 {
        0
    } else if s[0] == c {
        0
    } else {
        1 + spec_find(s.drop_first(), c)
    }
}

/// The value a `#RRGGBB` string denotes: a hash sign and exactly six
/// hexadecimal digits.
pub open spec fn spec_hex_color(s: Seq<char>) -> Option<u32> {
    if s.len() == 7 && s[0] == '#' && (forall|i: int|
        1 <= i < 7 ==> spec_hex_digit_val(s[i]) >= 0) {
        Some(spec_hex_value(s.subrange(1, 7)) as u32)
    } else {
        None
    }
}

/// The value an `rgb(r,g,b)` string denotes: the prefix, three
/// comma-separated decimal byte components (each trimmed of surrounding
/// whitespace), and the closing parenthesis.
pub open spec fn spec_rgb_color(s: Seq<char>) -> Option<u32> {
    if s.len() >= 5 && s.subrange(0, 4) == "rgb("@ && s.last() == ')' {
        let inner = s.subrange(4, s.len() - 1);
        let i = spec_find(inner, ',');
        if i < inner.len() {
            let rest = inner.subrange(i + 1, inner.len() as int);
            let j = spec_find(rest, ',');
            if j < rest.len() && spec_find(rest.subrange(j + 1, rest.len() as int), ',')
                == rest.len() - j - 1 {
                let p1 = spec_parse_u8(spec_trim(inner.subrange(0, i)));
                let p2 = spec_parse_u8(spec_trim(rest.subrange(0, j)));
                let p3 = spec_parse_u8(spec_trim(rest.subrange(j + 1, rest.len() as int)));
                if p1 is Some && p2 is Some && p3 is Some {
                    Some(
                        ((p1->0 as int) * 0x10000 + (p2->0 as int) * 0x100 + (p3->0 as int)) as u32,
                    )
                } else {
                    None
                }
            } else {
                None
            }
        } else {
            None
        }
    } else {
        None
    }
}

/// The color a configured string denotes, in either accepted form.
pub open spec fn spec_color_value(s: Seq<char>) -> Option<u32> {
    if spec_hex_color(s) is Some {
        spec_hex_color(s)
    } else {
        spec_rgb_color(s)
    }
}

/// Digit strings denote non-negative numbers.
proof fn lemma_dec_value_nonneg(s: Seq<char>)
    requires
        forall|i: int| 0 <= i < s.len() ==> spec_dec_digit_val(s[i]) >= 0,
    ensures
        spec_dec_value(s) >= 0,
    decreases s.len(),
{
    if s.len() > 0 {
        lemma_dec_value_nonneg(s.drop_last());
    }
}

/// A digit string's value is at least the value of any of its prefixes.
proof fn lemma_dec_value_prefix(s: Seq<char>, i: int)
    requires
        forall|k: int| 0 <= k < s.len() ==> spec_dec_digit_val(s[k]) >= 0,
        0 <= i <= s.len(),
    ensures
        spec_dec_value(s) >= spec_dec_value(s.take(i)),
    decreases s.len() - i,
{
    if i < s.len() {
        assert(s.take(i + 1).drop_last() =~= s.take(i));
        assert(forall|k: int| 0 <= k < s.take(i + 1).len() ==> s.take(i + 1)[k] == s[k]);
        lemma_dec_value_nonneg(s.take(i));
        lemma_dec_value_prefix(s, i + 1);
    } else {
        assert(s.take(i) =~= s);
    }
}

fn dec_digit(c: char) -> (r: Option<u8>)
    ensures
        match r {
            Option::Some(v) => spec_dec_digit_val(c) == v as int && v <= 9,
            Option::None => spec_dec_digit_val(c) < 0,
        },
{
    let u = c as u32;
    if u >= 48 && u <= 57 {
        Some((u - 48) as u8)
    } else {
        None
    }
}

fn hex_digit(c: char) -> (r: Option<u8>)
    ensures
        match r {
            Option::Some(v) => spec_hex_digit_val(c) == v as int && v <= 15,
            Option::None => spec_hex_digit_val(c) < 0,
        },
{
    let u = c as u32;
    if u >= 48 && u <= 57 {
        Some((u - 48) as u8)
    } else if u >= 97 && u <= 102 {
        Some((u - 97 + 10) as u8)
    } else if u >= 65 && u <= 70 {
        Some((u - 65 + 10) as u8)
    } else {
        None
    }
}

/// Strips the whitespace from both ends of a string.
#[verifier::loop_isolation(false)]
fn trim_spaces<'a>(s: &'a str) -> (r: &'a str)
    ensures
        r@ == spec_trim(s@),
{
    let n = s.unicode_len();
    let mut a: usize = 0;
    while a < n && is_space_char(s.get_char(a))
        invariant
            a <= n,
            forall|k: int| 0 <= k < a ==> spec_is_space(s@[k]),
        decreases n - a,
    {
        a += 1;
    }
    proof {
        lemma_trim_front_at(s@, a as int);
    }
    if a == n {
        let r = s.substring_char(n, n);
        proof {
            assert(r@ =~= spec_trim_front(s@));
            assert(spec_trim_back(r@) =~= r@);
        }
        return r;
    }
    let mut b: usize = n;
    while b > a && is_space_char(s.get_char(b - 1))
        invariant
            a <= b <= n,
            forall|k: int| b <= k < n ==> spec_is_space(s@[k]),
        decreases b,
    {
        b -= 1;
    }
    let r = s.substring_char(a, b);
    proof {
        let t = spec_trim_front(s@);
        assert(t =~= s@.subrange(a as int, n as int));
        lemma_trim_back_at(t, (b - a) as int);
        assert(t.take((b - a) as int) =~= s@.subrange(a as int, b as int));
    }
    r
}

fn is_space_char(c: char) -> (r: bool)
    ensures
        r == spec_is_space(c),
{
    c == ' ' || c == '\t' || c == '\n' || c == '\r'
}

/// Dropping the leading whitespace keeps exactly the tail that starts at
/// the first non-space position.
proof fn lemma_trim_front_at(s: Seq<char>, a: int)
    requires
        0 <= a <= s.len(),
        forall|k: int| 0 <= k < a ==> spec_is_space(s[k]),
        a < s.len() ==> !spec_is_space(s[a]),
    ensures
        spec_trim_front(s) == s.subrange(a, s.len() as int),
    decreases a,
{
    if a == 0 {
        if s.len() > 0 && spec_is_space(s[0]) {
            assert(false);
        }
        assert(s.subrange(0, s.len() as int) =~= s);
    } else {
        let t = s.drop_first();
        assert(forall|k: int| 0 <= k < a - 1 ==> t[k] == s[k + 1]);
        lemma_trim_front_at(t, a - 1);
        assert(t.subrange(a - 1, t.len() as int) =~= s.subrange(a, s.len() as int));
    }
}

/// Dropping the trailing whitespace keeps exactly the prefix that ends at
/// the last non-space position.
proof fn lemma_trim_back_at(s: Seq<char>, b: int)
    requires
        0 <= b <= s.len(),
        forall|k: int| b <= k < s.len() ==> spec_is_space(s[k]),
        b > 0 ==> !spec_is_space(s[b - 1]),
    ensures
        spec_trim_back(s) == s.take(b),
    decreases s.len(),
{
    if b == s.len() {
        if s.len() > 0 && spec_is_space(s.last()) {
            assert(false);
        }
        assert(s.take(b) =~= s);
    } else {
        lemma_trim_back_at(s.drop_last(), b);
        assert(s.drop_last().take(b) =~= s.take(b));
    }
}

/// Parses a trimmed decimal byte component.
#[verifier::loop_isolation(false)]
fn parse_u8_digits(s: &str) -> (r: Option<u8>)
    ensures
        r == spec_parse_u8(s@),
{
    let n = s.unicode_len();
    if n == 0 {
        return None;
    }
    let mut acc: u32 = 0;
    let mut i: usize = 0;
    while i < n
        invariant
            i <= n,
            acc <= 255,
            acc == spec_dec_value(s@.take(i as int)),
            forall|k: int| 0 <= k < i ==> spec_dec_digit_val(s@[k]) >= 0,
        decreases n - i,
    {
        let c = s.get_char(i);
        match dec_digit(c) {
            Option::None => {
                return None;
            },
            Option::Some(d) => {
                proof {
                    assert(s@.take(i + 1).drop_last() =~= s@.take(i as int));
                }
                acc = acc * 10 + (d as u32);
                if acc > 255 {
                    proof {
                        if forall|k: int| 0 <= k < s@.len() ==> spec_dec_digit_val(s@[k]) >= 0 {
                            lemma_dec_value_prefix(s@, i + 1);
                            assert(spec_dec_value(s@) >= spec_dec_value(s@.take(i + 1)));
                        }
                    }
                    return None;
                }
            },
        }
        i += 1;
    }
    proof {
        assert(s@.take(n as int) =~= s@);
    }
    Some(acc as u8)
}

fn parse_component(part: &str) -> (r: Option<u8>)
    ensures
        r == spec_parse_u8(spec_trim(part@)),
{
    let t = trim_spaces(part);
    parse_u8_digits(t)
}

/// The first position of a character, or the length when absent.
#[verifier::loop_isolation(false)]
fn find_char(s: &str, c: char) -> (r: usize)
    ensures
        r == spec_find(s@, c),
        r <= s@.len(),
        r < s@.len() ==> s@[r as int] == c,
        forall|k: int| 0 <= k < r ==> s@[k] != c,
{
    let n = s.unicode_len();
    let mut i: usize = 0;
    while i < n
        invariant
            i <= n,
            forall|k: int| 0 <= k < i ==> s@[k] != c,
        decreases n - i,
    {
        if s.get_char(i) == c {
            proof {
                lemma_find_at(s@, c, i as int);
            }
            return i;
        }
        i += 1;
    }
    proof {
        lemma_find_absent(s@, c);
    }
    n
}

proof fn lemma_find_at(s: Seq<char>, c: char, i: int)
    requires
        0 <= i < s.len(),
        s[i] == c,
        forall|k: int| 0 <= k < i ==> s[k] != c,
    ensures
        spec_find(s, c) == i,
    decreases s.len(),
{
    if s[0] != c {
        let t = s.drop_first();
        assert(t[i - 1] == c);
        assert(forall|k: int| 0 <= k < i - 1 ==> t[k] == s[k + 1]);
        lemma_find_at(t, c, i - 1);
    }
}

proof fn lemma_find_absent(s: Seq<char>, c: char)
    requires
        forall|k: int| 0 <= k < s.len() ==> s[k] != c,
    ensures
        spec_find(s, c) == s.len(),
    decreases s.len(),
{
    if s.len() > 0 {
        let t = s.drop_first();
        assert(forall|k: int| 0 <= k < t.len() ==> t[k] == s[k + 1]);
        lemma_find_absent(t, c);
    }
}

fn invalid_format_error(value: &str) -> (r: ColorParserError)
    ensures
        r == ColorParserError::InvalidFormat(r->0),
        r->0@ == "color: "@ + value@ + " has invalid format"@,
{
    let mut msg = String::from_str("color: ");
    msg.append(value);
    msg.append(" has invalid format");
    ColorParserError::InvalidFormat(msg)
}

impl Color {
    /// Parses a configured color string: `#RRGGBB` with six hexadecimal
    /// digits, or `rgb(r,g,b)` with three decimal byte components. Exactly
    /// the strings of these two forms are accepted.
    #[verifier::loop_isolation(false)]
    pub fn parse(value: &str) -> (r: Result<Color, ColorParserError>)
        ensures
            match spec_color_value(value@) {
                Option::Some(v) => r is Ok && r->Ok_0.0 == v,
                Option::None => r is Err && r->Err_0->0@ == "color: "@ + value@
                    + " has invalid format"@,
            },
    {
        let n = value.unicode_len();
        if n == 7 && value.get_char(0) == '#' {
            let mut acc: u32 = 0;
            let mut i: usize = 1;
            let mut ok = true;
            while i < 7
                invariant
                    1 <= i <= 7,
                    n == 7,
                    value@.len() == 7,
                    ok ==> forall|k: int| 1 <= k < i ==> spec_hex_digit_val(value@[k]) >= 0,
                    ok ==> acc == spec_hex_value(value@.subrange(1, i as int)),
                    ok ==> acc < spec_pow16((i - 1) as int),
                    !ok ==> exists|k: int|
                        1 <= k < 7 && spec_hex_digit_val(#[trigger] value@[k]) < 0,
                decreases 7 - i,
            {
                let c = value.get_char(i);
                match hex_digit(c) {
                    Option::Some(d) => {
                        if ok {
                            proof {
                                lemma_pow16_values();
                                assert(value@.subrange(1, i + 1).drop_last() =~= value@.subrange(
                                    1,
                                    i as int,
                                ));
                            }
                            acc = acc * 16 + (d as u32);
                        }
                    },
                    Option::None => {
                        ok = false;
                    },
                }
                i += 1;
            }
            if ok {
                proof {
                    lemma_pow16_values();
                    assert(value@.subrange(1, 7) =~= value@.subrange(1, 7));
                    assert(spec_hex_color(value@) is Some);
                }
                return Ok(Color(acc));
            }
            proof {
                assert(spec_hex_color(value@) is None);
                assert(spec_rgb_color(value@) is None) by {
                    reveal_strlit("rgb(");
                    if value@.len() >= 5 && value@.subrange(0, 4) == "rgb("@ {
                        assert(value@.subrange(0, 4)[0] == value@[0]);
                        assert(("rgb(")@[0] == 'r');
                    }
                };
            }
            return Err(invalid_format_error(value));
        }
        if n >= 5 {
            proof {
                reveal_strlit("rgb(");
            }
            let is_rgb = value.get_char(0) == 'r' && value.get_char(1) == 'g' && value.get_char(2)
                == 'b' && value.get_char(3) == '(' && value.get_char(n - 1) == ')';
            if is_rgb {
                proof {
                    assert(value@.subrange(0, 4) =~= "rgb("@);
                }
                let inner = value.substring_char(4, n - 1);
                let ghost inner_seq = value@.subrange(4, value@.len() - 1);
                let inner_len = inner.unicode_len();
                let i = find_char(inner, ',');
                if i < inner_len {
                    let rest = inner.substring_char(i + 1, inner_len);
                    let ghost rest_seq = inner_seq.subrange(i + 1, inner_seq.len() as int);
                    let rest_len = rest.unicode_len();
                    let j = find_char(rest, ',');
                    if j < rest_len {
                        let third = rest.substring_char(j + 1, rest_len);
                        let ghost third_seq = rest_seq.subrange(j + 1, rest_seq.len() as int);
                        let k = find_char(third, ',');
                        let third_len = third.unicode_len();
                        if k == third_len {
                            let p1 = parse_component(inner.substring_char(0, i));
                            let p2 = parse_component(rest.substring_char(0, j));
                            let p3 = parse_component(third);
                            proof {
                                assert(inner@.subrange(0, i as int) =~= inner_seq.subrange(
                                    0,
                                    i as int,
                                ));
                                assert(rest@.subrange(0, j as int) =~= rest_seq.subrange(
                                    0,
                                    j as int,
                                ));
                            }
                            match (p1, p2, p3) {
                                (Option::Some(cr), Option::Some(cg), Option::Some(cb)) => {
                                    proof {
                                        assert(spec_rgb_color(value@) is Some);
                                    }
                                    return Ok(Color(rgb_to_u32(cr, cg, cb)));
                                },
                                _ => {
                                    proof {
                                        assert(spec_rgb_color(value@) is None);
                                        assert(spec_hex_color(value@) is None);
                                    }
                                    return Err(invalid_format_error(value));
                                },
                            }
                        }
                        proof {
                            assert(spec_rgb_color(value@) is None);
                            assert(spec_hex_color(value@) is None);
                        }
                        return Err(invalid_format_error(value));
                    }
                    proof {
                        assert(spec_rgb_color(value@) is None);
                        assert(spec_hex_color(value@) is None);
                    }
                    return Err(invalid_format_error(value));
                }
                proof {
                    assert(spec_rgb_color(value@) is None);
                    assert(spec_hex_color(value@) is None);
                }
                return Err(invalid_format_error(value));
            }
        }
        proof {
            reveal_strlit("rgb(");
            assert(spec_hex_color(value@) is None);
            assert(spec_rgb_color(value@) is None) by {
                if value@.len() >= 5 && value@.subrange(0, 4) == "rgb("@ && value@.last() == ')' {
                    assert(value@[0] == value@.subrange(0, 4)[0]);
                    assert(value@[1] == value@.subrange(0, 4)[1]);
                    assert(value@[2] == value@.subrange(0, 4)[2]);
                    assert(value@[3] == value@.subrange(0, 4)[3]);
                }
            };
        }
        Err(invalid_format_error(value))
    }
}

/// Powers of sixteen, for bounding accumulated hexadecimal values.
pub open spec fn spec_pow16(i: int) -> int
    decreases i,
{
    if i <= 0 {
        1
    } else {
        16 * spec_pow16(i - 1)
    }
}

proof fn lemma_pow16_values()
    ensures
        spec_pow16(0) == 1,
        spec_pow16(1) == 16,
        spec_pow16(2) == 256,
        spec_pow16(3) == 0x1000,
        spec_pow16(4) == 0x10000,
        spec_pow16(5) == 0x100000,
        spec_pow16(6) == 0x1000000,
{
    assert(spec_pow16(0) == 1);
    assert(spec_pow16(1) == 16);
    assert(spec_pow16(2) == 256);
    assert(spec_pow16(3) == 0x1000);
    assert(spec_pow16(4) == 0x10000);
    assert(spec_pow16(5) == 0x100000);
    assert(spec_pow16(6) == 0x1000000);
}

} // verus!
