//! The typed video-input-source value and its three textual encodings.
//!
//! A token is read as, in order: a symbolic port name from a fixed table, a
//! hexadecimal literal prefixed `0x` (prefix and digits case-insensitive), or
//! a decimal literal.  Anything else is a parse failure carrying the token;
//! no default value is ever substituted.

use vstd::prelude::*;

use crate::errors::ConfigurationError;
use crate::text::str_eq;

verus! {

/// A numeric code identifying one physical video input on a monitor.
/// Immutable and freely copied; constructed only by parsing a token.
#[derive(Debug, Copy, Clone, PartialEq, Eq, Structural)]
pub struct InputSource {
    pub value: u8,
}

/// `c` is an ASCII decimal digit.
pub open spec fn is_dec_digit(c: char) -> bool {
    '0' as int <= c as int <= '9' as int
}

/// `c` is an ASCII hexadecimal digit, either case.
pub open spec fn is_hex_digit(c: char) -> bool {
    is_dec_digit(c) || ('a' as int <= c as int <= 'f' as int) || ('A' as int <= c as int
        <= 'F' as int)
}

/// The numeric value of a digit character; case-insensitive for the
/// hexadecimal letters, and zero for anything that is no digit at all.
pub open spec fn digit_val(c: char) -> nat {
    if is_dec_digit(c) {
        (c as int - '0' as int) as nat
    } else if 'a' as int <= c as int <= 'f' as int {
        (c as int - 'a' as int + 10) as nat
    } else if 'A' as int <= c as int <= 'F' as int {
        (c as int - 'A' as int + 10) as nat
    } else {
        0
    }
}

pub open spec fn all_dec_digits(s: Seq<char>) -> bool {
    forall|i: int| 0 <= i < s.len() ==> is_dec_digit(#[trigger] s[i])
}

pub open spec fn all_hex_digits(s: Seq<char>) -> bool {
    forall|i: int| 0 <= i < s.len() ==> is_hex_digit(#[trigger] s[i])
}

/// The integer a digit string denotes in the given base, most significant
/// digit first.
pub open spec fn digits_value(s: Seq<char>, base: nat) -> nat
    decreases s.len(),
{
    if s.len() == 0 {
        0
    } else {
        digits_value(s.drop_last(), base) * base + digit_val(s.last())
    }
}

/// The code a whole token denotes when read as decimal, if any.
pub open spec fn dec_token_code(s: Seq<char>) -> Option<u8> {
    if s.len() > 0 && all_dec_digits(s) && digits_value(s, 10) <= 255 {
        Some(digits_value(s, 10) as u8)
    } else {
        None
    }
}

/// The token starts with `0x` or `0X`.
pub open spec fn has_hex_prefix(s: Seq<char>) -> bool {
    s.len() >= 2 && s[0] == '0' && (s[1] == 'x' || s[1] == 'X')
}

/// The code a whole token denotes when read as a `0x`-prefixed hexadecimal
/// literal, if any.
pub open spec fn hex_token_code(s: Seq<char>) -> Option<u8> {
    let digits = s.subrange(2, s.len() as int);
    if has_hex_prefix(s) && digits.len() > 0 && all_hex_digits(digits) && digits_value(digits, 16)
        <= 255 {
        Some(digits_value(digits, 16) as u8)
    } else {
        None
    }
}

/// The fixed table of symbolic port names and their codes.
pub open spec fn symbolic_code(s: Seq<char>) -> Option<u8> {
    if s == "Vga1"@ {
        Some(0x01u8)
    } else if s == "Vga2"@ {
        Some(0x02u8)
    } else if s == "Dvi1"@ {
        Some(0x03u8)
    } else if s == "Dvi2"@ {
        Some(0x04u8)
    } else if s == "CompositeVideo1"@ {
        Some(0x05u8)
    } else if s == "CompositeVideo2"@ {
        Some(0x06u8)
    } else if s == "SVideo1"@ {
        Some(0x07u8)
    } else if s == "SVideo2"@ {
        Some(0x08u8)
    } else if s == "Tuner1"@ {
        Some(0x09u8)
    } else if s == "Tuner2"@ {
        Some(0x0au8)
    } else if s == "Tuner3"@ {
        Some(0x0bu8)
    } else if s == "ComponentVideo1"@ {
        Some(0x0cu8)
    } else if s == "ComponentVideo2"@ {
        Some(0x0du8)
    } else if s == "ComponentVideo3"@ {
        Some(0x0eu8)
    } else if s == "DisplayPort1"@ {
        Some(0x0fu8)
    } else if s == "DisplayPort2"@ {
        Some(0x10u8)
    } else if s == "Hdmi1"@ {
        Some(0x11u8)
    } else if s == "Hdmi2"@ {
        Some(0x12u8)
    } else {
        None
    }
}

/// What a token denotes: a symbolic name wins, then the hexadecimal reading
/// where the `0x` prefix is present, then the decimal reading.
pub open spec fn parse_spec(s: Seq<char>) -> Option<u8> {
    if symbolic_code(s) is Some {
        symbolic_code(s)
    } else if has_hex_prefix(s) {
        hex_token_code(s)
    } else {
        dec_token_code(s)
    }
}

fn dec_digit_of(c: char) -> (r: Option<u8>)
    ensures
        r is Some <==> is_dec_digit(c),
        r is Some ==> r.unwrap() == digit_val(c),
{
    let u = c as u32;
    if '0' as u32 <= u && u <= '9' as u32 {
        Some((u - '0' as u32) as u8)
    } else {
        None
    }
}

fn hex_digit_of(c: char) -> (r: Option<u8>)
    ensures
        r is Some <==> is_hex_digit(c),
        r is Some ==> r.unwrap() == digit_val(c),
{
    let u = c as u32;
    if '0' as u32 <= u && u <= '9' as u32 {
        Some((u - '0' as u32) as u8)
    } else if 'a' as u32 <= u && u <= 'f' as u32 {
        Some((u - 'a' as u32 + 10) as u8)
    } else if 'A' as u32 <= u && u <= 'F' as u32 {
        Some((u - 'A' as u32 + 10) as u8)
    } else {
        None
    }
}

/// A digit string read earlier never denotes more than the whole string:
/// appending digits can only grow the value.
proof fn lemma_digits_value_prefix_le(s: Seq<char>, k: int, base: nat)
    requires
        0 <= k <= s.len(),
        base >= 1,
    ensures
        digits_value(s.subrange(0, k), base) <= digits_value(s, base),
    decreases s.len() - k,
{
    if k == s.len() {
        assert(s.subrange(0, k) =~= s);
    } else {
        let shorter = s.subrange(0, k);
        let longer = s.subrange(0, k + 1);
        assert(longer.drop_last() =~= shorter);
        assert(digits_value(longer, base) == digits_value(shorter, base) * base + digit_val(
            longer.last(),
        ));
        assert(digits_value(shorter, base) <= digits_value(shorter, base) * base)
            by (nonlinear_arith)
            requires
                base >= 1,
        ;
        lemma_digits_value_prefix_le(s, k + 1, base);
    }
}

/// Reads the digits of `s` from position `from` to the end, in base 16 when
/// `hex` is set and base 10 otherwise; yields the denoted code when every
/// character is a digit of that base and the value fits in a byte.
fn digits_code(s: &str, from: usize, hex: bool) -> (r: Option<u8>)
    requires
        s@.len() <= usize::MAX,
        from <= s@.len(),
    ensures
        ({
            let digits = s@.subrange(from as int, s@.len() as int);
            let base: nat = if hex {
                16
            } else {
                10
            };
            let valid = digits.len() > 0 && (if hex {
                all_hex_digits(digits)
            } else {
                all_dec_digits(digits)
            }) && digits_value(digits, base) <= 255;
            &&& r is Some <==> valid
            &&& r is Some ==> r.unwrap() == digits_value(digits, base)
        }),
{
    let ghost digits = s@.subrange(from as int, s@.len() as int);
    let ghost base: nat = if hex {
        16
    } else {
        10
    };
    let n = s.unicode_len();
    if from == n {
        return None;
    }
    let base_exec: u32 = if hex {
        16
    } else {
        10
    };
    let mut val: u32 = 0;
    let mut i: usize = from;
    while i < n
        invariant
            n == s@.len(),
            n <= usize::MAX,
            from <= i <= n,
            from < n,
            digits == s@.subrange(from as int, s@.len() as int),
            base == if hex {
                16nat
            } else {
                10nat
            },
            base_exec == base,
            forall|k: int|
                from <= k < i ==> (if hex {
                    is_hex_digit(#[trigger] s@[k])
                } else {
                    is_dec_digit(s@[k])
                }),
            val == digits_value(s@.subrange(from as int, i as int), base),
            val <= 255,
        decreases n - i,
    {
        let c = s.get_char(i);
        let d = if hex {
            hex_digit_of(c)
        } else {
            dec_digit_of(c)
        };
        match d {
            None => {
                proof {
                    assert(digits[i - from] == s@[i as int]);
                }
                return None;
            },
            Some(dv) => {
                proof {
                    let pre = s@.subrange(from as int, i as int);
                    let post = s@.subrange(from as int, i + 1);
                    assert(post.drop_last() =~= pre);
                    assert(post.last() == s@[i as int]);
                }
                val = val * base_exec + dv as u32;
                if val > 255 {
                    proof {
                        assert(digits.subrange(0, i + 1 - from) =~= s@.subrange(
                            from as int,
                            i + 1,
                        ));
                        lemma_digits_value_prefix_le(digits, i + 1 - from, base);
                    }
                    return None;
                }
                i = i + 1;
            },
        }
    }
    proof {
        assert(s@.subrange(from as int, i as int) =~= digits);
        assert(forall|k: int|
            0 <= k < digits.len() ==> #[trigger] digits[k] == s@[from + k]);
    }
    Some(val as u8)
}

fn symbolic_lookup(token: &str) -> (r: Option<u8>)
    ensures
        r == symbolic_code(token@),
{
    if str_eq(token, "Vga1") {
        Some(0x01)
    } else if str_eq(token, "Vga2") {
        Some(0x02)
    } else if str_eq(token, "Dvi1") {
        Some(0x03)
    } else if str_eq(token, "Dvi2") {
        Some(0x04)
    } else if str_eq(token, "CompositeVideo1") {
        Some(0x05)
    } else if str_eq(token, "CompositeVideo2") {
        Some(0x06)
    } else if str_eq(token, "SVideo1") {
        Some(0x07)
    } else if str_eq(token, "SVideo2") {
        Some(0x08)
    } else if str_eq(token, "Tuner1") {
        Some(0x09)
    } else if str_eq(token, "Tuner2") {
        Some(0x0a)
    } else if str_eq(token, "Tuner3") {
        Some(0x0b)
    } else if str_eq(token, "ComponentVideo1") {
        Some(0x0c)
    } else if str_eq(token, "ComponentVideo2") {
        Some(0x0d)
    } else if str_eq(token, "ComponentVideo3") {
        Some(0x0e)
    } else if str_eq(token, "DisplayPort1") {
        Some(0x0f)
    } else if str_eq(token, "DisplayPort2") {
        Some(0x10)
    } else if str_eq(token, "Hdmi1") {
        Some(0x11)
    } else if str_eq(token, "Hdmi2") {
        Some(0x12)
    } else {
        None
    }
}

impl InputSource {
    /// The numeric code, for transmission to the display-control layer.
    pub fn value(&self) -> (r: u8)
        ensures
            r == self.value,
    {
        self.value
    }

    /// Parses one textual token into an input-source code: symbolic name
    /// first, then `0x`-prefixed hexadecimal, then decimal.  Any other token
    /// fails, carrying the token itself.
    pub fn parse(token: &str) -> (r: Result<InputSource, ConfigurationError>)
        ensures
            r is Ok <==> parse_spec(token@) is Some,
            r is Ok ==> r->Ok_0.value == parse_spec(token@).unwrap(),
            r is Err ==> r->Err_0 is InvalidInputSource && r->Err_0->InvalidInputSource_0@
                == token@,
    {
        if let Some(v) = symbolic_lookup(token) {
            return Ok(InputSource { value: v });
        }
        let n = token.unicode_len();
        let mut hex = false;
        if n >= 2 {
            let c0 = token.get_char(0);
            let c1 = token.get_char(1);
            if c0 == '0' && (c1 == 'x' || c1 == 'X') {
                hex = true;
            }
        }
        assert(hex == has_hex_prefix(token@));
        let code = if hex {
            digits_code(token, 2, true)
        } else {
            proof {
                assert(token@.subrange(0, token@.len() as int) =~= token@);
            }
            digits_code(token, 0, false)
        };
        match code {
            Some(v) => Ok(InputSource { value: v }),
            None => Err(ConfigurationError::InvalidInputSource(token.to_owned())),
        }
    }
}

/// No symbolic name begins with a decimal digit, so a token that does can
/// only be numeric.
proof fn lemma_digit_start_not_symbolic(s: Seq<char>)
    requires
        s.len() > 0,
        is_dec_digit(s[0]),
    ensures
        symbolic_code(s) is None,
{
    reveal_strlit("Vga1");
    reveal_strlit("Vga2");
    reveal_strlit("Dvi1");
    reveal_strlit("Dvi2");
    reveal_strlit("CompositeVideo1");
    reveal_strlit("CompositeVideo2");
    reveal_strlit("SVideo1");
    reveal_strlit("SVideo2");
    reveal_strlit("Tuner1");
    reveal_strlit("Tuner2");
    reveal_strlit("Tuner3");
    reveal_strlit("ComponentVideo1");
    reveal_strlit("ComponentVideo2");
    reveal_strlit("ComponentVideo3");
    reveal_strlit("DisplayPort1");
    reveal_strlit("DisplayPort2");
    reveal_strlit("Hdmi1");
    reveal_strlit("Hdmi2");
}

/// Law: a valid decimal token parses to exactly its decimal value.
pub proof fn lemma_decimal_round_trip(s: Seq<char>)
    requires
        s.len() > 0,
        all_dec_digits(s),
        digits_value(s, 10) <= 255,
    ensures
        parse_spec(s) == Some((digits_value(s, 10) as u8)),
{
    assert(is_dec_digit(s[0]));
    lemma_digit_start_not_symbolic(s);
    if s.len() >= 2 {
        assert(is_dec_digit(s[1]));
        assert(!has_hex_prefix(s));
    }
}

/// Law: a valid `0x`-prefixed hexadecimal token parses to exactly the value
/// of its digits.
pub proof fn lemma_hex_round_trip(s: Seq<char>)
    requires
        has_hex_prefix(s),
        s.len() > 2,
        all_hex_digits(s.subrange(2, s.len() as int)),
        digits_value(s.subrange(2, s.len() as int), 16) <= 255,
    ensures
        parse_spec(s) == Some((digits_value(s.subrange(2, s.len() as int), 16) as u8)),
{
    lemma_digit_start_not_symbolic(s);
}

/// Two digit strings whose digits have pairwise equal values denote the same
/// integer.
proof fn lemma_digits_value_pointwise(a: Seq<char>, b: Seq<char>, base: nat)
    requires
        a.len() == b.len(),
        forall|i: int| 0 <= i < a.len() ==> digit_val(#[trigger] a[i]) == digit_val(b[i]),
    ensures
        digits_value(a, base) == digits_value(b, base),
    decreases a.len(),
{
    if a.len() > 0 {
        assert(digit_val(a.last()) == digit_val(b.last()));
        lemma_digits_value_pointwise(a.drop_last(), b.drop_last(), base);
    }
}

/// Law: hexadecimal parsing is independent of letter case, in the prefix and
/// in the digits.  Two `0x`-prefixed tokens whose digit positions agree on
/// digit-validity and on digit value parse identically.
pub proof fn lemma_hex_case_insensitive(s: Seq<char>, t: Seq<char>)
    requires
        has_hex_prefix(s),
        has_hex_prefix(t),
        s.len() == t.len(),
        forall|i: int|
            2 <= i < s.len() ==> (is_hex_digit(#[trigger] s[i]) == is_hex_digit(t[i])),
        forall|i: int| 2 <= i < s.len() ==> (digit_val(#[trigger] s[i]) == digit_val(t[i])),
    ensures
        parse_spec(s) == parse_spec(t),
{
    assert(is_dec_digit(s[0]));
    assert(is_dec_digit(t[0]));
    lemma_digit_start_not_symbolic(s);
    lemma_digit_start_not_symbolic(t);
    let ds = s.subrange(2, s.len() as int);
    let dt = t.subrange(2, t.len() as int);
    assert forall|i: int| 0 <= i < ds.len() implies (is_hex_digit(#[trigger] ds[i])
        == is_hex_digit(dt[i]) && digit_val(ds[i]) == digit_val(dt[i])) by {
        assert(ds[i] == s[i + 2]);
        assert(dt[i] == t[i + 2]);
    }
    if all_hex_digits(ds) {
        assert forall|i: int| 0 <= i < dt.len() implies is_hex_digit(#[trigger] dt[i]) by {
            assert(is_hex_digit(ds[i]));
        }
        assert(all_hex_digits(dt));
    }
    if all_hex_digits(dt) {
        assert forall|i: int| 0 <= i < ds.len() implies is_hex_digit(#[trigger] ds[i]) by {
            assert(is_hex_digit(dt[i]));
        }
        assert(all_hex_digits(ds));
    }
    lemma_digits_value_pointwise(ds, dt, 16);
}

/// Law: a recognized symbolic name always parses to its fixed code; the
/// symbolic table takes precedence over any numeric reading of the token.
pub proof fn lemma_symbolic_stable(s: Seq<char>)
    requires
        symbolic_code(s) is Some,
    ensures
        parse_spec(s) == symbolic_code(s),
{
}

} // verus!
