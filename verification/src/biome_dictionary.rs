//! Names of the dynamic `biome_data/<index>` properties through which the
//! editor reads and writes the entries of a generator's biome dictionary.
use vstd::prelude::*;

verus! {

/// The characters of the prefix `biome_data/`.
pub open spec fn biome_prefix() -> Seq<char> {
    seq!['b', 'i', 'o', 'm', 'e', '_', 'd', 'a', 't', 'a', '/']
}

pub open spec fn is_digit(c: char) -> bool {
    '0' <= c && c <= '9'
}

pub open spec fn digit_value(c: char) -> int {
    (c as int) - ('0' as int)
}

pub open spec fn all_digits(s: Seq<char>) -> bool {
    forall|i: int| 0 <= i < s.len() ==> is_digit(#[trigger] s[i])
}

/// The value of a string of decimal digits, most significant first.
pub open spec fn digits_value(s: Seq<char>) -> int
    decreases s.len(),
{
    if s.len() == 0 {
        0
    } else {
        digits_value(s.drop_last()) * 10 + digit_value(s.last())
    }
}

/// What `i32::from_str` gives for a string: an optional `+` or `-` sign,
/// then at least one decimal digit and nothing else, with a value that
/// fits in an `i32`.
pub open spec fn parse_i32(s: Seq<char>) -> Option<i32> {
    let signed = s.len() > 0 && (s[0] == '-' || s[0] == '+');
    let body = if signed { s.drop_first() } else { s };
    let magnitude = digits_value(body);
    let value = if s.len() > 0 && s[0] == '-' { -magnitude } else { magnitude };
    if body.len() > 0 && all_digits(body) && i32::MIN <= value <= i32::MAX {
        Some(value as i32)
    } else {
        None
    }
}

/// What a property name says about the biome dictionary.
#[derive(PartialEq, Eq, Structural, Debug, Clone, Copy)]
pub enum BiomeProperty {
    /// The name does not start with `biome_data/`.
    Other,
    /// `biome_data/` followed by a decimal `i32`.
    Index(i32),
    /// `biome_data/` followed by something that is not a decimal `i32`.
    Malformed,
}

pub open spec fn has_biome_prefix(name: Seq<char>) -> bool {
    name.len() >= 11 && name.take(11) == biome_prefix()
}

/// The meaning of a property name: the text after `biome_data/`, read as an `i32`.
pub open spec fn biome_property(name: Seq<char>) -> BiomeProperty {
    if has_biome_prefix(name) {
        match parse_i32(name.skip(11)) {
            Some(i) => BiomeProperty::Index(i),
            None => BiomeProperty::Malformed,
        }
    } else {
        BiomeProperty::Other
    }
}

pub open spec fn digit_char(d: int) -> char {
    if d == 0 {
        '0'
    } else if d == 1 {
        '1'
    } else if d == 2 {
        '2'
    } else if d == 3 {
        '3'
    } else if d == 4 {
        '4'
    } else if d == 5 {
        '5'
    } else if d == 6 {
        '6'
    } else if d == 7 {
        '7'
    } else if d == 8 {
        '8'
    } else {
        '9'
    }
}

/// The decimal representation of `n`, without leading zeros.
pub open spec fn decimal(n: nat) -> Seq<char>
    decreases n,
{
    if n < 10 {
        seq![digit_char(n as int)]
    } else {
        decimal(n / 10).push(digit_char((n % 10) as int))
    }
}

/// The name of the property that stands for dictionary entry `index`.
pub open spec fn property_name_of(index: nat) -> Seq<char> {
    biome_prefix() + decimal(index)
}

proof fn lemma_digits_value_nonneg(s: Seq<char>)
    requires
        all_digits(s),
    ensures
        digits_value(s) >= 0,
    decreases s.len(),
{
    if s.len() > 0 {
        lemma_digits_value_nonneg(s.drop_last());
    }
}

/// Appending digits never makes the value of a digit string smaller.
proof fn lemma_digits_value_prefix(s: Seq<char>, k: int)
    requires
        all_digits(s),
        0 <= k <= s.len(),
    ensures
        digits_value(s.take(k)) <= digits_value(s),
    decreases s.len(),
{
    if k < s.len() {
        let t = s.drop_last();
        assert(t.take(k) =~= s.take(k));
        lemma_digits_value_prefix(t, k);
        lemma_digits_value_nonneg(t);
    } else {
        assert(s.take(k) =~= s);
    }
}

proof fn lemma_digits_value_step(s: Seq<char>, k: int)
    requires
        0 <= k < s.len(),
    ensures
        digits_value(s.take(k + 1)) == digits_value(s.take(k)) * 10 + digit_value(s[k]),
{
    assert(s.take(k + 1).drop_last() =~= s.take(k));
}

proof fn lemma_digit_char(d: int)
    requires
        0 <= d < 10,
    ensures
        is_digit(digit_char(d)),
        digit_value(digit_char(d)) == d,
{
}

/// The digits of `n` are digits, and read back as `n`.
pub proof fn lemma_decimal_digits(n: nat)
    ensures
        decimal(n).len() > 0,
        all_digits(decimal(n)),
        digits_value(decimal(n)) == n,
    decreases n,
{
    lemma_digit_char((n % 10) as int);
    if n < 10 {
        assert(decimal(n).drop_last() =~= Seq::<char>::empty());
        assert(decimal(n).last() == digit_char(n as int));
        assert(digits_value(decimal(n)) == digits_value(Seq::<char>::empty()) * 10 + digit_value(digit_char(n as int)));
    } else {
        lemma_decimal_digits(n / 10);
        let d = decimal(n);
        assert(d.drop_last() =~= decimal(n / 10));
        assert(d.last() == digit_char((n % 10) as int));
        assert(digits_value(d) == digits_value(decimal(n / 10)) * 10 + (n % 10));
        assert forall|i: int| 0 <= i < d.len() implies is_digit(#[trigger] d[i]) by {
            if i < d.len() - 1 {
                assert(d[i] == decimal(n / 10)[i]);
            }
        }
    }
}

/// Every name in the property list reads back as its own index: the text
/// written after `biome_data/` parses to the index it was made from.
pub proof fn lemma_property_name_round_trip(index: nat)
    requires
        index <= i32::MAX,
    ensures
        biome_property(property_name_of(index)) == BiomeProperty::Index(index as i32),
{
    let name = property_name_of(index);
    let d = decimal(index);
    lemma_decimal_digits(index);
    assert(name.take(11) =~= biome_prefix());
    assert(name.skip(11) =~= d);
    assert(is_digit(d[0]));
}

fn digit_str(d: usize) -> (s: &'static str)
    requires
        d < 10,
    ensures
        s@ == seq![digit_char(d as int)],
{
    if d == 0 {
        proof {
            reveal_strlit("0");
        }
        "0"
    } else if d == 1 {
        proof {
            reveal_strlit("1");
        }
        "1"
    } else if d == 2 {
        proof {
            reveal_strlit("2");
        }
        "2"
    } else if d == 3 {
        proof {
            reveal_strlit("3");
        }
        "3"
    } else if d == 4 {
        proof {
            reveal_strlit("4");
        }
        "4"
    } else if d == 5 {
        proof {
            reveal_strlit("5");
        }
        "5"
    } else if d == 6 {
        proof {
            reveal_strlit("6");
        }
        "6"
    } else if d == 7 {
        proof {
            reveal_strlit("7");
        }
        "7"
    } else if d == 8 {
        proof {
            reveal_strlit("8");
        }
        "8"
    } else {
        proof {
            reveal_strlit("9");
        }
        "9"
    }
}

fn append_decimal(s: &mut String, n: usize)
    ensures
        final(s)@ == old(s)@ + decimal(n as nat),
    decreases n,
{
    if n >= 10 {
        append_decimal(s, n / 10);
    }
    let digit = digit_str(n % 10);
    s.append(digit);
    proof {
        if n >= 10 {
            assert(decimal(n as nat) == decimal((n / 10) as nat).push(digit_char((n % 10) as int)));
        }
    }
    assert(final(s)@ =~= old(s)@ + decimal(n as nat));
}

/// The name `biome_data/<index>` of the property that stands for entry `index`.
pub fn property_name(index: usize) -> (name: String)
    ensures
        name@ == property_name_of(index as nat),
{
    let prefix = "biome_data/";
    proof {
        reveal_strlit("biome_data/");
    }
    let mut name = String::from_str(prefix);
    append_decimal(&mut name, index);
    name
}

/// Reads `s[start..]` as `i32::from_str` does.
fn parse_i32_from(s: &str, start: usize) -> (r: Option<i32>)
    requires
        start <= s@.len(),
    ensures
        r == parse_i32(s@.skip(start as int)),
{
    let ghost t = s@.skip(start as int);
    let n = s.unicode_len();
    let mut pos = start;
    let mut negative = false;
    if pos < n {
        let c = s.get_char(pos);
        if c == '-' {
            negative = true;
            pos = pos + 1;
        } else if c == '+' {
            pos = pos + 1;
        }
    }
    let body_start = pos;
    let ghost body = s@.subrange(body_start as int, n as int);
    assert(body =~= (if t.len() > 0 && (t[0] == '-' || t[0] == '+') { t.drop_first() } else { t }));
    assert(negative == (t.len() > 0 && t[0] == '-'));
    if pos == n {
        return None;
    }
    let mut magnitude: i64 = 0;
    while pos < n
        invariant
            body_start <= pos <= n,
            n == s@.len(),
            body == s@.subrange(body_start as int, n as int),
            all_digits(body.take(pos - body_start)),
            magnitude == digits_value(body.take(pos - body_start)),
            0 <= magnitude <= 2147483648,
            t == s@.skip(start as int),
            body == (if t.len() > 0 && (t[0] == '-' || t[0] == '+') { t.drop_first() } else { t }),
            negative == (t.len() > 0 && t[0] == '-'),
        decreases n - pos,
    {
        let c = s.get_char(pos);
        let k: usize = pos - body_start;
        assert(body[k as int] == c);
        if !('0' <= c && c <= '9') {
            assert(!all_digits(body));
            return None;
        }
        proof {
            lemma_digits_value_step(body, k as int);
        }
        let d: i64 = (c as u32 - '0' as u32) as i64;
        magnitude = magnitude * 10 + d;
        assert(all_digits(body.take(k + 1))) by {
            assert forall|i: int| 0 <= i < k + 1 implies is_digit(#[trigger] body.take(k + 1)[i]) by {
                if i < k {
                    assert(body.take(k + 1)[i] == body.take(k as int)[i]);
                }
            }
        }
        pos = pos + 1;
        if magnitude > 2147483648 {
            proof {
                if all_digits(body) {
                    lemma_digits_value_prefix(body, k + 1);
                }
            }
            return None;
        }
    }
    assert(body.take(body.len() as int) =~= body);
    let value: i64 = if negative { -magnitude } else { magnitude };
    if value < -2147483648 || value > 2147483647 {
        None
    } else {
        Some(value as i32)
    }
}

/// Classifies a property name: not a biome property, the index it names,
/// or a `biome_data/` name whose index is not a decimal `i32`.
pub fn parse_biome_property(name: &str) -> (r: BiomeProperty)
    ensures
        r == biome_property(name@),
{
    let prefix = "biome_data/";
    proof {
        reveal_strlit("biome_data/");
    }
    let n = name.unicode_len();
    if n < 11 {
        return BiomeProperty::Other;
    }
    let mut k: usize = 0;
    while k < 11
        invariant
            k <= 11,
            n == name@.len(),
            n >= 11,
            prefix@ == biome_prefix(),
            forall|j: int| 0 <= j < k ==> name@[j] == biome_prefix()[j],
        decreases 11 - k,
    {
        let c = name.get_char(k);
        let p = prefix.get_char(k);
        if c != p {
            assert(name@.take(11)[k as int] != biome_prefix()[k as int]);
            return BiomeProperty::Other;
        }
        k = k + 1;
    }
    assert(name@.take(11) =~= biome_prefix());
    match parse_i32_from(name, 11) {
        Some(i) => BiomeProperty::Index(i),
        None => BiomeProperty::Malformed,
    }
}

} // verus!
