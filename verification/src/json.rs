//! The JSON document yt-dlp prints about a link, as the preview reads it,
//! and the small formatters the preview uses: dates, durations and sizes.
use vstd::prelude::*;
use crate::text::{all_digits, chars_of, concat, decimal, decimal_string, is_digit, slice_chars, string_of, str_equal};

verus! {

/// A JSON number as the preview reads it.
#[derive(Debug)]
pub struct JsonNumber {
    /// The number as an unsigned integer, when it is one (`Value::as_u64`).
    pub unsigned: Option<u64>,
    /// The number rounded to the nearest integer, halves away from zero,
    /// negative values as 0 and values beyond `u64` as `u64::MAX`
    /// (`value.as_f64().round() as u64`).
    pub rounded: u64,
}

/// A JSON value. Object members keep the order in which they were read.
#[derive(Debug)]
pub enum JsonValue {
    Null,
    Bool(bool),
    Number(JsonNumber),
    Str(String),
    Array(Vec<JsonValue>),
    Object(Vec<(String, JsonValue)>),
}

// ---------------------------------------------------------------------------
// Specifications
// ---------------------------------------------------------------------------

/// The value of the first member named `key`.
pub open spec fn lookup(members: Seq<(String, JsonValue)>, key: Seq<char>) -> Option<JsonValue>
    decreases members.len(),
{
    if members.len() == 0 {
        None
    } else if members[0].0@ == key {
        Some(members[0].1)
    } else {
        lookup(members.drop_first(), key)
    }
}

/// `Value::get` with a member name.
pub open spec fn json_get(v: JsonValue, key: Seq<char>) -> Option<JsonValue> {
    match v {
        JsonValue::Object(m) => lookup(m@, key),
        _ => None,
    }
}

/// `Value::as_str`.
pub open spec fn json_str(v: JsonValue) -> Option<Seq<char>> {
    match v {
        JsonValue::Str(s) => Some(s@),
        _ => None,
    }
}

/// `Value::as_u64`.
pub open spec fn json_u64(v: JsonValue) -> Option<u64> {
    match v {
        JsonValue::Number(n) => n.unsigned,
        _ => None,
    }
}

/// `Value::as_array`.
pub open spec fn json_array(v: JsonValue) -> Option<Seq<JsonValue>> {
    match v {
        JsonValue::Array(a) => Some(a@),
        _ => None,
    }
}

/// `Value::as_object`.
pub open spec fn json_object(v: JsonValue) -> Option<Seq<(String, JsonValue)>> {
    match v {
        JsonValue::Object(m) => Some(m@),
        _ => None,
    }
}

/// The string member named `key`, if there is one.
pub open spec fn str_member(v: JsonValue, key: Seq<char>) -> Option<Seq<char>> {
    match json_get(v, key) {
        Some(x) => json_str(x),
        None => None,
    }
}

/// The unsigned member named `key`, if there is one.
pub open spec fn u64_member(v: JsonValue, key: Seq<char>) -> Option<u64> {
    match json_get(v, key) {
        Some(x) => json_u64(x),
        None => None,
    }
}

/// The first of the keys whose member is a string, else the fallback.
pub open spec fn string_from_keys(v: JsonValue, keys: Seq<Seq<char>>, fallback: Seq<char>) -> Seq<char>
    decreases keys.len(),
{
    if keys.len() == 0 {
        fallback
    } else {
        match str_member(v, keys[0]) {
            Some(s) => s,
            None => string_from_keys(v, keys.drop_first(), fallback),
        }
    }
}

/// `YYYYMMDD` shown as `YYYY-MM-DD`; other texts as they are.
pub open spec fn date_label(raw: Seq<char>) -> Seq<char> {
    if raw.len() == 8 && all_digits(raw) {
        raw.take(4) + "-"@ + raw.subrange(4, 6) + "-"@ + raw.skip(6)
    } else {
        raw
    }
}

/// A number with at least two digits (`{:02}`).
pub open spec fn two_digits(n: nat) -> Seq<char> {
    if n < 10 {
        "0"@ + decimal(n)
    } else {
        decimal(n)
    }
}

/// A duration in seconds as `HH:MM:SS`, or `MM:SS` under an hour.
pub open spec fn clock_label(total: nat) -> Seq<char> {
    let hours = total / 3600;
    let minutes = (total % 3600) / 60;
    let secs = total % 60;
    if hours > 0 {
        two_digits(hours) + ":"@ + two_digits(minutes) + ":"@ + two_digits(secs)
    } else {
        two_digits(minutes) + ":"@ + two_digits(secs)
    }
}

/// The duration shown for a JSON value: a clock for a number, `--:--` otherwise.
pub open spec fn duration_text(v: Option<JsonValue>) -> Seq<char> {
    match v {
        Some(JsonValue::Number(n)) => clock_label(n.rounded as nat),
        _ => "--:--"@,
    }
}

// ---------------------------------------------------------------------------
// Executable functions
// ---------------------------------------------------------------------------

/// `Value::get`.
pub fn json_get_member<'a>(v: &'a JsonValue, key: &str) -> (r: Option<&'a JsonValue>)
    ensures
        match json_get(*v, key@) {
            Some(x) => r matches Some(y) && *y == x,
            None => r is None,
        },
{
    match v {
        JsonValue::Object(members) => {
            let mut i: usize = 0;
            assert(members@.skip(0) =~= members@);
            while i < members.len()
                invariant
                    i <= members@.len(),
                    json_get(*v, key@) == lookup(members@, key@),
                    lookup(members@, key@) == lookup(members@.skip(i as int), key@),
                decreases members.len() - i,
            {
                assert(members@.skip(i as int)[0] == members@[i as int]);
                if str_equal(members[i].0.as_str(), key) {
                    return Some(&members[i].1);
                }
                assert(members@.skip(i as int).drop_first() =~= members@.skip(i + 1));
                i = i + 1;
            }
            None
        },
        _ => None,
    }
}

/// `Value::as_str`.
pub fn json_as_str(v: &JsonValue) -> (r: Option<&str>)
    ensures
        match json_str(*v) {
            Some(s) => r matches Some(t) && t@ == s,
            None => r is None,
        },
{
    match v {
        JsonValue::Str(s) => Some(s.as_str()),
        _ => None,
    }
}

/// `Value::as_u64`.
pub fn json_as_u64(v: &JsonValue) -> (r: Option<u64>)
    ensures
        r == json_u64(*v),
{
    match v {
        JsonValue::Number(n) => n.unsigned,
        _ => None,
    }
}

/// `Value::as_array`.
pub fn json_as_array(v: &JsonValue) -> (r: Option<&Vec<JsonValue>>)
    ensures
        match json_array(*v) {
            Some(a) => r matches Some(b) && b@ == a,
            None => r is None,
        },
{
    match v {
        JsonValue::Array(a) => Some(a),
        _ => None,
    }
}

/// `Value::as_object`.
pub fn json_as_object(v: &JsonValue) -> (r: Option<&Vec<(String, JsonValue)>>)
    ensures
        match json_object(*v) {
            Some(m) => r matches Some(b) && b@ == m,
            None => r is None,
        },
{
    match v {
        JsonValue::Object(m) => Some(m),
        _ => None,
    }
}

/// The string member named `key`.
pub fn str_member_of<'a>(v: &'a JsonValue, key: &str) -> (r: Option<&'a str>)
    ensures
        match str_member(*v, key@) {
            Some(s) => r matches Some(t) && t@ == s,
            None => r is None,
        },
{
    match json_get_member(v, key) {
        Some(x) => json_as_str(x),
        None => None,
    }
}

/// The unsigned member named `key`.
pub fn u64_member_of(v: &JsonValue, key: &str) -> (r: Option<u64>)
    ensures
        r == u64_member(*v, key@),
{
    match json_get_member(v, key) {
        Some(x) => json_as_u64(x),
        None => None,
    }
}

/// `string_from`: the first of the keys whose member is a string, else the fallback.
pub fn string_from(value: &JsonValue, keys: &Vec<&str>, fallback: String) -> (r: String)
    ensures
        r@ == string_from_keys(*value, keys@.map_values(|k: &str| k@), fallback@),
{
    let ghost ks = keys@.map_values(|k: &str| k@);
    let mut i: usize = 0;
    assert(ks.skip(0) =~= ks);
    while i < keys.len()
        invariant
            i <= keys@.len(),
            ks == keys@.map_values(|k: &str| k@),
            string_from_keys(*value, ks, fallback@) == string_from_keys(*value, ks.skip(i as int), fallback@),
        decreases keys.len() - i,
    {
        assert(ks.skip(i as int)[0] == keys@[i as int]@);
        match str_member_of(value, keys[i]) {
            Some(s) => {
                return s.to_string();
            },
            None => {},
        }
        assert(ks.skip(i as int).drop_first() =~= ks.skip(i + 1));
        i = i + 1;
    }
    fallback
}

/// `format_date`: `YYYYMMDD` as `YYYY-MM-DD`.
pub fn format_date(raw: &str) -> (r: String)
    ensures
        r@ == date_label(raw@),
{
    let v = chars_of(raw);
    if v.len() == 8 {
        let mut i: usize = 0;
        while i < 8
            invariant
                v.len() == 8,
                v@ == raw@,
                i <= 8,
                forall|k: int| 0 <= k < i ==> is_digit(v@[k]),
            decreases 8 - i,
        {
            if !('0' <= v[i] && v[i] <= '9') {
                assert(!is_digit(raw@[i as int]));
                return raw.to_string();
            }
            i = i + 1;
        }
        let a = string_of(&slice_chars(&v, 0, 4));
        let b = string_of(&slice_chars(&v, 4, 6));
        let c = string_of(&slice_chars(&v, 6, 8));
        let ab = concat(concat(a.as_str(), "-").as_str(), b.as_str());
        let r = concat(concat(ab.as_str(), "-").as_str(), c.as_str());
        assert(v@.skip(6) =~= v@.subrange(6, 8));
        assert(v@.take(4) =~= v@.subrange(0, 4));
        return r;
    }
    raw.to_string()
}

/// A number with at least two digits.
pub fn two_digit_string(n: u64) -> (r: String)
    ensures
        r@ == two_digits(n as nat),
{
    let d = decimal_string(n as u128);
    if n < 10 {
        concat("0", d.as_str())
    } else {
        d
    }
}

/// `duration_label`: the duration shown for a JSON value.
pub fn duration_label(value: Option<&JsonValue>) -> (r: String)
    ensures
        r@ == duration_text(match value {
            Some(v) => Some(*v),
            None => None,
        }),
{
    match value {
        Some(JsonValue::Number(n)) => {
            let total = n.rounded;
            let hours = total / 3600;
            let minutes = (total % 3600) / 60;
            let secs = total % 60;
            let m = two_digit_string(minutes);
            let s = two_digit_string(secs);
            if hours > 0 {
                let h = two_digit_string(hours);
                let a = concat(h.as_str(), ":");
                let b = concat(a.as_str(), m.as_str());
                let c = concat(b.as_str(), ":");
                concat(c.as_str(), s.as_str())
            } else {
                let a = concat(m.as_str(), ":");
                concat(a.as_str(), s.as_str())
            }
        },
        _ => "--:--".to_string(),
    }
}


// ---------------------------------------------------------------------------
// Sizes
// ---------------------------------------------------------------------------

/// Two to the power `n`.
pub open spec fn pow2(n: nat) -> nat
    decreases n,
{
    if n == 0 {
        1
    } else {
        2 * pow2((n - 1) as nat)
    }
}

/// The number of binary digits of `b`.
pub open spec fn bit_len(b: nat) -> nat
    decreases b,
{
    if b == 0 {
        0
    } else {
        1 + bit_len(b / 2)
    }
}

/// `q` rounded up when the remainder `r` of a division by `d` is more than
/// half of `d`, or exactly half and `q` is odd (round half to even).
pub open spec fn round_half_even(q: nat, r: nat, d: nat) -> nat {
    if 2 * r > d || (2 * r == d && q % 2 == 1) {
        q + 1
    } else {
        q
    }
}

/// The value of `b as f64`: `b` itself below 2^53, else `b` rounded to 53
/// significant bits, halves to even.
pub open spec fn as_double(b: nat) -> nat {
    if b < pow2(53) {
        b
    } else {
        let e = (bit_len(b) - 53) as nat;
        round_half_even(b / pow2(e), b % pow2(e), pow2(e)) * pow2(e)
    }
}

/// 1024 to the power `k`.
pub open spec fn pow1024(k: nat) -> nat
    decreases k,
{
    if k == 0 {
        1
    } else {
        1024 * pow1024((k - 1) as nat)
    }
}

/// The unit a size is shown in: the largest of B, KB, MB, GB, TB it reaches.
pub open spec fn size_unit(f: nat, k: nat) -> nat
    decreases 4 - k,
{
    if k >= 4 || f < pow1024(k + 1) {
        k
    } else {
        size_unit(f, k + 1)
    }
}

/// The name of a size unit.
pub open spec fn unit_name(k: nat) -> Seq<char> {
    if k == 0 {
        "B"@
    } else if k == 1 {
        "KB"@
    } else if k == 2 {
        "MB"@
    } else if k == 3 {
        "GB"@
    } else {
        "TB"@
    }
}

/// A byte count in its unit with one decimal, as `format!("{:.1} {}")` shows
/// the floating-point size (halves rounded to even); `大小未知` when unknown.
pub open spec fn size_text(bytes: Option<u64>) -> Seq<char> {
    match bytes {
        Some(b) => {
            let f = as_double(b as nat);
            let k = size_unit(f, 0);
            let d = pow1024(k);
            let tenths = round_half_even((10 * f) / d, (10 * f) % d, d);
            decimal(tenths / 10) + "."@ + decimal(tenths % 10) + " "@ + unit_name(k)
        },
        None => "大小未知"@,
    }
}

proof fn lemma_pow2_pos(n: nat)
    ensures
        pow2(n) >= 1,
    decreases n,
{
    if n > 0 {
        lemma_pow2_pos((n - 1) as nat);
    }
}

proof fn lemma_pow2_mono(a: nat, b: nat)
    requires
        a <= b,
    ensures
        pow2(a) <= pow2(b),
    decreases b,
{
    if a < b {
        lemma_pow2_mono(a, (b - 1) as nat);
        lemma_pow2_pos((b - 1) as nat);
    }
}

proof fn lemma_bit_len_bound(b: nat, n: nat)
    requires
        b < pow2(n),
    ensures
        bit_len(b) <= n,
    decreases n,
{
    if b > 0 {
        assert(n > 0);
        lemma_bit_len_bound(b / 2, (n - 1) as nat);
    }
}

proof fn lemma_pow2_values()
    ensures
        pow2(11) == 2048,
        pow2(53) == 9007199254740992,
        pow2(64) == 18446744073709551616,
{
    reveal_with_fuel(pow2, 65);
}

proof fn lemma_bit_len_high(b: nat)
    ensures
        b < pow2(bit_len(b)),
    decreases b,
{
    if b > 0 {
        lemma_bit_len_high(b / 2);
    }
}

/// `bytes as f64` as an integer.
fn double_of(b: u64) -> (r: u128)
    ensures
        r as nat == as_double(b as nat),
        r <= 18446744073709553664,
{
    proof {
        lemma_pow2_values();
    }
    if b < 9007199254740992 {
        return b as u128;
    }
    proof {
        lemma_bit_len_bound(b as nat, 64);
        lemma_bit_len_high(b as nat);
        if bit_len(b as nat) <= 53 {
            lemma_pow2_mono(bit_len(b as nat), 53);
        }
    }
    let mut n: u32 = 0;
    let mut m: u64 = b;
    while m > 0
        invariant
            bit_len(b as nat) == n + bit_len(m as nat),
            bit_len(b as nat) <= 64,
        decreases m,
    {
        m = m / 2;
        n = n + 1;
    }
    assert(n as nat == bit_len(b as nat));
    let e: u32 = n - 53;
    let mut p: u128 = 1;
    let mut i: u32 = 0;
    while i < e
        invariant
            i <= e,
            e <= 11,
            p as nat == pow2(i as nat),
            pow2(11) == 2048,
        decreases e - i,
    {
        proof {
            lemma_pow2_mono((i + 1) as nat, 11);
            assert(pow2((i + 1) as nat) == 2 * pow2(i as nat));
        }
        p = p * 2;
        i = i + 1;
    }
    proof {
        lemma_pow2_mono(e as nat, 11);
        lemma_pow2_pos(e as nat);
    }
    let q: u128 = (b as u128) / p;
    let rem: u128 = (b as u128) % p;
    let rounded: u128 = if 2 * rem > p || (2 * rem == p && q % 2 == 1) {
        q + 1
    } else {
        q
    };
    assert(q * p <= b) by (nonlinear_arith)
        requires
            q == (b as u128) / p,
            p >= 1,
    ;
    assert(rounded * p <= b as u128 + p) by (nonlinear_arith)
        requires
            rounded <= q + 1,
            q * p <= b,
    ;
    rounded * p
}

/// `byte_label`: a byte count in B, KB, MB, GB or TB with one decimal.
pub fn byte_label(value: Option<u64>) -> (r: String)
    ensures
        r@ == size_text(value),
{
    match value {
        None => "大小未知".to_string(),
        Some(b) => {
            let f = double_of(b);
            proof {
                reveal_with_fuel(pow1024, 6);
            }
            let mut k: u32 = 0;
            let mut d: u128 = 1;
            while k < 4 && f >= d * 1024
                invariant
                    k <= 4,
                    d as nat == pow1024(k as nat),
                    d <= 1099511627776,
                    f <= 18446744073709553664,
                    size_unit(f as nat, 0) == size_unit(f as nat, k as nat),
                decreases 4 - k,
            {
                proof {
                    reveal_with_fuel(pow1024, 6);
                    assert(k == 0 || k == 1 || k == 2 || k == 3);
                }
                d = d * 1024;
                k = k + 1;
            }
            assert(size_unit(f as nat, k as nat) == k as nat);
            proof {
                reveal_with_fuel(pow1024, 6);
            }
            let ten_f: u128 = 10 * f;
            let q: u128 = ten_f / d;
            let rem: u128 = ten_f % d;
            let tenths: u128 = if 2 * rem > d || (2 * rem == d && q % 2 == 1) {
                q + 1
            } else {
                q
            };
            let unit: &str = if k == 0 {
                "B"
            } else if k == 1 {
                "KB"
            } else if k == 2 {
                "MB"
            } else if k == 3 {
                "GB"
            } else {
                "TB"
            };
            let whole = decimal_string(tenths / 10);
            let frac = decimal_string(tenths % 10);
            let a = concat(whole.as_str(), ".");
            let b2 = concat(a.as_str(), frac.as_str());
            let c = concat(b2.as_str(), " ");
            concat(c.as_str(), unit)
        },
    }
}

} // verus!
