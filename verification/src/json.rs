//! JSON values as the weather service sends them, and the reading of a weather
//! report out of one.

use lite_json::JsonValue;
use vstd::prelude::*;
use vstd::string::StrSliceExecFns;
use vstd::utf8::{decode_utf8, encode_scalar, encode_utf8, valid_utf8};

use crate::types::HttpError;

verus! {

/// A JSON number as written: `integer.fraction` (the fraction with
/// `fraction_length` digits, leading zeros included) times ten to `exponent`,
/// negated when `negative` holds.
#[derive(Debug, Clone, Copy, PartialEq, Eq)]
pub struct JsonNumber {
    pub integer: u64,
    pub fraction: u64,
    pub fraction_length: u32,
    pub exponent: i32,
    pub negative: bool,
}

/// A JSON value. An object keeps its entries in the order of the text.
#[derive(Debug)]
pub enum Json {
    Object(Vec<(Vec<char>, Json)>),
    Array(Vec<Json>),
    Text(Vec<char>),
    Number(JsonNumber),
    Boolean(bool),
    Null,
}

#[verifier::external_type_specification]
#[verifier::external_body]
pub struct ExLiteJsonValue(JsonValue);

/// The value that `lite_json::parse_json` reads from `text`, or `None` where it
/// refuses the text.
pub uninterp spec fn parsed_json(text: Seq<char>) -> Option<Json>;

impl Json {
    /// Moves a `lite_json` value into the library's own form, variant for variant.
    #[verifier::external_body]
    fn from_lite(value: JsonValue) -> Json {
        match value {
            JsonValue::Object(o) => Json::Object(o.into_iter().map(|(k, v)| (k, Json::from_lite(v))).collect()),
            JsonValue::Array(a) => Json::Array(a.into_iter().map(Json::from_lite).collect()),
            JsonValue::String(s) => Json::Text(s),
            JsonValue::Number(n) => Json::Number(JsonNumber { integer: n.integer, fraction: n.fraction, fraction_length: n.fraction_length, exponent: n.exponent, negative: n.negative }),
            JsonValue::Boolean(b) => Json::Boolean(b),
            JsonValue::Null => Json::Null,
        }
    }
}

/// Parses JSON text with `lite_json::parse_json` (at most 100 levels of nesting)
/// and moves the value into the library's form. The parser builds numbers in
/// unchecked `u64` and `i32` arithmetic and counts positions in `u32`, so the
/// numbers outside the text's string literals must fit those types
/// ([`numbers_fit`]) and its length must fit `u32`. The result is named, not described: the contract claims only that it
/// is a function of the text, and leaves unsaid which texts `lite_json` accepts
/// and what it reads from them.
#[verifier::external_body]
fn parse_json_text(text: &str) -> (parsed: Option<Json>)
    requires
        parser_can_read(text@),
    ensures
        parsed == parsed_json(text@),
{
    match lite_json::parse_json(text) {
        Ok(value) => Some(Json::from_lite(value)),
        Err(_) => None,
    }
}

pub open spec fn is_digit(c: char) -> bool {
    '0' <= c && c <= '9'
}

/// Where a left-to-right reading of `s` stands before position `n`: inside a
/// string literal, and just after a backslash in one. A string opens and closes
/// at a double quote; inside it a backslash takes the next character with it.
pub open spec fn scan_state(s: Seq<char>, n: int) -> (bool, bool)
    decreases n,
{
    if n <= 0 {
        (false, false)
    } else {
        let (inside, escaped) = scan_state(s, n - 1);
        let c = s[n - 1];
        if !inside {
            (c == '"', false)
        } else if escaped {
            (true, false)
        } else if c == '\\' {
            (true, true)
        } else if c == '"' {
            (false, false)
        } else {
            (true, false)
        }
    }
}

/// The character at `i` stands inside a string literal.
pub open spec fn in_string(s: Seq<char>, i: int) -> bool {
    scan_state(s, i).0
}

/// Position `i` follows an exponent mark: `e` or `E`, possibly then a sign.
pub open spec fn after_exponent_mark(s: Seq<char>, i: int) -> bool {
    ||| (1 <= i && (s[i - 1] == 'e' || s[i - 1] == 'E'))
    ||| (2 <= i && (s[i - 1] == '+' || s[i - 1] == '-') && (s[i - 2] == 'e' || s[i - 2] == 'E'))
}

/// Every character from `i` to `j` (both included) is a digit.
pub open spec fn digit_run(s: Seq<char>, i: int, j: int) -> bool {
    &&& 0 <= i <= j < s.len()
    &&& forall|k: int| i <= k <= j ==> is_digit(#[trigger] s[k])
}

/// The decimal value of the digits from `i` to `j` (both included).
pub open spec fn digits_value(s: Seq<char>, i: int, j: int) -> int
    decreases j - i + 1,
{
    if j < i {
        0
    } else {
        digits_value(s, i, j - 1) * 10 + (s[j] as int - '0' as int)
    }
}

/// Every run of digits outside string literals has a value that fits in `u64`,
/// and one right after an exponent mark a value that fits in `i32`: so every
/// integer part and fraction of a number fits in `u64`, and every exponent in
/// `i32`, as the parser builds them.
pub open spec fn numbers_fit(s: Seq<char>) -> bool {
    forall|i: int, j: int|
        #[trigger] digit_run(s, i, j) && !in_string(s, i) ==> digits_value(s, i, j) <= u64::MAX && (
        after_exponent_mark(s, i) ==> digits_value(s, i, j) <= i32::MAX)
}

/// The texts that `lite_json::parse_json` reads without arithmetic overflow.
pub open spec fn parser_can_read(s: Seq<char>) -> bool {
    &&& numbers_fit(s)
    &&& s.len() + 8 <= u32::MAX
}

proof fn lemma_scan_prefix(all: Seq<char>, n: int, i: int)
    requires
        0 <= i <= n <= all.len(),
    ensures
        scan_state(all.take(n), i) == scan_state(all, i),
    decreases i,
{
    if i > 0 {
        lemma_scan_prefix(all, n, i - 1);
        assert(all.take(n)[i - 1] == all[i - 1]);
    }
}

proof fn lemma_value_prefix(all: Seq<char>, n: int, i: int, j: int)
    requires
        0 <= i,
        j < n <= all.len(),
    ensures
        digits_value(all.take(n), i, j) == digits_value(all, i, j),
    decreases j - i + 1,
{
    if j >= i {
        lemma_value_prefix(all, n, i, j - 1);
        assert(all.take(n)[j] == all[j]);
    }
}

proof fn lemma_runs_of_prefix(all: Seq<char>, n: int, i: int, j: int)
    requires
        0 <= i <= j < n <= all.len(),
    ensures
        digit_run(all.take(n), i, j) == digit_run(all, i, j),
        after_exponent_mark(all.take(n), i) == after_exponent_mark(all, i),
        in_string(all.take(n), i) == in_string(all, i),
        digits_value(all.take(n), i, j) == digits_value(all, i, j),
{
    if digit_run(all, i, j) {
        assert forall|k: int| i <= k <= j implies is_digit(#[trigger] all.take(n)[k]) by {
            assert(is_digit(all[k]));
        }
    }
    if digit_run(all.take(n), i, j) {
        assert forall|k: int| i <= k <= j implies is_digit(#[trigger] all[k]) by {
            assert(is_digit(all.take(n)[k]));
        }
    }
    lemma_scan_prefix(all, n, i);
    lemma_value_prefix(all, n, i, j);
}

/// A backslash is only ever pending inside a string.
proof fn lemma_escape_inside(s: Seq<char>, n: int)
    ensures
        scan_state(s, n).1 ==> scan_state(s, n).0,
    decreases n,
{
    if n > 0 {
        lemma_escape_inside(s, n - 1);
    }
}

/// Digits that start outside a string stay outside it.
proof fn lemma_run_outside(s: Seq<char>, a: int, b: int, k: int)
    requires
        digit_run(s, a, b),
        !in_string(s, a),
        a <= k <= b + 1,
    ensures
        scan_state(s, k) == (false, false),
    decreases k - a,
{
    if k == a {
        lemma_escape_inside(s, a);
    } else {
        lemma_run_outside(s, a, b, k - 1);
        assert(is_digit(s[k - 1]));
    }
}

proof fn lemma_value_nonneg(s: Seq<char>, i: int, j: int)
    requires
        forall|k: int| i <= k <= j ==> is_digit(#[trigger] s[k]),
    ensures
        digits_value(s, i, j) >= 0,
    decreases j - i + 1,
{
    if j >= i {
        lemma_value_nonneg(s, i, j - 1);
        assert(is_digit(s[j]));
    }
}

/// Dropping leading digits does not raise the value.
proof fn lemma_value_suffix(s: Seq<char>, start: int, a: int, j: int)
    requires
        start <= a,
        forall|k: int| start <= k <= j ==> is_digit(#[trigger] s[k]),
    ensures
        digits_value(s, a, j) <= digits_value(s, start, j),
    decreases j - a + 1,
{
    if j < a {
        lemma_value_nonneg(s, start, j);
    } else {
        lemma_value_suffix(s, start, a, j - 1);
        assert(is_digit(s[j]));
    }
}

proof fn lemma_digit_step(all: Seq<char>, i: int, start: int)
    requires
        0 <= start <= i < all.len(),
        forall|k: int| start <= k < i ==> is_digit(#[trigger] all[k]),
        start == 0 || !(is_digit(all[start - 1]) && !in_string(all, start - 1)),
        is_digit(all[i]),
        !in_string(all, start),
        digits_value(all, start, i) <= u64::MAX,
        after_exponent_mark(all, start) ==> digits_value(all, start, i) <= i32::MAX,
        numbers_fit(all.take(i)),
    ensures
        numbers_fit(all.take(i + 1)),
{
    let after = all.take(i + 1);
    assert forall|a: int, b: int| #[trigger] digit_run(after, a, b) && !in_string(after, a) implies digits_value(
        after,
        a,
        b,
    ) <= u64::MAX && (after_exponent_mark(after, a) ==> digits_value(after, a, b) <= i32::MAX) by {
        lemma_runs_of_prefix(all, i + 1, a, b);
        if b < i {
            lemma_runs_of_prefix(all, i, a, b);
            assert(digit_run(all.take(i), a, b));
        } else {
            if a < start {
                lemma_run_outside(all, a, b, start - 1);
                assert(is_digit(all[start - 1]));
            }
            assert forall|k: int| start <= k <= i implies is_digit(#[trigger] all[k]) by {}
            lemma_value_suffix(all, start, a, i);
            if a > start {
                assert(is_digit(all[a - 1]));
            }
        }
    }
}

proof fn lemma_other_step(all: Seq<char>, i: int)
    requires
        0 <= i < all.len(),
        !is_digit(all[i]) || in_string(all, i),
        numbers_fit(all.take(i)),
    ensures
        numbers_fit(all.take(i + 1)),
{
    let after = all.take(i + 1);
    assert forall|a: int, b: int| #[trigger] digit_run(after, a, b) && !in_string(after, a) implies digits_value(
        after,
        a,
        b,
    ) <= u64::MAX && (after_exponent_mark(after, a) ==> digits_value(after, a, b) <= i32::MAX) by {
        lemma_runs_of_prefix(all, i + 1, a, b);
        if b == i {
            lemma_run_outside(all, a, b, i);
            assert(is_digit(all[i]));
        } else {
            lemma_runs_of_prefix(all, i, a, b);
            assert(digit_run(all.take(i), a, b));
        }
    }
}

/// Whether the numbers of `text`, outside its string literals, are small enough
/// for the parser.
pub fn numbers_fit_in(text: &str) -> (fit: bool)
    ensures
        fit == numbers_fit(text@),
{
    let n = text.unicode_len();
    let ghost all = text@;
    let cap: u128 = 0x1_0000_0000_0000_0000;
    let mut i: usize = 0;
    let mut inside = false;
    let mut escaped = false;
    let mut start: usize = 0;
    let mut value: u128 = 0;
    let mut mark = false;
    let mut prev: char = ' ';
    assert(all.take(0) =~= Seq::<char>::empty());
    while i < n
        invariant
            n == all.len(),
            all == text@,
            cap == 0x1_0000_0000_0000_0000,
            0 <= start <= i <= n,
            (inside, escaped) == scan_state(all, i as int),
            forall|k: int| start <= k < i ==> is_digit(#[trigger] all[k]),
            start < i ==> !in_string(all, start as int),
            start == 0 || !(is_digit(all[start - 1]) && !in_string(all, start - 1)),
            value == (if digits_value(all, start as int, i - 1) < cap {
                digits_value(all, start as int, i - 1)
            } else {
                cap as int
            }),
            mark == after_exponent_mark(all, start as int),
            i > 0 ==> prev == all[i - 1],
            numbers_fit(all.take(i as int)),
        decreases n - i,
    {
        let c = text.get_char(i);
        if !inside && '0' <= c && c <= '9' {
            let d = (c as u32 - '0' as u32) as u128;
            proof {
                lemma_value_nonneg(all, start as int, i - 1);
            }
            if value < cap {
                value = value * 10 + d;
                if value > cap {
                    value = cap;
                }
            }
            assert(digits_value(all, start as int, i as int) == digits_value(all, start as int, i - 1)
                * 10 + d);
            if value > 0xFFFF_FFFF_FFFF_FFFF || (mark && value > 0x7FFF_FFFF) {
                assert(digit_run(all, start as int, i as int));
                assert(!numbers_fit(all));
                return false;
            }
            proof {
                lemma_digit_step(all, i as int, start as int);
            }
        } else {
            proof {
                lemma_other_step(all, i as int);
            }
            if inside {
                if escaped {
                    escaped = false;
                } else if c == '\\' {
                    escaped = true;
                } else if c == '"' {
                    inside = false;
                }
            } else {
                inside = c == '"';
            }
            mark = c == 'e' || c == 'E' || ((c == '+' || c == '-') && i > 0 && (prev == 'e' || prev
                == 'E'));
            start = i + 1;
            value = 0;
        }
        prev = c;
        i = i + 1;
    }
    assert(all.take(n as int) =~= all);
    true
}

/// Reads bytes as UTF-8 text with `core::str::from_utf8`, which accepts exactly
/// the well-formed UTF-8 sequences and decodes them.
#[verifier::external_body]
fn utf8_text(bytes: &[u8]) -> (text: Option<&str>)
    ensures
        text is Some <==> valid_utf8(bytes@),
        text matches Some(t) ==> t@ == decode_utf8(bytes@),
{
    core::str::from_utf8(bytes).ok()
}


/// Appending a character to text appends its encoding to the text's encoding.
pub proof fn lemma_encode_utf8_push(s: Seq<char>, c: char)
    ensures
        encode_utf8(s.push(c)) == encode_utf8(s) + encode_scalar(c as u32),
    decreases s.len(),
{
    if s.len() == 0 {
        assert(s.push(c).drop_first() =~= Seq::<char>::empty());
        assert(encode_utf8(Seq::<char>::empty()) == Seq::<u8>::empty());
        assert(encode_utf8(s) == Seq::<u8>::empty());
        assert(encode_utf8(s.push(c)) =~= encode_scalar(c as u32));
    } else {
        lemma_encode_utf8_push(s.drop_first(), c);
        assert(s.push(c).drop_first() =~= s.drop_first().push(c));
        assert(s.push(c)[0] == s[0]);
        assert(encode_utf8(s.push(c)) =~= encode_utf8(s) + encode_scalar(c as u32));
    }
}

/// Appends the UTF-8 encoding of `c` to `out`.
fn push_utf8(out: &mut Vec<u8>, c: char)
    ensures
        final(out)@ == old(out)@ + encode_scalar(c as u32),
{
    let v = c as u32;
    if v <= 0x7F {
        out.push((v & 0x7F) as u8);
    } else if v <= 0x7FF {
        out.push(0xC0u8 | ((v >> 6) & 0x1F) as u8);
        out.push(0x80u8 | (v & 0x3F) as u8);
    } else if v <= 0xFFFF {
        out.push(0xE0u8 | ((v >> 12) & 0x0F) as u8);
        out.push(0x80u8 | ((v >> 6) & 0x3F) as u8);
        out.push(0x80u8 | (v & 0x3F) as u8);
    } else {
        out.push(0xF0u8 | ((v >> 18) & 0x7) as u8);
        out.push(0x80u8 | ((v >> 12) & 0x3F) as u8);
        out.push(0x80u8 | ((v >> 6) & 0x3F) as u8);
        out.push(0x80u8 | (v & 0x3F) as u8);
    }
}

/// The UTF-8 encoding of `chars`.
pub fn utf8_bytes(chars: &Vec<char>) -> (bytes: Vec<u8>)
    ensures
        bytes@ == encode_utf8(chars@),
{
    let mut bytes: Vec<u8> = Vec::new();
    let n = chars.len();
    let mut i: usize = 0;
    assert(chars@.take(0) =~= Seq::<char>::empty());
    while i < n
        invariant
            n == chars@.len(),
            0 <= i <= n,
            bytes@ == encode_utf8(chars@.take(i as int)),
        decreases n - i,
    {
        let c = chars[i];
        proof {
            lemma_encode_utf8_push(chars@.take(i as int), c);
            assert(chars@.take(i as int).push(c) =~= chars@.take(i + 1));
        }
        push_utf8(&mut bytes, c);
        i = i + 1;
    }
    assert(chars@.take(n as int) =~= chars@);
    bytes
}


/// The value of the `i`-th entry of an object, counting from 0 in text order.
pub open spec fn entry_value(j: Json, i: int) -> Option<Json> {
    match j {
        Json::Object(entries) => if 0 <= i < entries@.len() {
            Some(entries@[i].1)
        } else {
            None
        },
        _ => None,
    }
}

/// The `i`-th item of an array.
pub open spec fn item_at(j: Json, i: int) -> Option<Json> {
    match j {
        Json::Array(items) => if 0 <= i < items@.len() {
            Some(items@[i])
        } else {
            None
        },
        _ => None,
    }
}

pub open spec fn and_entry(o: Option<Json>, i: int) -> Option<Json> {
    match o {
        Some(j) => entry_value(j, i),
        None => None,
    }
}

pub open spec fn and_item(o: Option<Json>, i: int) -> Option<Json> {
    match o {
        Some(j) => item_at(j, i),
        None => None,
    }
}

/// The characters of a string value.
pub open spec fn text_of(o: Option<Json>) -> Option<Seq<char>> {
    match o {
        Some(Json::Text(chars)) => Some(chars@),
        _ => None,
    }
}

/// The number of a number value.
pub open spec fn number_of(o: Option<Json>) -> Option<JsonNumber> {
    match o {
        Some(Json::Number(n)) => Some(n),
        _ => None,
    }
}

pub open spec fn opt_value(o: Option<&Json>) -> Option<Json> {
    match o {
        Some(j) => Some(*j),
        None => None,
    }
}

/// Where the weather service puts each reading, by position: `weather[0]` is the
/// 2nd entry's first item, `main` the 4th entry, `wind` the 6th, `clouds` the 7th,
/// `dt` the 8th, `sys` the 9th and `name` the 12th.
pub open spec fn main_at(j: Json) -> Option<Json> {
    and_entry(and_item(entry_value(j, 1), 0), 1)
}

pub open spec fn description_at(j: Json) -> Option<Json> {
    and_entry(and_item(entry_value(j, 1), 0), 2)
}

pub open spec fn icon_at(j: Json) -> Option<Json> {
    and_entry(and_item(entry_value(j, 1), 0), 3)
}

pub open spec fn temp_at(j: Json) -> Option<Json> {
    and_entry(entry_value(j, 3), 0)
}

pub open spec fn humidity_at(j: Json) -> Option<Json> {
    and_entry(entry_value(j, 3), 5)
}

pub open spec fn wind_at(j: Json) -> Option<Json> {
    and_entry(entry_value(j, 5), 0)
}

pub open spec fn clouds_at(j: Json) -> Option<Json> {
    and_entry(entry_value(j, 6), 0)
}

pub open spec fn time_at(j: Json) -> Option<Json> {
    entry_value(j, 7)
}

pub open spec fn sunrise_at(j: Json) -> Option<Json> {
    and_entry(entry_value(j, 8), 3)
}

pub open spec fn sunset_at(j: Json) -> Option<Json> {
    and_entry(entry_value(j, 8), 4)
}

pub open spec fn city_at(j: Json) -> Option<Json> {
    entry_value(j, 11)
}

/// The value holds every reading where the weather service puts it.
pub open spec fn has_weather_layout(j: Json) -> bool {
    &&& text_of(main_at(j)) is Some
    &&& text_of(description_at(j)) is Some
    &&& text_of(icon_at(j)) is Some
    &&& text_of(city_at(j)) is Some
    &&& number_of(temp_at(j)) is Some
    &&& number_of(humidity_at(j)) is Some
    &&& number_of(wind_at(j)) is Some
    &&& number_of(clouds_at(j)) is Some
    &&& number_of(time_at(j)) is Some
    &&& number_of(sunrise_at(j)) is Some
    &&& number_of(sunset_at(j)) is Some
}

/// `b` is `a` with the keys of objects possibly renamed, and members or items
/// possibly appended at the end of any object or array.
pub open spec fn rekeyed(a: Json, b: Json) -> bool
    decreases a,
{
    match a {
        Json::Object(ea) => match b {
            Json::Object(eb) => ea@.len() <= eb@.len() && forall|i: int|
                0 <= i < ea@.len() ==> rekeyed(#[trigger] ea@[i].1, eb@[i].1),
            _ => false,
        },
        Json::Array(ia) => match b {
            Json::Array(ib) => ia@.len() <= ib@.len() && forall|i: int|
                0 <= i < ia@.len() ==> rekeyed(#[trigger] ia@[i], ib@[i]),
            _ => false,
        },
        _ => a == b,
    }
}

/// Where `a` has a value, `b` has one that is `a`'s, rekeyed.
pub open spec fn follows(a: Option<Json>, b: Option<Json>) -> bool {
    match a {
        Some(x) => b matches Some(y) && rekeyed(x, y),
        None => true,
    }
}

proof fn lemma_follows_entry(a: Option<Json>, b: Option<Json>, i: int)
    requires
        follows(a, b),
    ensures
        follows(and_entry(a, i), and_entry(b, i)),
{
    if let Some(Json::Object(ea)) = a {
        if let Some(Json::Object(eb)) = b {
            if 0 <= i < ea@.len() {
                assert(rekeyed(ea@[i].1, eb@[i].1));
            }
        }
    }
}

proof fn lemma_follows_item(a: Option<Json>, b: Option<Json>, i: int)
    requires
        follows(a, b),
    ensures
        follows(and_item(a, i), and_item(b, i)),
{
    if let Some(Json::Array(ia)) = a {
        if let Some(Json::Array(ib)) = b {
            if 0 <= i < ia@.len() {
                assert(rekeyed(ia@[i], ib@[i]));
            }
        }
    }
}

proof fn lemma_follows_leaf(a: Option<Json>, b: Option<Json>)
    requires
        follows(a, b),
    ensures
        text_of(a) is Some ==> text_of(b) == text_of(a),
        number_of(a) is Some ==> number_of(b) == number_of(a),
{
}

/// The readings of one weather response: the texts as UTF-8 bytes, the numbers
/// as written.
#[derive(Debug)]
pub struct WeatherReport {
    pub time: JsonNumber,
    pub city: Vec<u8>,
    pub main: Vec<u8>,
    pub description: Vec<u8>,
    pub icon: Vec<u8>,
    pub temp: JsonNumber,
    pub humidity: JsonNumber,
    pub wind: JsonNumber,
    pub clouds: JsonNumber,
    pub sunrise: JsonNumber,
    pub sunset: JsonNumber,
}

/// The report that a value with the weather layout holds.
pub open spec fn report_matches(r: WeatherReport, j: Json) -> bool {
    &&& r.main@ == encode_utf8(text_of(main_at(j)).unwrap())
    &&& r.description@ == encode_utf8(text_of(description_at(j)).unwrap())
    &&& r.icon@ == encode_utf8(text_of(icon_at(j)).unwrap())
    &&& r.city@ == encode_utf8(text_of(city_at(j)).unwrap())
    &&& r.temp == number_of(temp_at(j)).unwrap()
    &&& r.humidity == number_of(humidity_at(j)).unwrap()
    &&& r.wind == number_of(wind_at(j)).unwrap()
    &&& r.clouds == number_of(clouds_at(j)).unwrap()
    &&& r.time == number_of(time_at(j)).unwrap()
    &&& r.sunrise == number_of(sunrise_at(j)).unwrap()
    &&& r.sunset == number_of(sunset_at(j)).unwrap()
}

fn entry_ref(o: Option<&Json>, i: usize) -> (r: Option<&Json>)
    ensures
        opt_value(r) == and_entry(opt_value(o), i as int),
{
    match o {
        Some(Json::Object(entries)) => if i < entries.len() {
            Some(&entries[i].1)
        } else {
            None
        },
        _ => None,
    }
}

fn item_ref(o: Option<&Json>, i: usize) -> (r: Option<&Json>)
    ensures
        opt_value(r) == and_item(opt_value(o), i as int),
{
    match o {
        Some(Json::Array(items)) => if i < items.len() {
            Some(&items[i])
        } else {
            None
        },
        _ => None,
    }
}

fn is_text(o: Option<&Json>) -> (r: bool)
    ensures
        r == (text_of(opt_value(o)) is Some),
{
    match o {
        Some(Json::Text(_)) => true,
        _ => false,
    }
}

fn is_number(o: Option<&Json>) -> (r: bool)
    ensures
        r == (number_of(opt_value(o)) is Some),
{
    match o {
        Some(Json::Number(_)) => true,
        _ => false,
    }
}

fn text_bytes(o: Option<&Json>) -> (r: Vec<u8>)
    requires
        text_of(opt_value(o)) is Some,
    ensures
        r@ == encode_utf8(text_of(opt_value(o)).unwrap()),
{
    match o {
        Some(Json::Text(chars)) => utf8_bytes(chars),
        _ => Vec::new(),
    }
}

fn number(o: Option<&Json>) -> (r: JsonNumber)
    requires
        number_of(opt_value(o)) is Some,
    ensures
        r == number_of(opt_value(o)).unwrap(),
{
    match o {
        Some(Json::Number(n)) => *n,
        _ => JsonNumber { integer: 0, fraction: 0, fraction_length: 0, exponent: 0, negative: false },
    }
}

/// Readings are taken by position only: renaming keys, or appending members or
/// items at the end of objects and arrays, changes neither whether a response
/// holds every reading nor which report it gives.
pub proof fn law_readings_by_position(a: Json, b: Json)
    requires
        rekeyed(a, b),
        has_weather_layout(a),
    ensures
        has_weather_layout(b),
        forall|r: WeatherReport| report_matches(r, a) <==> report_matches(r, b),
{
    let (sa, sb) = (Some(a), Some(b));
    assert(follows(sa, sb));
    let (wa, wb) = (and_item(and_entry(sa, 1), 0), and_item(and_entry(sb, 1), 0));
    lemma_follows_entry(sa, sb, 1);
    lemma_follows_item(and_entry(sa, 1), and_entry(sb, 1), 0);
    lemma_follows_entry(wa, wb, 1);
    lemma_follows_entry(wa, wb, 2);
    lemma_follows_entry(wa, wb, 3);
    lemma_follows_entry(sa, sb, 3);
    lemma_follows_entry(and_entry(sa, 3), and_entry(sb, 3), 0);
    lemma_follows_entry(and_entry(sa, 3), and_entry(sb, 3), 5);
    lemma_follows_entry(sa, sb, 5);
    lemma_follows_entry(and_entry(sa, 5), and_entry(sb, 5), 0);
    lemma_follows_entry(sa, sb, 6);
    lemma_follows_entry(and_entry(sa, 6), and_entry(sb, 6), 0);
    lemma_follows_entry(sa, sb, 7);
    lemma_follows_entry(sa, sb, 8);
    lemma_follows_entry(and_entry(sa, 8), and_entry(sb, 8), 3);
    lemma_follows_entry(and_entry(sa, 8), and_entry(sb, 8), 4);
    lemma_follows_entry(sa, sb, 11);
    lemma_follows_leaf(main_at(a), main_at(b));
    lemma_follows_leaf(description_at(a), description_at(b));
    lemma_follows_leaf(icon_at(a), icon_at(b));
    lemma_follows_leaf(city_at(a), city_at(b));
    lemma_follows_leaf(temp_at(a), temp_at(b));
    lemma_follows_leaf(humidity_at(a), humidity_at(b));
    lemma_follows_leaf(wind_at(a), wind_at(b));
    lemma_follows_leaf(clouds_at(a), clouds_at(b));
    lemma_follows_leaf(time_at(a), time_at(b));
    lemma_follows_leaf(sunrise_at(a), sunrise_at(b));
    lemma_follows_leaf(sunset_at(a), sunset_at(b));
}

/// Every number of a report is the number at its position in the response
/// exactly as the parser read it, in every part: integer, fraction, count of
/// fraction digits (leading zeros included), exponent and sign.
pub proof fn law_report_numbers_as_read(r: WeatherReport, j: Json)
    requires
        has_weather_layout(j),
        report_matches(r, j),
    ensures
        temp_at(j) == Some(Json::Number(r.temp)),
        humidity_at(j) == Some(Json::Number(r.humidity)),
        wind_at(j) == Some(Json::Number(r.wind)),
        clouds_at(j) == Some(Json::Number(r.clouds)),
        time_at(j) == Some(Json::Number(r.time)),
        sunrise_at(j) == Some(Json::Number(r.sunrise)),
        sunset_at(j) == Some(Json::Number(r.sunset)),
{
}

/// Whether `json` holds every reading where the weather service puts it.
pub fn is_weather_layout(json: &Json) -> (r: bool)
    ensures
        r == has_weather_layout(*json),
{
    let j = Some(json);
    let weather = item_ref(entry_ref(j, 1), 0);
    let main = entry_ref(j, 3);
    let sys = entry_ref(j, 8);
    is_text(entry_ref(weather, 1)) && is_text(entry_ref(weather, 2)) && is_text(
        entry_ref(weather, 3),
    ) && is_text(entry_ref(j, 11)) && is_number(entry_ref(main, 0)) && is_number(
        entry_ref(main, 5),
    ) && is_number(entry_ref(entry_ref(j, 5), 0)) && is_number(entry_ref(entry_ref(j, 6), 0))
        && is_number(entry_ref(j, 7)) && is_number(entry_ref(sys, 3)) && is_number(
        entry_ref(sys, 4),
    )
}

/// Reads the weather readings out of a response of the weather service, each
/// from its position in the response (the keys are not looked at).
pub fn parse_weather_json(json: &Json) -> (report: WeatherReport)
    requires
        has_weather_layout(*json),
    ensures
        report_matches(report, *json),
        temp_at(*json) == Some(Json::Number(report.temp)),
        humidity_at(*json) == Some(Json::Number(report.humidity)),
        wind_at(*json) == Some(Json::Number(report.wind)),
        clouds_at(*json) == Some(Json::Number(report.clouds)),
        time_at(*json) == Some(Json::Number(report.time)),
        sunrise_at(*json) == Some(Json::Number(report.sunrise)),
        sunset_at(*json) == Some(Json::Number(report.sunset)),
{
    let j = Some(json);
    let weather = item_ref(entry_ref(j, 1), 0);
    let main = entry_ref(j, 3);
    let sys = entry_ref(j, 8);
    WeatherReport {
        time: number(entry_ref(j, 7)),
        city: text_bytes(entry_ref(j, 11)),
        main: text_bytes(entry_ref(weather, 1)),
        description: text_bytes(entry_ref(weather, 2)),
        icon: text_bytes(entry_ref(weather, 3)),
        temp: number(entry_ref(main, 0)),
        humidity: number(entry_ref(main, 5)),
        wind: number(entry_ref(entry_ref(j, 5), 0)),
        clouds: number(entry_ref(entry_ref(j, 6), 0)),
        sunrise: number(entry_ref(sys, 3)),
        sunset: number(entry_ref(sys, 4)),
    }
}

/// A body from which the weather service's readings can be taken: UTF-8 text
/// that the parser reads without overflow, that is JSON, and that holds every
/// reading where the service puts it.
pub open spec fn readable_weather_body(body: Seq<u8>) -> bool {
    &&& valid_utf8(body)
    &&& parser_can_read(decode_utf8(body))
    &&& parsed_json(decode_utf8(body)) matches Some(j) && has_weather_layout(j)
}

/// The JSON value of a readable body.
pub open spec fn body_json(body: Seq<u8>) -> Json {
    parsed_json(decode_utf8(body)).unwrap()
}

/// The readings of a response that the weather service sent with `status` and
/// `body`: a status other than 200 is refused with `HttpError::Unknown`.
pub fn fetch_weather(status: u16, body: &[u8]) -> (r: Result<WeatherReport, HttpError>)
    requires
        status == 200 ==> readable_weather_body(body@),
    ensures
        status != 200 ==> r == Err::<WeatherReport, HttpError>(HttpError::Unknown),
        status == 200 ==> (r matches Ok(report) && report_matches(report, body_json(body@))),
{
    if status != 200 {
        return Err(HttpError::Unknown);
    }
    let text = match utf8_text(body) {
        Some(text) => text,
        None => return Err(HttpError::Unknown),
    };
    match parse_json_text(text) {
        Some(json) => Ok(parse_weather_json(&json)),
        None => Err(HttpError::Unknown),
    }
}

/// As [`fetch_weather`], for any body: where a status-200 body is not readable
/// (not UTF-8, too long a number or text for the parser, not JSON, or a reading
/// missing) the answer is `None`.
pub fn weather_from_response(status: u16, body: &[u8]) -> (r: Option<Result<WeatherReport, HttpError>>)
    ensures
        status != 200 ==> r == Some(Err::<WeatherReport, HttpError>(HttpError::Unknown)),
        status == 200 ==> (r is None <==> !readable_weather_body(body@)),
        status == 200 ==> (r matches Some(Ok(report)) ==> report_matches(report, body_json(body@))),
        status == 200 ==> !(r matches Some(Err(_))),
{
    if status != 200 {
        return Some(Err(HttpError::Unknown));
    }
    let text = match utf8_text(body) {
        Some(text) => text,
        None => return None,
    };
    if !numbers_fit_in(text) || text.unicode_len() > 0xFFFF_FFF7 {
        return None;
    }
    let json = match parse_json_text(text) {
        Some(json) => json,
        None => return None,
    };
    if !is_weather_layout(&json) {
        return None;
    }
    Some(fetch_weather(status, body))
}

} // verus!
