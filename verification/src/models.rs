//! Field parsing for the tabular source: every column arrives as an optional
//! string, and each helper turns one into the typed value the target
//! document wants, or nothing when the cell is empty or malformed.

use vstd::prelude::*;
use vstd::arithmetic::div_mod::lemma_fundamental_div_mod;
use vstd::arithmetic::div_mod::lemma_mod_bound;
use vstd::string::StrSliceExecFns;

verus! {

/// What `str::trim` returns: the input without leading and trailing
/// whitespace. Which characters count as whitespace is a Unicode property,
/// so the result is named rather than spelled out.
pub uninterp spec fn trim_of(s: Seq<char>) -> Seq<char>;

/// Relies on str::trim: removes leading and trailing whitespace; the result
/// depends on the characters alone, and an empty input stays empty.
#[verifier::external_body]
pub(crate) fn trim_str(s: &str) -> (r: String)
    ensures
        r@ == trim_of(s@),
        s@.len() == 0 ==> r@.len() == 0,
{
    s.trim().to_string()
}

/// What `str::to_lowercase` returns. Unicode case mapping takes pages to
/// state, so the result is named rather than spelled out.
pub uninterp spec fn lower_of(s: Seq<char>) -> Seq<char>;

/// Relies on str::to_lowercase: the lowercase mapping of the input; the
/// result depends on the characters alone, and an empty input stays empty.
#[verifier::external_body]
pub(crate) fn lower_str(s: &str) -> (r: String)
    ensures
        r@ == lower_of(s@),
        s@.len() == 0 ==> r@.len() == 0,
{
    s.to_lowercase()
}

/// Relies on String::from_utf8: ASCII bytes decode to exactly the characters
/// with the same scalar values.
#[verifier::external_body]
pub(crate) fn ascii_to_string(v: Vec<u8>) -> (r: String)
    requires
        forall|i: int| 0 <= i < v@.len() ==> v@[i] < 128,
    ensures
        r@.len() == v@.len(),
        forall|i: int| 0 <= i < v@.len() ==> #[trigger] r@[i] as int == v@[i] as int,
{
    String::from_utf8(v).unwrap_or_default()
}

pub open spec fn is_dec_digit(c: char) -> bool {
    '0' <= c && c <= '9'
}

pub open spec fn digit_value(c: char) -> int {
    c as int - '0' as int
}

pub open spec fn all_dec_digits(s: Seq<char>) -> bool {
    forall|i: int| 0 <= i < s.len() ==> is_dec_digit(#[trigger] s[i])
}

/// The number a sequence of decimal digits denotes.
pub open spec fn digits_value(s: Seq<char>) -> int
    decreases s.len(),
{
    if s.len() == 0 {
        0
    } else {
        digits_value(s.drop_last()) * 10 + digit_value(s.last())
    }
}

/// The digits of a signed decimal literal, after an optional `+` or `-`.
pub open spec fn int_body(s: Seq<char>) -> Seq<char> {
    if s.len() > 0 && (s[0] == '+' || s[0] == '-') {
        s.drop_first()
    } else {
        s
    }
}

pub open spec fn int_negative(s: Seq<char>) -> bool {
    s.len() > 0 && s[0] == '-'
}

/// Whether `s` is a decimal integer literal as `str::parse` on a signed
/// integer type accepts it: an optional sign followed by one or more ASCII
/// decimal digits, nothing else.
pub open spec fn is_int_literal(s: Seq<char>) -> bool {
    int_body(s).len() > 0 && all_dec_digits(int_body(s))
}

pub open spec fn int_literal_value(s: Seq<char>) -> int {
    if int_negative(s) {
        -digits_value(int_body(s))
    } else {
        digits_value(int_body(s))
    }
}

/// What `str::parse::<i64>` returns: the value of a well-formed decimal
/// literal that fits the type, nothing otherwise.
pub open spec fn spec_parse_i64(s: Seq<char>) -> Option<i64> {
    if is_int_literal(s) && i64::MIN <= int_literal_value(s) <= i64::MAX {
        Some(int_literal_value(s) as i64)
    } else {
        None
    }
}

/// What `str::parse::<i32>` returns.
pub open spec fn spec_parse_i32(s: Seq<char>) -> Option<i32> {
    if is_int_literal(s) && i32::MIN <= int_literal_value(s) <= i32::MAX {
        Some(int_literal_value(s) as i32)
    } else {
        None
    }
}

proof fn lemma_digits_value_nonneg(s: Seq<char>)
    requires
        all_dec_digits(s),
    ensures
        digits_value(s) >= 0,
    decreases s.len(),
{
    if s.len() > 0 {
        assert(all_dec_digits(s.drop_last()));
        lemma_digits_value_nonneg(s.drop_last());
    }
}

/// A digit string denotes at least as much as any of its prefixes.
proof fn lemma_digits_value_prefix(s: Seq<char>, k: int)
    requires
        all_dec_digits(s),
        0 <= k <= s.len(),
    ensures
        digits_value(s.subrange(0, k)) <= digits_value(s),
    decreases s.len(),
{
    if k == s.len() {
        assert(s.subrange(0, k) =~= s);
    } else {
        let d = s.drop_last();
        assert(all_dec_digits(d));
        assert(s.subrange(0, k) =~= d.subrange(0, k));
        lemma_digits_value_prefix(d, k);
        lemma_digits_value_nonneg(d);
    }
}

/// Parses a decimal integer exactly as `str::parse::<i64>` does: an optional
/// sign, then one or more ASCII decimal digits denoting a value that fits in
/// the type.
pub fn parse_i64(s: &str) -> (r: Option<i64>)
    ensures
        r == spec_parse_i64(s@),
{
    let len = s.unicode_len();
    if len == 0 {
        return None;
    }
    let first = s.get_char(0);
    let neg = first == '-';
    let has_sign = neg || first == '+';
    let start: usize = if has_sign {
        1
    } else {
        0
    };
    proof {
        if has_sign {
            assert(int_body(s@) =~= s@.subrange(1, len as int));
        } else {
            assert(int_body(s@) =~= s@.subrange(0, len as int));
            assert(s@.subrange(0, len as int) =~= s@);
        }
    }
    if start >= len {
        // a bare sign has no digits
        return None;
    }
    // the magnitude bound the sign allows: |i64::MIN| or i64::MAX
    let limit: u64 = if neg {
        9223372036854775808
    } else {
        9223372036854775807
    };
    let mut acc: u64 = 0;
    let mut i: usize = start;
    while i < len
        invariant
            start <= i <= len,
            len == s@.len(),
            start == if has_sign { 1int } else { 0int },
            int_body(s@) == s@.subrange(start as int, len as int),
            neg == int_negative(s@),
            limit == if neg { 9223372036854775808u64 } else { 9223372036854775807u64 },
            all_dec_digits(s@.subrange(start as int, i as int)),
            acc == digits_value(s@.subrange(start as int, i as int)),
            acc <= limit,
        decreases len - i,
    {
        let c = s.get_char(i);
        if !(c >= '0' && c <= '9') {
            assert(!is_dec_digit(int_body(s@)[i - start]));
            return None;
        }
        let d: u64 = (c as u32 - 48) as u64;
        proof {
            assert('0' as int == 48);
            assert(d == digit_value(c));
            assert(0 <= d <= 9);
        }
        let ghost pre = s@.subrange(start as int, i as int);
        let ghost cur = s@.subrange(start as int, i + 1 as int);
        proof {
            assert(cur.drop_last() =~= pre);
            assert(cur.last() == c);
            assert(digits_value(cur) == acc * 10 + d);
        }
        if acc > (limit - d) / 10 {
            // the digits read so far already denote more than the type holds
            proof {
                lemma_fundamental_div_mod(limit as int - d, 10);
                lemma_mod_bound(limit as int - d, 10);
                assert(acc * 10 + d > limit);
                let body = int_body(s@);
                if all_dec_digits(body) {
                    lemma_digits_value_prefix(body, i + 1 - start);
                    assert(body.subrange(0, i + 1 - start) =~= cur);
                    assert(digits_value(body) > limit);
                }
            }
            return None;
        }
        proof {
            lemma_fundamental_div_mod(limit as int - d, 10);
            lemma_mod_bound(limit as int - d, 10);
            assert(acc * 10 + d <= limit);
        }
        acc = acc * 10 + d;
        i = i + 1;
    }
    proof {
        assert(s@.subrange(start as int, len as int) =~= s@.subrange(start as int, i as int));
    }
    if neg {
        if acc == 9223372036854775808 {
            Some(i64::MIN)
        } else {
            Some(-(acc as i64))
        }
    } else {
        Some(acc as i64)
    }
}

pub open spec fn dec_digit_char(d: int) -> char {
    seq!['0', '1', '2', '3', '4', '5', '6', '7', '8', '9'][d]
}

/// The decimal digits of a non-negative number, most significant first.
pub open spec fn dec_digits(n: int) -> Seq<char>
    decreases n,
{
    if n < 10 {
        seq![dec_digit_char(n)]
    } else {
        dec_digits(n / 10).push(dec_digit_char(n % 10))
    }
}

/// The decimal rendering of a signed number, as `i64::to_string` writes it.
pub open spec fn dec_int(n: int) -> Seq<char> {
    if n >= 0 {
        dec_digits(n)
    } else {
        seq!['-'] + dec_digits(-n)
    }
}

/// The same digits as ASCII bytes; the executable code builds these.
pub open spec fn dec_digit_bytes(n: int) -> Seq<u8>
    decreases n,
{
    if n < 10 {
        seq![(48 + n) as u8]
    } else {
        dec_digit_bytes(n / 10).push((48 + n % 10) as u8)
    }
}

proof fn lemma_dec_digit_char_val(d: int)
    requires
        0 <= d <= 9,
    ensures
        dec_digit_char(d) as int == 48 + d,
{
    if d == 0 {
        assert(dec_digit_char(0) == '0');
    } else if d == 1 {
        assert(dec_digit_char(1) == '1');
    } else if d == 2 {
        assert(dec_digit_char(2) == '2');
    } else if d == 3 {
        assert(dec_digit_char(3) == '3');
    } else if d == 4 {
        assert(dec_digit_char(4) == '4');
    } else if d == 5 {
        assert(dec_digit_char(5) == '5');
    } else if d == 6 {
        assert(dec_digit_char(6) == '6');
    } else if d == 7 {
        assert(dec_digit_char(7) == '7');
    } else if d == 8 {
        assert(dec_digit_char(8) == '8');
    } else {
        assert(dec_digit_char(9) == '9');
    }
}

proof fn lemma_dec_bytes_chars(n: int)
    requires
        n >= 0,
    ensures
        dec_digit_bytes(n).len() == dec_digits(n).len(),
        forall|i: int|
            0 <= i < dec_digits(n).len() ==> #[trigger] dec_digits(n)[i] as int == dec_digit_bytes(
                n,
            )[i] as int,
        forall|i: int|
            0 <= i < dec_digit_bytes(n).len() ==> 48 <= #[trigger] dec_digit_bytes(n)[i] <= 57,
    decreases n,
{
    if n < 10 {
        lemma_dec_digit_char_val(n);
    } else {
        lemma_dec_bytes_chars(n / 10);
        lemma_mod_bound(n, 10);
        lemma_dec_digit_char_val(n % 10);
    }
}

fn append_dec_digits(out: &mut Vec<u8>, m: u64)
    ensures
        final(out)@ == old(out)@ + dec_digit_bytes(m as int),
    decreases m,
{
    if m < 10 {
        out.push(48 + (m as u8));
        proof {
            assert(final(out)@ =~= old(out)@ + dec_digit_bytes(m as int));
        }
    } else {
        append_dec_digits(out, m / 10);
        out.push(48 + ((m % 10) as u8));
        proof {
            assert((48 + (m as int) % 10) as u8 == 48 + ((m % 10) as u8)) by {
                lemma_mod_bound(m as int, 10);
            }
            assert(final(out)@ =~= old(out)@ + dec_digit_bytes(m as int));
        }
    }
}

/// Renders a signed number in decimal, exactly as `i64::to_string` does.
pub fn i64_to_decimal(n: i64) -> (r: String)
    ensures
        r@ == dec_int(n as int),
{
    let mut buf: Vec<u8> = Vec::new();
    if n < 0 {
        buf.push(45);
    }
    let m: u64 = if n >= 0 {
        n as u64
    } else {
        ((-(n + 1)) as u64) + 1
    };
    append_dec_digits(&mut buf, m);
    proof {
        lemma_dec_bytes_chars(m as int);
        assert('-' as int == 45);
    }
    let r = ascii_to_string(buf);
    proof {
        if n >= 0 {
            assert(r@ =~= dec_int(n as int));
        } else {
            assert(m as int == -(n as int));
            assert(r@ =~= seq!['-'] + dec_digits(m as int));
        }
    }
    r
}

/// Parses a decimal integer exactly as `str::parse::<i32>` does.
pub fn parse_i32(s: &str) -> (r: Option<i32>)
    ensures
        r == spec_parse_i32(s@),
{
    match parse_i64(s) {
        Some(v) => {
            if -2147483648i64 <= v && v <= 2147483647i64 {
                Some(v as i32)
            } else {
                None
            }
        },
        None => {
            proof {
                if is_int_literal(s@) {
                    lemma_digits_value_nonneg(int_body(s@));
                }
            }
            None
        },
    }
}

/// An empty or whitespace-only cell is no value; anything else is kept,
/// trimmed.
pub fn parse_optional_string(s: &Option<String>) -> (r: Option<String>)
    ensures
        s is None ==> r is None,
        s is Some && trim_of(s->0@).len() == 0 ==> r is None,
        s is Some && trim_of(s->0@).len() > 0 ==> r is Some && r->0@ == trim_of(s->0@),
{
    match s {
        None => None,
        Some(t) => {
            let trimmed = trim_str(t.as_str());
            if trimmed.as_str().is_empty() {
                None
            } else {
                Some(trimmed)
            }
        },
    }
}

/// The cell as a signed 64-bit number, if its trimmed text parses as one.
pub fn parse_optional_i64(s: &Option<String>) -> (r: Option<i64>)
    ensures
        r == match *s {
            Option::None => Option::<i64>::None,
            Option::Some(t) => spec_parse_i64(trim_of(t@)),
        },
{
    match s {
        None => None,
        Some(t) => {
            let trimmed = trim_str(t.as_str());
            parse_i64(trimmed.as_str())
        },
    }
}

/// The cell as a signed 32-bit number, if its trimmed text parses as one.
pub fn parse_optional_i32(s: &Option<String>) -> (r: Option<i32>)
    ensures
        r == match *s {
            Option::None => Option::<i32>::None,
            Option::Some(t) => spec_parse_i32(trim_of(t@)),
        },
{
    match s {
        None => None,
        Some(t) => {
            let trimmed = trim_str(t.as_str());
            parse_i32(trimmed.as_str())
        },
    }
}

/// The boolean a cell denotes: `t` or `true` in any letter case, `f` or
/// `false` likewise; anything else is no value.
pub open spec fn bool_token(s: Seq<char>) -> Option<bool> {
    if s == "t"@ || s == "true"@ {
        Some(true)
    } else if s == "f"@ || s == "false"@ {
        Some(false)
    } else {
        None
    }
}

/// The cell as a boolean, after trimming and lowercasing.
pub fn parse_optional_bool(s: &Option<String>) -> (r: Option<bool>)
    ensures
        r == match *s {
            Option::None => Option::<bool>::None,
            Option::Some(t) => bool_token(lower_of(trim_of(t@))),
        },
{
    match s {
        None => None,
        Some(t) => {
            let trimmed = trim_str(t.as_str());
            let lowered = lower_str(trimmed.as_str());
            let t_lit: String = "t".to_owned();
            let true_lit: String = "true".to_owned();
            let f_lit: String = "f".to_owned();
            let false_lit: String = "false".to_owned();
            if lowered == t_lit || lowered == true_lit {
                Some(true)
            } else if lowered == f_lit || lowered == false_lit {
                Some(false)
            } else {
                None
            }
        },
    }
}

/// A property value as the extraction logic reads it: an integer-valued
/// JSON number that fits 64 bits, a JSON string, or anything else.
#[derive(Debug, PartialEq, Eq)]
pub enum PropValue {
    Int(i64),
    Str(String),
    Other,
}

/// The mathematical value of a `PropValue`.
pub enum PropView {
    Int(int),
    Str(Seq<char>),
    Other,
}

impl View for PropValue {
    type V = PropView;

    open spec fn view(&self) -> PropView {
        match *self {
            PropValue::Int(n) => PropView::Int(n as int),
            PropValue::Str(s) => PropView::Str(s@),
            PropValue::Other => PropView::Other,
        }
    }
}

/// One row of the tabular source, every column as it arrived: optional,
/// untyped text.
#[derive(Debug)]
pub struct CsvRecord {
    pub token_address: Option<String>,
    pub token_id: Option<String>,
    pub owner: Option<String>,
    pub base_price: Option<String>,
    pub ended_at: Option<String>,
    pub ended_price: Option<String>,
    pub expired_at: Option<String>,
    pub kind: Option<String>,
    pub maker: Option<String>,
    pub matcher: Option<String>,
    pub order_id: Option<String>,
    pub payment_token: Option<String>,
    pub price: Option<String>,
    pub started_at: Option<String>,
    pub state: Option<String>,
    pub name: Option<String>,
    pub attributes: Option<String>,
    pub image: Option<String>,
    pub video: Option<String>,
    pub metadata_last_updated: Option<String>,
    pub cdn_image: Option<String>,
    pub animation_url: Option<String>,
    pub description: Option<String>,
    pub is_shown: Option<String>,
    pub ownership_block_number: Option<String>,
    pub ownership_log_index: Option<String>,
    pub raw_metadata: Option<String>,
    pub order_status: Option<String>,
    pub ron_price: Option<String>,
}

impl Default for CsvRecord {
    /// A record with every column absent.
    fn default() -> (r: Self)
        ensures
            r.token_address is None,
            r.token_id is None,
            r.owner is None,
            r.base_price is None,
            r.ended_at is None,
            r.ended_price is None,
            r.expired_at is None,
            r.kind is None,
            r.maker is None,
            r.matcher is None,
            r.order_id is None,
            r.payment_token is None,
            r.price is None,
            r.started_at is None,
            r.state is None,
            r.name is None,
            r.attributes is None,
            r.image is None,
            r.video is None,
            r.metadata_last_updated is None,
            r.cdn_image is None,
            r.animation_url is None,
            r.description is None,
            r.is_shown is None,
            r.ownership_block_number is None,
            r.ownership_log_index is None,
            r.raw_metadata is None,
            r.order_status is None,
            r.ron_price is None,
    {
        Self {
            token_address: None,
            token_id: None,
            owner: None,
            base_price: None,
            ended_at: None,
            ended_price: None,
            expired_at: None,
            kind: None,
            maker: None,
            matcher: None,
            order_id: None,
            payment_token: None,
            price: None,
            started_at: None,
            state: None,
            name: None,
            attributes: None,
            image: None,
            video: None,
            metadata_last_updated: None,
            cdn_image: None,
            animation_url: None,
            description: None,
            is_shown: None,
            ownership_block_number: None,
            ownership_log_index: None,
            raw_metadata: None,
            order_status: None,
            ron_price: None,
        }
    }
}

/// The action line that precedes each document in a bulk submission.
pub struct BulkIndexAction {
    pub index: BulkIndexMetadata,
}

/// The metadata of one bulk index action: the document identifier.
pub struct BulkIndexMetadata {
    pub id: String,
}

} // verus!
