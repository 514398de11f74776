//! Flat JSON documents carried as event payloads.
//!
//! Script-facing event payloads are single-level JSON objects whose values
//! are scalars or arrays of unsigned integers. The encoder produces one
//! canonical text for each document, and reading that text back yields the
//! original document, so encoding round-trips byte for byte.

use vstd::prelude::*;

verus! {

/// A JSON value as it appears in an event payload.
#[derive(Clone, Debug, PartialEq, Eq)]
pub enum JsonVal {
    Null,
    Bool(bool),
    UInt(u64),
    Str(String),
    UIntArr(Vec<u64>),
}

/// Mathematical value of a `JsonVal`.
pub enum JsonValV {
    Null,
    Bool(bool),
    UInt(u64),
    Str(Seq<char>),
    UIntArr(Seq<u64>),
}

impl View for JsonVal {
    type V = JsonValV;

    open spec fn view(&self) -> JsonValV {
        match self {
            JsonVal::Null => JsonValV::Null,
            JsonVal::Bool(b) => JsonValV::Bool(*b),
            JsonVal::UInt(n) => JsonValV::UInt(*n),
            JsonVal::Str(s) => JsonValV::Str(s@),
            JsonVal::UIntArr(a) => JsonValV::UIntArr(a@),
        }
    }
}

/// A JSON object: named fields in a fixed order.
#[derive(Clone, Debug, PartialEq, Eq)]
pub struct JsonObj {
    pub fields: Vec<(String, JsonVal)>,
}

impl View for JsonObj {
    type V = Seq<(Seq<char>, JsonValV)>;

    open spec fn view(&self) -> Seq<(Seq<char>, JsonValV)> {
        self.fields@.map(|i: int, f: (String, JsonVal)| (f.0@, f.1@))
    }
}

impl JsonObj {
    pub fn new() -> (r: JsonObj)
        ensures
            r@ =~= Seq::<(Seq<char>, JsonValV)>::empty(),
    {
        JsonObj { fields: Vec::new() }
    }

    /// Append one field to the document.
    pub fn push_field(&mut self, name: String, value: JsonVal)
        ensures
            final(self)@ =~= old(self)@.push((name@, value@)),
    {
        self.fields.push((name, value));
    }

    pub fn len(&self) -> (n: usize)
        ensures
            n == self@.len(),
    {
        self.fields.len()
    }
}

/// Decimal digit character for one digit value.
pub open spec fn digit_char(d: int) -> char {
    if d == 0 {
        '0'
    } else if d == 1 {
        '1'
    } else if d == 2 {
        '2'
    } else if d == 3 {
        '3'
    } else if d == 4 {
        '4'
    } else if d == 5 {
        '5'
    } else if d == 6 {
        '6'
    } else if d == 7 {
        '7'
    } else if d == 8 {
        '8'
    } else {
        '9'
    }
}

/// Canonical decimal text of an unsigned number: no sign, no leading zeros.
pub open spec fn enc_u64(n: int) -> Seq<char>
    decreases n,
{
    if n < 10 {
        seq![digit_char(n)]
    } else {
        enc_u64(n / 10).push(digit_char(n % 10))
    }
}

/// Value of a digit string, most significant digit first.
pub open spec fn digit_val(c: char) -> int {
    if c == '0' {
        0
    } else if c == '1' {
        1
    } else if c == '2' {
        2
    } else if c == '3' {
        3
    } else if c == '4' {
        4
    } else if c == '5' {
        5
    } else if c == '6' {
        6
    } else if c == '7' {
        7
    } else if c == '8' {
        8
    } else {
        9
    }
}

pub open spec fn fold_digits(s: Seq<char>) -> int
    decreases s.len(),
{
    if s.len() == 0 {
        0
    } else {
        fold_digits(s.drop_last()) * 10 + digit_val(s.last())
    }
}

/// Reading back the canonical decimal text of `n` yields `n`.
pub proof fn lemma_u64_digits_round_trip(n: int)
    requires
        n >= 0,
    ensures
        fold_digits(enc_u64(n)) == n,
    decreases n,
{
    if n < 10 {
        assert(enc_u64(n) =~= seq![digit_char(n)]);
        assert(enc_u64(n).drop_last() =~= Seq::<char>::empty());
        assert(enc_u64(n).last() == digit_char(n));
        assert(digit_val(digit_char(n)) == n);
        assert(fold_digits(enc_u64(n)) == fold_digits(Seq::<char>::empty()) * 10 + n);
    } else {
        lemma_u64_digits_round_trip(n / 10);
        assert(enc_u64(n) =~= enc_u64(n / 10).push(digit_char(n % 10)));
        assert(enc_u64(n).drop_last() =~= enc_u64(n / 10));
        assert(enc_u64(n).last() == digit_char(n % 10));
        assert(digit_val(digit_char(n % 10)) == n % 10);
        assert(fold_digits(enc_u64(n)) == fold_digits(enc_u64(n / 10)) * 10 + n % 10);
        assert(n / 10 * 10 + n % 10 == n) by (nonlinear_arith);
    }
}

/// Hexadecimal digit character (lower case).
pub open spec fn hex_char(d: int) -> char {
    if d < 10 {
        digit_char(d)
    } else if d == 10 {
        'a'
    } else if d == 11 {
        'b'
    } else if d == 12 {
        'c'
    } else if d == 13 {
        'd'
    } else if d == 14 {
        'e'
    } else {
        'f'
    }
}

/// JSON escape of one character: control characters become `\u00XX`, the
/// quote and backslash are escaped, everything else stands for itself.
pub open spec fn esc_char(c: char) -> Seq<char> {
    if c == '"' {
        seq!['\\', '"']
    } else if c == '\\' {
        seq!['\\', '\\']
    } else if (c as int) < 0x20 {
        seq!['\\', 'u', '0', '0', hex_char(c as int / 16), hex_char(c as int % 16)]
    } else {
        seq![c]
    }
}

/// JSON escape of a string body.
pub open spec fn esc_str(s: Seq<char>) -> Seq<char>
    decreases s.len(),
{
    if s.len() == 0 {
        Seq::empty()
    } else {
        esc_str(s.drop_last()) + esc_char(s.last())
    }
}

/// Canonical JSON text of one value.
pub open spec fn enc_val(v: JsonValV) -> Seq<char> {
    match v {
        JsonValV::Null => "null"@,
        JsonValV::Bool(b) => if b {
            "true"@
        } else {
            "false"@
        },
        JsonValV::UInt(n) => enc_u64(n as int),
        JsonValV::Str(s) => seq!['"'] + esc_str(s) + seq!['"'],
        JsonValV::UIntArr(a) => seq!['['] + enc_u64_list(a) + seq![']'],
    }
}

/// Comma-separated decimal numbers.
pub open spec fn enc_u64_list(a: Seq<u64>) -> Seq<char>
    decreases a.len(),
{
    if a.len() == 0 {
        Seq::empty()
    } else if a.len() == 1 {
        enc_u64(a.last() as int)
    } else {
        enc_u64_list(a.drop_last()) + seq![','] + enc_u64(a.last() as int)
    }
}

/// One `"name":value` member.
pub open spec fn enc_field(f: (Seq<char>, JsonValV)) -> Seq<char> {
    seq!['"'] + esc_str(f.0) + seq!['"', ':'] + enc_val(f.1)
}

/// Comma-separated members.
pub open spec fn enc_fields(fs: Seq<(Seq<char>, JsonValV)>) -> Seq<char>
    decreases fs.len(),
{
    if fs.len() == 0 {
        Seq::empty()
    } else if fs.len() == 1 {
        enc_field(fs.last())
    } else {
        enc_fields(fs.drop_last()) + seq![','] + enc_field(fs.last())
    }
}

/// Canonical JSON text of a whole payload document.
pub open spec fn enc_obj(fs: Seq<(Seq<char>, JsonValV)>) -> Seq<char> {
    seq!['{'] + enc_fields(fs) + seq!['}']
}

pub open spec fn is_digit_char(c: char) -> bool {
    '0' <= c && c <= '9'
}

/// Length of the maximal run of decimal digits at the head of the text.
pub open spec fn digits_len(s: Seq<char>) -> int
    decreases s.len(),
{
    if s.len() == 0 || !is_digit_char(s[0]) {
        0
    } else {
        1 + digits_len(s.drop_first())
    }
}

/// Read one number: the maximal digit run and what follows it.
pub open spec fn parse_number(s: Seq<char>) -> Option<(int, Seq<char>)> {
    if digits_len(s) == 0 {
        None
    } else {
        Some((fold_digits(s.take(digits_len(s))), s.skip(digits_len(s))))
    }
}

/// The head digit run of a digit text followed by a non-digit is the whole
/// digit text.
proof fn lemma_digits_len_concat(d: Seq<char>, r: Seq<char>)
    requires
        forall|i: int| 0 <= i < d.len() ==> is_digit_char(#[trigger] d[i]),
        r.len() == 0 || !is_digit_char(r[0]),
    ensures
        digits_len(d + r) == d.len(),
    decreases d.len(),
{
    if d.len() == 0 {
        assert(d + r =~= r);
    } else {
        assert((d + r)[0] == d[0]);
        assert((d + r).drop_first() =~= d.drop_first() + r);
        lemma_digits_len_concat(d.drop_first(), r);
    }
}

/// The canonical decimal text is a nonempty run of digits.
proof fn lemma_enc_u64_digits(n: int)
    requires
        n >= 0,
    ensures
        enc_u64(n).len() >= 1,
        forall|i: int| 0 <= i < enc_u64(n).len() ==> is_digit_char(#[trigger] enc_u64(n)[i]),
    decreases n,
{
    if n < 10 {
        assert(enc_u64(n) =~= seq![digit_char(n)]);
        assert(is_digit_char(digit_char(n)));
    } else {
        lemma_enc_u64_digits(n / 10);
        assert(enc_u64(n) =~= enc_u64(n / 10).push(digit_char(n % 10)));
        assert(is_digit_char(digit_char(n % 10)));
        assert forall|i: int| 0 <= i < enc_u64(n).len() implies is_digit_char(
            #[trigger] enc_u64(n)[i],
        ) by {
            if i < enc_u64(n / 10).len() {
                assert(enc_u64(n)[i] == enc_u64(n / 10)[i]);
            }
        }
    }
}

/// Reading a canonical number back yields the number and the trailing text,
/// whenever the trailing text does not begin with a digit.
proof fn lemma_parse_number_round_trip(n: int, r: Seq<char>)
    requires
        n >= 0,
        r.len() == 0 || !is_digit_char(r[0]),
    ensures
        parse_number(enc_u64(n) + r) == Some((n, r)),
{
    let d = enc_u64(n);
    lemma_enc_u64_digits(n);
    lemma_digits_len_concat(d, r);
    assert((d + r).take(d.len() as int) =~= d);
    assert((d + r).skip(d.len() as int) =~= r);
    lemma_u64_digits_round_trip(n);
}

/// Numeric value of a (lower case) hexadecimal digit character.
pub open spec fn hex_val(c: char) -> int {
    if c == 'a' {
        10
    } else if c == 'b' {
        11
    } else if c == 'c' {
        12
    } else if c == 'd' {
        13
    } else if c == 'e' {
        14
    } else if c == 'f' {
        15
    } else {
        digit_val(c)
    }
}

pub open spec fn is_hex_char(c: char) -> bool {
    is_digit_char(c) || c == 'a' || c == 'b' || c == 'c' || c == 'd' || c == 'e' || c == 'f'
}

/// Code point of a character.
pub open spec fn code_of(c: char) -> int {
    c as int
}

/// The character with the given code point.
pub open spec fn char_of_code(v: int) -> char {
    choose|c: char| #[trigger] code_of(c) == v
}

/// Every character's code point is non-negative.
proof fn lemma_char_code_nonneg(c: char)
    ensures
        c as int >= 0,
{
}

proof fn lemma_char_of_code_inverse(c: char)
    ensures
        char_of_code(c as int) == c,
{
    assert(code_of(c) == c as int);
    let c2 = choose|x: char| #[trigger] code_of(x) == c as int;
    assert(c2 as int == c as int);
}

proof fn lemma_hex_round_trip(d: int)
    requires
        0 <= d < 16,
    ensures
        is_hex_char(hex_char(d)),
        hex_val(hex_char(d)) == d,
{
}

/// Prepend one character to a string-body parse.
pub open spec fn cons_parsed(c: char, rec: Option<(Seq<char>, Seq<char>)>) -> Option<
    (Seq<char>, Seq<char>),
> {
    match rec {
        Some((cs, r)) => Some((seq![c] + cs, r)),
        None => None,
    }
}

/// Read an escaped string body up to its closing quote: the unescaped
/// content and what follows the quote.
pub open spec fn parse_str_body(s: Seq<char>) -> Option<(Seq<char>, Seq<char>)>
    decreases s.len(),
{
    if s.len() == 0 {
        None
    } else if s[0] == '"' {
        Some((Seq::empty(), s.drop_first()))
    } else if s[0] == '\\' {
        if s.len() >= 2 && s[1] == '"' {
            cons_parsed('"', parse_str_body(s.skip(2)))
        } else if s.len() >= 2 && s[1] == '\\' {
            cons_parsed('\\', parse_str_body(s.skip(2)))
        } else if s.len() >= 6 && s[1] == 'u' && s[2] == '0' && s[3] == '0' && is_hex_char(s[4])
            && is_hex_char(s[5]) {
            cons_parsed(char_of_code(hex_val(s[4]) * 16 + hex_val(s[5])), parse_str_body(s.skip(6)))
        } else {
            None
        }
    } else {
        cons_parsed(s[0], parse_str_body(s.drop_first()))
    }
}

/// Escaping distributes over concatenation.
proof fn lemma_esc_str_concat(a: Seq<char>, b: Seq<char>)
    ensures
        esc_str(a + b) =~= esc_str(a) + esc_str(b),
    decreases b.len(),
{
    if b.len() == 0 {
        assert(a + b =~= a);
        assert(esc_str(b) =~= Seq::<char>::empty());
    } else {
        lemma_esc_str_concat(a, b.drop_last());
        assert((a + b).drop_last() =~= a + b.drop_last());
        assert((a + b).last() == b.last());
        assert(esc_str(a + b) =~= esc_str(a + b.drop_last()) + esc_char(b.last()));
        assert(esc_str(b) =~= esc_str(b.drop_last()) + esc_char(b.last()));
        assert(esc_str(a + b) =~= esc_str(a) + esc_str(b.drop_last()) + esc_char(b.last()));
    }
}

/// Reading an escaped string body back yields the original content and the
/// text after the closing quote.
proof fn lemma_parse_str_body_round_trip(content: Seq<char>, rest: Seq<char>)
    ensures
        parse_str_body(esc_str(content) + seq!['"'] + rest) == Some((content, rest)),
    decreases content.len(),
{
    let s = esc_str(content) + seq!['"'] + rest;
    if content.len() == 0 {
        assert(esc_str(content) =~= Seq::<char>::empty());
        assert(s =~= seq!['"'] + rest);
        assert(s[0] == '"');
        assert(s.drop_first() =~= rest);
    } else {
        let c0 = content[0];
        let tail = content.drop_first();
        assert(content =~= seq![c0] + tail);
        lemma_esc_str_concat(seq![c0], tail);
        assert(esc_str(seq![c0]) =~= esc_char(c0)) by {
            assert(seq![c0].drop_last() =~= Seq::<char>::empty());
            assert(seq![c0].last() == c0);
            assert(esc_str(Seq::<char>::empty()) =~= Seq::<char>::empty());
            assert(esc_str(seq![c0]) =~= esc_str(Seq::<char>::empty()) + esc_char(c0));
            assert(Seq::<char>::empty() + esc_char(c0) =~= esc_char(c0));
        }
        let srest = esc_str(tail) + seq!['"'] + rest;
        assert(s =~= esc_char(c0) + srest);
        lemma_parse_str_body_round_trip(tail, rest);
        if c0 == '"' {
            assert(s =~= seq!['\\', '"'] + srest);
            assert(s[0] == '\\' && s[1] == '"');
            assert(s.skip(2) =~= srest);
            assert(seq![c0] + tail =~= content);
        } else if c0 == '\\' {
            assert(s =~= seq!['\\', '\\'] + srest);
            assert(s[0] == '\\' && s[1] == '\\');
            assert(s.skip(2) =~= srest);
            assert(seq![c0] + tail =~= content);
        } else if (c0 as int) < 0x20 {
            let hi = hex_char(c0 as int / 16);
            let lo = hex_char(c0 as int % 16);
            assert(s =~= seq!['\\', 'u', '0', '0', hi, lo] + srest);
            assert(s.len() >= 6);
            assert(s[0] == '\\' && s[1] == 'u' && s[2] == '0' && s[3] == '0');
            assert(s[4] == hi && s[5] == lo);
            lemma_char_code_nonneg(c0);
            lemma_hex_round_trip(c0 as int / 16);
            lemma_hex_round_trip(c0 as int % 16);
            assert(hex_val(hi) * 16 + hex_val(lo) == c0 as int);
            lemma_char_of_code_inverse(c0);
            assert(char_of_code(hex_val(s[4]) * 16 + hex_val(s[5])) == c0);
            assert(s.skip(6) =~= srest);
            assert(seq![c0] + tail =~= content);
        } else {
            assert(esc_char(c0) =~= seq![c0]);
            assert(s =~= seq![c0] + srest);
            assert(s[0] == c0);
            assert(s[0] != '"' && s[0] != '\\');
            assert(s.drop_first() =~= srest);
            assert(seq![c0] + tail =~= content);
        }
    }
}


/// The head digit run never exceeds the text.
proof fn lemma_digits_len_bounds(s: Seq<char>)
    ensures
        0 <= digits_len(s) <= s.len(),
    decreases s.len(),
{
    if s.len() > 0 && is_digit_char(s[0]) {
        lemma_digits_len_bounds(s.drop_first());
    }
}

/// Read a comma-separated number list up to its closing bracket.
pub open spec fn parse_uint_list(s: Seq<char>) -> Option<(Seq<u64>, Seq<char>)>
    decreases s.len(),
{
    if s.len() == 0 {
        None
    } else if s[0] == ']' {
        Some((Seq::empty(), s.drop_first()))
    } else {
        let dl = digits_len(s);
        if dl <= 0 || dl > s.len() {
            None
        } else {
            let v = fold_digits(s.take(dl));
            let r = s.skip(dl);
            if !(0 <= v <= u64::MAX) {
                None
            } else if r.len() > 0 && r[0] == ',' {
                match parse_uint_list(r.skip(1)) {
                    Some((tail, rr)) => Some((seq![v as u64] + tail, rr)),
                    None => None,
                }
            } else if r.len() > 0 && r[0] == ']' {
                Some((seq![v as u64], r.skip(1)))
            } else {
                None
            }
        }
    }
}

/// A canonical number list followed by its closing bracket reads back as
/// the original numbers.
proof fn lemma_parse_uint_list_round_trip(a: Seq<u64>, rest: Seq<char>)
    ensures
        parse_uint_list(enc_u64_list(a) + seq![']'] + rest) == Some((a, rest)),
    decreases a.len(),
{
    let s = enc_u64_list(a) + seq![']'] + rest;
    if a.len() == 0 {
        assert(enc_u64_list(a) =~= Seq::<char>::empty());
        assert(s =~= seq![']'] + rest);
        assert(s[0] == ']');
        assert(s.drop_first() =~= rest);
        assert(a =~= Seq::<u64>::empty());
    } else {
        let v = a[0];
        let tail = a.drop_first();
        lemma_enc_list_front(a);
        let d = enc_u64(v as int);
        lemma_enc_u64_digits(v as int);
        let x: Seq<char> = if a.len() == 1 {
            Seq::empty()
        } else {
            seq![','] + enc_u64_list(tail)
        };
        assert(s =~= d + (x + seq![']'] + rest));
        let after = x + seq![']'] + rest;
        assert(after[0] == ',' || after[0] == ']');
        assert(!is_digit_char(after[0]));
        lemma_digits_len_concat(d, after);
        assert(s[0] == d[0]);
        assert(s[0] != ']');
        let dl = digits_len(s);
        assert(dl == d.len());
        lemma_digits_len_bounds(s);
        assert(s.take(dl) =~= d);
        assert(s.skip(dl) =~= after);
        lemma_u64_digits_round_trip(v as int);
        assert(fold_digits(s.take(dl)) == v as int);
        if a.len() == 1 {
            assert(after =~= seq![']'] + rest);
            assert(after[0] == ']');
            assert(after[0] != ',');
            assert(after.skip(1) =~= rest);
            assert(seq![v] =~= a);
        } else {
            assert(after =~= seq![','] + (enc_u64_list(tail) + seq![']'] + rest));
            assert(after[0] == ',');
            assert(after.skip(1) =~= enc_u64_list(tail) + seq![']'] + rest);
            lemma_parse_uint_list_round_trip(tail, rest);
            assert(seq![v] + tail =~= a);
        }
    }
}

/// Splitting off the first number of a canonical list.
proof fn lemma_enc_list_front(a: Seq<u64>)
    requires
        a.len() >= 1,
    ensures
        enc_u64_list(a) =~= enc_u64(a[0] as int) + if a.len() == 1 {
            Seq::<char>::empty()
        } else {
            seq![','] + enc_u64_list(a.drop_first())
        },
    decreases a.len(),
{
    if a.len() == 1 {
        assert(a.last() == a[0]);
    } else {
        lemma_enc_list_front(a.drop_last());
        assert(a.drop_last()[0] == a[0]);
        assert(enc_u64_list(a) =~= enc_u64_list(a.drop_last()) + seq![','] + enc_u64(
            a.last() as int,
        ));
        if a.len() == 2 {
            assert(enc_u64_list(a.drop_last()) =~= enc_u64(a[0] as int));
            assert(a.drop_first() =~= seq![a[1]]);
            assert(enc_u64_list(a.drop_first()) =~= enc_u64(a[1] as int));
            assert(a.last() == a[1]);
        } else {
            assert(a.drop_last().drop_first() =~= a.drop_first().drop_last());
            assert(a.drop_first().len() >= 2);
            assert(enc_u64_list(a.drop_first()) =~= enc_u64_list(a.drop_first().drop_last())
                + seq![','] + enc_u64(a.drop_first().last() as int));
            assert(a.drop_first().last() == a.last());
        }
    }
}

/// Read one JSON value of the payload schema.
pub open spec fn parse_value(s: Seq<char>) -> Option<(JsonValV, Seq<char>)> {
    if s.len() == 0 {
        None
    } else if s[0] == 'n' {
        if s.len() >= 4 && s[1] == 'u' && s[2] == 'l' && s[3] == 'l' {
            Some((JsonValV::Null, s.skip(4)))
        } else {
            None
        }
    } else if s[0] == 't' {
        if s.len() >= 4 && s[1] == 'r' && s[2] == 'u' && s[3] == 'e' {
            Some((JsonValV::Bool(true), s.skip(4)))
        } else {
            None
        }
    } else if s[0] == 'f' {
        if s.len() >= 5 && s[1] == 'a' && s[2] == 'l' && s[3] == 's' && s[4] == 'e' {
            Some((JsonValV::Bool(false), s.skip(5)))
        } else {
            None
        }
    } else if s[0] == '"' {
        match parse_str_body(s.drop_first()) {
            Some((cs, r)) => Some((JsonValV::Str(cs), r)),
            None => None,
        }
    } else if s[0] == '[' {
        match parse_uint_list(s.drop_first()) {
            Some((av, r)) => Some((JsonValV::UIntArr(av), r)),
            None => None,
        }
    } else {
        match parse_number(s) {
            Some((v, r)) => if v <= u64::MAX {
                Some((JsonValV::UInt(v as u64), r))
            } else {
                None
            },
            None => None,
        }
    }
}

/// A canonical value reads back as itself whenever the trailing text does
/// not begin with a digit.
proof fn lemma_parse_value_round_trip(v: JsonValV, rest: Seq<char>)
    requires
        rest.len() == 0 || !is_digit_char(rest[0]),
    ensures
        parse_value(enc_val(v) + rest) == Some((v, rest)),
{
    let s = enc_val(v) + rest;
    match v {
        JsonValV::Null => {
            reveal_strlit("null");
            assert(s.len() >= 4);
            assert(s[0] == 'n' && s[1] == 'u' && s[2] == 'l' && s[3] == 'l');
            assert(s.skip(4) =~= rest);
        },
        JsonValV::Bool(b) => {
            if b {
                reveal_strlit("true");
                assert(s.len() >= 4);
                assert(s[0] == 't' && s[1] == 'r' && s[2] == 'u' && s[3] == 'e');
                assert(s.skip(4) =~= rest);
            } else {
                reveal_strlit("false");
                assert(s.len() >= 5);
                assert(s[0] == 'f' && s[1] == 'a' && s[2] == 'l' && s[3] == 's' && s[4] == 'e');
                assert(s.skip(5) =~= rest);
            }
        },
        JsonValV::UInt(n) => {
            lemma_enc_u64_digits(n as int);
            assert(s[0] == enc_u64(n as int)[0]);
            assert(is_digit_char(s[0]));
            assert(s[0] != 'n' && s[0] != 't' && s[0] != 'f' && s[0] != '"' && s[0] != '[');
            lemma_parse_number_round_trip(n as int, rest);
        },
        JsonValV::Str(cs) => {
            assert(s =~= seq!['"'] + (esc_str(cs) + seq!['"'] + rest));
            assert(s[0] == '"');
            assert(s.drop_first() =~= esc_str(cs) + seq!['"'] + rest);
            lemma_parse_str_body_round_trip(cs, rest);
        },
        JsonValV::UIntArr(av) => {
            assert(s =~= seq!['['] + (enc_u64_list(av) + seq![']'] + rest));
            assert(s[0] == '[');
            assert(s.drop_first() =~= enc_u64_list(av) + seq![']'] + rest);
            lemma_parse_uint_list_round_trip(av, rest);
        },
    }
}

/// Read one `"name":value` member.
pub open spec fn parse_field(s: Seq<char>) -> Option<((Seq<char>, JsonValV), Seq<char>)> {
    if s.len() == 0 || s[0] != '"' {
        None
    } else {
        match parse_str_body(s.drop_first()) {
            Some((name, r)) => if r.len() == 0 || r[0] != ':' {
                None
            } else {
                match parse_value(r.drop_first()) {
                    Some((v, rr)) => Some(((name, v), rr)),
                    None => None,
                }
            },
            None => None,
        }
    }
}

/// A canonical member reads back as itself whenever the trailing text does
/// not begin with a digit.
proof fn lemma_parse_field_round_trip(f: (Seq<char>, JsonValV), rest: Seq<char>)
    requires
        rest.len() == 0 || !is_digit_char(rest[0]),
    ensures
        parse_field(enc_field(f) + rest) == Some((f, rest)),
{
    let s = enc_field(f) + rest;
    assert(s =~= seq!['"'] + (esc_str(f.0) + seq!['"'] + (seq![':'] + enc_val(f.1) + rest)));
    assert(s[0] == '"');
    assert(s.drop_first() =~= esc_str(f.0) + seq!['"'] + (seq![':'] + enc_val(f.1) + rest));
    lemma_parse_str_body_round_trip(f.0, seq![':'] + enc_val(f.1) + rest);
    let r = seq![':'] + enc_val(f.1) + rest;
    assert(r[0] == ':');
    assert(r.drop_first() =~= enc_val(f.1) + rest);
    lemma_parse_value_round_trip(f.1, rest);
    assert(f == (f.0, f.1));
}

/// Read one or more comma-separated members.
pub open spec fn parse_fields(s: Seq<char>) -> Option<
    (Seq<(Seq<char>, JsonValV)>, Seq<char>),
>
    decreases s.len(),
{
    match parse_field(s) {
        Some((f, r)) => if r.len() < s.len() && r.len() > 0 && r[0] == ',' {
            match parse_fields(r.drop_first()) {
                Some((tail, rr)) => Some((seq![f] + tail, rr)),
                None => None,
            }
        } else {
            Some((seq![f], r))
        },
        None => None,
    }
}

/// Splitting off the first member of a canonical member list.
proof fn lemma_enc_fields_front(fs: Seq<(Seq<char>, JsonValV)>)
    requires
        fs.len() >= 1,
    ensures
        enc_fields(fs) =~= enc_field(fs[0]) + if fs.len() == 1 {
            Seq::<char>::empty()
        } else {
            seq![','] + enc_fields(fs.drop_first())
        },
    decreases fs.len(),
{
    if fs.len() == 1 {
        assert(fs.last() == fs[0]);
    } else {
        lemma_enc_fields_front(fs.drop_last());
        assert(fs.drop_last()[0] == fs[0]);
        assert(enc_fields(fs) =~= enc_fields(fs.drop_last()) + seq![','] + enc_field(fs.last()));
        if fs.len() == 2 {
            assert(enc_fields(fs.drop_last()) =~= enc_field(fs[0]));
            assert(fs.drop_first() =~= seq![fs[1]]);
            assert(enc_fields(fs.drop_first()) =~= enc_field(fs[1]));
            assert(fs.last() == fs[1]);
        } else {
            assert(fs.drop_last().drop_first() =~= fs.drop_first().drop_last());
            assert(fs.drop_first().len() >= 2);
            assert(enc_fields(fs.drop_first()) =~= enc_fields(fs.drop_first().drop_last())
                + seq![','] + enc_field(fs.drop_first().last()));
            assert(fs.drop_first().last() == fs.last());
        }
    }
}

/// A canonical member list followed by the closing brace reads back as the
/// original members.
proof fn lemma_parse_fields_round_trip(fs: Seq<(Seq<char>, JsonValV)>, rest: Seq<char>)
    requires
        fs.len() >= 1,
        rest.len() >= 1,
        rest[0] == '}',
    ensures
        parse_fields(enc_fields(fs) + rest) == Some((fs, rest)),
    decreases fs.len(),
{
    let s = enc_fields(fs) + rest;
    lemma_enc_fields_front(fs);
    if fs.len() == 1 {
        assert(s =~= enc_field(fs[0]) + rest);
        lemma_parse_field_round_trip(fs[0], rest);
        assert(rest[0] != ',');
        assert(seq![fs[0]] =~= fs);
    } else {
        let tail = fs.drop_first();
        let r = seq![','] + enc_fields(tail) + rest;
        assert(s =~= enc_field(fs[0]) + r);
        assert(r[0] == ',');
        assert(!is_digit_char(r[0]));
        lemma_parse_field_round_trip(fs[0], r);
        assert(enc_field(fs[0]).len() >= 1);
        assert(r.len() < s.len());
        assert(r.drop_first() =~= enc_fields(tail) + rest);
        lemma_parse_fields_round_trip(tail, rest);
        assert(seq![fs[0]] + tail =~= fs);
    }
}

/// Read a whole payload document: its members between the braces.
pub open spec fn parse_obj(s: Seq<char>) -> Option<Seq<(Seq<char>, JsonValV)>> {
    if s.len() == 0 || s[0] != '{' {
        None
    } else if s.len() >= 2 && s[1] == '}' {
        if s.len() == 2 {
            Some(Seq::empty())
        } else {
            None
        }
    } else {
        match parse_fields(s.drop_first()) {
            Some((fs, r)) => if r == seq!['}'] {
                Some(fs)
            } else {
                None
            },
            None => None,
        }
    }
}

/// Round trip of the payload encoding: reading the canonical JSON text back
/// yields exactly the original document, so for every dispatched event,
/// encoding the data field, decoding it and encoding it again gives
/// byte-equal JSON.
pub proof fn lemma_json_round_trip(fs: Seq<(Seq<char>, JsonValV)>)
    ensures
        parse_obj(enc_obj(fs)) == Some(fs),
{
    let s = enc_obj(fs);
    assert(s[0] == '{');
    if fs.len() == 0 {
        assert(enc_fields(fs) =~= Seq::<char>::empty());
        assert(s =~= seq!['{', '}']);
        assert(s.len() == 2 && s[1] == '}');
        assert(fs =~= Seq::<(Seq<char>, JsonValV)>::empty());
    } else {
        lemma_enc_fields_front(fs);
        assert(enc_field(fs[0])[0] == '"');
        assert(enc_fields(fs)[0] == '"');
        assert(s[1] == '"');
        assert(s[1] != '}');
        assert(s.drop_first() =~= enc_fields(fs) + seq!['}']);
        lemma_parse_fields_round_trip(fs, seq!['}']);
    }
}

fn digit_char_exec(d: u64) -> (c: char)
    requires
        d < 10,
    ensures
        c == digit_char(d as int),
{
    if d == 0 {
        '0'
    } else if d == 1 {
        '1'
    } else if d == 2 {
        '2'
    } else if d == 3 {
        '3'
    } else if d == 4 {
        '4'
    } else if d == 5 {
        '5'
    } else if d == 6 {
        '6'
    } else if d == 7 {
        '7'
    } else if d == 8 {
        '8'
    } else {
        '9'
    }
}

fn hex_char_exec(d: u32) -> (c: char)
    requires
        d < 16,
    ensures
        c == hex_char(d as int),
{
    if d < 10 {
        digit_char_exec(d as u64)
    } else if d == 10 {
        'a'
    } else if d == 11 {
        'b'
    } else if d == 12 {
        'c'
    } else if d == 13 {
        'd'
    } else if d == 14 {
        'e'
    } else {
        'f'
    }
}

fn push_u64(out: &mut Vec<char>, n: u64)
    ensures
        final(out)@ =~= old(out)@ + enc_u64(n as int),
    decreases n,
{
    if n < 10 {
        out.push(digit_char_exec(n));
    } else {
        push_u64(out, n / 10);
        out.push(digit_char_exec(n % 10));
    }
}

fn push_escaped(out: &mut Vec<char>, s: &String)
    ensures
        final(out)@ =~= old(out)@ + esc_str(s@),
{
    let n = s.as_str().unicode_len();
    let mut i: usize = 0;
    while i < n
        invariant
            n == s@.len(),
            i <= n,
            out@ =~= old(out)@ + esc_str(s@.take(i as int)),
        decreases n - i,
    {
        let c = s.as_str().get_char(i);
        proof {
            assert(s@.take(i + 1).drop_last() =~= s@.take(i as int));
            assert(s@.take(i + 1).last() == s@[i as int]);
        }
        if c == '"' {
            out.push('\\');
            out.push('"');
        } else if c == '\\' {
            out.push('\\');
            out.push('\\');
        } else if (c as u32) < 0x20 {
            out.push('\\');
            out.push('u');
            out.push('0');
            out.push('0');
            out.push(hex_char_exec((c as u32) / 16));
            out.push(hex_char_exec((c as u32) % 16));
        } else {
            out.push(c);
        }
        proof {
            assert(out@ =~= old(out)@ + esc_str(s@.take(i + 1)));
        }
        i = i + 1;
    }
    proof {
        assert(s@.take(n as int) =~= s@);
    }
}

fn push_val(out: &mut Vec<char>, v: &JsonVal)
    ensures
        final(out)@ =~= old(out)@ + enc_val(v@),
{
    match v {
        JsonVal::Null => {
            out.push('n');
            out.push('u');
            out.push('l');
            out.push('l');
            proof {
                reveal_strlit("null");
                assert(out@ =~= old(out)@ + "null"@);
            }
        },
        JsonVal::Bool(b) => {
            if *b {
                out.push('t');
                out.push('r');
                out.push('u');
                out.push('e');
                proof {
                    reveal_strlit("true");
                    assert(out@ =~= old(out)@ + "true"@);
                }
            } else {
                out.push('f');
                out.push('a');
                out.push('l');
                out.push('s');
                out.push('e');
                proof {
                    reveal_strlit("false");
                    assert(out@ =~= old(out)@ + "false"@);
                }
            }
        },
        JsonVal::UInt(n) => {
            push_u64(out, *n);
        },
        JsonVal::Str(s) => {
            out.push('"');
            push_escaped(out, s);
            out.push('"');
            proof {
                assert(out@ =~= old(out)@ + (seq!['"'] + esc_str(s@) + seq!['"']));
            }
        },
        JsonVal::UIntArr(a) => {
            out.push('[');
            let mut i: usize = 0;
            while i < a.len()
                invariant
                    i <= a@.len(),
                    out@ =~= old(out)@ + seq!['['] + enc_u64_list(a@.take(i as int)),
                decreases a@.len() - i,
            {
                proof {
                    assert(a@.take(i + 1).drop_last() =~= a@.take(i as int));
                    assert(a@.take(i + 1).last() == a@[i as int]);
                }
                if i > 0 {
                    out.push(',');
                }
                push_u64(out, a[i]);
                proof {
                    assert(out@ =~= old(out)@ + seq!['['] + enc_u64_list(a@.take(i + 1)));
                }
                i = i + 1;
            }
            out.push(']');
            proof {
                assert(a@.take(a@.len() as int) =~= a@);
                assert(out@ =~= old(out)@ + (seq!['['] + enc_u64_list(a@) + seq![']']));
            }
        },
    }
}

/// Relies on `String::from_iter` over `char`: the resulting string holds
/// exactly the given characters in order.
#[verifier::external_body]
fn chars_to_string(v: &Vec<char>) -> (s: String)
    ensures
        s@ == v@,
{
    v.iter().collect()
}

/// Serialize a payload document to its canonical JSON text. The encoding is
/// a function of the document alone, so equal documents give byte-equal
/// texts.
pub fn encode_json(o: &JsonObj) -> (r: String)
    ensures
        r@ == enc_obj(o@),
{
    let mut out: Vec<char> = Vec::new();
    out.push('{');
    let mut i: usize = 0;
    while i < o.fields.len()
        invariant
            i <= o.fields@.len(),
            o@.len() == o.fields@.len(),
            out@ =~= seq!['{'] + enc_fields(o@.take(i as int)),
        decreases o.fields@.len() - i,
    {
        proof {
            assert(o@.take(i + 1).drop_last() =~= o@.take(i as int));
            assert(o@.take(i + 1).last() == o@[i as int]);
            assert(o@[i as int] == (o.fields@[i as int].0@, o.fields@[i as int].1@));
        }
        if i > 0 {
            out.push(',');
        }
        let field = &o.fields[i];
        out.push('"');
        push_escaped(&mut out, &field.0);
        out.push('"');
        out.push(':');
        push_val(&mut out, &field.1);
        proof {
            assert(out@ =~= seq!['{'] + enc_fields(o@.take(i + 1)));
        }
        i = i + 1;
    }
    out.push('}');
    proof {
        assert(o@.take(o@.len() as int) =~= o@);
        assert(out@ =~= enc_obj(o@));
    }
    chars_to_string(&out)
}

} // verus!
