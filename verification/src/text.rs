//! Character-level text helpers: building strings, decimal integers,
//! lexicographic order, TOML string escaping, and editing a string at a
//! cursor that counts characters.
use vstd::prelude::*;

verus! {

// ---------------------------------------------------------------------
// Building strings
// ---------------------------------------------------------------------

/// Builds an owned string from a string slice.
pub fn owned(s: &str) -> (r: String)
    ensures
        r@ == s@,
{
    String::from_str(s)
}

/// Appends one character to a string (`String::push`).
#[verifier::external_body]
pub(crate) fn push_char(s: &mut String, c: char)
    ensures
        final(s)@ == old(s)@.push(c),
{
    s.push(c);
}

/// Appends a string slice to a string.
pub fn push_str(s: &mut String, t: &str)
    ensures
        final(s)@ == old(s)@ + t@,
{
    s.append(t);
}

/// `a` followed by `b`.
pub fn concat(a: &str, b: &str) -> (r: String)
    ensures
        r@ == a@ + b@,
{
    let mut r = owned(a);
    push_str(&mut r, b);
    r
}

/// `a`, then `b`, then `c`.
pub fn concat3(a: &str, b: &str, c: &str) -> (r: String)
    ensures
        r@ == a@ + b@ + c@,
{
    let mut r = owned(a);
    push_str(&mut r, b);
    push_str(&mut r, c);
    r
}

/// Whether two strings hold the same characters.
pub fn str_eq(a: &str, b: &str) -> (r: bool)
    ensures
        r == (a@ == b@),
{
    let la = a.unicode_len();
    let lb = b.unicode_len();
    if la != lb {
        return false;
    }
    let mut i: usize = 0;
    while i < la
        invariant
            la == a@.len(),
            lb == b@.len(),
            la == lb,
            i <= la,
            forall|j: int| 0 <= j < i ==> a@[j] == b@[j],
        decreases la - i,
    {
        if a.get_char(i) != b.get_char(i) {
            return false;
        }
        i = i + 1;
    }
    assert(a@ =~= b@);
    true
}

// ---------------------------------------------------------------------
// Lexicographic order
// ---------------------------------------------------------------------

/// Strict lexicographic order on character sequences. This is the order that
/// `str`'s `Ord` gives, since UTF-8 byte order agrees with code-point order.
pub open spec fn seq_lt(a: Seq<char>, b: Seq<char>) -> bool
    decreases a.len(),
{
    if b.len() == 0 {
        false
    } else if a.len() == 0 {
        true
    } else if a[0] == b[0] {
        seq_lt(a.drop_first(), b.drop_first())
    } else {
        a[0] < b[0]
    }
}

/// Non-strict lexicographic order.
pub open spec fn seq_le(a: Seq<char>, b: Seq<char>) -> bool {
    seq_lt(a, b) || a == b
}

pub proof fn lemma_seq_lt_irreflexive(a: Seq<char>)
    ensures
        !seq_lt(a, a),
    decreases a.len(),
{
    if a.len() > 0 {
        lemma_seq_lt_irreflexive(a.drop_first());
    }
}

pub proof fn lemma_seq_lt_transitive(a: Seq<char>, b: Seq<char>, c: Seq<char>)
    requires
        seq_lt(a, b),
        seq_lt(b, c),
    ensures
        seq_lt(a, c),
    decreases a.len(),
{
    if a.len() > 0 && b.len() > 0 && c.len() > 0 && a[0] == b[0] && b[0] == c[0] {
        lemma_seq_lt_transitive(a.drop_first(), b.drop_first(), c.drop_first());
    }
}

pub proof fn lemma_seq_lt_total(a: Seq<char>, b: Seq<char>)
    ensures
        seq_lt(a, b) || seq_lt(b, a) || a == b,
    decreases a.len(),
{
    if a.len() > 0 && b.len() > 0 && a[0] == b[0] {
        lemma_seq_lt_total(a.drop_first(), b.drop_first());
        if a.drop_first() == b.drop_first() {
            assert(a =~= seq![a[0]] + a.drop_first());
            assert(b =~= seq![b[0]] + b.drop_first());
        }
    } else if a.len() == 0 && b.len() == 0 {
        assert(a =~= b);
    }
}

pub proof fn lemma_seq_lt_asymmetric(a: Seq<char>, b: Seq<char>)
    requires
        seq_lt(a, b),
    ensures
        !seq_lt(b, a),
{
    if seq_lt(b, a) {
        lemma_seq_lt_transitive(a, b, a);
        lemma_seq_lt_irreflexive(a);
    }
}

/// Compares two strings in `str` order: `true` when `a` sorts strictly before `b`.
pub fn str_less(a: &str, b: &str) -> (r: bool)
    ensures
        r == seq_lt(a@, b@),
{
    let la = a.unicode_len();
    let lb = b.unicode_len();
    let mut i: usize = 0;
    assert(a@.skip(0) =~= a@);
    assert(b@.skip(0) =~= b@);
    while i < la && i < lb
        invariant
            la == a@.len(),
            lb == b@.len(),
            i <= la,
            i <= lb,
            seq_lt(a@, b@) == seq_lt(a@.skip(i as int), b@.skip(i as int)),
        decreases la - i,
    {
        let ca = a.get_char(i);
        let cb = b.get_char(i);
        assert(a@.skip(i as int)[0] == ca);
        assert(b@.skip(i as int)[0] == cb);
        if ca != cb {
            return ca < cb;
        }
        assert(a@.skip(i as int).drop_first() =~= a@.skip(i + 1));
        assert(b@.skip(i as int).drop_first() =~= b@.skip(i + 1));
        i = i + 1;
    }
    i < lb
}

// ---------------------------------------------------------------------
// Decimal numbers
// ---------------------------------------------------------------------

pub open spec fn digit_chars() -> Seq<char> {
    seq!['0', '1', '2', '3', '4', '5', '6', '7', '8', '9']
}

pub open spec fn is_digit(c: char) -> bool {
    48 <= (c as u32) <= 57
}

pub open spec fn digit_value(c: char) -> nat {
    ((c as u32) - 48) as nat
}

/// Decimal text of a natural number, as `Display` writes it.
pub open spec fn nat_to_dec(n: nat) -> Seq<char>
    decreases n,
{
    if n < 10 {
        seq![digit_chars()[n as int]]
    } else {
        nat_to_dec(n / 10).push(digit_chars()[(n % 10) as int])
    }
}

/// Decimal text of an integer, as `Display` writes it.
pub open spec fn int_to_dec(i: int) -> Seq<char> {
    if i < 0 {
        seq!['-'] + nat_to_dec((-i) as nat)
    } else {
        nat_to_dec(i as nat)
    }
}

fn digit_char(d: u64) -> (c: char)
    requires
        d < 10,
    ensures
        c == digit_chars()[d as int],
{
    match d {
        0 => '0',
        1 => '1',
        2 => '2',
        3 => '3',
        4 => '4',
        5 => '5',
        6 => '6',
        7 => '7',
        8 => '8',
        _ => '9',
    }
}

/// Decimal text of an unsigned number (`u64::to_string`).
pub fn u64_to_string(n: u64) -> (r: String)
    ensures
        r@ == nat_to_dec(n as nat),
{
    let mut m: u64 = n;
    let mut tail: Vec<char> = Vec::new();
    while m >= 10
        invariant
            nat_to_dec(n as nat) == nat_to_dec(m as nat) + tail@,
        decreases m,
    {
        let d = digit_char(m % 10);
        tail.insert(0, d);
        proof {
            assert(nat_to_dec(m as nat) == nat_to_dec((m / 10) as nat).push(d));
            assert(nat_to_dec((m / 10) as nat).push(d) + tail@.drop_first() =~= nat_to_dec(
                (m / 10) as nat,
            ) + tail@);
        }
        m = m / 10;
    }
    let mut r = String::new();
    push_char(&mut r, digit_char(m));
    let mut i: usize = 0;
    while i < tail.len()
        invariant
            0 <= i <= tail@.len(),
            r@ == nat_to_dec(m as nat) + tail@.take(i as int),
            nat_to_dec(n as nat) == nat_to_dec(m as nat) + tail@,
        decreases tail@.len() - i,
    {
        push_char(&mut r, tail[i]);
        assert(tail@.take(i + 1) =~= tail@.take(i as int).push(tail@[i as int]));
        i = i + 1;
    }
    assert(tail@.take(tail@.len() as int) =~= tail@);
    r
}

/// Decimal text of a signed number (`i64::to_string`).
pub fn i64_to_string(i: i64) -> (r: String)
    ensures
        r@ == int_to_dec(i as int),
{
    if i < 0 {
        let mag: u64 = (-(i as i128)) as u64;
        let digits = u64_to_string(mag);
        proof {
            reveal_strlit("-");
        }
        concat("-", digits.as_str())
    } else {
        u64_to_string(i as u64)
    }
}

/// Value of a run of decimal digits.
pub open spec fn dec_value(s: Seq<char>) -> nat
    decreases s.len(),
{
    if s.len() == 0 {
        0
    } else {
        dec_value(s.drop_last()) * 10 + digit_value(s.last())
    }
}

pub open spec fn all_digits(s: Seq<char>) -> bool {
    forall|i: int| 0 <= i < s.len() ==> is_digit(#[trigger] s[i])
}

/// What Rust's integer `FromStr` gives for `s` in a type whose values run
/// from `lo` to `hi`: an optional `+` (or `-` when the type is signed),
/// then one or more ASCII digits, and a value in range.
pub open spec fn parse_int_spec(s: Seq<char>, signed: bool, lo: int, hi: int) -> Option<int> {
    if s.len() == 0 {
        None
    } else {
        let neg = signed && s[0] == '-';
        let digits = if s[0] == '+' || neg {
            s.drop_first()
        } else {
            s
        };
        if digits.len() == 0 || !all_digits(digits) {
            None
        } else {
            let v = if neg {
                -(dec_value(digits) as int)
            } else {
                dec_value(digits) as int
            };
            if lo <= v <= hi {
                Some(v)
            } else {
                None
            }
        }
    }
}

pub open spec fn i64_parse_spec(s: Seq<char>) -> Option<int> {
    parse_int_spec(s, true, i64::MIN as int, i64::MAX as int)
}

pub open spec fn u8_parse_spec(s: Seq<char>) -> Option<int> {
    parse_int_spec(s, false, 0, u8::MAX as int)
}

pub open spec fn u64_parse_spec(s: Seq<char>) -> Option<int> {
    parse_int_spec(s, false, 0, u64::MAX as int)
}

/// The cap at which scanning stops accumulating: larger than any value a
/// `u64` or an `i64` magnitude can take.
pub open spec fn scan_cap() -> nat {
    0x1_0000_0000_0000_0000
}

proof fn lemma_dec_value_push(s: Seq<char>, c: char)
    ensures
        dec_value(s.push(c)) == dec_value(s) * 10 + digit_value(c),
{
    assert(s.push(c).drop_last() =~= s);
}

proof fn lemma_digit_char_value(d: int)
    requires
        0 <= d < 10,
    ensures
        is_digit(digit_chars()[d]),
        digit_value(digit_chars()[d]) == d,
{
    assert(digit_chars()[0] == '0');
    assert(digit_chars()[1] == '1');
    assert(digit_chars()[2] == '2');
    assert(digit_chars()[3] == '3');
    assert(digit_chars()[4] == '4');
    assert(digit_chars()[5] == '5');
    assert(digit_chars()[6] == '6');
    assert(digit_chars()[7] == '7');
    assert(digit_chars()[8] == '8');
    assert(digit_chars()[9] == '9');
}

proof fn lemma_nat_to_dec_digits(n: nat)
    ensures
        nat_to_dec(n).len() > 0,
        all_digits(nat_to_dec(n)),
        dec_value(nat_to_dec(n)) == n,
    decreases n,
{
    if n < 10 {
        lemma_digit_char_value(n as int);
        assert(nat_to_dec(n).drop_last() =~= Seq::<char>::empty());
        assert(dec_value(Seq::<char>::empty()) == 0);
        assert(dec_value(nat_to_dec(n)) == dec_value(nat_to_dec(n).drop_last()) * 10 + digit_value(nat_to_dec(n).last()));
    } else {
        lemma_nat_to_dec_digits(n / 10);
        lemma_digit_char_value((n % 10) as int);
        let d = digit_chars()[(n % 10) as int];
        lemma_dec_value_push(nat_to_dec(n / 10), d);
        assert(nat_to_dec(n) == nat_to_dec(n / 10).push(d));
        assert(n == (n / 10) * 10 + n % 10);
        assert(dec_value(nat_to_dec(n)) == (n / 10) * 10 + n % 10);
    }
}

/// Reading back the decimal text of an `i64` gives the number: a value
/// shown in an editor and saved unchanged stays the same integer.
pub proof fn lemma_i64_text_round_trip(i: int)
    requires
        i64::MIN <= i <= i64::MAX,
    ensures
        i64_parse_spec(int_to_dec(i)) == Some(i),
{
    if i < 0 {
        let m = (-i) as nat;
        lemma_nat_to_dec_digits(m);
        let s = int_to_dec(i);
        assert(s[0] == '-');
        assert(s.drop_first() =~= nat_to_dec(m));
    } else {
        lemma_nat_to_dec_digits(i as nat);
        let s = nat_to_dec(i as nat);
        assert(is_digit(s[0]));
    }
}

/// Reads an optional sign and a run of digits. Returns whether a `-` was
/// read and the value of the digits, capped at `scan_cap()`.
fn scan_decimal(s: &str, allow_minus: bool) -> (r: Option<(bool, u128)>)
    ensures
        ({
            let sv = s@;
            let neg = sv.len() > 0 && allow_minus && sv[0] == '-';
            let digits = if sv.len() > 0 && (sv[0] == '+' || neg) {
                sv.drop_first()
            } else {
                sv
            };
            match r {
                None => sv.len() == 0 || digits.len() == 0 || !all_digits(digits),
                Some((n, m)) => {
                    &&& sv.len() > 0
                    &&& digits.len() > 0
                    &&& all_digits(digits)
                    &&& n == neg
                    &&& (if dec_value(digits) < scan_cap() {
                        m == dec_value(digits)
                    } else {
                        m == scan_cap()
                    })
                },
            }
        }),
{
    let len = s.unicode_len();
    if len == 0 {
        return None;
    }
    let first = s.get_char(0);
    let neg = allow_minus && first == '-';
    let start: usize = if first == '+' || neg {
        1
    } else {
        0
    };
    let ghost digits = if first == '+' || neg {
        s@.drop_first()
    } else {
        s@
    };
    assert(digits =~= s@.skip(start as int));
    if start >= len {
        return None;
    }
    let mut acc: u128 = 0;
    let mut i: usize = start;
    let cap: u128 = 0x1_0000_0000_0000_0000;
    assert(s@.subrange(start as int, start as int) =~= Seq::<char>::empty());
    while i < len
        invariant
            len == s@.len(),
            len > 0,
            start == (if s@[0] == '+' || (allow_minus && s@[0] == '-') {
                1usize
            } else {
                0usize
            }),
            start <= i <= len,
            cap == scan_cap(),
            digits =~= s@.skip(start as int),
            forall|j: int| start <= j < i ==> is_digit(#[trigger] s@[j]),
            if dec_value(s@.subrange(start as int, i as int)) < scan_cap() {
                acc == dec_value(s@.subrange(start as int, i as int))
            } else {
                acc == scan_cap()
            },
        decreases len - i,
    {
        let c = s.get_char(i);
        if !((c as u32) >= 48 && (c as u32) <= 57) {
            assert(!is_digit(digits[i - start]));
            return None;
        }
        let d = (c as u32 - 48) as u128;
        proof {
            let pre = s@.subrange(start as int, i as int);
            assert(s@.subrange(start as int, i + 1) =~= pre.push(c));
            lemma_dec_value_push(pre, c);
        }
        if acc < cap {
            let next = acc * 10 + d;
            if next < cap {
                acc = next;
            } else {
                acc = cap;
            }
        }
        i = i + 1;
    }
    assert(s@.subrange(start as int, len as int) =~= digits);
    assert(all_digits(digits)) by {
        assert forall|j: int| 0 <= j < digits.len() implies is_digit(#[trigger] digits[j]) by {
            assert(digits[j] == s@[j + start]);
        }
    }
    Some((neg, acc))
}

/// `s.parse::<i64>()`, as an `Option`.
pub fn parse_i64(s: &str) -> (r: Option<i64>)
    ensures
        match r {
            Some(v) => i64_parse_spec(s@) == Some(v as int),
            None => i64_parse_spec(s@) is None,
        },
{
    match scan_decimal(s, true) {
        None => None,
        Some((neg, m)) => {
            if neg {
                if m <= 0x8000_0000_0000_0000 {
                    Some((-(m as i128)) as i64)
                } else {
                    None
                }
            } else {
                if m <= 0x7fff_ffff_ffff_ffff {
                    Some(m as i64)
                } else {
                    None
                }
            }
        },
    }
}

/// `s.parse::<u8>()`, as an `Option`.
pub fn parse_u8(s: &str) -> (r: Option<u8>)
    ensures
        match r {
            Some(v) => u8_parse_spec(s@) == Some(v as int),
            None => u8_parse_spec(s@) is None,
        },
{
    match scan_decimal(s, false) {
        None => None,
        Some((_, m)) => {
            if m <= 255 {
                Some(m as u8)
            } else {
                None
            }
        },
    }
}

/// `s.parse::<u64>()`, as an `Option`.
pub fn parse_u64(s: &str) -> (r: Option<u64>)
    ensures
        match r {
            Some(v) => u64_parse_spec(s@) == Some(v as int),
            None => u64_parse_spec(s@) is None,
        },
{
    match scan_decimal(s, false) {
        None => None,
        Some((_, m)) => {
            if m <= 0xffff_ffff_ffff_ffff {
                Some(m as u64)
            } else {
                None
            }
        },
    }
}

// ---------------------------------------------------------------------
// Searching
// ---------------------------------------------------------------------

/// Position of the first occurrence of `c` in `s`, if any.
pub open spec fn first_index_of(s: Seq<char>, c: char) -> Option<int> {
    if s.contains(c) {
        Some(choose|i: int| 0 <= i < s.len() && s[i] == c && forall|j: int| 0 <= j < i ==> s[j] != c)
    } else {
        None
    }
}

/// Finds the first occurrence of `c` in `s`.
pub fn find_char(s: &str, c: char) -> (r: Option<usize>)
    ensures
        match r {
            None => !s@.contains(c),
            Some(i) => i < s@.len() && s@[i as int] == c && forall|j: int|
                0 <= j < i ==> s@[j] != c,
        },
{
    let len = s.unicode_len();
    let mut i: usize = 0;
    while i < len
        invariant
            len == s@.len(),
            i <= len,
            forall|j: int| 0 <= j < i ==> s@[j] != c,
        decreases len - i,
    {
        if s.get_char(i) == c {
            return Some(i);
        }
        i = i + 1;
    }
    None
}

/// Whether `c` occurs in `s`.
pub fn contains_char(s: &str, c: char) -> (r: bool)
    ensures
        r == s@.contains(c),
{
    match find_char(s, c) {
        None => false,
        Some(i) => {
            assert(s@[i as int] == c);
            true
        },
    }
}

/// Whether `p` is a prefix of `s` (`str::starts_with`).
pub fn starts_with(s: &str, p: &str) -> (r: bool)
    ensures
        r == (p@.len() <= s@.len() && s@.take(p@.len() as int) == p@),
{
    let ls = s.unicode_len();
    let lp = p.unicode_len();
    if lp > ls {
        return false;
    }
    let mut i: usize = 0;
    while i < lp
        invariant
            ls == s@.len(),
            lp == p@.len(),
            lp <= ls,
            i <= lp,
            forall|j: int| 0 <= j < i ==> s@[j] == p@[j],
        decreases lp - i,
    {
        if s.get_char(i) != p.get_char(i) {
            assert(s@.take(lp as int)[i as int] != p@[i as int]);
            return false;
        }
        i = i + 1;
    }
    assert(s@.take(lp as int) =~= p@);
    true
}

/// The characters of `s` from `from` up to `to`, as an owned string.
pub fn substring(s: &str, from: usize, to: usize) -> (r: String)
    requires
        from <= to <= s@.len(),
    ensures
        r@ == s@.subrange(from as int, to as int),
{
    owned(s.substring_char(from, to))
}

/// `s` with every trailing `c` removed.
pub open spec fn trim_end_spec(s: Seq<char>, c: char) -> Seq<char>
    decreases s.len(),
{
    if s.len() > 0 && s.last() == c {
        trim_end_spec(s.drop_last(), c)
    } else {
        s
    }
}

/// `str::trim_end_matches` with a single character.
pub fn trim_end_char(s: &str, c: char) -> (r: String)
    ensures
        r@ == trim_end_spec(s@, c),
{
    let mut end = s.unicode_len();
    assert(s@.subrange(0, end as int) =~= s@);
    while end > 0 && s.get_char(end - 1) == c
        invariant
            end <= s@.len(),
            trim_end_spec(s@, c) == trim_end_spec(s@.subrange(0, end as int), c),
        decreases end,
    {
        assert(s@.subrange(0, end as int).drop_last() =~= s@.subrange(0, end - 1));
        end = end - 1;
    }
    substring(s, 0, end)
}

// ---------------------------------------------------------------------
// Editing at a character cursor
// ---------------------------------------------------------------------

/// `s` with `c` inserted before the character at `idx`.
pub fn insert_char_at(s: &str, idx: usize, c: char) -> (r: String)
    requires
        idx <= s@.len(),
    ensures
        r@ == s@.insert(idx as int, c),
{
    let len = s.unicode_len();
    let mut r = substring(s, 0, idx);
    push_char(&mut r, c);
    let rest = s.substring_char(idx, len);
    push_str(&mut r, rest);
    assert(r@ =~= s@.insert(idx as int, c));
    r
}

/// `s` without the character at `idx`.
pub fn remove_char_at(s: &str, idx: usize) -> (r: String)
    requires
        idx < s@.len(),
    ensures
        r@ == s@.remove(idx as int),
{
    let len = s.unicode_len();
    let mut r = substring(s, 0, idx);
    let rest = s.substring_char(idx + 1, len);
    push_str(&mut r, rest);
    assert(r@ =~= s@.remove(idx as int));
    r
}

// ---------------------------------------------------------------------
// TOML basic-string escaping
// ---------------------------------------------------------------------

/// What one character becomes inside a TOML basic string.
pub open spec fn escape_char_spec(c: char) -> Seq<char> {
    if c == '\\' {
        seq!['\\', '\\']
    } else if c == '"' {
        seq!['\\', '"']
    } else if c == '\n' {
        seq!['\\', 'n']
    } else if c == '\r' {
        seq!['\\', 'r']
    } else if c == '\t' {
        seq!['\\', 't']
    } else {
        seq![c]
    }
}

/// The escaped form of a whole string: each character escaped in turn.
pub open spec fn escape_spec(s: Seq<char>) -> Seq<char>
    decreases s.len(),
{
    if s.len() == 0 {
        Seq::empty()
    } else {
        escape_spec(s.drop_last()) + escape_char_spec(s.last())
    }
}

/// Escapes backslashes, double quotes, newlines, carriage returns and tabs so
/// that the text can stand between double quotes in a TOML file.
pub fn escape_toml_string(s: &str) -> (r: String)
    ensures
        r@ == escape_spec(s@),
{
    let len = s.unicode_len();
    let mut r = String::new();
    let mut i: usize = 0;
    while i < len
        invariant
            len == s@.len(),
            i <= len,
            r@ == escape_spec(s@.take(i as int)),
        decreases len - i,
    {
        let c = s.get_char(i);
        if c == '\\' {
            push_char(&mut r, '\\');
            push_char(&mut r, '\\');
        } else if c == '"' {
            push_char(&mut r, '\\');
            push_char(&mut r, '"');
        } else if c == '\n' {
            push_char(&mut r, '\\');
            push_char(&mut r, 'n');
        } else if c == '\r' {
            push_char(&mut r, '\\');
            push_char(&mut r, 'r');
        } else if c == '\t' {
            push_char(&mut r, '\\');
            push_char(&mut r, 't');
        } else {
            push_char(&mut r, c);
        }
        assert(s@.take(i + 1).drop_last() =~= s@.take(i as int));
        assert(r@ =~= escape_spec(s@.take(i as int)) + escape_char_spec(c));
        i = i + 1;
    }
    assert(s@.take(len as int) =~= s@);
    r
}

/// Reads back the text of a TOML basic string: a backslash followed by
/// `\\`, `"`, `n`, `r` or `t` stands for the character it escapes.
pub open spec fn unescape_spec(s: Seq<char>) -> Seq<char>
    decreases s.len(),
{
    if s.len() == 0 {
        Seq::empty()
    } else if s.len() >= 2 && s[0] == '\\' {
        let c = if s[1] == 'n' {
            '\n'
        } else if s[1] == 'r' {
            '\r'
        } else if s[1] == 't' {
            '\t'
        } else {
            s[1]
        };
        seq![c] + unescape_spec(s.skip(2))
    } else {
        seq![s[0]] + unescape_spec(s.skip(1))
    }
}

proof fn lemma_unescape_prefix(e: Seq<char>, rest: Seq<char>, c: char)
    requires
        e == escape_char_spec(c),
    ensures
        unescape_spec(e + rest) == seq![c] + unescape_spec(rest),
{
    let t = e + rest;
    if e.len() == 2 {
        assert(t.skip(2) =~= rest);
    } else {
        assert(t.skip(1) =~= rest);
    }
}

proof fn lemma_escape_front(s: Seq<char>)
    requires
        s.len() > 0,
    ensures
        escape_spec(s) == escape_char_spec(s[0]) + escape_spec(s.drop_first()),
    decreases s.len(),
{
    if s.len() == 1 {
        assert(s.drop_last() =~= Seq::<char>::empty());
        assert(s.drop_first() =~= Seq::<char>::empty());
        assert(escape_spec(s.drop_first()) =~= Seq::<char>::empty());
        assert(escape_spec(s) =~= escape_char_spec(s[0]));
    } else {
        lemma_escape_front(s.drop_last());
        assert(s.drop_last().drop_first() =~= s.drop_first().drop_last());
        assert(s.drop_first().last() == s.last());
        assert(escape_spec(s) =~= escape_char_spec(s[0]) + escape_spec(s.drop_first()));
    }
}

/// Escaping loses nothing: reading an escaped string back gives the
/// same text.
pub proof fn lemma_unescape_escape(s: Seq<char>)
    ensures
        unescape_spec(escape_spec(s)) == s,
    decreases s.len(),
{
    if s.len() == 0 {
        assert(escape_spec(s) =~= Seq::<char>::empty());
    } else {
        lemma_escape_front(s);
        lemma_unescape_escape(s.drop_first());
        lemma_unescape_prefix(escape_char_spec(s[0]), escape_spec(s.drop_first()), s[0]);
        assert(seq![s[0]] + s.drop_first() =~= s);
    }
}

// ---------------------------------------------------------------------
// Whitespace
// ---------------------------------------------------------------------

/// `char::is_whitespace`: the characters with the Unicode `White_Space`
/// property.
pub open spec fn is_white(c: char) -> bool {
    ||| c == ' '
    ||| ('\t' <= c && c <= '\r')
    ||| c == '\u{85}'
    ||| c == '\u{a0}'
    ||| c == '\u{1680}'
    ||| ('\u{2000}' <= c && c <= '\u{200a}')
    ||| c == '\u{2028}'
    ||| c == '\u{2029}'
    ||| c == '\u{202f}'
    ||| c == '\u{205f}'
    ||| c == '\u{3000}'
}

pub fn is_whitespace(c: char) -> (r: bool)
    ensures
        r == is_white(c),
{
    c == ' ' || ('\t' <= c && c <= '\r') || c == '\u{85}' || c == '\u{a0}' || c == '\u{1680}' || (
    '\u{2000}' <= c && c <= '\u{200a}') || c == '\u{2028}' || c == '\u{2029}' || c == '\u{202f}'
        || c == '\u{205f}' || c == '\u{3000}'
}

/// Number of leading whitespace characters.
pub open spec fn lead_white(s: Seq<char>) -> nat
    decreases s.len(),
{
    if s.len() > 0 && is_white(s[0]) {
        1 + lead_white(s.drop_first())
    } else {
        0
    }
}

/// Number of trailing whitespace characters.
pub open spec fn trail_white(s: Seq<char>) -> nat
    decreases s.len(),
{
    if s.len() > 0 && is_white(s.last()) {
        1 + trail_white(s.drop_last())
    } else {
        0
    }
}

/// `str::trim`: `s` without leading and trailing whitespace.
pub open spec fn trim_spec(s: Seq<char>) -> Seq<char> {
    let a = lead_white(s) as int;
    if a == s.len() {
        Seq::empty()
    } else {
        s.subrange(a, s.len() - trail_white(s))
    }
}

proof fn lemma_lead_white_bound(s: Seq<char>)
    ensures
        lead_white(s) <= s.len(),
        forall|i: int| 0 <= i < lead_white(s) ==> is_white(#[trigger] s[i]),
        lead_white(s) < s.len() ==> !is_white(s[lead_white(s) as int]),
    decreases s.len(),
{
    if s.len() > 0 && is_white(s[0]) {
        lemma_lead_white_bound(s.drop_first());
        assert forall|i: int| 0 <= i < lead_white(s) implies is_white(#[trigger] s[i]) by {
            if i > 0 {
                assert(s[i] == s.drop_first()[i - 1]);
            }
        }
    }
}

proof fn lemma_trail_white_bound(s: Seq<char>)
    ensures
        trail_white(s) <= s.len(),
        trail_white(s) < s.len() ==> !is_white(s[s.len() - 1 - trail_white(s)]),
    decreases s.len(),
{
    if s.len() > 0 && is_white(s.last()) {
        lemma_trail_white_bound(s.drop_last());
    }
}

proof fn lemma_lead_white_skip(s: Seq<char>, i: int)
    requires
        0 <= i <= s.len(),
        forall|j: int| 0 <= j < i ==> is_white(#[trigger] s[j]),
    ensures
        lead_white(s) == i + lead_white(s.skip(i)),
    decreases i,
{
    if i > 0 {
        assert forall|j: int| 0 <= j < i - 1 implies is_white(#[trigger] s.drop_first()[j]) by {
            assert(s.drop_first()[j] == s[j + 1]);
        }
        lemma_lead_white_skip(s.drop_first(), i - 1);
        assert(s.drop_first().skip(i - 1) =~= s.skip(i));
    } else {
        assert(s.skip(0) =~= s);
    }
}

proof fn lemma_trail_white_take(s: Seq<char>, e: int)
    requires
        0 <= e <= s.len(),
        forall|j: int| e <= j < s.len() ==> is_white(#[trigger] s[j]),
    ensures
        trail_white(s) == (s.len() - e) + trail_white(s.take(e)),
    decreases s.len() - e,
{
    if e < s.len() {
        assert forall|j: int| e <= j < s.drop_last().len() implies is_white(#[trigger] s.drop_last()[j]) by {
            assert(s.drop_last()[j] == s[j]);
        }
        lemma_trail_white_take(s.drop_last(), e);
        assert(s.drop_last().take(e) =~= s.take(e));
    } else {
        assert(s.take(e) =~= s);
    }
}

/// `str::trim`.
pub fn trim(s: &str) -> (r: String)
    ensures
        r@ == trim_spec(s@),
{
    let len = s.unicode_len();
    let mut a: usize = 0;
    while a < len && is_whitespace(s.get_char(a))
        invariant
            len == s@.len(),
            a <= len,
            forall|j: int| 0 <= j < a ==> is_white(#[trigger] s@[j]),
        decreases len - a,
    {
        a = a + 1;
    }
    proof {
        lemma_lead_white_skip(s@, a as int);
        if a < len {
            assert(s@.skip(a as int)[0] == s@[a as int]);
        }
        assert(lead_white(s@.skip(a as int)) == 0);
    }
    if a == len {
        return String::new();
    }
    let mut e: usize = len;
    while e > a && is_whitespace(s.get_char(e - 1))
        invariant
            len == s@.len(),
            a < len,
            a <= e <= len,
            !is_white(s@[a as int]),
            forall|j: int| e <= j < len ==> is_white(#[trigger] s@[j]),
        decreases e,
    {
        e = e - 1;
    }
    proof {
        lemma_trail_white_take(s@, e as int);
        if e > 0 {
            assert(s@.take(e as int).last() == s@[e - 1]);
        }
        assert(trail_white(s@.take(e as int)) == 0);
    }
    substring(s, a, e)
}

} // verus!
