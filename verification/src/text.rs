//! Text helpers shared by the registry, the lockfile logic and the plugin
//! hooks: substring search, ASCII case folding, decimal rendering of
//! integers, lexicographic order and string building.
use vstd::prelude::*;
use vstd::string::*;

verus! {

/// `needle` occurs as a contiguous run of characters inside `hay`.
pub open spec fn seq_contains(hay: Seq<char>, needle: Seq<char>) -> bool {
    exists|i: int|
        0 <= i && i + needle.len() <= hay.len() && #[trigger] hay.subrange(i, i + needle.len())
            == needle
}

/// Every sequence occurs inside itself.
pub proof fn lemma_contains_self(s: Seq<char>)
    ensures
        seq_contains(s, s),
{
    assert(s.subrange(0, 0 + s.len() as int) =~= s);
}

/// Copies the characters of `s` into a vector.
pub fn to_chars(s: &str) -> (v: Vec<char>)
    ensures
        v@ == s@,
{
    let n = s.unicode_len();
    let mut v: Vec<char> = Vec::new();
    let mut i: usize = 0;
    while i < n
        invariant
            n == s@.len(),
            i <= n,
            v@ == s@.subrange(0, i as int),
        decreases n - i,
    {
        let c = s.get_char(i);
        v.push(c);
        i = i + 1;
        assert(v@ =~= s@.subrange(0, i as int));
    }
    assert(v@ =~= s@);
    v
}

/// String equality: both strings have the same characters.
pub fn str_eq(a: &str, b: &str) -> (r: bool)
    ensures
        r == (a@ == b@),
{
    let x = to_chars(a);
    let y = to_chars(b);
    chars_equal(&x, &y)
}

/// Equality of character vectors.
pub fn chars_equal(a: &Vec<char>, b: &Vec<char>) -> (r: bool)
    ensures
        r == (a@ == b@),
{
    if a.len() != b.len() {
        return false;
    }
    let mut i: usize = 0;
    while i < a.len()
        invariant
            a@.len() == b@.len(),
            i <= a@.len(),
            forall|j: int| 0 <= j < i ==> a@[j] == b@[j],
        decreases a@.len() - i,
    {
        if a[i] != b[i] {
            return false;
        }
        i = i + 1;
    }
    assert(a@ =~= b@);
    true
}

/// Does `needle` match `hay` at position `start`?
fn matches_at(hay: &Vec<char>, needle: &Vec<char>, start: usize) -> (b: bool)
    requires
        start + needle@.len() <= hay@.len(),
    ensures
        b == (hay@.subrange(start as int, start + needle@.len()) == needle@),
{
    let n = hay.len();
    let mut j: usize = 0;
    while j < needle.len()
        invariant
            n == hay@.len(),
            start + needle@.len() <= hay@.len(),
            j <= needle@.len(),
            forall|k: int| 0 <= k < j ==> hay@[start + k] == needle@[k],
        decreases needle@.len() - j,
    {
        if hay[start + j] != needle[j] {
            assert(hay@.subrange(start as int, start + needle@.len())[j as int] != needle@[j as int]);
            return false;
        }
        j = j + 1;
    }
    assert(hay@.subrange(start as int, start + needle@.len()) =~= needle@);
    true
}

/// Substring search over characters.
pub fn chars_contain(hay: &Vec<char>, needle: &Vec<char>) -> (b: bool)
    ensures
        b == seq_contains(hay@, needle@),
{
    if needle.len() > hay.len() {
        return false;
    }
    let last = hay.len() - needle.len();
    let mut i: usize = 0;
    loop
        invariant
            last + needle@.len() == hay@.len(),
            i <= last,
            forall|k: int|
                0 <= k < i ==> #[trigger] hay@.subrange(k, k + needle@.len()) != needle@,
        decreases last - i,
    {
        if matches_at(hay, needle, i) {
            return true;
        }
        if i == last {
            return false;
        }
        i = i + 1;
    }
}

/// ASCII case folding of one character: `A`..`Z` become `a`..`z`.
pub open spec fn ascii_lower_char(c: char) -> char {
    if 'A' <= c && c <= 'Z' {
        ((c as u32) + 32) as char
    } else {
        c
    }
}

/// ASCII case folding of a whole sequence.
pub open spec fn ascii_lower(s: Seq<char>) -> Seq<char> {
    s.map_values(|c: char| ascii_lower_char(c))
}

/// Compares `s` with the literal `lit` ignoring ASCII case of `s`.
pub fn eq_ascii_lower(s: &Vec<char>, lit: &Vec<char>) -> (b: bool)
    ensures
        b == (ascii_lower(s@) == lit@),
{
    if s.len() != lit.len() {
        assert(ascii_lower(s@).len() != lit@.len());
        return false;
    }
    let mut j: usize = 0;
    while j < s.len()
        invariant
            s@.len() == lit@.len(),
            j <= s@.len(),
            forall|k: int| 0 <= k < j ==> ascii_lower_char(s@[k]) == lit@[k],
        decreases s@.len() - j,
    {
        let c = s[j];
        let lc = if 'A' <= c && c <= 'Z' {
            char_from_code((c as u32) + 32)
        } else {
            c
        };
        if lc != lit[j] {
            assert(ascii_lower(s@)[j as int] != lit@[j as int]);
            return false;
        }
        j = j + 1;
    }
    assert(ascii_lower(s@) =~= lit@);
    true
}

/// The character with the given ASCII code.
fn char_from_code(code: u32) -> (c: char)
    requires
        'a' as u32 <= code <= 'z' as u32,
    ensures
        c == code as char,
{
    let b: u8 = code as u8;
    b as char
}

/// The decimal digits of a natural number, most significant first.
pub open spec fn decimal(n: nat) -> Seq<char>
    decreases n,
{
    if n < 10 {
        seq![digit_char(n)]
    } else {
        decimal(n / 10).push(digit_char(n % 10))
    }
}

/// The character for a decimal digit.
pub open spec fn digit_char(d: nat) -> char {
    (('0' as nat) + d) as char
}

/// The text of an integer as Rust's `Display` writes it: a `-` before the
/// digits of a negative number.
pub open spec fn int_text(i: int) -> Seq<char> {
    if i < 0 {
        seq!['-'] + decimal((-i) as nat)
    } else {
        decimal(i as nat)
    }
}

/// Appends one character.
#[verifier::external_body]
fn push_char(s: &mut String, c: char)
    ensures
        final(s)@ == old(s)@.push(c),
{
    s.push(c);
}

/// The digit character for `d < 10`.
fn digit(d: u64) -> (c: char)
    requires
        d < 10,
    ensures
        c == digit_char(d as nat),
{
    let b: u8 = (d as u8) + 48;
    b as char
}

/// Appends the decimal digits of `n` to `out`.
fn push_decimal(out: &mut String, n: u64)
    ensures
        final(out)@ == old(out)@ + decimal(n as nat),
    decreases n,
{
    if n < 10 {
        push_char(out, digit(n));
        assert(decimal(n as nat) =~= seq![digit_char(n as nat)]);
    } else {
        push_decimal(out, n / 10);
        push_char(out, digit(n % 10));
        assert(decimal(n as nat) == decimal((n / 10) as nat).push(digit_char((n % 10) as nat)));
    }
}

/// Renders a 32-bit integer in decimal.
pub fn int_to_text(i: i32) -> (s: String)
    ensures
        s@ == int_text(i as int),
{
    let mut out = String::new();
    if i < 0 {
        push_char(&mut out, '-');
        let m: u64 = (0i64 - (i as i64)) as u64;
        push_decimal(&mut out, m);
    } else {
        push_decimal(&mut out, i as u64);
    }
    out
}

/// Joins two strings.
pub fn concat2(a: &str, b: &str) -> (s: String)
    ensures
        s@ == a@ + b@,
{
    let mut s = String::from_str(a);
    s.append(b);
    s
}

/// Joins three strings.
pub fn concat3(a: &str, b: &str, c: &str) -> (s: String)
    ensures
        s@ == a@ + b@ + c@,
{
    let mut s = String::from_str(a);
    s.append(b);
    s.append(c);
    s
}

/// Joins four strings.
pub fn concat4(a: &str, b: &str, c: &str, d: &str) -> (s: String)
    ensures
        s@ == a@ + b@ + c@ + d@,
{
    let mut s = String::from_str(a);
    s.append(b);
    s.append(c);
    s.append(d);
    s
}

/// Strict lexicographic order on character sequences, comparing code
/// points; a proper prefix comes first.  This is the order in which Rust
/// sorts `String` keys, since UTF-8 preserves code-point order.
pub open spec fn seq_lt(a: Seq<char>, b: Seq<char>) -> bool {
    exists|k: int|
        0 <= k <= a.len() && k <= b.len() && a.subrange(0, k) == b.subrange(0, k) && ((k == a.len()
            && k < b.len()) || (k < a.len() && k < b.len() && (a[k] as u32) < (b[k] as u32)))
}

/// Is `a` strictly before `b` in lexicographic order?
pub fn str_lt(a: &Vec<char>, b: &Vec<char>) -> (r: bool)
    ensures
        r == seq_lt(a@, b@),
{
    let mut k: usize = 0;
    while k < a.len() && k < b.len()
        invariant
            k <= a@.len(),
            k <= b@.len(),
            a@.subrange(0, k as int) == b@.subrange(0, k as int),
        decreases a@.len() - k,
    {
        if a[k] != b[k] {
            let r = (a[k] as u32) < (b[k] as u32);
            proof {
                assert forall|k2: int|
                    0 <= k2 <= a@.len() && k2 <= b@.len() && a@.subrange(0, k2) == b@.subrange(
                        0,
                        k2,
                    ) && ((k2 == a@.len() && k2 < b@.len()) || (k2 < a@.len() && k2 < b@.len()
                        && (a@[k2] as u32) < (b@[k2] as u32))) implies k2 == k by {
                    if k2 > k {
                        assert(a@.subrange(0, k2)[k as int] == b@.subrange(0, k2)[k as int]);
                    }
                    if k2 < k {
                        assert(a@.subrange(0, k as int)[k2] == b@.subrange(0, k as int)[k2]);
                    }
                }
            }
            return r;
        }
        assert(a@.subrange(0, k + 1) =~= a@.subrange(0, k as int).push(a@[k as int]));
        assert(b@.subrange(0, k + 1) =~= b@.subrange(0, k as int).push(b@[k as int]));
        k = k + 1;
    }
    let r = k == a.len() && k < b.len();
    proof {
        assert forall|k2: int|
            0 <= k2 <= a@.len() && k2 <= b@.len() && a@.subrange(0, k2) == b@.subrange(0, k2) && ((
            k2 == a@.len() && k2 < b@.len()) || (k2 < a@.len() && k2 < b@.len() && (a@[k2] as u32)
                < (b@[k2] as u32))) implies k2 == k by {
            if k2 < k {
                assert(a@.subrange(0, k as int)[k2] == b@.subrange(0, k as int)[k2]);
            }
        }
    }
    r
}

} // verus!
