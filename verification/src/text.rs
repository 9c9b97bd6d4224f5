//! Text as sequences of characters: trimming, splitting, decimal numbers.

use vstd::prelude::*;

verus! {

/// Unicode `White_Space`, the characters that trimming takes off.
pub open spec fn white(c: char) -> bool {
    ||| '\u{9}' <= c <= '\u{d}'
    ||| c == ' '
    ||| c == '\u{85}'
    ||| c == '\u{a0}'
    ||| c == '\u{1680}'
    ||| '\u{2000}' <= c <= '\u{200a}'
    ||| c == '\u{2028}'
    ||| c == '\u{2029}'
    ||| c == '\u{202f}'
    ||| c == '\u{205f}'
    ||| c == '\u{3000}'
}

/// `s` without its leading white space.
pub open spec fn trim_start(s: Seq<char>) -> Seq<char>
    decreases s.len(),
{
    if s.len() > 0 && white(s[0]) {
        trim_start(s.drop_first())
    } else {
        s
    }
}

/// `s` without its trailing white space.
pub open spec fn trim_end(s: Seq<char>) -> Seq<char>
    decreases s.len(),
{
    if s.len() > 0 && white(s.last()) {
        trim_end(s.drop_last())
    } else {
        s
    }
}

/// `s` without the white space around it.
pub open spec fn trimmed(s: Seq<char>) -> Seq<char> {
    trim_end(trim_start(s))
}

/// Position of the first `c` in `s`; the length of `s` where there is none.
pub open spec fn first_of(s: Seq<char>, c: char) -> int
    decreases s.len(),
{
    if s.len() == 0 || s[0] == c {
        0
    } else {
        1 + first_of(s.drop_first(), c)
    }
}

pub proof fn lemma_first_of(s: Seq<char>, c: char)
    ensures
        0 <= first_of(s, c) <= s.len(),
        first_of(s, c) < s.len() ==> s[first_of(s, c)] == c,
        forall|i: int| 0 <= i < first_of(s, c) ==> s[i] != c,
    decreases s.len(),
{
    if s.len() > 0 && s[0] != c {
        let t = s.drop_first();
        lemma_first_of(t, c);
        assert forall|i: int| 0 <= i < first_of(s, c) implies s[i] != c by {
            if i > 0 {
                assert(t[i - 1] == s[i]);
            }
        }
    }
}

/// The first `c` in `s` is the one before which there is none.
pub proof fn lemma_first_of_is(s: Seq<char>, c: char, k: int)
    requires
        0 <= k <= s.len(),
        k < s.len() ==> s[k] == c,
        forall|i: int| 0 <= i < k ==> s[i] != c,
    ensures
        first_of(s, c) == k,
{
    lemma_first_of(s, c);
    let f = first_of(s, c);
    if f < k {
        assert(s[f] != c);
    } else if k < f {
        assert(s[k] == c);
    }
}

pub open spec fn digit(c: char) -> bool {
    '0' <= c <= '9'
}

/// The number that the digits of `s` write in base ten; other characters
/// count for nothing.
pub open spec fn decimal(s: Seq<char>) -> nat
    decreases s.len(),
{
    if s.len() == 0 {
        0
    } else if digit(s.last()) {
        10 * decimal(s.drop_last()) + (s.last() as nat - '0' as nat) as nat
    } else {
        decimal(s.drop_last())
    }
}

/// The unsigned number that `s` writes: digits, with underscores between or
/// after them, and no larger than a `u64` holds.
pub open spec fn number(s: Seq<char>) -> Option<u64> {
    if s.len() > 0 && digit(s[0]) && (forall|i: int|
        0 <= i < s.len() ==> digit(#[trigger] s[i]) || s[i] == '_') && decimal(s) <= u64::MAX {
        Some(decimal(s) as u64)
    } else {
        None
    }
}

/// The number that `s` writes, with an optional minus sign in front.
pub open spec fn signed_number(s: Seq<char>) -> Option<int> {
    if s.len() > 0 && s[0] == '-' {
        match number(s.drop_first()) {
            Some(v) => Some(-(v as int)),
            None => None,
        }
    } else {
        match number(s) {
            Some(v) => Some(v as int),
            None => None,
        }
    }
}

/// `s` without the matching single or double quotes around it.
pub open spec fn unquoted(s: Seq<char>) -> Seq<char> {
    if s.len() >= 2 && (s[0] == '"' || s[0] == '\'') && s.last() == s[0] {
        s.subrange(1, s.len() - 1)
    } else {
        s
    }
}

/// The text of a byte string, where it is UTF-8.
///
/// Calls `core::str::from_utf8`, which hands the same bytes back as a string
/// slice if they are valid UTF-8 and an error otherwise.
#[verifier::external_body]
pub(crate) fn utf8_text(bytes: &[u8]) -> (r: Option<&str>)
    ensures
        r is Some <==> vstd::utf8::valid_utf8(bytes@),
        r matches Some(s) ==> vstd::utf8::encode_utf8(s@) == bytes@,
{
    core::str::from_utf8(bytes).ok()
}

/// The characters of `s`.
pub fn chars_of(s: &str) -> (v: Vec<char>)
    ensures
        v@ == s@,
{
    let mut v: Vec<char> = Vec::new();
    for c in it: s.chars()
        invariant
            v@ =~= it.seq().take(it.index()),
            it.seq() == s@,
    {
        v.push(c);
    }
    v
}

fn is_white(c: char) -> (r: bool)
    ensures
        r == white(c),
{
    ('\u{9}' <= c && c <= '\u{d}') || c == ' ' || c == '\u{85}' || c == '\u{a0}' || c == '\u{1680}'
        || ('\u{2000}' <= c && c <= '\u{200a}') || c == '\u{2028}' || c == '\u{2029}' || c
        == '\u{202f}' || c == '\u{205f}' || c == '\u{3000}'
}

/// Take the white space around `s` off.
pub fn trim(s: &[char]) -> (r: &[char])
    ensures
        r@ == trimmed(s@),
        r@.len() <= s@.len(),
{
    let mut from: usize = 0;
    assert(s@.skip(0) =~= s@);
    while from < s.len() && is_white(s[from])
        invariant
            from <= s@.len(),
            trim_start(s@) == trim_start(s@.skip(from as int)),
        decreases s@.len() - from,
    {
        assert(s@.skip(from as int).drop_first() =~= s@.skip(from + 1));
        from = from + 1;
    }
    let ghost tail = s@.skip(from as int);
    assert(trim_start(s@) == tail);
    let mut to: usize = s.len();
    assert(s@.subrange(from as int, to as int) =~= tail);
    while to > from && is_white(s[to - 1])
        invariant
            from <= to <= s@.len(),
            tail == s@.skip(from as int),
            trim_end(tail) == trim_end(s@.subrange(from as int, to as int)),
        decreases to,
    {
        assert(s@.subrange(from as int, to as int).drop_last() =~= s@.subrange(
            from as int,
            to - 1,
        ));
        to = to - 1;
    }
    &s[from..to]
}

/// Position of the first `c` in `s`; the length of `s` where there is none.
pub fn find(s: &[char], c: char) -> (k: usize)
    ensures
        k == first_of(s@, c),
        k <= s@.len(),
{
    let mut k: usize = 0;
    while k < s.len() && s[k] != c
        invariant
            k <= s@.len(),
            forall|i: int| 0 <= i < k ==> s@[i] != c,
        decreases s@.len() - k,
    {
        k = k + 1;
    }
    proof {
        lemma_first_of_is(s@, c, k as int);
    }
    k
}

/// Whether `s` is the word `w`.
pub fn is_word(s: &[char], w: &str) -> (r: bool)
    ensures
        r == (s@ == w@),
{
    let v: Vec<char> = chars_of(w);
    if s.len() != v.len() {
        return false;
    }
    let mut i: usize = 0;
    while i < s.len()
        invariant
            i <= s@.len(),
            s@.len() == v@.len(),
            v@ == w@,
            forall|j: int| 0 <= j < i ==> s@[j] == v@[j],
        decreases s@.len() - i,
    {
        if s[i] != v[i] {
            return false;
        }
        i = i + 1;
    }
    assert(s@ =~= w@);
    true
}

proof fn lemma_decimal_grows(s: Seq<char>, i: int)
    requires
        0 <= i <= s.len(),
    ensures
        decimal(s.take(i)) <= decimal(s),
    decreases s.len() - i,
{
    if i == s.len() {
        assert(s.take(i) =~= s);
    } else {
        lemma_decimal_grows(s, i + 1);
        assert(s.take(i + 1).drop_last() =~= s.take(i));
    }
}

/// Read an unsigned number; underscores are allowed as digit separators.
pub fn parse_u64(s: &[char]) -> (r: Option<u64>)
    ensures
        r == number(s@),
{
    let mut n: u64 = 0;
    let mut any: bool = false;
    let mut i: usize = 0;
    assert(s@.take(0) =~= Seq::<char>::empty());
    while i < s.len()
        invariant
            i <= s@.len(),
            any == (i > 0),
            i > 0 ==> digit(s@[0]),
            forall|j: int| 0 <= j < i ==> digit(#[trigger] s@[j]) || s@[j] == '_',
            n == decimal(s@.take(i as int)),
        decreases s@.len() - i,
    {
        let c: char = s[i];
        proof {
            lemma_decimal_grows(s@, i + 1);
            assert(s@.take(i + 1).drop_last() =~= s@.take(i as int));
            assert(s@.take(i + 1).last() == c);
        }
        if '0' <= c && c <= '9' {
            let d: u64 = (c as u32 - '0' as u32) as u64;
            match n.checked_mul(10) {
                None => {
                    return None;
                },
                Some(m) => match m.checked_add(d) {
                    None => {
                        return None;
                    },
                    Some(k) => {
                        n = k;
                    },
                },
            }
            any = true;
        } else if c == '_' && any {
        } else {
            return None;
        }
        i = i + 1;
    }
    assert(s@.take(i as int) =~= s@);
    if any {
        Some(n)
    } else {
        None
    }
}

/// Read a number with an optional minus sign in front.
pub fn parse_i128(s: &[char]) -> (r: Option<i128>)
    ensures
        match signed_number(s@) {
            Some(v) => r == Some(v as i128),
            None => r is None,
        },
        r matches Some(v) ==> -0xFFFF_FFFF_FFFF_FFFF <= v <= 0xFFFF_FFFF_FFFF_FFFF
            && signed_number(s@) == Some(v as int),
{
    if s.len() > 0 && s[0] == '-' {
        let rest = &s[1..s.len()];
        assert(rest@ =~= s@.drop_first());
        match parse_u64(rest) {
            Some(v) => Some(-(v as i128)),
            None => None,
        }
    } else {
        match parse_u64(s) {
            Some(v) => Some(v as i128),
            None => None,
        }
    }
}

/// Strip matching single or double quotes.
pub fn unquote(s: &[char]) -> (r: &[char])
    ensures
        r@ == unquoted(s@),
{
    if s.len() >= 2 && (s[0] == '"' || s[0] == '\'') && s[s.len() - 1] == s[0] {
        &s[1..s.len() - 1]
    } else {
        s
    }
}

// -- Writing numbers ----------------------------------------------------------

/// The ASCII digits of a number in base ten.
pub open spec fn digits(n: nat) -> Seq<u8>
    decreases n,
{
    if n < 10 {
        seq![(0x30 + n) as u8]
    } else {
        digits(n / 10).push((0x30 + n % 10) as u8)
    }
}

/// The ASCII digits of a number in base ten, with a minus sign in front of a
/// negative one.
pub open spec fn signed_digits(n: int) -> Seq<u8> {
    if n < 0 {
        seq![0x2Du8] + digits((-n) as nat)
    } else {
        digits(n as nat)
    }
}

/// The `k`-th power of ten.
pub open spec fn pow10(k: nat) -> nat
    decreases k,
{
    if k == 0 {
        1
    } else {
        10 * pow10((k - 1) as nat)
    }
}

/// A number below the `k`-th power of ten takes at most `k` digits.
pub proof fn lemma_digits_len(n: nat, k: nat)
    requires
        k >= 1,
        n < pow10(k),
    ensures
        1 <= digits(n).len() <= k,
    decreases k,
{
    if n >= 10 {
        if k == 1 {
            reveal_with_fuel(pow10, 2);
        } else {
            lemma_digits_len(n / 10, (k - 1) as nat);
        }
    }
}

/// Append the digits of a number.
pub fn push_number(out: &mut Vec<u8>, n: u32)
    ensures
        final(out)@ == old(out)@ + digits(n as nat),
    decreases n,
{
    let ghost before = out@;
    if n >= 10 {
        push_number(out, n / 10);
    }
    let ghost mid = out@;
    out.push((0x30 + n % 10) as u8);
    proof {
        if n >= 10 {
            assert(out@ =~= before + digits(n as nat / 10).push((0x30 + n % 10) as u8));
        } else {
            assert(out@ =~= before + seq![(0x30 + n) as u8]);
        }
    }
}

/// Append the digits of a number that may be negative.
pub fn push_signed(out: &mut Vec<u8>, n: i32)
    ensures
        final(out)@ == old(out)@ + signed_digits(n as int),
{
    let ghost before = out@;
    if n < 0 {
        out.push(0x2D);
        push_number(out, (-(n as i64)) as u32);
        assert(out@ =~= before + signed_digits(n as int));
    } else {
        push_number(out, n as u32);
    }
}

// -- Laws ---------------------------------------------------------------------

/// A byte string in ASCII, as characters.
pub open spec fn as_chars(b: Seq<u8>) -> Seq<char> {
    Seq::new(b.len(), |i: int| b[i] as char)
}

/// Whether every character is white space.
pub open spec fn all_white(s: Seq<char>) -> bool {
    forall|i: int| 0 <= i < s.len() ==> white(#[trigger] s[i])
}

/// Whether there is no white space at either end.
pub open spec fn tight(s: Seq<char>) -> bool {
    s.len() > 0 ==> !white(s[0]) && !white(s.last())
}

proof fn lemma_trim_start(s: Seq<char>) -> (k: int)
    ensures
        0 <= k <= s.len(),
        trim_start(s) == s.skip(k),
        all_white(s.take(k)),
        k < s.len() ==> !white(s[k]),
    decreases s.len(),
{
    if s.len() > 0 && white(s[0]) {
        let k = lemma_trim_start(s.drop_first());
        assert(s.drop_first().skip(k) =~= s.skip(k + 1));
        assert forall|i: int| 0 <= i < k + 1 implies white(#[trigger] s.take(k + 1)[i]) by {
            if i > 0 {
                assert(s.drop_first().take(k)[i - 1] == s[i]);
            }
        }
        k + 1
    } else {
        assert(s.skip(0) =~= s);
        0
    }
}

proof fn lemma_trim_end(s: Seq<char>) -> (k: int)
    ensures
        0 <= k <= s.len(),
        trim_end(s) == s.take(k),
        all_white(s.skip(k)),
        k > 0 ==> !white(s[k - 1]),
    decreases s.len(),
{
    if s.len() > 0 && white(s.last()) {
        let k = lemma_trim_end(s.drop_last());
        assert(s.drop_last().take(k) =~= s.take(k));
        assert forall|i: int| 0 <= i < s.len() - k implies white(#[trigger] s.skip(k)[i]) by {
            if i < s.len() - k - 1 {
                assert(s.drop_last().skip(k)[i] == s[k + i]);
            }
        }
        k
    } else {
        assert(s.take(s.len() as int) =~= s);
        s.len() as int
    }
}

/// Trimming takes exactly the white space off both ends: what is left of a
/// text between white space is the text, and nothing else is touched.
pub proof fn law_trimming(before: Seq<char>, s: Seq<char>, after: Seq<char>)
    requires
        all_white(before),
        all_white(after),
        tight(s),
    ensures
        trimmed(before + s + after) == s,
{
    let t = before + s + after;
    let k = lemma_trim_start(t);
    let m = lemma_trim_end(t.skip(k));
    if s.len() == 0 {
        assert forall|i: int| 0 <= i < t.len() implies white(#[trigger] t[i]) by {
            if i < before.len() {
                assert(t[i] == before[i]);
            } else {
                assert(t[i] == after[i - before.len()]);
            }
        }
        if k < t.len() {
            assert(white(t[k]));
        }
        assert(t.skip(k).take(m) =~= s);
    } else {
        let b = before.len() as int;
        assert(t[b] == s[0]);
        assert(t[b + s.len() - 1] == s.last());
        if k > b {
            assert(white(t.take(k)[b]));
        }
        if k < b {
            assert(white(before[k]));
            assert(t[k] == before[k]);
        }
        assert(k == b);
        if m < s.len() {
            assert(t.skip(k).skip(m)[s.len() - 1 - m] == s.last());
        }
        if m > s.len() {
            assert(t.skip(k)[m - 1] == after[m - 1 - s.len()]);
            assert(white(after[m - 1 - s.len()]));
        }
        assert(t.skip(k).take(m) =~= s);
    }
}

/// A number written out in digits reads back as itself, for every number that
/// fits, and its text is digits alone.
pub proof fn law_number_text_roundtrip(n: u64)
    ensures
        number(as_chars(digits(n as nat))) == Some(n),
        signed_number(as_chars(digits(n as nat))) == Some(n as int),
        signed_number(as_chars(signed_digits(-(n as int)))) == Some(-(n as int)),
        as_chars(digits(n as nat)).len() > 0,
        forall|i: int|
            0 <= i < digits(n as nat).len() ==> digit(#[trigger] as_chars(digits(n as nat))[i]),
{
    lemma_digits_read_back(n as nat);
    let t = as_chars(digits(n as nat));
    assert(digit(t[0]));
    if n > 0 {
        let s = as_chars(signed_digits(-(n as int)));
        assert(signed_digits(-(n as int)) == seq![0x2Du8] + digits(n as nat));
        assert(s.drop_first() =~= t);
    }
}

proof fn lemma_digits_read_back(n: nat)
    ensures
        decimal(as_chars(digits(n))) == n,
        digits(n).len() > 0,
        forall|i: int| 0 <= i < digits(n).len() ==> digit(#[trigger] as_chars(digits(n))[i]),
    decreases n,
{
    let t = as_chars(digits(n));
    if n >= 10 {
        lemma_digits_read_back(n / 10);
        let h = as_chars(digits(n / 10));
        assert(t.drop_last() =~= h);
        assert forall|i: int| 0 <= i < t.len() implies digit(#[trigger] t[i]) by {
            if i < h.len() {
                assert(digit(h[i]));
                assert(t[i] == h[i]);
            }
        }
    } else {
        assert(t.drop_last() =~= Seq::<char>::empty());
        reveal_with_fuel(decimal, 2);
    }
}

/// Digits are those of base ten: a digit more is ten times the number and that
/// digit; an underscore behind a number changes nothing, and any other
/// character makes it none.
pub proof fn law_numbers_are_decimal(s: Seq<char>, c: char, n: nat, d: nat)
    requires
        d < 10,
    ensures
        d > 0 || n > 0 ==> digits(10 * n + d) == if n > 0 {
            digits(n).push((0x30 + d) as u8)
        } else {
            seq![(0x30 + d) as u8]
        },
        digits(0) == seq![0x30u8],
        signed_digits(n as int) == digits(n),
        n > 0 ==> signed_digits(-n) == seq![0x2Du8] + digits(n),
        number(Seq::empty()) is None,
        number(s) is Some ==> number(s.push('_')) == number(s),
        number(s) is Some && digit(c) ==> ({
            let v = 10 * number(s)->0 + (c as int - '0' as int);
            if v <= u64::MAX {
                number(s.push(c)) == Some(v as u64)
            } else {
                number(s.push(c)) is None
            }
        }),
        !digit(c) && c != '_' ==> number(s.push(c)) is None,
        number(s) is Some ==> signed_number(seq!['-'] + s) == Some(-(number(s)->0 as int))
            && signed_number(s) == Some(number(s)->0 as int),
{
    let t = s.push(c);
    assert(t.drop_last() =~= s);
    assert(s.push('_').drop_last() =~= s);
    if number(s) is Some {
        assert forall|i: int| 0 <= i < t.len() && (digit(c) || c == '_') implies digit(
            #[trigger] t[i],
        ) || t[i] == '_' by {
            if i < s.len() {
                assert(t[i] == s[i]);
            }
        }
        let u = s.push('_');
        assert forall|i: int| 0 <= i < u.len() implies digit(#[trigger] u[i]) || u[i] == '_' by {
            if i < s.len() {
                assert(u[i] == s[i]);
            }
        }
        assert(t[0] == s[0] && u[0] == s[0]);
        let m = seq!['-'] + s;
        assert(m.drop_first() =~= s);
        assert(digit(s[0]));
    }
    if !digit(c) && c != '_' {
        assert(t[t.len() - 1] == c);
    }
}

/// Quotes come off in matching pairs, one pair at most; any other text stays
/// as it is.
pub proof fn law_unquoting(s: Seq<char>, q: char)
    ensures
        q == '"' || q == '\'' ==> unquoted(seq![q] + s + seq![q]) == s,
        s.len() < 2 ==> unquoted(s) == s,
        s.len() > 0 && s[0] != '"' && s[0] != '\'' ==> unquoted(s) == s,
        s.len() > 0 && s[0] != s.last() ==> unquoted(s) == s,
{
    let t = seq![q] + s + seq![q];
    assert(t.subrange(1, t.len() - 1) =~= s);
}

/// A number in text is its digits, behind a minus sign exactly where it is
/// negative; each digit is the next of the decimal expansion.
pub proof fn law_digits_are_decimal(n: nat, d: nat, x: int)
    requires
        d < 10,
    ensures
        n < 10 ==> digits(n).len() == 1 && digits(n)[0] == 0x30 + n,
        n > 0 ==> digits(10 * n + d) == digits(n).push((0x30 + d) as u8),
        x < 0 ==> signed_digits(x)[0] == 0x2D && signed_digits(x).skip(1) == digits((-x) as nat),
        x >= 0 ==> signed_digits(x) == digits(x as nat),
{
    if x < 0 {
        assert(signed_digits(x).skip(1) =~= digits((-x) as nat));
    }
}

/// The white space is tab to carriage return, the space, and the spaces and
/// separators outside of ASCII; no other character is.
pub proof fn law_white_space(c: char)
    ensures
        white(c) <==> {
            let n = c as u32;
            ||| 9 <= n <= 13
            ||| n == 32
            ||| n == 0x85
            ||| n == 0xA0
            ||| n == 0x1680
            ||| 0x2000 <= n <= 0x200A
            ||| n == 0x2028
            ||| n == 0x2029
            ||| n == 0x202F
            ||| n == 0x205F
            ||| n == 0x3000
        },
{
}

} // verus!
