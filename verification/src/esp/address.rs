//! The board's BLE address.
//!
//! A static-random address, written most significant octet first for people
//! ("FF:C6:A1:53:50:47") and held least significant octet first for the BLE
//! stack. Without an override it is derived from the chip's factory MAC, so
//! every board is unique out of the box.

use vstd::prelude::*;
use crate::text::{chars_of, find, first_of, lemma_first_of, lemma_first_of_is};

verus! {

/// Length of an address as text.
pub const ADDRESS_TEXT_LEN: usize = 17;

// -- Hexadecimal --------------------------------------------------------------

/// The value of a hexadecimal digit.
pub open spec fn hex_digit(c: char) -> Option<nat> {
    if '0' <= c <= '9' {
        Some((c as int - '0' as int) as nat)
    } else if 'a' <= c <= 'f' {
        Some((c as int - 'a' as int + 10) as nat)
    } else if 'A' <= c <= 'F' {
        Some((c as int - 'A' as int + 10) as nat)
    } else {
        None
    }
}

/// The number that hexadecimal digits write; other characters count as 0.
pub open spec fn hex_value(s: Seq<char>) -> nat
    decreases s.len(),
{
    if s.len() == 0 {
        0
    } else {
        16 * hex_value(s.drop_last()) + match hex_digit(s.last()) {
            Some(d) => d,
            None => 0,
        }
    }
}

/// `s` without a leading plus sign.
pub open spec fn unsigned(s: Seq<char>) -> Seq<char> {
    if s.len() > 0 && s[0] == '+' {
        s.drop_first()
    } else {
        s
    }
}

/// The octet that `s` writes in hexadecimal: at least one digit, an optional
/// plus sign in front, and a value that fits.
pub open spec fn octet(s: Seq<char>) -> Option<u8> {
    let d = unsigned(s);
    if d.len() > 0 && (forall|i: int| 0 <= i < d.len() ==> hex_digit(#[trigger] d[i]) is Some)
        && hex_value(d) <= 255 {
        Some(hex_value(d) as u8)
    } else {
        None
    }
}

/// The upper-case hexadecimal digit of a value below 16.
pub open spec fn hex_ascii(n: u8) -> u8 {
    if n < 10 {
        (0x30 + n) as u8
    } else {
        (0x37 + n) as u8
    }
}

/// Read an octet in hexadecimal.
pub fn parse_octet(s: &[char]) -> (r: Option<u8>)
    ensures
        r == octet(s@),
{
    let start: usize = if s.len() > 0 && s[0] == '+' {
        1
    } else {
        0
    };
    let ghost d = unsigned(s@);
    assert(d =~= s@.skip(start as int));
    if start == s.len() {
        return None;
    }
    let mut n: u16 = 0;
    let mut over: bool = false;
    let mut i: usize = start;
    assert(d.take(0) =~= Seq::<char>::empty());
    while i < s.len()
        invariant
            start <= i <= s@.len(),
            start < s@.len(),
            d == unsigned(s@),
            d == s@.skip(start as int),
            n <= 255,
            forall|j: int| 0 <= j < i - start ==> hex_digit(#[trigger] d[j]) is Some,
            over ==> hex_value(d.take(i - start)) > 255,
            !over ==> n == hex_value(d.take(i - start)),
        decreases s@.len() - i,
    {
        let c: char = s[i];
        assert(d[i - start] == c);
        let v: u16 = if '0' <= c && c <= '9' {
            (c as u32 - '0' as u32) as u16
        } else if 'a' <= c && c <= 'f' {
            (c as u32 - 'a' as u32 + 10) as u16
        } else if 'A' <= c && c <= 'F' {
            (c as u32 - 'A' as u32 + 10) as u16
        } else {
            return None;
        };
        assert(d.take(i - start + 1).drop_last() =~= d.take(i - start));
        let next: u16 = n * 16 + v;
        if over || next > 255 {
            over = true;
        } else {
            n = next;
        }
        i = i + 1;
    }
    assert(d.take(i - start) =~= d);
    if over {
        None
    } else {
        Some(n as u8)
    }
}

// -- Addresses ----------------------------------------------------------------

/// What stands between the colons of `s`.
pub open spec fn pieces(s: Seq<char>) -> Seq<Seq<char>>
    decreases s.len(),
{
    let k = first_of(s, ':');
    if k < 0 || k >= s.len() {
        seq![s]
    } else {
        seq![s.take(k)] + pieces(s.skip(k + 1))
    }
}

/// The octet that piece `i` writes; 0 where it is missing or malformed.
pub open spec fn octet_or_zero(s: Seq<char>, i: int) -> u8 {
    if i < pieces(s).len() {
        match octet(pieces(s)[i]) {
            Some(v) => v,
            None => 0,
        }
    } else {
        0
    }
}

/// The address that `s` writes, least significant octet first.
pub open spec fn address_named(s: Seq<char>) -> Seq<u8> {
    Seq::new(6, |i: int| octet_or_zero(s, 5 - i))
}

/// An address as text, most significant octet first.
pub open spec fn address_text(a: Seq<u8>) -> Seq<u8> {
    Seq::new(
        17,
        |i: int|
            if i % 3 == 2 {
                0x3A
            } else if i % 3 == 0 {
                hex_ascii((a[5 - i / 3] / 16) as u8)
            } else {
                hex_ascii((a[5 - i / 3] % 16) as u8)
            },
    )
}

/// ASCII bytes as characters.
pub open spec fn ascii(b: Seq<u8>) -> Seq<char> {
    Seq::new(b.len(), |i: int| b[i] as char)
}

/// The address that a chip's factory MAC gives: the MAC's most significant
/// octet gets its top two bits set, which is all a static-random address
/// requires, and the per-chip low bytes keep it distinct.
pub open spec fn derived_address(mac: Seq<u8>) -> Seq<u8> {
    seq![mac[5], mac[4], mac[3], mac[2], mac[1], mac[0] | 0xC0]
}

/// A board's address: the one that it is given, or else its derived one.
pub open spec fn board_address(named: Option<Seq<char>>, mac: Seq<u8>) -> Seq<u8> {
    match named {
        Some(s) => address_named(s),
        None => derived_address(mac),
    }
}

proof fn lemma_pieces_step(s: Seq<char>)
    ensures
        pieces(s).len() >= 1,
        first_of(s, ':') == s.len() ==> pieces(s) == seq![s],
        first_of(s, ':') < s.len() ==> {
            &&& pieces(s)[0] == s.take(first_of(s, ':'))
            &&& pieces(s).skip(1) == pieces(s.skip(first_of(s, ':') + 1))
        },
        0 <= first_of(s, ':') <= s.len(),
{
    lemma_first_of(s, ':');
    let k = first_of(s, ':');
    if k < s.len() {
        assert(pieces(s).skip(1) =~= pieces(s.skip(k + 1)));
    }
}

/// Read an address ("FF:C6:A1:53:50:47") into the order the BLE stack
/// expects. An override has been validated at build time, so a malformed
/// octet here can only be a bug; it falls back to zero.
pub fn parse_ble_address(s: &str) -> (a: [u8; 6])
    ensures
        a@ == address_named(s@),
{
    let v: Vec<char> = chars_of(s);
    let mut out: [u8; 6] = [0u8; 6];
    let mut at: usize = 0;
    let mut i: usize = 0;
    let mut more: bool = true;
    assert(v@.skip(0) =~= v@);
    assert(pieces(v@).skip(0) =~= pieces(v@));
    while i < 6 && more
        invariant
            v@ == s@,
            i <= 6,
            at <= v@.len(),
            more ==> i <= pieces(s@).len() && pieces(v@.skip(at as int)) == pieces(s@).skip(
                i as int,
            ),
            !more ==> pieces(s@).len() <= i,
            forall|j: int| 0 <= j < i ==> out@[5 - j] == #[trigger] octet_or_zero(s@, j),
            forall|j: int| i <= j < 6 ==> #[trigger] out@[5 - j] == 0,
        decreases 6 - i,
    {
        let rest: &[char] = &v.as_slice()[at..v.len()];
        assert(rest@ =~= v@.skip(at as int));
        let k: usize = find(rest, ':');
        let piece: &[char] = &rest[0..k];
        proof {
            lemma_pieces_step(rest@);
            assert(piece@ =~= rest@.take(k as int));
            assert(pieces(rest@)[0] == pieces(s@)[i as int]);
            if k == rest@.len() {
                assert(rest@.take(k as int) =~= rest@);
            }
            assert(piece@ == pieces(s@)[i as int]);
        }
        let value: u8 = match parse_octet(piece) {
            Some(b) => b,
            None => 0,
        };
        assert(value == octet_or_zero(s@, i as int));
        let ghost before = out@;
        out[5 - i] = value;
        assert forall|j: int| 0 <= j < i + 1 implies out@[5 - j] == #[trigger] octet_or_zero(
            s@,
            j,
        ) by {
            if j < i {
                assert(before[5 - j] == octet_or_zero(s@, j));
            }
        }
        proof {
            if k < rest@.len() {
                assert(rest@.skip(k + 1) =~= v@.skip(at + k + 1));
                assert(pieces(s@).skip(i as int).skip(1) =~= pieces(s@).skip(i + 1));
            } else {
                assert(pieces(rest@).len() == 1);
            }
        }
        if k < rest.len() {
            at = at + k + 1;
        } else {
            more = false;
        }
        i = i + 1;
    }
    assert(out@ =~= address_named(s@)) by {
        assert forall|m: int| 0 <= m < 6 implies out@[m] == octet_or_zero(s@, 5 - m) by {
            let j = 5 - m;
            if j < i {
                assert(out@[5 - j] == octet_or_zero(s@, j));
            } else {
                assert(out@[5 - j] == 0);
            }
        }
    }
    out
}

fn put_hex(n: u8) -> (c: u8)
    requires
        n < 16,
    ensures
        c == hex_ascii(n),
{
    if n < 10 {
        0x30 + n
    } else {
        0x37 + n
    }
}

/// Format an address for display, most significant octet first.
pub fn fmt_ble_address(a: &[u8; 6]) -> (t: [u8; ADDRESS_TEXT_LEN])
    ensures
        t@ == address_text(a@),
{
    let mut t: [u8; ADDRESS_TEXT_LEN] = [0x3Au8; ADDRESS_TEXT_LEN];
    let mut i: usize = 0;
    while i < 6
        invariant
            i <= 6,
            forall|j: int| 0 <= j < 17 && j < 3 * i ==> t@[j] == #[trigger] address_text(a@)[j],
            forall|j: int| 3 * i <= j < 17 ==> #[trigger] t@[j] == 0x3A,
        decreases 6 - i,
    {
        let b: u8 = a[5 - i];
        t[3 * i] = put_hex(b / 16);
        t[3 * i + 1] = put_hex(b % 16);
        assert forall|j: int| 0 <= j < 17 && j < 3 * (i + 1) implies t@[j]
            == #[trigger] address_text(a@)[j] by {
            if j >= 3 * i {
                assert(j / 3 == i);
            }
        }
        i = i + 1;
    }
    assert(t@ =~= address_text(a@));
    t
}

/// The board's BLE address, least significant octet first: the build-time
/// override, or one derived from the factory MAC (most significant octet
/// first).
pub fn ble_address(named: Option<&str>, mac: &[u8; 6]) -> (a: [u8; 6])
    ensures
        a@ == board_address(
            match named {
                Some(s) => Some(s@),
                None => None,
            },
            mac@,
        ),
{
    match named {
        Some(s) => parse_ble_address(s),
        None => {
            let a: [u8; 6] = [mac[5], mac[4], mac[3], mac[2], mac[1], mac[0] | 0xC0];
            assert(a@ =~= derived_address(mac@));
            a
        },
    }
}

// -- Overrides ----------------------------------------------------------------

/// Why an override is refused.
#[derive(Clone, Copy, Debug, PartialEq, Eq, Structural)]
pub enum AddressError {
    /// The octet at this place is not hexadecimal or does not fit.
    BadOctet(usize),
    /// Not six octets.
    OctetCount(usize),
    /// The top two bits of the first octet are not both set, so it is not a
    /// static-random address.
    NotStaticRandom,
}

/// Place of the first piece that is no octet; their number where all are.
pub open spec fn first_bad(ps: Seq<Seq<char>>) -> int
    decreases ps.len(),
{
    if ps.len() == 0 || octet(ps[0]) is None {
        0
    } else {
        1 + first_bad(ps.skip(1))
    }
}

/// What becomes of an override: the normalized text, or why it is refused.
pub open spec fn override_checked(raw: Seq<char>) -> Result<Seq<u8>, AddressError> {
    let ps = pieces(raw);
    if first_bad(ps) < ps.len() {
        Err(AddressError::BadOctet(first_bad(ps) as usize))
    } else if ps.len() != 6 {
        Err(AddressError::OctetCount(ps.len() as usize))
    } else if octet(ps[0]).unwrap() & 0xC0 != 0xC0 {
        Err(AddressError::NotStaticRandom)
    } else {
        Ok(address_text(address_named(raw)))
    }
}

proof fn lemma_pieces_fit(s: Seq<char>)
    ensures
        pieces(s).len() <= s.len() + 1,
    decreases s.len(),
{
    lemma_pieces_step(s);
    if first_of(s, ':') < s.len() {
        lemma_pieces_fit(s.skip(first_of(s, ':') + 1));
        assert(pieces(s).len() == 1 + pieces(s).skip(1).len());
    }
}

proof fn lemma_first_bad(ps: Seq<Seq<char>>)
    ensures
        0 <= first_bad(ps) <= ps.len(),
        first_bad(ps) < ps.len() ==> octet(ps[first_bad(ps)]) is None,
        forall|i: int| 0 <= i < first_bad(ps) ==> octet(#[trigger] ps[i]) is Some,
    decreases ps.len(),
{
    if ps.len() > 0 && octet(ps[0]) is Some {
        lemma_first_bad(ps.skip(1));
        assert forall|i: int| 0 <= i < first_bad(ps) implies octet(#[trigger] ps[i]) is Some by {
            if i > 0 {
                assert(ps.skip(1)[i - 1] == ps[i]);
            }
        }
    }
}

proof fn lemma_first_bad_is(ps: Seq<Seq<char>>, k: int)
    requires
        0 <= k <= ps.len(),
        k < ps.len() ==> octet(ps[k]) is None,
        forall|i: int| 0 <= i < k ==> octet(#[trigger] ps[i]) is Some,
    ensures
        first_bad(ps) == k,
{
    lemma_first_bad(ps);
    let f = first_bad(ps);
    if f < k {
        assert(octet(ps[f]) is Some);
    } else if k < f {
        assert(octet(ps[k]) is Some);
    }
}

/// Validate an override and normalize it to upper case. A bad override fails
/// the build rather than flashing a radio that will not advertise.
pub fn check_override(raw: &str) -> (r: Result<[u8; ADDRESS_TEXT_LEN], AddressError>)
    requires
        raw@.len() < usize::MAX,
    ensures
        match r {
            Ok(t) => override_checked(raw@) == Ok::<Seq<u8>, AddressError>(t@),
            Err(e) => override_checked(raw@) == Err::<Seq<u8>, AddressError>(e),
        },
{
    let v: Vec<char> = chars_of(raw);
    let mut first: u8 = 0;
    let mut at: usize = 0;
    let mut i: usize = 0;
    let mut more: bool = true;
    proof {
        lemma_pieces_fit(v@);
    }
    assert(v@.skip(0) =~= v@);
    assert(pieces(v@).skip(0) =~= pieces(v@));
    while more
        invariant
            v@ == raw@,
            raw@.len() < usize::MAX,
            pieces(raw@).len() <= raw@.len() + 1,
            at <= v@.len(),
            i <= at,
            more ==> i < pieces(raw@).len() && pieces(v@.skip(at as int)) == pieces(raw@).skip(
                i as int,
            ),
            !more ==> pieces(raw@).len() == i + 1,
            forall|j: int|
                0 <= j < (if more {
                    i as int
                } else {
                    i + 1
                }) ==> octet(#[trigger] pieces(raw@)[j]) is Some,
            (i > 0 || !more) ==> octet(pieces(raw@)[0]) == Some(first),
        decreases
                v@.len() - at,
                (if more {
                    1int
                } else {
                    0int
                }),
    {
        let rest: &[char] = &v.as_slice()[at..v.len()];
        assert(rest@ =~= v@.skip(at as int));
        let k: usize = find(rest, ':');
        let piece: &[char] = &rest[0..k];
        proof {
            lemma_pieces_step(rest@);
            assert(piece@ =~= rest@.take(k as int));
            assert(pieces(rest@)[0] == pieces(raw@)[i as int]);
            if k == rest@.len() {
                assert(rest@.take(k as int) =~= rest@);
            }
            assert(piece@ == pieces(raw@)[i as int]);
        }
        match parse_octet(piece) {
            Some(b) => {
                if i == 0 {
                    first = b;
                }
            },
            None => {
                proof {
                    lemma_first_bad_is(pieces(raw@), i as int);
                }
                return Err(AddressError::BadOctet(i));
            },
        }
        if k < rest.len() {
            proof {
                assert(rest@.skip(k + 1) =~= v@.skip(at + k + 1));
                assert(pieces(raw@).skip(i as int).skip(1) =~= pieces(raw@).skip(i + 1));
                lemma_pieces_step(v@.skip(at + k + 1));
            }
            at = at + k + 1;
            i = i + 1;
        } else {
            assert(pieces(rest@).len() == 1);
            more = false;
        }
    }
    proof {
        lemma_first_bad_is(pieces(raw@), i + 1);
    }
    if i + 1 != 6 {
        return Err(AddressError::OctetCount(i + 1));
    }
    if first & 0xC0 != 0xC0 {
        return Err(AddressError::NotStaticRandom);
    }
    Ok(fmt_ble_address(&parse_ble_address(raw)))
}

// -- Laws ---------------------------------------------------------------------

/// A derived address is static-random.
pub proof fn law_derived_is_static_random(mac: Seq<u8>)
    ensures
        derived_address(mac)[5] & 0xC0 == 0xC0,
{
    let m = mac[0];
    assert((m | 0xC0u8) & 0xC0u8 == 0xC0u8) by (bit_vector);
}

/// Chips whose MACs differ below the top octet get different addresses.
pub proof fn law_derived_is_distinct(a: Seq<u8>, b: Seq<u8>)
    requires
        a.len() == 6,
        b.len() == 6,
        exists|i: int| 1 <= i < 6 && a[i] != b[i],
    ensures
        derived_address(a) != derived_address(b),
{
    let i = choose|i: int| 1 <= i < 6 && a[i] != b[i];
    assert(derived_address(a)[5 - i] == a[i]);
    assert(derived_address(b)[5 - i] == b[i]);
}

proof fn lemma_text_pieces(a: Seq<u8>, i: int)
    requires
        a.len() == 6,
        0 <= i < 6,
    ensures
        pieces(ascii(address_text(a)).skip(3 * i)).len() == 6 - i,
        forall|j: int|
            0 <= j < 6 - i ==> (#[trigger] pieces(ascii(address_text(a)).skip(3 * i))[j])
                == ascii(address_text(a)).subrange(3 * (i + j), 3 * (i + j) + 2),
    decreases 6 - i,
{
    let t = ascii(address_text(a));
    let rest = t.skip(3 * i);
    assert(rest[0] != ':' && rest[1] != ':');
    lemma_first_of_is(rest, ':', 2);
    lemma_pieces_step(rest);
    assert(rest.take(2) =~= t.subrange(3 * i, 3 * i + 2));
    if i < 5 {
        lemma_text_pieces(a, i + 1);
        assert(rest.skip(3) =~= t.skip(3 * (i + 1)));
        assert forall|j: int| 0 <= j < 6 - i implies (#[trigger] pieces(rest)[j]) == t.subrange(
            3 * (i + j),
            3 * (i + j) + 2,
        ) by {
            if j > 0 {
                assert(pieces(rest).skip(1)[j - 1] == pieces(rest)[j]);
            }
        }
    } else {
        assert(rest =~= rest.take(2));
    }
}

proof fn lemma_pair_reads(b: u8, s: Seq<char>)
    requires
        s == seq![hex_ascii((b / 16) as u8) as char, hex_ascii((b % 16) as u8) as char],
    ensures
        octet(s) == Some(b),
{
    assert(unsigned(s) == s);
    assert(s.drop_last() =~= seq![s[0]]);
    assert(seq![s[0]].drop_last() =~= Seq::<char>::empty());
    reveal_with_fuel(hex_value, 3);
    assert(hex_digit(s[0]) == Some((b / 16) as nat));
    assert(hex_digit(s[1]) == Some((b % 16) as nat));
}

proof fn lemma_text_octets(a: Seq<u8>)
    requires
        a.len() == 6,
    ensures
        pieces(ascii(address_text(a))).len() == 6,
        forall|j: int|
            0 <= j < 6 ==> octet(#[trigger] pieces(ascii(address_text(a)))[j]) == Some(a[5 - j]),
{
    let t = ascii(address_text(a));
    assert(t.skip(0) =~= t);
    lemma_text_pieces(a, 0);
    assert forall|j: int| 0 <= j < 6 implies octet(#[trigger] pieces(t)[j]) == Some(a[5 - j]) by {
        let p = pieces(t)[j];
        assert(p == t.subrange(3 * (0 + j), 3 * (0 + j) + 2));
        assert((3 * j) % 3 == 0 && (3 * j) / 3 == j && (3 * j + 1) % 3 == 1 && (3 * j + 1) / 3
            == j);
        assert(p =~= seq![
            hex_ascii((a[5 - j] / 16) as u8) as char,
            hex_ascii((a[5 - j] % 16) as u8) as char,
        ]);
        lemma_pair_reads(a[5 - j], p);
    }
}

/// An address shown as text reads back as itself.
pub proof fn law_address_text_roundtrip(a: Seq<u8>)
    requires
        a.len() == 6,
    ensures
        address_named(ascii(address_text(a))) == a,
{
    let t = ascii(address_text(a));
    lemma_text_octets(a);
    assert forall|m: int| 0 <= m < 6 implies address_named(t)[m] == a[m] by {
        assert(octet(pieces(t)[5 - m]) == Some(a[m]));
    }
    assert(address_named(t) =~= a);
}

/// An override that passed validation names a static-random address, the one
/// its octets write, and passes again in normalized form.
pub proof fn law_checked_override_is_static_random(raw: Seq<char>)
    requires
        override_checked(raw) is Ok,
    ensures
        ({
            let t = ascii(override_checked(raw)->Ok_0);
            &&& address_named(t) == address_named(raw)
            &&& address_named(t)[5] & 0xC0 == 0xC0
            &&& override_checked(t) == override_checked(raw)
        }),
{
    let a = address_named(raw);
    let t = ascii(address_text(a));
    assert(a[5] & 0xC0 == 0xC0) by {
        lemma_first_bad(pieces(raw));
        assert(octet(pieces(raw)[0]) is Some);
    }
    law_address_text_roundtrip(a);
    lemma_text_octets(a);
    lemma_first_bad_is(pieces(t), 6);
    assert(octet(pieces(t)[0]) == Some(a[5]));
}

/// A board without an override is addressed by its factory MAC with the octets
/// turned round and the two top bits set; one with an override by that alone.
pub proof fn law_board_address(named: Seq<char>, mac: Seq<u8>)
    requires
        mac.len() == 6,
    ensures
        board_address(Some(named), mac) == address_named(named),
        ({
            let a = board_address(None, mac);
            &&& a.len() == 6
            &&& forall|i: int| 0 <= i < 5 ==> #[trigger] a[i] == mac[5 - i]
            &&& a[5] == mac[0] | 0xC0
        }),
{
}

/// Hexadecimal digits of either case write their value, two of them an octet.
pub proof fn law_octets_are_hexadecimal(h: nat, l: nat, upper_h: bool, upper_l: bool)
    requires
        h < 16,
        l < 16,
    ensures
        octet(seq![hex_char(h, upper_h), hex_char(l, upper_l)]) == Some((16 * h + l) as u8),
        octet(seq![hex_char(l, upper_l)]) == Some(l as u8),
{
    let s = seq![hex_char(h, upper_h), hex_char(l, upper_l)];
    let t = seq![hex_char(l, upper_l)];
    assert(unsigned(s) == s);
    assert(unsigned(t) == t);
    assert(s.drop_last() =~= seq![s[0]]);
    assert(seq![s[0]].drop_last() =~= Seq::<char>::empty());
    assert(t.drop_last() =~= Seq::<char>::empty());
    reveal_with_fuel(hex_value, 3);
    assert(hex_digit(s[0]) == Some(h));
    assert(hex_digit(s[1]) == Some(l));
}

/// The hexadecimal digit of a value below 16, in either case.
pub open spec fn hex_char(n: nat, upper: bool) -> char {
    if n < 10 {
        (0x30 + n) as char
    } else if upper {
        (0x37 + n) as char
    } else {
        (0x57 + n) as char
    }
}

/// Colons part a text: what stands in front of the first is a piece, and the
/// rest is parted alike.
pub proof fn law_colons_part(front: Seq<char>, rest: Seq<char>)
    requires
        forall|i: int| 0 <= i < front.len() ==> #[trigger] front[i] != ':',
    ensures
        pieces(front) == seq![front],
        pieces(front + seq![':'] + rest) == seq![front] + pieces(rest),
{
    let all = front + seq![':'] + rest;
    let k = front.len() as int;
    lemma_first_of_is(front, ':', k);
    assert forall|i: int| 0 <= i < k implies all[i] != ':' by {
        assert(all[i] == front[i]);
    }
    lemma_first_of_is(all, ':', k);
    assert(all.take(k) =~= front);
    assert(all.skip(k + 1) =~= rest);
}

/// An override names the octets between its colons, most significant first; a
/// missing or malformed one is 0.
pub proof fn law_named_octets(s: Seq<char>, i: int)
    requires
        0 <= i < 6,
    ensures
        address_named(s).len() == 6,
        i < pieces(s).len() && octet(pieces(s)[i]) is Some ==> address_named(s)[5 - i] == octet(
            pieces(s)[i],
        )->0,
        i >= pieces(s).len() || octet(pieces(s)[i]) is None ==> address_named(s)[5 - i] == 0,
{
}

/// An override is taken exactly where it has six octets and the top two bits
/// of the first are set; it is refused for the first octet that is none, for
/// their number, and for the bits, in this order.
pub proof fn law_overrides_are_checked(raw: Seq<char>)
    requires
        pieces(raw).len() <= usize::MAX,
    ensures
        ({
            let ps = pieces(raw);
            let r = override_checked(raw);
            let sound = forall|i: int| 0 <= i < ps.len() ==> octet(#[trigger] ps[i]) is Some;
            &&& r is Ok <==> sound && ps.len() == 6 && octet(ps[0])->0 & 0xC0 == 0xC0
            &&& !sound ==> (r matches Err(AddressError::BadOctet(k)) && k < ps.len() && octet(
                ps[k as int],
            ) is None && forall|i: int| 0 <= i < k ==> octet(#[trigger] ps[i]) is Some)
            &&& sound && ps.len() != 6 ==> (r matches Err(AddressError::OctetCount(n)) && n
                == ps.len())
            &&& sound && ps.len() == 6 && octet(ps[0])->0 & 0xC0 != 0xC0 ==> r
                matches Err(AddressError::NotStaticRandom)
        }),
{
    let ps = pieces(raw);
    lemma_pieces_step(raw);
    lemma_first_bad(ps);
    if forall|i: int| 0 <= i < ps.len() ==> octet(#[trigger] ps[i]) is Some {
        lemma_first_bad_is(ps, ps.len() as int);
    }
}

/// An address is shown as upper-case hexadecimal octets with colons between
/// them, most significant first.
pub proof fn law_address_text_layout(a: Seq<u8>, i: int)
    requires
        a.len() == 6,
        0 <= i < 6,
    ensures
        ({
            let t = address_text(a);
            &&& t.len() == 17
            &&& t[3 * i] as char == hex_char((a[5 - i] / 16) as nat, true)
            &&& t[3 * i + 1] as char == hex_char((a[5 - i] % 16) as nat, true)
            &&& i < 5 ==> t[3 * i + 2] == 0x3A
        }),
{
    assert((3 * i) % 3 == 0 && (3 * i) / 3 == i && (3 * i + 1) % 3 == 1 && (3 * i + 1) / 3 == i && (
    3 * i + 2) % 3 == 2);
}

/// A plus sign in front and leading zeros make no difference to an octet. One
/// without a digit is none, nor is one with a character that is no
/// hexadecimal digit, wherever it stands.
pub proof fn law_octet_forms(s: Seq<char>, k: int)
    requires
        s.len() > 0,
        s[0] != '+',
        0 <= k < s.len(),
    ensures
        octet(seq!['+'] + s) == octet(s),
        octet(seq!['0'] + s) == octet(s),
        octet(Seq::empty()) is None,
        octet(seq!['+']) is None,
        !('0' <= s[k] <= '9' || 'a' <= s[k] <= 'f' || 'A' <= s[k] <= 'F') ==> octet(s) is None,
{
    assert((seq!['+'] + s).drop_first() =~= s);
    assert(seq!['+'].drop_first() =~= Seq::<char>::empty());
    let z = seq!['0'] + s;
    lemma_leading_zero(s);
    assert(z.drop_first() =~= s);
    if forall|i: int| 0 <= i < s.len() ==> hex_digit(#[trigger] s[i]) is Some {
        assert forall|i: int| 0 <= i < z.len() implies hex_digit(#[trigger] z[i]) is Some by {
            if i > 0 {
                assert(z[i] == s[i - 1]);
            }
        }
    } else {
        let j = choose|j: int| 0 <= j < s.len() && hex_digit(#[trigger] s[j]) is None;
        assert(z[j + 1] == s[j]);
    }
    assert(hex_digit(s[k]) is Some <==> ('0' <= s[k] <= '9' || 'a' <= s[k] <= 'f' || 'A' <= s[k]
        <= 'F'));
}

proof fn lemma_leading_zero(s: Seq<char>)
    ensures
        hex_value(seq!['0'] + s) == hex_value(s),
    decreases s.len(),
{
    let z = seq!['0'] + s;
    reveal_with_fuel(hex_value, 2);
    if s.len() == 0 {
        assert(z.drop_last() =~= Seq::<char>::empty());
    } else {
        lemma_leading_zero(s.drop_last());
        assert(z.drop_last() =~= seq!['0'] + s.drop_last());
    }
}

} // verus!
