//! Interface identities: 128-bit values written as `8-4-4-4-12` hexadecimal text.

use crate::text::{hex_char, hex_text, lemma_hex_text_len, push_hex};
use vstd::arithmetic::div_mod::{lemma_breakdown, lemma_small_mod};
use vstd::prelude::*;
use vstd::string::*;

verus! {

/// The number of characters of an identity in its canonical text form.
pub const IID_TEXT_LEN: usize = 36;

/// A 128-bit interface identity, held as the four fields of the platform's
/// native representation. `data4` packs the last eight bytes, first byte highest.
#[derive(Clone, Copy, Debug, PartialEq, Eq, Structural)]
pub struct Iid {
    pub data1: u32,
    pub data2: u16,
    pub data3: u16,
    pub data4: u64,
}

/// Why a text is not an identity.
#[derive(Clone, Copy, Debug, PartialEq, Eq, Structural)]
pub enum IidError {
    /// The text is not five groups of 8, 4, 4, 4 and 12 characters joined by hyphens.
    WrongGrouping,
    /// The grouping is right, and `position` is the first character that is
    /// neither a hyphen nor a hexadecimal digit.
    NonHexDigit { position: usize },
}

/// The value of a hexadecimal digit, in either letter case.
pub open spec fn hex_digit(c: char) -> Option<nat> {
    if '0' <= c && c <= '9' {
        Some((c as nat - '0' as nat) as nat)
    } else if 'a' <= c && c <= 'f' {
        Some((c as nat - 'a' as nat + 10) as nat)
    } else if 'A' <= c && c <= 'F' {
        Some((c as nat - 'A' as nat + 10) as nat)
    } else {
        None
    }
}

/// The number that a run of hexadecimal digits denotes, first digit highest.
/// A character that is no digit counts as zero.
pub open spec fn hex_value(s: Seq<char>) -> nat
    decreases s.len(),
{
    if s.len() == 0 {
        0
    } else {
        16 * hex_value(s.drop_last()) + match hex_digit(s.last()) {
            Some(d) => d,
            None => 0,
        }
    }
}

/// Sixteen to the power `n`.
pub open spec fn pow16(n: nat) -> nat
    decreases n,
{
    if n == 0 {
        1
    } else {
        16 * pow16((n - 1) as nat)
    }
}

/// Whether position `i` of the canonical text holds a hyphen.
pub open spec fn is_hyphen_position(i: int) -> bool {
    i == 8 || i == 13 || i == 18 || i == 23
}

/// The text has 36 characters, and hyphens at the four joints and nowhere else.
pub open spec fn grouping_ok(s: Seq<char>) -> bool {
    &&& s.len() == 36
    &&& forall|i: int| 0 <= i < 36 ==> ((#[trigger] s[i] == '-') <==> is_hyphen_position(i))
}

/// Position `i` holds a character that is neither a hyphen nor a hexadecimal digit.
pub open spec fn offends(s: Seq<char>, i: int) -> bool {
    s[i] != '-' && hex_digit(s[i]) is None
}

/// The identity that a text with the right grouping and digits denotes.
pub open spec fn iid_of_text(s: Seq<char>) -> Iid {
    Iid {
        data1: hex_value(s.subrange(0, 8)) as u32,
        data2: hex_value(s.subrange(9, 13)) as u16,
        data3: hex_value(s.subrange(14, 18)) as u16,
        data4: (hex_value(s.subrange(19, 23)) * pow16(12) + hex_value(s.subrange(24, 36))) as u64,
    }
}

/// What parsing a text gives: an identity, or the reason why it is none.
pub open spec fn spec_parse(s: Seq<char>) -> Result<Iid, IidError> {
    if !grouping_ok(s) {
        Err(IidError::WrongGrouping)
    } else if exists|i: int| 0 <= i < 36 && offends(s, i) {
        Err(
            IidError::NonHexDigit {
                position: (choose|i: int|
                    0 <= i < 36 && offends(s, i) && forall|j: int|
                        0 <= j < i ==> !offends(s, j)) as usize,
            },
        )
    } else {
        Ok(iid_of_text(s))
    }
}

/// A run of `n` hexadecimal digits denotes a number below `16^n`.
pub proof fn lemma_hex_value_bound(s: Seq<char>)
    ensures
        hex_value(s) < pow16(s.len()),
    decreases s.len(),
{
    if s.len() > 0 {
        lemma_hex_value_bound(s.drop_last());
    }
}

/// The powers of sixteen that the fields of an identity are bounded by.
pub proof fn lemma_pow16_values()
    ensures
        pow16(0) == 1,
        pow16(4) == 0x1_0000,
        pow16(8) == 0x1_0000_0000,
        pow16(12) == 0x1_0000_0000_0000,
        pow16(16) == 0x1_0000_0000_0000_0000,
{
    reveal_with_fuel(pow16, 17);
}

fn hex_digit_value(c: char) -> (r: Option<u8>)
    ensures
        r is Some <==> hex_digit(c) is Some,
        r matches Some(d) ==> hex_digit(c) == Some(d as nat) && d < 16,
{
    if '0' <= c && c <= '9' {
        Some((c as u32 - '0' as u32) as u8)
    } else if 'a' <= c && c <= 'f' {
        Some((c as u32 - 'a' as u32 + 10) as u8)
    } else if 'A' <= c && c <= 'F' {
        Some((c as u32 - 'A' as u32 + 10) as u8)
    } else {
        None
    }
}

fn hyphen_position(i: usize) -> (r: bool)
    ensures
        r == is_hyphen_position(i as int),
{
    i == 8 || i == 13 || i == 18 || i == 23
}

/// Reads the digits of `s` from `from` up to `to`, at most twelve of them.
fn read_group(s: &str, from: usize, to: usize) -> (r: u64)
    requires
        from <= to <= s@.len(),
        to - from <= 12,
        forall|i: int| from <= i < to ==> hex_digit(#[trigger] s@[i]) is Some,
    ensures
        r == hex_value(s@.subrange(from as int, to as int)),
        r < pow16((to - from) as nat),
{
    let mut value: u64 = 0;
    let mut i: usize = from;
    proof {
        lemma_pow16_values();
        assert(s@.subrange(from as int, from as int) =~= Seq::<char>::empty());
    }
    while i < to
        invariant
            from <= i <= to <= s@.len(),
            to - from <= 12,
            forall|k: int| from <= k < to ==> hex_digit(#[trigger] s@[k]) is Some,
            value == hex_value(s@.subrange(from as int, i as int)),
            value < pow16((i - from) as nat),
            pow16(12) == 0x1_0000_0000_0000,
        decreases to - i,
    {
        let c: char = s.get_char(i);
        let d: u8 = match hex_digit_value(c) {
            Some(d) => d,
            None => 0,
        };
        proof {
            let next = s@.subrange(from as int, i + 1);
            assert(next.drop_last() =~= s@.subrange(from as int, i as int));
            assert(next.last() == s@[i as int]);
            lemma_pow16_monotonic((i - from) as nat, 11);
            lemma_hex_value_bound(next);
        }
        value = value * 16 + d as u64;
        i = i + 1;
    }
    value
}

/// The powers of sixteen grow with the exponent.
pub proof fn lemma_pow16_monotonic(a: nat, b: nat)
    requires
        a <= b,
    ensures
        pow16(a) <= pow16(b),
        pow16(a) >= 1,
    decreases b,
{
    if a < b {
        lemma_pow16_monotonic(a, (b - 1) as nat);
    } else if a > 0 {
        lemma_pow16_monotonic((a - 1) as nat, (a - 1) as nat);
    }
}

impl Iid {
    /// The identity as one 128-bit number.
    pub open spec fn value(self) -> nat {
        (self.data1 as nat) * pow16(24) + (self.data2 as nat) * pow16(20) + (self.data3 as nat)
            * pow16(16) + self.data4 as nat
    }

    /// Reads an identity from its canonical text: eight, four, four, four and
    /// twelve hexadecimal digits, joined by hyphens, in either letter case.
    pub fn parse(text: &str) -> (r: Result<Iid, IidError>)
        ensures
            r == spec_parse(text@),
            r is Ok <==> grouping_ok(text@) && forall|i: int| 0 <= i < 36 ==> !offends(text@, i),
            r matches Err(IidError::NonHexDigit { position }) ==> position < 36 && offends(
                text@,
                position as int,
            ) && forall|j: int| 0 <= j < position ==> !offends(text@, j),
    {
        let n: usize = text.unicode_len();
        if n != IID_TEXT_LEN {
            return Err(IidError::WrongGrouping);
        }
        let mut i: usize = 0;
        while i < IID_TEXT_LEN
            invariant
                i <= 36,
                text@.len() == 36,
                forall|k: int| 0 <= k < i ==> ((#[trigger] text@[k] == '-') <==> is_hyphen_position(k)),
            decreases 36 - i,
        {
            let c: char = text.get_char(i);
            if (c == '-') != hyphen_position(i) {
                assert(!grouping_ok(text@));
                return Err(IidError::WrongGrouping);
            }
            i = i + 1;
        }
        assert(grouping_ok(text@));
        let mut j: usize = 0;
        while j < IID_TEXT_LEN
            invariant
                j <= 36,
                text@.len() == 36,
                grouping_ok(text@),
                forall|k: int| 0 <= k < j ==> !offends(text@, k),
            decreases 36 - j,
        {
            let c: char = text.get_char(j);
            if c != '-' && hex_digit_value(c).is_none() {
                proof {
                    lemma_first_offence(text@, j as int);
                }
                return Err(IidError::NonHexDigit { position: j });
            }
            j = j + 1;
        }
        proof {
            lemma_pow16_values();
            assert forall|k: int| 0 <= k < 36 && !is_hyphen_position(k) implies hex_digit(
                #[trigger] text@[k],
            ) is Some by {
                assert(!offends(text@, k));
            }
        }
        let g1: u64 = read_group(text, 0, 8);
        let g2: u64 = read_group(text, 9, 13);
        let g3: u64 = read_group(text, 14, 18);
        let g4: u64 = read_group(text, 19, 23);
        let g5: u64 = read_group(text, 24, 36);
        Ok(
            Iid {
                data1: g1 as u32,
                data2: g2 as u16,
                data3: g3 as u16,
                data4: g4 * 0x1_0000_0000_0000 + g5,
            },
        )
    }

    /// Whether two identities agree in all 128 bits.
    pub fn same(&self, other: &Iid) -> (r: bool)
        ensures
            r == (*self == *other),
    {
        self.data1 == other.data1 && self.data2 == other.data2 && self.data3 == other.data3
            && self.data4 == other.data4
    }
}

/// When `i` offends and nothing before it does, parsing names `i`.
proof fn lemma_first_offence(s: Seq<char>, i: int)
    requires
        grouping_ok(s),
        0 <= i < 36,
        offends(s, i),
        forall|j: int| 0 <= j < i ==> !offends(s, j),
    ensures
        spec_parse(s) == Err::<Iid, IidError>(IidError::NonHexDigit { position: i as usize }),
{
    let c = choose|k: int|
        0 <= k < 36 && offends(s, k) && forall|j: int| 0 <= j < k ==> !offends(s, j);
    assert(0 <= c < 36 && offends(s, c) && forall|j: int| 0 <= j < c ==> !offends(s, j));
    if c < i {
        assert(!offends(s, c));
    } else if i < c {
        assert(!offends(s, i));
    }
}

/// The lower-case form of an ASCII capital letter; any other character itself.
pub open spec fn ascii_lower(c: char) -> char {
    if 'A' <= c && c <= 'Z' {
        ((c as u32) + 32) as char
    } else {
        c
    }
}

/// Two texts of one length that differ at most in the case of ASCII letters.
pub open spec fn same_ignoring_case(a: Seq<char>, b: Seq<char>) -> bool {
    &&& a.len() == b.len()
    &&& forall|i: int| 0 <= i < a.len() ==> ascii_lower(#[trigger] a[i]) == ascii_lower(b[i])
}

proof fn lemma_hex_digit_ignores_case(x: char, y: char)
    requires
        ascii_lower(x) == ascii_lower(y),
    ensures
        hex_digit(x) == hex_digit(y),
        (x == '-') == (y == '-'),
{
}

proof fn lemma_hex_value_ignores_case(a: Seq<char>, b: Seq<char>)
    requires
        same_ignoring_case(a, b),
    ensures
        hex_value(a) == hex_value(b),
    decreases a.len(),
{
    if a.len() > 0 {
        let a0 = a.drop_last();
        let b0 = b.drop_last();
        assert forall|i: int| 0 <= i < a0.len() implies ascii_lower(#[trigger] a0[i])
            == ascii_lower(b0[i]) by {
            assert(a0[i] == a[i]);
            assert(b0[i] == b[i]);
        }
        lemma_hex_value_ignores_case(a0, b0);
        assert(ascii_lower(a[a.len() - 1]) == ascii_lower(b[a.len() - 1]));
        lemma_hex_digit_ignores_case(a.last(), b.last());
    }
}

proof fn lemma_subrange_ignores_case(a: Seq<char>, b: Seq<char>, from: int, to: int)
    requires
        same_ignoring_case(a, b),
        0 <= from <= to <= a.len(),
    ensures
        hex_value(a.subrange(from, to)) == hex_value(b.subrange(from, to)),
{
    let x = a.subrange(from, to);
    let y = b.subrange(from, to);
    assert forall|i: int| 0 <= i < x.len() implies ascii_lower(#[trigger] x[i]) == ascii_lower(
        y[i],
    ) by {
        assert(x[i] == a[from + i]);
        assert(y[i] == b[from + i]);
    }
    lemma_hex_value_ignores_case(x, y);
}

/// The first offending position below `bound`, where there is one.
proof fn first_offence(s: Seq<char>, bound: int) -> (r: int)
    requires
        0 <= bound <= 36,
        exists|i: int| 0 <= i < bound && offends(s, i),
    ensures
        0 <= r < bound,
        offends(s, r),
        forall|j: int| 0 <= j < r ==> !offends(s, j),
    decreases bound,
{
    if exists|i: int| 0 <= i < bound - 1 && offends(s, i) {
        first_offence(s, bound - 1)
    } else {
        let w = choose|i: int| 0 <= i < bound && offends(s, i);
        assert(w == bound - 1);
        bound - 1
    }
}

/// Parsing does not depend on the letter case of the hexadecimal digits: two
/// texts that differ only in the case of ASCII letters parse to the same result.
pub proof fn lemma_parse_ignores_case(a: Seq<char>, b: Seq<char>)
    requires
        same_ignoring_case(a, b),
    ensures
        spec_parse(a) == spec_parse(b),
{
    assert forall|i: int| 0 <= i < a.len() implies (a[i] == '-') == (b[i] == '-') && hex_digit(
        a[i],
    ) == hex_digit(b[i]) by {
        assert(ascii_lower(a[i]) == ascii_lower(b[i]));
        lemma_hex_digit_ignores_case(a[i], b[i]);
    }
    if grouping_ok(a) {
        assert(grouping_ok(b));
        assert forall|i: int| 0 <= i < 36 implies offends(a, i) == offends(b, i) by {}
        if exists|i: int| 0 <= i < 36 && offends(a, i) {
            let i = first_offence(a, 36);
            assert(offends(b, i));
            lemma_first_offence(a, i);
            lemma_first_offence(b, i);
        } else {
            assert(!(exists|i: int| 0 <= i < 36 && offends(b, i)));
            lemma_subrange_ignores_case(a, b, 0, 8);
            lemma_subrange_ignores_case(a, b, 9, 13);
            lemma_subrange_ignores_case(a, b, 14, 18);
            lemma_subrange_ignores_case(a, b, 19, 23);
            lemma_subrange_ignores_case(a, b, 24, 36);
        }
    } else {
        if grouping_ok(b) {
            assert forall|i: int| 0 <= i < 36 implies ((#[trigger] a[i] == '-')
                <==> is_hyphen_position(i)) by {
                assert((b[i] == '-') <==> is_hyphen_position(i));
            }
            assert(false);
        }
    }
}

/// An identity in the platform's native representation: the last eight bytes
/// stand one by one.
#[derive(Clone, Copy, Debug, PartialEq, Eq)]
pub struct Guid {
    pub data1: u32,
    pub data2: u16,
    pub data3: u16,
    pub data4: [u8; 8],
}

/// The number that a run of bytes denotes, first byte highest.
pub open spec fn pack(bytes: Seq<u8>) -> nat
    decreases bytes.len(),
{
    if bytes.len() == 0 {
        0
    } else {
        256 * pack(bytes.drop_last()) + bytes.last() as nat
    }
}

/// The identity that a native value holds.
pub open spec fn iid_of_native(g: Guid) -> Iid {
    Iid { data1: g.data1, data2: g.data2, data3: g.data3, data4: pack(g.data4@) as u64 }
}

/// Eight bytes denote a number that fits in 64 bits.
pub proof fn lemma_pack_eight(bytes: Seq<u8>)
    requires
        bytes.len() == 8,
    ensures
        pack(bytes) <= u64::MAX,
        pack(bytes) == ((((((bytes[0] as nat * 256 + bytes[1] as nat) * 256 + bytes[2] as nat) * 256
            + bytes[3] as nat) * 256 + bytes[4] as nat) * 256 + bytes[5] as nat) * 256
            + bytes[6] as nat) * 256 + bytes[7] as nat,
{
    let b7 = bytes.drop_last();
    let b6 = b7.drop_last();
    let b5 = b6.drop_last();
    let b4 = b5.drop_last();
    let b3 = b4.drop_last();
    let b2 = b3.drop_last();
    let b1 = b2.drop_last();
    let b0 = b1.drop_last();
    assert(pack(b0) == 0);
    assert(pack(b1) == bytes[0] as nat);
    assert(pack(b2) == 256 * pack(b1) + bytes[1] as nat);
    assert(pack(b3) == 256 * pack(b2) + bytes[2] as nat);
    assert(pack(b4) == 256 * pack(b3) + bytes[3] as nat);
    assert(pack(b5) == 256 * pack(b4) + bytes[4] as nat);
    assert(pack(b6) == 256 * pack(b5) + bytes[5] as nat);
    assert(pack(b7) == 256 * pack(b6) + bytes[6] as nat);
    assert(pack(bytes) == 256 * pack(b7) + bytes[7] as nat);
}

impl Iid {
    /// The identity that a native value holds.
    pub fn from_native(g: &Guid) -> (r: Iid)
        ensures
            r == iid_of_native(*g),
    {
        let mut value: u64 = 0;
        let mut i: usize = 0;
        proof {
            lemma_pack_eight(g.data4@);
            assert(g.data4@.take(0) =~= Seq::<u8>::empty());
        }
        while i < 8
            invariant
                i <= 8,
                g.data4@.len() == 8,
                value == pack(g.data4@.take(i as int)),
                value < pow256(i as nat),
            decreases 8 - i,
        {
            proof {
                let next = g.data4@.take(i + 1);
                assert(next.drop_last() =~= g.data4@.take(i as int));
                assert(next.last() == g.data4@[i as int]);
                lemma_pow256_values();
                reveal_with_fuel(pow256, 2);
                if i < 7 {
                    lemma_pow256_monotonic((i + 1) as nat, 7);
                }
            }
            value = value * 256 + g.data4[i] as u64;
            i = i + 1;
        }
        assert(g.data4@.take(8) =~= g.data4@);
        Iid { data1: g.data1, data2: g.data2, data3: g.data3, data4: value }
    }

    /// The identity in the platform's native representation.
    pub fn to_native(&self) -> (r: Guid)
        ensures
            iid_of_native(r) == *self,
    {
        let r0: u64 = self.data4;
        let r1: u64 = r0 / 256;
        let r2: u64 = r1 / 256;
        let r3: u64 = r2 / 256;
        let r4: u64 = r3 / 256;
        let r5: u64 = r4 / 256;
        let r6: u64 = r5 / 256;
        let r7: u64 = r6 / 256;
        let data4: [u8; 8] = [
            r7 as u8,
            (r6 % 256) as u8,
            (r5 % 256) as u8,
            (r4 % 256) as u8,
            (r3 % 256) as u8,
            (r2 % 256) as u8,
            (r1 % 256) as u8,
            (r0 % 256) as u8,
        ];
        proof {
            lemma_pack_eight(data4@);
            assert(r6 == r7 * 256 + data4@[1]);
            assert(r5 == r6 * 256 + data4@[2]);
            assert(r4 == r5 * 256 + data4@[3]);
            assert(r3 == r4 * 256 + data4@[4]);
            assert(r2 == r3 * 256 + data4@[5]);
            assert(r1 == r2 * 256 + data4@[6]);
            assert(r0 == r1 * 256 + data4@[7]);
        }
        Guid { data1: self.data1, data2: self.data2, data3: self.data3, data4 }
    }

    /// Whether the identity and a native value agree in all 128 bits.
    pub fn equals_native(&self, g: &Guid) -> (r: bool)
        ensures
            r == (*self == iid_of_native(*g)),
    {
        let other: Iid = Iid::from_native(g);
        self.same(&other)
    }
}

/// 256 to the power `n`.
pub open spec fn pow256(n: nat) -> nat
    decreases n,
{
    if n == 0 {
        1
    } else {
        256 * pow256((n - 1) as nat)
    }
}

/// The powers of 256 that bound a run of up to eight bytes.
pub proof fn lemma_pow256_values()
    ensures
        pow256(0) == 1,
        pow256(7) == 0x100_0000_0000_0000,
        pow256(8) == 0x1_0000_0000_0000_0000,
{
    reveal_with_fuel(pow256, 9);
}

/// The powers of 256 grow with the exponent.
pub proof fn lemma_pow256_monotonic(a: nat, b: nat)
    requires
        a <= b,
    ensures
        pow256(a) <= pow256(b),
        pow256(a) >= 1,
    decreases b,
{
    if a < b {
        lemma_pow256_monotonic(a, (b - 1) as nat);
    } else if a > 0 {
        lemma_pow256_monotonic((a - 1) as nat, (a - 1) as nat);
    }
}

/// The canonical text of an identity: its 32 hexadecimal digits in capitals,
/// in groups of 8, 4, 4, 4 and 12 joined by hyphens.
pub open spec fn canonical_text(iid: Iid) -> Seq<char> {
    hex_text(iid.data1 as nat, 8) + seq!['-'] + hex_text(iid.data2 as nat, 4) + seq!['-']
        + hex_text(iid.data3 as nat, 4) + seq!['-'] + hex_text(iid.data4 as nat / pow16(12), 4)
        + seq!['-'] + hex_text(iid.data4 as nat, 12)
}

/// Hexadecimal text holds hexadecimal digits only, and denotes the value it
/// was made from, as far as that fits in the digits.
pub proof fn lemma_hex_text_value(value: nat, digits: nat)
    ensures
        hex_text(value, digits).len() == digits,
        forall|i: int|
            0 <= i < digits ==> hex_digit(#[trigger] hex_text(value, digits)[i]) is Some
                && hex_text(value, digits)[i] != '-',
        hex_value(hex_text(value, digits)) == value % pow16(digits),
    decreases digits,
{
    lemma_hex_text_len(value, digits);
    if digits > 0 {
        let rest = hex_text(value / 16, (digits - 1) as nat);
        let all = hex_text(value, digits);
        lemma_hex_text_value(value / 16, (digits - 1) as nat);
        lemma_hex_text_len(value / 16, (digits - 1) as nat);
        assert(all == rest.push(hex_char(value % 16)));
        assert(all.drop_last() =~= rest);
        assert(all.last() == hex_char(value % 16));
        assert(hex_digit(hex_char(value % 16)) == Some(value % 16));
        assert forall|i: int| 0 <= i < digits implies hex_digit(#[trigger] all[i]) is Some
            && all[i] != '-' by {
            if i < digits - 1 {
                assert(all[i] == rest[i]);
            }
        }
        lemma_pow16_monotonic(0, (digits - 1) as nat);
        lemma_breakdown(value as int, 16, pow16((digits - 1) as nat) as int);
        assert(pow16(digits) == 16 * pow16((digits - 1) as nat));
    } else {
        assert(value % 1 == 0);
    }
}

/// Parsing the canonical text of an identity gives that identity back.
pub proof fn lemma_canonical_text_parses(iid: Iid)
    ensures
        spec_parse(canonical_text(iid)) == Ok::<Iid, IidError>(iid),
{
    let g1 = hex_text(iid.data1 as nat, 8);
    let g2 = hex_text(iid.data2 as nat, 4);
    let g3 = hex_text(iid.data3 as nat, 4);
    let high = iid.data4 as nat / pow16(12);
    let g4 = hex_text(high, 4);
    let g5 = hex_text(iid.data4 as nat, 12);
    let t = canonical_text(iid);
    lemma_pow16_values();
    lemma_hex_text_value(iid.data1 as nat, 8);
    lemma_hex_text_value(iid.data2 as nat, 4);
    lemma_hex_text_value(iid.data3 as nat, 4);
    lemma_hex_text_value(high, 4);
    lemma_hex_text_value(iid.data4 as nat, 12);
    assert(t.len() == 36);
    assert(t.subrange(0, 8) =~= g1);
    assert(t.subrange(9, 13) =~= g2);
    assert(t.subrange(14, 18) =~= g3);
    assert(t.subrange(19, 23) =~= g4);
    assert(t.subrange(24, 36) =~= g5);
    assert forall|i: int| 0 <= i < 36 implies ((#[trigger] t[i] == '-') <==> is_hyphen_position(
        i,
    )) && !offends(t, i) by {
        if i < 8 {
            assert(t[i] == g1[i]);
        } else if i == 8 {
        } else if i < 13 {
            assert(t[i] == g2[i - 9]);
        } else if i == 13 {
        } else if i < 18 {
            assert(t[i] == g3[i - 14]);
        } else if i == 18 {
        } else if i < 23 {
            assert(t[i] == g4[i - 19]);
        } else if i == 23 {
        } else {
            assert(t[i] == g5[i - 24]);
        }
    }
    assert(grouping_ok(t));
    lemma_small_mod(iid.data1 as nat, pow16(8));
    lemma_small_mod(iid.data2 as nat, pow16(4));
    lemma_small_mod(iid.data3 as nat, pow16(4));
    lemma_small_mod(high, pow16(4));
    assert(iid_of_text(t) == iid);
}

impl Iid {
    /// The canonical text of the identity.
    pub fn to_text(&self) -> (r: String)
        ensures
            r@ == canonical_text(*self),
            spec_parse(r@) == Ok::<Iid, IidError>(*self),
    {
        proof {
            reveal_strlit("-");
            assert("-"@ =~= seq!['-']);
            lemma_pow16_values();
            lemma_canonical_text_parses(*self);
        }
        let mut out: String = String::new();
        push_hex(&mut out, self.data1 as u64, 8);
        out.append("-");
        push_hex(&mut out, self.data2 as u64, 4);
        out.append("-");
        push_hex(&mut out, self.data3 as u64, 4);
        out.append("-");
        push_hex(&mut out, self.data4 / 0x1_0000_0000_0000, 4);
        out.append("-");
        push_hex(&mut out, self.data4, 12);
        assert(out@ =~= canonical_text(*self));
        out
    }
}

/// Powers of sixteen multiply as their exponents add.
pub proof fn lemma_pow16_adds(a: nat, b: nat)
    ensures
        pow16(a + b) == pow16(a) * pow16(b),
    decreases b,
{
    if b == 0 {
        assert(pow16(a) * 1 == pow16(a));
    } else {
        lemma_pow16_adds(a, (b - 1) as nat);
        let x = pow16(a);
        let y = pow16((b - 1) as nat);
        assert(pow16(a + b) == 16 * pow16((a + b - 1) as nat));
        assert(16 * (x * y) == x * (16 * y)) by (nonlinear_arith);
    }
}

/// Two identities are the same exactly if they are the same 128-bit number,
/// and every identity is a number below `2^128`.
pub proof fn lemma_value_tells_identities_apart(a: Iid, b: Iid)
    ensures
        a.value() == b.value() <==> a == b,
        a.value() < pow16(32),
{
    lemma_pow16_values();
    lemma_pow16_adds(16, 4);
    lemma_pow16_adds(16, 8);
    lemma_pow16_adds(16, 16);
    assert(pow16(20) == 0x1_0000_0000_0000_0000 * 0x1_0000);
    assert(pow16(24) == 0x1_0000_0000_0000_0000 * 0x1_0000_0000);
    assert(pow16(32) == 0x1_0000_0000_0000_0000 * 0x1_0000_0000_0000_0000);
}

} // verus!
