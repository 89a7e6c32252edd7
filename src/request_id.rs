use vstd::prelude::*;
use vstd::string::*;

verus! {

/// The lower-case hexadecimal digit for a value below sixteen.
pub open spec fn hex_char(d: u128) -> char {
    if d < 10 {
        (d + 48) as char
    } else {
        (d + 87) as char
    }
}

/// The `k`-th four-bit group of `v`, counted from the most significant one
/// (`0 <= k < 32`).
pub open spec fn nibble(v: u128, k: int) -> u128 {
    (v >> ((124 - 4 * k) as u128)) & 15
}

/// Whether position `i` of the 36-character rendering holds a hyphen.
pub open spec fn is_hyphen_position(i: int) -> bool {
    i == 8 || i == 13 || i == 18 || i == 23
}

/// The digit group shown at position `i` of the rendering (not a hyphen).
pub open spec fn digit_index(i: int) -> int {
    if i < 8 {
        i
    } else if i < 13 {
        i - 1
    } else if i < 18 {
        i - 2
    } else if i < 23 {
        i - 3
    } else {
        i - 4
    }
}

/// The canonical rendering of a 128-bit value: 32 lower-case hex digits, most
/// significant first, in groups of 8-4-4-4-12 joined by hyphens.
pub open spec fn canonical_text(v: u128) -> Seq<char> {
    Seq::new(
        36,
        |i: int|
            if is_hyphen_position(i) {
                '-'
            } else {
                hex_char(nibble(v, digit_index(i)))
            },
    )
}

/// A random (version 4, RFC 4122 variant) identifier: the version group reads
/// 4 and the two top bits of the variant group read `10`.
pub open spec fn is_v4(v: u128) -> bool {
    v & 0xF000C000000000000000u128 == 0x40008000000000000000u128
}

/// The four-bit group of `v` at position `p`, counted from the least
/// significant one.
pub open spec fn group(v: u128, p: int) -> u128 {
    (v >> ((4 * p) as u128)) & 15
}

/// The number of digit positions before position `i` of the rendering.
pub open spec fn digits_before(i: int) -> int {
    if i <= 8 {
        i
    } else if i <= 13 {
        i - 1
    } else if i <= 18 {
        i - 2
    } else if i <= 23 {
        i - 3
    } else {
        i - 4
    }
}

/// A four-bit group is below sixteen.
proof fn lemma_group_bound(v: u128, p: int)
    requires
        0 <= p < 32,
    ensures
        group(v, p) < 16,
{
    let s = (4 * p) as u128;
    assert((v >> s) & 15 < 16) by (bit_vector);
}

/// Shifting a digit in from below moves every group up by one.
proof fn lemma_push_group(v: u128, d: u128, p: int)
    requires
        d < 16,
        0 <= p < 32,
    ensures
        group((v << 4) | d, p) == if p == 0 {
            d
        } else {
            group(v, p - 1)
        },
{
    let s = (4 * p) as u128;
    if p == 0 {
        assert(s == 0);
        assert(((v << 4) | d) >> 0u128 & 15 == d) by (bit_vector)
            requires
                d < 16,
        ;
    } else {
        let t = (4 * (p - 1)) as u128;
        assert(s == t + 4);
        assert((((v << 4) | d) >> s) & 15 == (v >> t) & 15) by (bit_vector)
            requires
                d < 16,
                s == t + 4,
                t <= 120,
        ;
    }
}

/// What `RequestID::parse` returns on `text`: the identifier whose canonical
/// rendering is `text`, or `None` when no value renders as `text`.
pub open spec fn parses_to(text: Seq<char>, r: Option<RequestID>) -> bool {
    match r {
        Some(id) => canonical_text(id.0) == text,
        None => forall|v: u128| canonical_text(v) != text,
    }
}

/// The position in the rendering of the `k`-th digit.
pub open spec fn digit_position(k: int) -> int {
    if k < 8 {
        k
    } else if k < 12 {
        k + 1
    } else if k < 16 {
        k + 2
    } else if k < 20 {
        k + 3
    } else {
        k + 4
    }
}

/// A value is fixed by its 32 four-bit groups.
proof fn lemma_groups_determine(v: u128, w: u128)
    requires
        forall|p: int| 0 <= p < 32 ==> group(v, p) == group(w, p),
    ensures
        v == w,
{
    assert(group(v, 0) == group(w, 0));
    assert(group(v, 1) == group(w, 1));
    assert(group(v, 2) == group(w, 2));
    assert(group(v, 3) == group(w, 3));
    assert(group(v, 4) == group(w, 4));
    assert(group(v, 5) == group(w, 5));
    assert(group(v, 6) == group(w, 6));
    assert(group(v, 7) == group(w, 7));
    assert(group(v, 8) == group(w, 8));
    assert(group(v, 9) == group(w, 9));
    assert(group(v, 10) == group(w, 10));
    assert(group(v, 11) == group(w, 11));
    assert(group(v, 12) == group(w, 12));
    assert(group(v, 13) == group(w, 13));
    assert(group(v, 14) == group(w, 14));
    assert(group(v, 15) == group(w, 15));
    assert(group(v, 16) == group(w, 16));
    assert(group(v, 17) == group(w, 17));
    assert(group(v, 18) == group(w, 18));
    assert(group(v, 19) == group(w, 19));
    assert(group(v, 20) == group(w, 20));
    assert(group(v, 21) == group(w, 21));
    assert(group(v, 22) == group(w, 22));
    assert(group(v, 23) == group(w, 23));
    assert(group(v, 24) == group(w, 24));
    assert(group(v, 25) == group(w, 25));
    assert(group(v, 26) == group(w, 26));
    assert(group(v, 27) == group(w, 27));
    assert(group(v, 28) == group(w, 28));
    assert(group(v, 29) == group(w, 29));
    assert(group(v, 30) == group(w, 30));
    assert(group(v, 31) == group(w, 31));
    assert(v == w) by (bit_vector)
        requires
                (v >> 0u128) & 15 == (w >> 0u128) & 15,
                (v >> 4u128) & 15 == (w >> 4u128) & 15,
                (v >> 8u128) & 15 == (w >> 8u128) & 15,
                (v >> 12u128) & 15 == (w >> 12u128) & 15,
                (v >> 16u128) & 15 == (w >> 16u128) & 15,
                (v >> 20u128) & 15 == (w >> 20u128) & 15,
                (v >> 24u128) & 15 == (w >> 24u128) & 15,
                (v >> 28u128) & 15 == (w >> 28u128) & 15,
                (v >> 32u128) & 15 == (w >> 32u128) & 15,
                (v >> 36u128) & 15 == (w >> 36u128) & 15,
                (v >> 40u128) & 15 == (w >> 40u128) & 15,
                (v >> 44u128) & 15 == (w >> 44u128) & 15,
                (v >> 48u128) & 15 == (w >> 48u128) & 15,
                (v >> 52u128) & 15 == (w >> 52u128) & 15,
                (v >> 56u128) & 15 == (w >> 56u128) & 15,
                (v >> 60u128) & 15 == (w >> 60u128) & 15,
                (v >> 64u128) & 15 == (w >> 64u128) & 15,
                (v >> 68u128) & 15 == (w >> 68u128) & 15,
                (v >> 72u128) & 15 == (w >> 72u128) & 15,
                (v >> 76u128) & 15 == (w >> 76u128) & 15,
                (v >> 80u128) & 15 == (w >> 80u128) & 15,
                (v >> 84u128) & 15 == (w >> 84u128) & 15,
                (v >> 88u128) & 15 == (w >> 88u128) & 15,
                (v >> 92u128) & 15 == (w >> 92u128) & 15,
                (v >> 96u128) & 15 == (w >> 96u128) & 15,
                (v >> 100u128) & 15 == (w >> 100u128) & 15,
                (v >> 104u128) & 15 == (w >> 104u128) & 15,
                (v >> 108u128) & 15 == (w >> 108u128) & 15,
                (v >> 112u128) & 15 == (w >> 112u128) & 15,
                (v >> 116u128) & 15 == (w >> 116u128) & 15,
                (v >> 120u128) & 15 == (w >> 120u128) & 15,
                (v >> 124u128) & 15 == (w >> 124u128) & 15,
    ;
}

/// Distinct digit values have distinct hex characters.
proof fn lemma_hex_char_injective(d: u128, e: u128)
    requires
        d < 16,
        e < 16,
        hex_char(d) == hex_char(e),
    ensures
        d == e,
{
    assert(hex_char(d) as int == if d < 10 { d + 48 } else { d + 87 });
    assert(hex_char(e) as int == if e < 10 { e + 48 } else { e + 87 });
}

/// Two values with the same canonical rendering are equal.
pub proof fn lemma_canonical_text_injective(v: u128, w: u128)
    requires
        canonical_text(v) == canonical_text(w),
    ensures
        v == w,
{
    assert forall|p: int| 0 <= p < 32 implies group(v, p) == group(w, p) by {
        let i = digit_position(31 - p);
        assert(digit_index(i) == 31 - p);
        assert(0 <= i < 36 && !is_hyphen_position(i));
        assert(canonical_text(v)[i] == hex_char(nibble(v, 31 - p)));
        assert(canonical_text(w)[i] == hex_char(nibble(w, 31 - p)));
        assert(nibble(v, 31 - p) == group(v, p));
        assert(nibble(w, 31 - p) == group(w, p));
        lemma_group_bound(v, p);
        lemma_group_bound(w, p);
        lemma_hex_char_injective(group(v, p), group(w, p));
    }
    lemma_groups_determine(v, w);
}

/// Rendering an identifier and parsing the text back gives the identifier.
pub proof fn lemma_round_trip(id: RequestID, r: Option<RequestID>)
    requires
        parses_to(canonical_text(id.0), r),
    ensures
        r == Some(id),
{
    match r {
        Some(x) => lemma_canonical_text_injective(x.0, id.0),
        None => {
            assert(canonical_text(id.0) != canonical_text(id.0));
        },
    }
}

/// The digit value of a lower-case hex character.
fn hex_value(c: char) -> (r: Option<u128>)
    ensures
        match r {
            Some(d) => d < 16 && hex_char(d) == c,
            None => forall|d: u128| d < 16 ==> hex_char(d) != c,
        },
{
    if '0' <= c && c <= '9' {
        Some((c as u32 - 48) as u128)
    } else if 'a' <= c && c <= 'f' {
        Some((c as u32 - 87) as u128)
    } else {
        None
    }
}

/// Relies on uuid's `Uuid::new_v4` read back with `Uuid::as_u128`: random
/// bits with the version and variant bits forced.
#[verifier::external_body]
fn random_v4_value() -> (r: u128)
    ensures
        is_v4(r),
{
    uuid::Uuid::new_v4().as_u128()
}

/// Relies on uuid's `Uuid::from_u128` (big-endian bytes) and its `Display`
/// impl, which writes the lower-case hyphenated form.
#[verifier::external_body]
fn hyphenated_text(v: u128) -> (r: String)
    ensures
        r@ == canonical_text(v),
{
    uuid::Uuid::from_u128(v).to_string()
}

/// The identifier of one request: a 128-bit value.
#[derive(Clone, Copy, Debug, PartialEq, Eq, Hash, Structural)]
pub struct RequestID(pub u128);

impl RequestID {
    /// A fresh random identifier.
    pub fn generate() -> (r: RequestID)
        ensures
            is_v4(r.0),
            r.0 != 0,
    {
        let v = random_v4_value();
        assert(v != 0) by (bit_vector)
            requires
                v & 0xF000C000000000000000u128 == 0x40008000000000000000u128,
        ;
        RequestID(v)
    }

    /// The 128-bit value.
    pub fn value(&self) -> (r: u128)
        ensures
            r == self.0,
    {
        self.0
    }

    /// Reads back the canonical rendering; any other text gives `None`.
    pub fn parse(text: &str) -> (r: Option<RequestID>)
        ensures
            parses_to(text@, r),
    {
        if text.unicode_len() != 36 {
            return None;
        }
        let mut v: u128 = 0;
        let mut i: usize = 0;
        let mut k: usize = 0;
        while i < 36
            invariant
                text@.len() == 36,
                i <= 36,
                k as int == digits_before(i as int),
                forall|j: int| 0 <= j < i && is_hyphen_position(j) ==> text@[j] == '-',
                forall|j: int|
                    0 <= j < i && !is_hyphen_position(j) ==> text@[j] == hex_char(
                        group(v, k - 1 - digit_index(j)),
                    ),
            decreases 36 - i,
        {
            let c = text.get_char(i);
            if i == 8 || i == 13 || i == 18 || i == 23 {
                if c != '-' {
                    proof {
                        assert forall|w: u128| canonical_text(w) != text@ by {
                            assert(canonical_text(w)[i as int] != text@[i as int]);
                        }
                    }
                    return None;
                }
            } else {
                match hex_value(c) {
                    Some(d) => {
                        let ghost old_v = v;
                        v = (v << 4u128) | d;
                        proof {
                            assert forall|j: int|
                                0 <= j <= i && !is_hyphen_position(j) implies text@[j] == hex_char(
                                group(v, k - digit_index(j)),
                            ) by {
                                lemma_push_group(old_v, d, k - digit_index(j));
                            }
                        }
                        k = k + 1;
                    },
                    None => {
                        proof {
                            assert forall|w: u128| canonical_text(w) != text@ by {
                                lemma_group_bound(w, 31 - digit_index(i as int));
                                assert(canonical_text(w)[i as int] != text@[i as int]);
                            }
                        }
                        return None;
                    },
                }
            }
            i = i + 1;
        }
        assert(canonical_text(v) =~= text@);
        Some(RequestID(v))
    }

    /// The canonical textual rendering, 36 characters long.
    pub fn to_string(&self) -> (r: String)
        ensures
            r@ == canonical_text(self.0),
            r@.len() == 36,
    {
        hyphenated_text(self.0)
    }
}

} // verus!
