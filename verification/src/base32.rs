//! The case-preserving encoding of package names: the bytes of the name
//! written in base 32 with the letters `a` to `z` and the digits `2` to `7`,
//! five bits to a character, without padding.

use vstd::prelude::*;
use vstd::utf8::{decode_utf8, encode_utf8, valid_utf8};
use vstd::string::StringSliceAdditionalSpecFns;

verus! {

/// The byte at position `i`, zero past the end.
pub open spec fn byte_or_zero(bytes: Seq<u8>, i: int) -> u8 {
    if 0 <= i < bytes.len() {
        bytes[i]
    } else {
        0u8
    }
}

/// The `j`th of the eight five-bit groups of a block of five bytes.
pub open spec fn group(b0: u8, b1: u8, b2: u8, b3: u8, b4: u8, j: int) -> u8 {
    if j == 0 {
        b0 >> 3
    } else if j == 1 {
        ((b0 & 7) << 2) | (b1 >> 6)
    } else if j == 2 {
        (b1 >> 1) & 31
    } else if j == 3 {
        ((b1 & 1) << 4) | (b2 >> 4)
    } else if j == 4 {
        ((b2 & 15) << 1) | (b3 >> 7)
    } else if j == 5 {
        (b3 >> 2) & 31
    } else if j == 6 {
        ((b3 & 3) << 3) | (b4 >> 5)
    } else {
        b4 & 31
    }
}

/// The `k`th of the five bytes that eight five-bit groups hold.
pub open spec fn regrouped(
    s0: u8,
    s1: u8,
    s2: u8,
    s3: u8,
    s4: u8,
    s5: u8,
    s6: u8,
    s7: u8,
    k: int,
) -> u8 {
    if k == 0 {
        ((s0 & 31) << 3) | ((s1 & 31) >> 2)
    } else if k == 1 {
        ((s1 & 3) << 6) | ((s2 & 31) << 1) | ((s3 & 31) >> 4)
    } else if k == 2 {
        ((s3 & 15) << 4) | ((s4 & 31) >> 1)
    } else if k == 3 {
        ((s4 & 1) << 7) | ((s5 & 31) << 2) | ((s6 & 31) >> 3)
    } else {
        ((s6 & 7) << 5) | (s7 & 31)
    }
}

/// The number of groups that hold `r` bytes, for up to five bytes.
pub open spec fn group_count(r: int) -> int {
    if r >= 5 {
        8
    } else if r == 4 {
        7
    } else if r == 3 {
        5
    } else if r == 2 {
        4
    } else if r == 1 {
        2
    } else {
        0
    }
}

/// The number of whole bytes that `m` groups hold, for up to eight groups.
pub open spec fn byte_count(m: int) -> int {
    if m >= 8 {
        5
    } else if m <= 0 {
        0
    } else {
        m * 5 / 8
    }
}

/// The five-bit groups of the first block of `bytes`.
pub open spec fn first_groups(bytes: Seq<u8>) -> Seq<u8> {
    Seq::new(
        group_count(bytes.len() as int) as nat,
        |j: int|
            group(
                byte_or_zero(bytes, 0),
                byte_or_zero(bytes, 1),
                byte_or_zero(bytes, 2),
                byte_or_zero(bytes, 3),
                byte_or_zero(bytes, 4),
                j,
            ),
    )
}

/// The five-bit groups of a sequence of bytes, the last filled up with zero bits.
pub open spec fn groups_of(bytes: Seq<u8>) -> Seq<u8>
    decreases bytes.len(),
{
    if bytes.len() == 0 {
        Seq::empty()
    } else if bytes.len() <= 5 {
        first_groups(bytes)
    } else {
        first_groups(bytes) + groups_of(bytes.skip(5))
    }
}

/// The whole bytes that the first block of `groups` holds.
pub open spec fn first_bytes(groups: Seq<u8>) -> Seq<u8> {
    Seq::new(
        byte_count(groups.len() as int) as nat,
        |k: int|
            regrouped(
                byte_or_zero(groups, 0),
                byte_or_zero(groups, 1),
                byte_or_zero(groups, 2),
                byte_or_zero(groups, 3),
                byte_or_zero(groups, 4),
                byte_or_zero(groups, 5),
                byte_or_zero(groups, 6),
                byte_or_zero(groups, 7),
                k,
            ),
    )
}

/// The whole bytes that a sequence of five-bit groups holds.
pub open spec fn bytes_of(groups: Seq<u8>) -> Seq<u8>
    decreases groups.len(),
{
    if groups.len() == 0 {
        Seq::empty()
    } else if groups.len() <= 8 {
        first_bytes(groups)
    } else {
        first_bytes(groups) + bytes_of(groups.skip(8))
    }
}

/// The character that stands for a five-bit group.
pub open spec fn symbol_char(v: u8) -> char {
    if v < 26 {
        (97 + v) as char
    } else {
        (24 + v) as char
    }
}

/// The five-bit group that a character stands for: a letter of either
/// case, or a digit from `2` to `7`.
pub open spec fn symbol_value(c: char) -> Option<u8> {
    if 'a' <= c <= 'z' {
        Some(((c as u32) - 97) as u8)
    } else if 'A' <= c <= 'Z' {
        Some(((c as u32) - 65) as u8)
    } else if '2' <= c <= '7' {
        Some(((c as u32) - 24) as u8)
    } else {
        None
    }
}

/// The encoded form of a name.
pub open spec fn name_encoded(name: Seq<char>) -> Seq<char> {
    groups_of(encode_utf8(name)).map_values(|v: u8| symbol_char(v))
}

/// Whether every character stands for a five-bit group.
pub open spec fn all_symbols(text: Seq<char>) -> bool {
    forall|i: int| 0 <= i < text.len() ==> symbol_value(#[trigger] text[i]) is Some
}

/// The groups that the characters of an encoded name stand for.
pub open spec fn symbol_values(text: Seq<char>) -> Seq<u8> {
    Seq::new(
        text.len(),
        |i: int|
            match symbol_value(text[i]) {
                Some(v) => v,
                None => 0u8,
            },
    )
}

/// The name that an encoded form stands for; none where a character is no
/// symbol or the bytes are no text.
pub open spec fn name_decoded(text: Seq<char>) -> Option<Seq<char>> {
    if all_symbols(text) && valid_utf8(bytes_of(symbol_values(text))) {
        Some(decode_utf8(bytes_of(symbol_values(text))))
    } else {
        None
    }
}

proof fn lemma_block(b0: u8, b1: u8, b2: u8, b3: u8, b4: u8)
    ensures
        forall|j: int| 0 <= j < 8 ==> #[trigger] group(b0, b1, b2, b3, b4, j) < 32,
        forall|k: int|
            0 <= k < 5 ==> #[trigger] regrouped(
                group(b0, b1, b2, b3, b4, 0),
                group(b0, b1, b2, b3, b4, 1),
                group(b0, b1, b2, b3, b4, 2),
                group(b0, b1, b2, b3, b4, 3),
                group(b0, b1, b2, b3, b4, 4),
                group(b0, b1, b2, b3, b4, 5),
                group(b0, b1, b2, b3, b4, 6),
                group(b0, b1, b2, b3, b4, 7),
                k,
            ) == (if k == 0 {
                b0
            } else if k == 1 {
                b1
            } else if k == 2 {
                b2
            } else if k == 3 {
                b3
            } else {
                b4
            }),
        b1 == 0 && b2 == 0 && b3 == 0 && b4 == 0 ==> forall|j: int|
            2 <= j < 8 ==> #[trigger] group(b0, b1, b2, b3, b4, j) == 0,
        b2 == 0 && b3 == 0 && b4 == 0 ==> forall|j: int|
            4 <= j < 8 ==> #[trigger] group(b0, b1, b2, b3, b4, j) == 0,
        b3 == 0 && b4 == 0 ==> forall|j: int|
            5 <= j < 8 ==> #[trigger] group(b0, b1, b2, b3, b4, j) == 0,
        b4 == 0 ==> forall|j: int| 7 <= j < 8 ==> #[trigger] group(b0, b1, b2, b3, b4, j) == 0,
{
    assert(b0 >> 3 < 32) by (bit_vector);
    assert(((b0 & 7) << 2) | (b1 >> 6) < 32) by (bit_vector);
    assert((b1 >> 1) & 31 < 32) by (bit_vector);
    assert(((b1 & 1) << 4) | (b2 >> 4) < 32) by (bit_vector);
    assert(((b2 & 15) << 1) | (b3 >> 7) < 32) by (bit_vector);
    assert((b3 >> 2) & 31 < 32) by (bit_vector);
    assert(((b3 & 3) << 3) | (b4 >> 5) < 32) by (bit_vector);
    assert(b4 & 31 < 32) by (bit_vector);
    assert((((b0 >> 3) & 31) << 3) | (((((b0 & 7) << 2) | (b1 >> 6)) & 31) >> 2) == b0)
        by (bit_vector);
    assert((((((b0 & 7) << 2) | (b1 >> 6)) & 3) << 6) | ((((b1 >> 1) & 31) & 31) << 1) | (((((b1
        & 1) << 4) | (b2 >> 4)) & 31) >> 4) == b1) by (bit_vector);
    assert((((((b1 & 1) << 4) | (b2 >> 4)) & 15) << 4) | (((((b2 & 15) << 1) | (b3 >> 7)) & 31)
        >> 1) == b2) by (bit_vector);
    assert((((((b2 & 15) << 1) | (b3 >> 7)) & 1) << 7) | ((((b3 >> 2) & 31) & 31) << 2) | (((((b3
        & 3) << 3) | (b4 >> 5)) & 31) >> 3) == b3) by (bit_vector);
    assert((((((b3 & 3) << 3) | (b4 >> 5)) & 7) << 5) | ((b4 & 31) & 31) == b4) by (bit_vector);
    assert(b1 == 0 ==> (b1 >> 1) & 31 == 0) by (bit_vector);
    assert(b1 == 0 && b2 == 0 ==> ((b1 & 1) << 4) | (b2 >> 4) == 0) by (bit_vector);
    assert(b2 == 0 && b3 == 0 ==> ((b2 & 15) << 1) | (b3 >> 7) == 0) by (bit_vector);
    assert(b3 == 0 ==> (b3 >> 2) & 31 == 0) by (bit_vector);
    assert(b3 == 0 && b4 == 0 ==> ((b3 & 3) << 3) | (b4 >> 5) == 0) by (bit_vector);
    assert(b4 == 0 ==> b4 & 31 == 0) by (bit_vector);
}

/// Every five-bit group is below 32.
pub proof fn lemma_groups_small(bytes: Seq<u8>)
    ensures
        forall|i: int| 0 <= i < groups_of(bytes).len() ==> #[trigger] groups_of(bytes)[i] < 32,
    decreases bytes.len(),
{
    if bytes.len() > 0 {
        lemma_block(
            byte_or_zero(bytes, 0),
            byte_or_zero(bytes, 1),
            byte_or_zero(bytes, 2),
            byte_or_zero(bytes, 3),
            byte_or_zero(bytes, 4),
        );
        let first = first_groups(bytes);
        if bytes.len() > 5 {
            lemma_groups_small(bytes.skip(5));
        }
        assert forall|i: int| 0 <= i < groups_of(bytes).len() implies #[trigger] groups_of(
            bytes,
        )[i] < 32 by {
            if i < first.len() {
                assert(groups_of(bytes)[i] == first[i]);
            } else {
                assert(groups_of(bytes)[i] == groups_of(bytes.skip(5))[i - first.len()]);
            }
        }
    }
}

/// The groups of a sequence of bytes hold exactly those bytes.
pub proof fn lemma_groups_roundtrip(bytes: Seq<u8>)
    ensures
        bytes_of(groups_of(bytes)) == bytes,
    decreases bytes.len(),
{
    if bytes.len() > 0 {
        let b0 = byte_or_zero(bytes, 0);
        let b1 = byte_or_zero(bytes, 1);
        let b2 = byte_or_zero(bytes, 2);
        let b3 = byte_or_zero(bytes, 3);
        let b4 = byte_or_zero(bytes, 4);
        lemma_block(b0, b1, b2, b3, b4);
        let first = first_groups(bytes);
        let all = groups_of(bytes);
        assert forall|j: int| 0 <= j < 8 implies byte_or_zero(all, j) == group(
            b0,
            b1,
            b2,
            b3,
            b4,
            j,
        ) by {
            if j < first.len() {
                assert(all[j] == first[j]);
            }
        }
        if bytes.len() <= 5 {
            assert(first_bytes(all) =~= bytes);
        } else {
            let rest = groups_of(bytes.skip(5));
            lemma_groups_roundtrip(bytes.skip(5));
            assert(rest.len() > 0);
            assert(all.skip(8) =~= rest);
            assert(first_bytes(all) =~= bytes.take(5));
            assert(bytes.take(5) + bytes.skip(5) =~= bytes);
        }
    }
}

/// A symbol's character stands for the symbol, and is a lower-case letter
/// or a digit.
pub proof fn lemma_symbol_roundtrip(v: u8)
    requires
        v < 32,
    ensures
        symbol_value(symbol_char(v)) == Some(v),
        'a' <= symbol_char(v) <= 'z' || '2' <= symbol_char(v) <= '7',
{
}

/// Decoding the encoded form of a name gives the name back.
pub proof fn lemma_name_roundtrip(name: Seq<char>)
    ensures
        name_decoded(name_encoded(name)) == Some(name),
        forall|i: int|
            0 <= i < name_encoded(name).len() ==> ('a' <= #[trigger] name_encoded(name)[i] <= 'z'
                || '2' <= name_encoded(name)[i] <= '7'),
{
    let bytes = encode_utf8(name);
    let groups = groups_of(bytes);
    let text = name_encoded(name);
    lemma_groups_small(bytes);
    lemma_groups_roundtrip(bytes);
    assert forall|i: int| 0 <= i < text.len() implies symbol_value(#[trigger] text[i]) == Some(
        groups[i],
    ) && ('a' <= text[i] <= 'z' || '2' <= text[i] <= '7') by {
        lemma_symbol_roundtrip(groups[i]);
    }
    assert(symbol_values(text) =~= groups);
    vstd::utf8::encode_utf8_valid_utf8(name);
    vstd::utf8::encode_utf8_decode_utf8(name);
}

/// A byte as a character; stands for the conversion `char::from(u8)`.
fn char_of_byte(b: u8) -> (c: char)
    ensures
        c == b as char,
{
    b as char
}

/// The character that stands for a five-bit group.
pub fn symbol_for(v: u8) -> (c: char)
    requires
        v < 32,
    ensures
        c == symbol_char(v),
{
    if v < 26 {
        char_of_byte(97 + v)
    } else {
        char_of_byte(24 + v)
    }
}

/// The five-bit group that a character stands for.
pub fn value_of_symbol(c: char) -> (r: Option<u8>)
    ensures
        r == symbol_value(c),
{
    if 'a' <= c && c <= 'z' {
        Some(((c as u32) - 97) as u8)
    } else if 'A' <= c && c <= 'Z' {
        Some(((c as u32) - 65) as u8)
    } else if '2' <= c && c <= '7' {
        Some(((c as u32) - 24) as u8)
    } else {
        None
    }
}

fn group_at(b0: u8, b1: u8, b2: u8, b3: u8, b4: u8, j: usize) -> (v: u8)
    ensures
        v == group(b0, b1, b2, b3, b4, j as int),
{
    if j == 0 {
        b0 >> 3
    } else if j == 1 {
        ((b0 & 7) << 2) | (b1 >> 6)
    } else if j == 2 {
        (b1 >> 1) & 31
    } else if j == 3 {
        ((b1 & 1) << 4) | (b2 >> 4)
    } else if j == 4 {
        ((b2 & 15) << 1) | (b3 >> 7)
    } else if j == 5 {
        (b3 >> 2) & 31
    } else if j == 6 {
        ((b3 & 3) << 3) | (b4 >> 5)
    } else {
        b4 & 31
    }
}

fn regrouped_at(s: &[u8; 8], k: usize) -> (v: u8)
    ensures
        v == regrouped(s[0], s[1], s[2], s[3], s[4], s[5], s[6], s[7], k as int),
{
    if k == 0 {
        ((s[0] & 31) << 3) | ((s[1] & 31) >> 2)
    } else if k == 1 {
        ((s[1] & 3) << 6) | ((s[2] & 31) << 1) | ((s[3] & 31) >> 4)
    } else if k == 2 {
        ((s[3] & 15) << 4) | ((s[4] & 31) >> 1)
    } else if k == 3 {
        ((s[4] & 1) << 7) | ((s[5] & 31) << 2) | ((s[6] & 31) >> 3)
    } else {
        ((s[6] & 7) << 5) | (s[7] & 31)
    }
}

/// The five-bit groups of a sequence of bytes.
pub fn encode_bytes(bytes: &[u8]) -> (out: Vec<u8>)
    ensures
        out@ == groups_of(bytes@),
{
    let n: usize = bytes.len();
    let mut out: Vec<u8> = Vec::new();
    let mut i: usize = 0;
    assert(bytes@.skip(0) == bytes@);
    while i < n
        invariant
            i <= n,
            n == bytes.len(),
            out@ + groups_of(bytes@.skip(i as int)) == groups_of(bytes@),
        decreases n - i,
    {
        let ghost rest = bytes@.skip(i as int);
        let left: usize = n - i;
        let b0 = bytes[i];
        let b1 = if left > 1 {
            bytes[i + 1]
        } else {
            0
        };
        let b2 = if left > 2 {
            bytes[i + 2]
        } else {
            0
        };
        let b3 = if left > 3 {
            bytes[i + 3]
        } else {
            0
        };
        let b4 = if left > 4 {
            bytes[i + 4]
        } else {
            0
        };
        let count: usize = if left >= 5 {
            8
        } else if left == 4 {
            7
        } else if left == 3 {
            5
        } else if left == 2 {
            4
        } else {
            2
        };
        let ghost before = out@;
        let mut j: usize = 0;
        while j < count
            invariant
                j <= count <= 8,
                out@ == before + Seq::new(j as nat, |t: int| group(b0, b1, b2, b3, b4, t)),
            decreases count - j,
        {
            out.push(group_at(b0, b1, b2, b3, b4, j));
            j += 1;
            assert(out@ =~= before + Seq::new(j as nat, |t: int| group(b0, b1, b2, b3, b4, t)));
        }
        assert(Seq::new(count as nat, |t: int| group(b0, b1, b2, b3, b4, t)) =~= first_groups(
            rest,
        ));
        if left <= 5 {
            i = n;
            assert(bytes@.skip(n as int).len() == 0);
            assert(out@ == before + groups_of(rest));
            assert(out@ + groups_of(bytes@.skip(n as int)) =~= out@);
        } else {
            assert(rest.skip(5) == bytes@.skip(i + 5));
            i = i + 5;
            assert(out@ + groups_of(bytes@.skip(i as int)) =~= before + (first_groups(rest)
                + groups_of(rest.skip(5))));
        }
    }
    assert(bytes@.skip(n as int).len() == 0);
    assert(out@ + Seq::<u8>::empty() =~= out@);
    out
}

/// The whole bytes that a sequence of five-bit groups holds.
pub fn decode_groups(groups: &[u8]) -> (out: Vec<u8>)
    ensures
        out@ == bytes_of(groups@),
{
    let n: usize = groups.len();
    let mut out: Vec<u8> = Vec::new();
    let mut i: usize = 0;
    assert(groups@.skip(0) == groups@);
    while i < n
        invariant
            i <= n,
            n == groups.len(),
            out@ + bytes_of(groups@.skip(i as int)) == bytes_of(groups@),
        decreases n - i,
    {
        let ghost rest = groups@.skip(i as int);
        let left: usize = n - i;
        let mut block: [u8; 8] = [0u8; 8];
        let mut t: usize = 0;
        while t < 8
            invariant
                t <= 8,
                i + left == n,
                left > 0,
                n == groups.len(),
                rest == groups@.skip(i as int),
                forall|x: int| 0 <= x < t ==> block[x] == byte_or_zero(rest, x),
            decreases 8 - t,
        {
            let value: u8 = if t < left {
                groups[i + t]
            } else {
                0
            };
            block[t] = value;
            t += 1;
        }
        let count: usize = if left >= 8 {
            5
        } else {
            left * 5 / 8
        };
        let ghost before = out@;
        let mut k: usize = 0;
        while k < count
            invariant
                k <= count <= 5,
                out@ == before + Seq::new(
                    k as nat,
                    |x: int|
                        regrouped(
                            block[0],
                            block[1],
                            block[2],
                            block[3],
                            block[4],
                            block[5],
                            block[6],
                            block[7],
                            x,
                        ),
                ),
            decreases count - k,
        {
            out.push(regrouped_at(&block, k));
            k += 1;
            assert(out@ =~= before + Seq::new(
                k as nat,
                |x: int|
                    regrouped(
                        block[0],
                        block[1],
                        block[2],
                        block[3],
                        block[4],
                        block[5],
                        block[6],
                        block[7],
                        x,
                    ),
            ));
        }
        assert(Seq::new(
            count as nat,
            |x: int|
                regrouped(
                    block[0],
                    block[1],
                    block[2],
                    block[3],
                    block[4],
                    block[5],
                    block[6],
                    block[7],
                    x,
                ),
        ) =~= first_bytes(rest));
        if left <= 8 {
            i = n;
            assert(groups@.skip(n as int).len() == 0);
            assert(out@ + bytes_of(groups@.skip(n as int)) =~= out@);
        } else {
            assert(rest.skip(8) == groups@.skip(i + 8));
            i = i + 8;
            assert(out@ + bytes_of(groups@.skip(i as int)) =~= before + (first_bytes(rest)
                + bytes_of(rest.skip(8))));
        }
    }
    assert(groups@.skip(n as int).len() == 0);
    assert(out@ + Seq::<u8>::empty() =~= out@);
    out
}

/// Reads bytes as text. Stands for `String::from_utf8`, which accepts
/// exactly the byte sequences that are valid UTF-8 and gives the text they encode.
#[verifier::external_body]
fn text_from_utf8(bytes: Vec<u8>) -> (r: Option<String>)
    ensures
        match r {
            Some(s) => valid_utf8(bytes@) && s@ == decode_utf8(bytes@),
            None => !valid_utf8(bytes@),
        },
{
    String::from_utf8(bytes).ok()
}

/// The encoded form of a name.
pub fn mixed_case_package_name_encode(name: &str) -> (out: Vec<char>)
    ensures
        out@ == name_encoded(name@),
{
    let groups = encode_bytes(name.as_bytes());
    proof {
        lemma_groups_small(name.spec_bytes());
    }
    let mut out: Vec<char> = Vec::new();
    let mut i: usize = 0;
    while i < groups.len()
        invariant
            i <= groups.len(),
            groups@ == groups_of(encode_utf8(name@)),
            forall|x: int| 0 <= x < groups@.len() ==> #[trigger] groups@[x] < 32,
            out@ == name_encoded(name@).take(i as int),
        decreases groups.len() - i,
    {
        out.push(symbol_for(groups[i]));
        assert(name_encoded(name@).take(i + 1) == name_encoded(name@).take(i as int).push(
            symbol_char(groups@[i as int]),
        ));
        i += 1;
    }
    assert(name_encoded(name@).take(groups.len() as int) == name_encoded(name@));
    out
}

/// The name that an encoded form stands for.
pub fn mixed_case_package_name_decode(text: &[char]) -> (r: Option<String>)
    ensures
        match r {
            Some(s) => name_decoded(text@) == Some(s@),
            None => name_decoded(text@) is None,
        },
{
    let mut groups: Vec<u8> = Vec::new();
    let mut i: usize = 0;
    while i < text.len()
        invariant
            i <= text.len(),
            forall|x: int| 0 <= x < i ==> symbol_value(#[trigger] text@[x]) is Some,
            groups@ == symbol_values(text@).take(i as int),
        decreases text.len() - i,
    {
        match value_of_symbol(text[i]) {
            Some(v) => {
                groups.push(v);
                assert(symbol_values(text@).take(i + 1) == symbol_values(text@).take(
                    i as int,
                ).push(v));
            },
            None => {
                return None;
            },
        }
        i += 1;
    }
    assert(symbol_values(text@).take(text.len() as int) == symbol_values(text@));
    let bytes = decode_groups(groups.as_slice());
    text_from_utf8(bytes)
}

} // verus!
