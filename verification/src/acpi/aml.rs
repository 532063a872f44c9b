//! A reader of AML byte code. It walks the definition blocks of a table and
//! reports, in order, one item for each term it recognises.

use vstd::prelude::*;

verus! {

pub const ZERO_OP: u8 = 0x00;
pub const ONE_OP: u8 = 0x01;
pub const NAME_OP: u8 = 0x08;
pub const BYTE_PREFIX: u8 = 0x0A;
pub const WORD_PREFIX: u8 = 0x0B;
pub const DWORD_PREFIX: u8 = 0x0C;
pub const STRING_PREFIX: u8 = 0x0D;
pub const QWORD_PREFIX: u8 = 0x0E;
pub const SCOPE_OP: u8 = 0x10;
pub const BUFFER_OP: u8 = 0x11;
pub const PACKAGE_OP: u8 = 0x12;
pub const METHOD_OP: u8 = 0x14;
pub const DUAL_NAME_PREFIX: u8 = 0x2E;
pub const MULTI_NAME_PREFIX: u8 = 0x2F;
pub const EXT_OP_PREFIX: u8 = 0x5B;
pub const ROOT_PREFIX: u8 = 0x5C;
pub const PARENT_PREFIX: u8 = 0x5E;

pub const MUTEX_OP: u8 = 0x01;
pub const OP_REGION_OP: u8 = 0x80;
pub const FIELD_OP: u8 = 0x81;
pub const DEVICE_OP: u8 = 0x82;
pub const PROCESSOR_OP: u8 = 0x83;

/// The largest cursor and the largest length of byte code that the readers
/// of names and nested terms accept. No cursor that starts at or below it
/// leaves the range of `usize`.
pub const CURSOR_MAX: usize = usize::MAX - 0x1000_0400;

// ---------------------------------------------------------------------------
// Strings
// ---------------------------------------------------------------------------

/// Digits, upper case letters, the underscore and the two path prefixes.
pub open spec fn is_string_byte(c: u8) -> bool {
    (0x30 <= c <= 0x39) || (0x41 <= c <= 0x5A) || c == 0x5F || c == ROOT_PREFIX || c
        == PARENT_PREFIX
}

/// The first position at or after `i` that holds no string byte.
pub open spec fn spec_string_end(bytes: Seq<u8>, i: int) -> int
    decreases bytes.len() - i,
{
    if 0 <= i < bytes.len() && is_string_byte(bytes[i]) {
        spec_string_end(bytes, i + 1)
    } else {
        i
    }
}

/// The run of string bytes that starts at `i`.
pub open spec fn spec_string(bytes: Seq<u8>, i: int) -> Seq<u8> {
    if 0 <= i < bytes.len() {
        bytes.subrange(i, spec_string_end(bytes, i))
    } else {
        Seq::empty()
    }
}

/// A string ends at or behind its start and inside the code; every byte
/// before its end is a byte of a string, and the byte at its end is none.
pub proof fn lemma_string_end_bounds(bytes: Seq<u8>, i: int)
    requires
        0 <= i,
    ensures
        i <= spec_string_end(bytes, i),
        i <= bytes.len() ==> spec_string_end(bytes, i) <= bytes.len(),
        forall|k: int| i <= k < spec_string_end(bytes, i) ==> is_string_byte(#[trigger] bytes[k]),
        spec_string_end(bytes, i) < bytes.len() ==> !is_string_byte(
            bytes[spec_string_end(bytes, i)],
        ),
    decreases bytes.len() - i,
{
    if i < bytes.len() && is_string_byte(bytes[i]) {
        lemma_string_end_bounds(bytes, i + 1);
    }
}

/// Reads the run of string bytes at the cursor and moves the cursor behind it.
pub fn parse_string(bytes: &[u8], i: &mut usize) -> (string: Vec<u8>)
    ensures
        string@ == spec_string(bytes@, *old(i) as int),
        *final(i) == spec_string_end(bytes@, *old(i) as int),
{
    let mut string: Vec<u8> = Vec::new();
    let ghost start: int = *i as int;
    proof {
        lemma_string_end_bounds(bytes@, start);
    }
    while *i < bytes.len()
        invariant
            0 <= start,
            start <= *i <= bytes.len() || (*i == start && start > bytes.len()),
            spec_string_end(bytes@, start) == spec_string_end(bytes@, *i as int),
            start <= bytes.len() ==> string@ == bytes@.subrange(start, *i as int),
            start > bytes.len() ==> string@ == Seq::<u8>::empty(),
        ensures
            *i == spec_string_end(bytes@, start),
            string@ == spec_string(bytes@, start),
        decreases bytes.len() - *i,
    {
        let c = bytes[*i];
        if (c >= 0x30 && c <= 0x39) || (c >= 0x41 && c <= 0x5A) || c == 0x5F || c == ROOT_PREFIX
            || c == PARENT_PREFIX {
            string.push(c);
            assert(string@ == bytes@.subrange(start, *i as int + 1));
        } else {
            assert(string@ == spec_string(bytes@, start));
            break ;
        }
        *i += 1;
    }
    string
}

// ---------------------------------------------------------------------------
// Numbers
// ---------------------------------------------------------------------------

/// 256 to the power `k`.
pub open spec fn pow256(k: nat) -> nat
    decreases k,
{
    if k == 0 {
        1
    } else {
        256 * pow256((k - 1) as nat)
    }
}

/// The number that `s` holds with its least significant byte first.
pub open spec fn spec_le_value(s: Seq<u8>) -> nat
    decreases s.len(),
{
    if s.len() == 0 {
        0
    } else {
        spec_le_value(s.drop_last()) + s.last() as nat * pow256((s.len() - 1) as nat)
    }
}

/// How many bytes a number of `size` bytes takes at `i`: as many as are left.
pub open spec fn spec_num_len(bytes: Seq<u8>, i: int, size: int) -> int {
    if 0 <= i < bytes.len() && size > 0 {
        if bytes.len() - i < size {
            bytes.len() - i
        } else {
            size
        }
    } else {
        0
    }
}

/// The little-endian number of at most `size` bytes at `i`.
pub open spec fn spec_num(bytes: Seq<u8>, i: int, size: int) -> nat {
    if spec_num_len(bytes, i, size) > 0 {
        spec_le_value(bytes.subrange(i, i + spec_num_len(bytes, i, size)))
    } else {
        0
    }
}

/// The powers of 256 up to the eighth.
pub proof fn lemma_pow256_values()
    ensures
        pow256(0) == 1,
        pow256(1) == 0x100,
        pow256(2) == 0x1_0000,
        pow256(3) == 0x100_0000,
        pow256(4) == 0x1_0000_0000,
        pow256(5) == 0x100_0000_0000,
        pow256(6) == 0x1_0000_0000_0000,
        pow256(7) == 0x100_0000_0000_0000,
        pow256(8) == 0x1_0000_0000_0000_0000,
{
    reveal_with_fuel(pow256, 10);
}

/// A number of `n` bytes is below 256 to the power `n`.
pub proof fn lemma_le_value_bound(s: Seq<u8>)
    ensures
        spec_le_value(s) < pow256(s.len()),
    decreases s.len(),
{
    if s.len() > 0 {
        lemma_le_value_bound(s.drop_last());
        let p = pow256((s.len() - 1) as nat);
        let b = s.last() as nat;
        assert(b * p <= 255 * p) by (nonlinear_arith)
            requires
                b <= 255,
        ;
    }
}

/// Reads a little-endian number of `size` bytes at the cursor, or of as many
/// bytes as are left, and moves the cursor behind it.
pub fn parse_num(bytes: &[u8], i: &mut usize, size: usize) -> (num: u64)
    requires
        size <= 8,
    ensures
        num == spec_num(bytes@, *old(i) as int, size as int),
        num < pow256(size as nat),
        *final(i) == *old(i) + spec_num_len(bytes@, *old(i) as int, size as int),
{
    let ghost start: int = *i as int;
    let mut num: u64 = 0;
    let mut k: usize = 0;
    let mut mult: u64 = 1;
    proof {
        lemma_pow256_values();
    }
    while *i < bytes.len() && k < size
        invariant
            0 <= start,
            size <= 8,
            k <= size,
            *i == start + k,
            k > 0 ==> *i <= bytes.len(),
            k < 8 ==> mult == pow256(k as nat),
            k == 0 ==> num == 0,
            k > 0 ==> num == spec_le_value(bytes@.subrange(start, start + k)),
            num < pow256(k as nat),
        decreases size - k,
    {
        let b = bytes[*i];
        proof {
            lemma_pow256_values();
            let s = bytes@.subrange(start, start + k + 1);
            assert(s.drop_last() =~= bytes@.subrange(start, start + k));
            assert(s.last() == b);
            assert(k == 0 ==> spec_le_value(s.drop_last()) == 0);
            assert(spec_le_value(s) == spec_le_value(s.drop_last()) + b as nat * pow256(k as nat));
            lemma_le_value_bound(s);
            assert(pow256((k + 1) as nat) <= 0x1_0000_0000_0000_0000);
            assert(pow256((k + 1) as nat) == 256 * pow256(k as nat));
        }
        num = num + (b as u64) * mult;
        k += 1;
        *i += 1;
        if k < 8 {
            mult = mult * 256;
        }
    }
    proof {
        lemma_pow256_values();
        assert(k as int == spec_num_len(bytes@, start, size as int));
        lemma_pow256_monotone(k as nat, size as nat);
    }
    num
}

/// The powers of 256 rise, from 1 on.
pub proof fn lemma_pow256_monotone(a: nat, b: nat)
    requires
        a <= b,
    ensures
        pow256(a) <= pow256(b),
        pow256(a) >= 1,
    decreases b,
{
    if a < b {
        lemma_pow256_monotone(a, (b - 1) as nat);
    } else if a > 0 {
        lemma_pow256_monotone((a - 1) as nat, (b - 1) as nat);
    }
}

// ---------------------------------------------------------------------------
// Package lengths
// ---------------------------------------------------------------------------

/// How many of the bytes that the lead byte of a length announces are there.
pub open spec fn spec_length_follow(bytes: Seq<u8>, i: int) -> int {
    if 0 <= i < bytes.len() {
        let follow = bytes[i] as int / 64;
        if bytes.len() - i - 1 < follow {
            bytes.len() - i - 1
        } else {
            follow
        }
    } else {
        0
    }
}

/// The encoded length at `i`. A lead byte that announces no further byte
/// holds six bits; otherwise it holds the low four bits and the bytes that
/// follow hold the rest, least significant first.
pub open spec fn spec_length(bytes: Seq<u8>, i: int) -> nat {
    if 0 <= i < bytes.len() {
        let b = bytes[i] as nat;
        let low = if b / 64 == 0 {
            b % 64
        } else {
            b % 16
        };
        low + 16 * spec_le_value(bytes.subrange(i + 1, i + 1 + spec_length_follow(bytes, i)))
    } else {
        0
    }
}

/// The position behind the encoded length at `i`.
pub open spec fn spec_length_end(bytes: Seq<u8>, i: int) -> int {
    if 0 <= i < bytes.len() {
        i + 1 + spec_length_follow(bytes, i)
    } else {
        i
    }
}

/// Reads an encoded length at the cursor and moves the cursor behind it.
pub fn parse_length(bytes: &[u8], i: &mut usize) -> (length: usize)
    ensures
        length == spec_length(bytes@, *old(i) as int),
        length < 0x1000_0000,
        *final(i) == spec_length_end(bytes@, *old(i) as int),
{
    let ghost start: int = *i as int;
    let mut length: usize = 0;
    if *i < bytes.len() {
        let b = bytes[*i] as usize;
        let mut follow: usize = b / 64;
        if follow == 0 {
            length = b % 64;
        } else {
            length = b % 16;
        }
        let ghost low: int = length as int;
        *i += 1;
        let mut mult: usize = 16;
        let mut k: usize = 0;
        proof {
            lemma_pow256_values();
            assert(spec_le_value(bytes@.subrange(start + 1, start + 1)) == 0);
        }
        while *i < bytes.len() && follow > 0
            invariant
                0 <= start < bytes.len(),
                k + follow == bytes@[start] as int / 64,
                k + follow <= 3,
                *i == start + 1 + k,
                *i <= bytes.len(),
                mult == 16 * pow256(k as nat),
                0 <= low < 64,
                length == low + 16 * spec_le_value(bytes@.subrange(start + 1, start + 1 + k)),
                spec_le_value(bytes@.subrange(start + 1, start + 1 + k)) < pow256(k as nat),
            decreases follow,
        {
            let c = bytes[*i];
            proof {
                lemma_pow256_values();
                let s = bytes@.subrange(start + 1, start + 1 + k + 1);
                assert(s.drop_last() =~= bytes@.subrange(start + 1, start + 1 + k));
                assert(s.last() == c);
                lemma_le_value_bound(s);
                assert(spec_le_value(s) == spec_le_value(s.drop_last()) + c as nat * pow256(
                    k as nat,
                ));
                assert(pow256((k + 1) as nat) == 256 * pow256(k as nat));
                assert(c as nat * (16 * pow256(k as nat)) == 16 * (c as nat * pow256(k as nat)))
                    by (nonlinear_arith);
            }
            length = length + (c as usize) * mult;
            mult = mult * 256;
            follow -= 1;
            k += 1;
            *i += 1;
        }
        proof {
            lemma_pow256_values();
            assert(k as int == spec_length_follow(bytes@, start));
        }
    }
    length
}

// ---------------------------------------------------------------------------
// Integers
// ---------------------------------------------------------------------------

/// The number of bytes that follow an integer prefix; 0 for any other byte.
pub open spec fn spec_prefix_size(op: u8) -> int {
    if op == BYTE_PREFIX {
        1
    } else if op == WORD_PREFIX {
        2
    } else if op == DWORD_PREFIX {
        4
    } else if op == QWORD_PREFIX {
        8
    } else {
        0
    }
}

/// The integer term at `i`: zero, one, or a prefixed number. Any other byte
/// counts as 0.
pub open spec fn spec_int(bytes: Seq<u8>, i: int) -> nat {
    if 0 <= i < bytes.len() {
        if bytes[i] == ONE_OP {
            1
        } else {
            spec_num(bytes, i + 1, spec_prefix_size(bytes[i]))
        }
    } else {
        0
    }
}

/// The position behind the integer term at `i`.
pub open spec fn spec_int_end(bytes: Seq<u8>, i: int) -> int {
    if 0 <= i < bytes.len() {
        i + 1 + spec_num_len(bytes, i + 1, spec_prefix_size(bytes[i]))
    } else {
        i
    }
}

/// Reads an integer term at the cursor and moves the cursor behind it.
pub fn parse_int(bytes: &[u8], i: &mut usize) -> (value: u64)
    ensures
        value == spec_int(bytes@, *old(i) as int),
        *final(i) == spec_int_end(bytes@, *old(i) as int),
{
    if *i < bytes.len() {
        let b = bytes[*i];
        *i += 1;
        if b == ZERO_OP {
            return 0;
        } else if b == ONE_OP {
            return 1;
        } else if b == BYTE_PREFIX {
            return parse_num(bytes, i, 1);
        } else if b == WORD_PREFIX {
            return parse_num(bytes, i, 2);
        } else if b == DWORD_PREFIX {
            return parse_num(bytes, i, 4);
        } else if b == QWORD_PREFIX {
            return parse_num(bytes, i, 8);
        }
    }
    0
}

// ---------------------------------------------------------------------------
// Names
// ---------------------------------------------------------------------------

/// The full stop that separates the segments of a name.
pub const NAME_SEPARATOR: u8 = 0x2E;

/// The underscore that pads a name segment.
pub const NAME_PAD: u8 = 0x5F;

/// The bytes of a name segment.
pub const SEGMENT_LEN: usize = 4;

/// A root or parent prefix.
pub open spec fn is_name_prefix(c: u8) -> bool {
    c == ROOT_PREFIX || c == PARENT_PREFIX
}

/// A digit or an upper case letter.
pub open spec fn is_name_char(c: u8) -> bool {
    (0x30 <= c <= 0x39) || (0x41 <= c <= 0x5A)
}

/// The first position at or after `i` that holds no root or parent prefix.
pub open spec fn spec_prefix_end(bytes: Seq<u8>, i: int) -> int
    decreases bytes.len() - i,
{
    if 0 <= i < bytes.len() && is_name_prefix(bytes[i]) {
        spec_prefix_end(bytes, i + 1)
    } else {
        i
    }
}

/// The number of segments that the byte at `p`, behind the prefixes,
/// announces: none at the end of the code or for a null name, two for a dual
/// name, the count byte for a multi name (none where that byte is missing),
/// and one for anything else.
pub open spec fn spec_segment_count(bytes: Seq<u8>, p: int) -> int {
    if 0 <= p < bytes.len() {
        if bytes[p] == ZERO_OP {
            0
        } else if bytes[p] == DUAL_NAME_PREFIX {
            2
        } else if bytes[p] == MULTI_NAME_PREFIX {
            if p + 1 < bytes.len() {
                bytes[p + 1] as int
            } else {
                0
            }
        } else {
            1
        }
    } else {
        0
    }
}

/// The position of the first segment, for the byte at `p` behind the prefixes.
pub open spec fn spec_segments_start(bytes: Seq<u8>, p: int) -> int {
    if 0 <= p < bytes.len() {
        if bytes[p] == ZERO_OP || bytes[p] == DUAL_NAME_PREFIX {
            p + 1
        } else if bytes[p] == MULTI_NAME_PREFIX {
            if p + 1 < bytes.len() {
                p + 2
            } else {
                p + 1
            }
        } else {
            p
        }
    } else {
        p
    }
}

/// The text of the segment in `p..end`: its digits and letters, and the
/// underscores that stand before the first of them. It stops at the first
/// byte that is none of these.
pub open spec fn spec_segment_text(bytes: Seq<u8>, p: int, end: int, leading: bool) -> Seq<u8>
    decreases end - p,
{
    if 0 <= p < end && p < bytes.len() {
        let c = bytes[p];
        if is_name_char(c) {
            seq![c] + spec_segment_text(bytes, p + 1, end, false)
        } else if c == NAME_PAD {
            if leading {
                seq![c] + spec_segment_text(bytes, p + 1, end, leading)
            } else {
                spec_segment_text(bytes, p + 1, end, leading)
            }
        } else {
            Seq::empty()
        }
    } else {
        Seq::empty()
    }
}

/// `name` followed by `count` segments of four bytes from `p` on, each one
/// set off by a full stop from a name that is not empty.
pub open spec fn spec_segments(bytes: Seq<u8>, p: int, count: int, name: Seq<u8>) -> Seq<u8>
    decreases count,
{
    if count <= 0 {
        name
    } else {
        let head = if name.len() > 0 {
            name.push(NAME_SEPARATOR)
        } else {
            name
        };
        spec_segments(
            bytes,
            p + SEGMENT_LEN,
            count - 1,
            head + spec_segment_text(bytes, p, p + SEGMENT_LEN, true),
        )
    }
}

/// The name at `i`: its prefixes, then its segments.
pub open spec fn spec_name(bytes: Seq<u8>, i: int) -> Seq<u8> {
    if 0 <= i < bytes.len() {
        let p = spec_prefix_end(bytes, i);
        spec_segments(
            bytes,
            spec_segments_start(bytes, p),
            spec_segment_count(bytes, p),
            bytes.subrange(i, p),
        )
    } else {
        Seq::empty()
    }
}

/// The position behind the name at `i`.
pub open spec fn spec_name_end(bytes: Seq<u8>, i: int) -> int {
    if 0 <= i < bytes.len() {
        let p = spec_prefix_end(bytes, i);
        spec_segments_start(bytes, p) + SEGMENT_LEN * spec_segment_count(bytes, p)
    } else {
        i
    }
}

/// The prefix of a name ends at or behind its start and inside the code.
pub proof fn lemma_prefix_end_bounds(bytes: Seq<u8>, i: int)
    requires
        0 <= i <= bytes.len(),
    ensures
        i <= spec_prefix_end(bytes, i) <= bytes.len(),
    decreases bytes.len() - i,
{
    if i < bytes.len() && is_name_prefix(bytes[i]) {
        lemma_prefix_end_bounds(bytes, i + 1);
    }
}

/// A name ends at or behind its start, and at most 1022 bytes behind the end
/// of the code.
pub proof fn lemma_name_end_bounds(bytes: Seq<u8>, i: int)
    requires
        0 <= i,
    ensures
        i <= spec_name_end(bytes, i),
        i <= bytes.len() ==> spec_name_end(bytes, i) <= bytes.len() + 1022,
        i > bytes.len() ==> spec_name_end(bytes, i) == i,
{
    if i < bytes.len() {
        lemma_prefix_end_bounds(bytes, i);
    }
}

/// Reads one segment of a name into `name` and moves the cursor four bytes on.
fn parse_segment(bytes: &[u8], i: &mut usize, name: &mut Vec<u8>)
    requires
        *old(i) + SEGMENT_LEN <= usize::MAX,
    ensures
        final(name)@ == old(name)@ + spec_segment_text(
            bytes@,
            *old(i) as int,
            *old(i) + SEGMENT_LEN,
            true,
        ),
        *final(i) == *old(i) + SEGMENT_LEN,
{
    let end: usize = *i + SEGMENT_LEN;
    let ghost start: int = *i as int;
    let ghost before: Seq<u8> = name@;
    let mut leading = true;
    while *i < bytes.len() && *i < end
        invariant
            0 <= start <= *i <= end,
            end == start + SEGMENT_LEN,
            name@ + spec_segment_text(bytes@, *i as int, end as int, leading) == before
                + spec_segment_text(bytes@, start, end as int, true),
        ensures
            start <= *i <= end,
            name@ == before + spec_segment_text(bytes@, start, end as int, true),
        decreases end - *i,
    {
        let c = bytes[*i];
        let ghost rest = spec_segment_text(bytes@, *i as int + 1, end as int, false);
        let ghost rest_same = spec_segment_text(bytes@, *i as int + 1, end as int, leading);
        if (c >= 0x30 && c <= 0x39) || (c >= 0x41 && c <= 0x5A) {
            leading = false;
            proof {
                assert(name@.push(c) + rest =~= name@ + (seq![c] + rest));
            }
            name.push(c);
        } else if c == NAME_PAD {
            if leading {
                proof {
                    assert(name@.push(c) + rest_same =~= name@ + (seq![c] + rest_same));
                }
                name.push(c);
            }
        } else {
            proof {
                assert(name@ + Seq::<u8>::empty() =~= name@);
            }
            break ;
        }
        *i += 1;
    }
    proof {
        assert(name@ + Seq::<u8>::empty() =~= name@);
    }
    *i = end;
}

/// Reads a name at the cursor and moves the cursor behind it.
pub fn parse_name(bytes: &[u8], i: &mut usize) -> (name: Vec<u8>)
    requires
        bytes.len() <= CURSOR_MAX,
        *old(i) <= CURSOR_MAX,
    ensures
        name@ == spec_name(bytes@, *old(i) as int),
        *final(i) == spec_name_end(bytes@, *old(i) as int),
{
    let mut name: Vec<u8> = Vec::new();
    let ghost start: int = *i as int;
    let mut count: u8 = 0;
    proof {
        if start < bytes.len() {
            lemma_prefix_end_bounds(bytes@, start);
        }
    }
    while *i < bytes.len()
        invariant_except_break
            start <= *i <= bytes.len() || (*i == start && start > bytes.len()),
            count == 0,
            start < bytes.len() ==> spec_prefix_end(bytes@, start) == spec_prefix_end(
                bytes@,
                *i as int,
            ),
            start < bytes.len() ==> name@ == bytes@.subrange(start, *i as int),
            start >= bytes.len() ==> name@ == Seq::<u8>::empty(),
        invariant
            0 <= start,
        ensures
            start < bytes.len() ==> {
                let p = spec_prefix_end(bytes@, start);
                &&& *i == spec_segments_start(bytes@, p)
                &&& count == spec_segment_count(bytes@, p)
                &&& name@ == bytes@.subrange(start, p)
            },
            start >= bytes.len() ==> *i == start && count == 0 && name@ == Seq::<u8>::empty(),
            *i <= bytes.len() || *i == start,
        decreases bytes.len() - *i,
    {
        let c = bytes[*i];
        if c == ZERO_OP {
            *i += 1;
            count = 0;
            break ;
        } else if c == DUAL_NAME_PREFIX {
            *i += 1;
            count = 2;
            break ;
        } else if c == MULTI_NAME_PREFIX {
            *i += 1;
            if *i < bytes.len() {
                count = bytes[*i];
                *i += 1;
            }
            break ;
        } else if c == ROOT_PREFIX || c == PARENT_PREFIX {
            *i += 1;
            name.push(c);
            assert(name@ == bytes@.subrange(start, *i as int));
        } else {
            count = 1;
            break ;
        }
    }
    let ghost first: int = *i as int;
    let ghost total: int = count as int;
    let ghost prefix: Seq<u8> = name@;
    while count > 0
        invariant
            0 <= count <= total <= 255,
            0 <= first <= CURSOR_MAX,
            *i == first + SEGMENT_LEN * (total - count),
            spec_segments(bytes@, *i as int, count as int, name@) == spec_segments(
                bytes@,
                first,
                total,
                prefix,
            ),
        decreases count,
    {
        if name.len() > 0 {
            name.push(NAME_SEPARATOR);
        }
        parse_segment(bytes, i, &mut name);
        count -= 1;
    }
    name
}

// ---------------------------------------------------------------------------
// Items
// ---------------------------------------------------------------------------

/// The kind of a block of terms.
#[derive(Clone, Copy, Debug, PartialEq, Eq, Structural)]
pub enum BlockKind {
    Scope,
    Device,
    Package,
}

/// One recognised term. A block reports its header, then its terms, then
/// `End`.
#[derive(Debug, PartialEq, Eq)]
pub enum AmlItem {
    Zero,
    One,
    Byte(u8),
    Word(u16),
    DWord(u32),
    QWord(u64),
    /// A string constant.
    Text(Vec<u8>),
    /// A name definition.
    Name(Vec<u8>),
    /// A name used as an element of a package.
    Path(Vec<u8>),
    Scope(Vec<u8>),
    Device(Vec<u8>),
    /// A package with its number of elements.
    Package(u8),
    Method { name: Vec<u8>, flags: u8 },
    /// A buffer with its size.
    Buffer(u64),
    Mutex { name: Vec<u8>, flags: u8 },
    OpRegion { name: Vec<u8>, space: u8, offset: u64, size: u64 },
    Field { name: Vec<u8>, flags: u8 },
    /// One unit of a field: its name and its length in bits.
    FieldUnit { name: Vec<u8>, length: usize },
    Processor(Vec<u8>),
    /// The end of a scope, device, package or field.
    End,
    /// An extended operation that the reader does not know.
    UnknownExt(u8),
    /// An operation that the reader does not know.
    Unknown(u8),
}

/// What an item says, with its text as a sequence of bytes.
pub enum AmlLine {
    Zero,
    One,
    Byte(u8),
    Word(u16),
    DWord(u32),
    QWord(u64),
    Text(Seq<u8>),
    Name(Seq<u8>),
    Path(Seq<u8>),
    Scope(Seq<u8>),
    Device(Seq<u8>),
    Package(u8),
    Method { name: Seq<u8>, flags: u8 },
    Buffer(u64),
    Mutex { name: Seq<u8>, flags: u8 },
    OpRegion { name: Seq<u8>, space: u8, offset: u64, size: u64 },
    Field { name: Seq<u8>, flags: u8 },
    FieldUnit { name: Seq<u8>, length: usize },
    Processor(Seq<u8>),
    End,
    UnknownExt(u8),
    Unknown(u8),
}

impl View for AmlItem {
    type V = AmlLine;

    open spec fn view(&self) -> AmlLine {
        match *self {
            AmlItem::Zero => AmlLine::Zero,
            AmlItem::One => AmlLine::One,
            AmlItem::Byte(v) => AmlLine::Byte(v),
            AmlItem::Word(v) => AmlLine::Word(v),
            AmlItem::DWord(v) => AmlLine::DWord(v),
            AmlItem::QWord(v) => AmlLine::QWord(v),
            AmlItem::Text(t) => AmlLine::Text(t@),
            AmlItem::Name(t) => AmlLine::Name(t@),
            AmlItem::Path(t) => AmlLine::Path(t@),
            AmlItem::Scope(t) => AmlLine::Scope(t@),
            AmlItem::Device(t) => AmlLine::Device(t@),
            AmlItem::Package(n) => AmlLine::Package(n),
            AmlItem::Method { name, flags } => AmlLine::Method { name: name@, flags },
            AmlItem::Buffer(n) => AmlLine::Buffer(n),
            AmlItem::Mutex { name, flags } => AmlLine::Mutex { name: name@, flags },
            AmlItem::OpRegion { name, space, offset, size } => AmlLine::OpRegion {
                name: name@,
                space,
                offset,
                size,
            },
            AmlItem::Field { name, flags } => AmlLine::Field { name: name@, flags },
            AmlItem::FieldUnit { name, length } => AmlLine::FieldUnit { name: name@, length },
            AmlItem::Processor(t) => AmlLine::Processor(t@),
            AmlItem::End => AmlLine::End,
            AmlItem::UnknownExt(op) => AmlLine::UnknownExt(op),
            AmlItem::Unknown(op) => AmlLine::Unknown(op),
        }
    }
}

/// What a list of items says.
pub open spec fn spec_lines(items: Seq<AmlItem>) -> Seq<AmlLine> {
    items.map_values(|item: AmlItem| item@)
}

/// Appends one item to the report.
fn emit(out: &mut Vec<AmlItem>, item: AmlItem)
    ensures
        spec_lines(final(out)@) == spec_lines(old(out)@).push(item@),
{
    out.push(item);
    assert(spec_lines(out@) =~= spec_lines(old(out)@).push(item@));
}

// ---------------------------------------------------------------------------
// Terms that hold no block
// ---------------------------------------------------------------------------

/// Zero, one, or an integer prefix.
pub open spec fn spec_is_constant(op: u8) -> bool {
    op == ZERO_OP || op == ONE_OP || spec_prefix_size(op) > 0
}

/// The item for the integer constant at `p`.
pub open spec fn spec_constant_line(bytes: Seq<u8>, p: int) -> AmlLine {
    let op = bytes[p];
    if op == ZERO_OP {
        AmlLine::Zero
    } else if op == ONE_OP {
        AmlLine::One
    } else if op == BYTE_PREFIX {
        AmlLine::Byte(spec_num(bytes, p + 1, 1) as u8)
    } else if op == WORD_PREFIX {
        AmlLine::Word(spec_num(bytes, p + 1, 2) as u16)
    } else if op == DWORD_PREFIX {
        AmlLine::DWord(spec_num(bytes, p + 1, 4) as u32)
    } else {
        AmlLine::QWord(spec_num(bytes, p + 1, 8) as u64)
    }
}

/// The end of a term whose encoded length stands at `q`: the length counts
/// from `q`.
pub open spec fn spec_sized_end(bytes: Seq<u8>, q: int) -> int {
    q + spec_length(bytes, q)
}

/// The item for the method whose encoded length stands at `q`.
pub open spec fn spec_method_line(bytes: Seq<u8>, q: int) -> AmlLine {
    let a = spec_length_end(bytes, q);
    let b = spec_name_end(bytes, a);
    AmlLine::Method { name: spec_name(bytes, a), flags: spec_num(bytes, b, 1) as u8 }
}

/// The item for the buffer whose encoded length stands at `q`.
pub open spec fn spec_buffer_line(bytes: Seq<u8>, q: int) -> AmlLine {
    AmlLine::Buffer(spec_int(bytes, spec_length_end(bytes, q)) as u64)
}

/// The position behind the field unit at `q`: a name, then an encoded length.
pub open spec fn spec_field_unit_end(bytes: Seq<u8>, q: int) -> int {
    spec_length_end(bytes, spec_name_end(bytes, q))
}

/// The bytes of the code from `p` on; none behind its end.
pub open spec fn spec_rest(bytes: Seq<u8>, p: int) -> nat {
    if p < bytes.len() {
        (bytes.len() - p) as nat
    } else {
        0
    }
}

/// A name inside the code takes at least one byte.
pub proof fn lemma_name_advances(bytes: Seq<u8>, q: int)
    requires
        0 <= q < bytes.len(),
    ensures
        q < spec_name_end(bytes, q),
{
    lemma_prefix_end_bounds(bytes, q);
}

/// The units of a field from `q` up to `end`.
pub open spec fn spec_field_units(bytes: Seq<u8>, q: int, end: int) -> Seq<AmlLine>
    decreases spec_rest(bytes, q),
{
    if 0 <= q < bytes.len() && q < end {
        proof {
            lemma_name_advances(bytes, q);
        }
        seq![
            AmlLine::FieldUnit {
                name: spec_name(bytes, q),
                length: spec_length(bytes, spec_name_end(bytes, q)) as usize,
            },
        ] + spec_field_units(bytes, spec_field_unit_end(bytes, q), end)
    } else {
        Seq::empty()
    }
}

/// The items for the field whose encoded length stands at `q`.
pub open spec fn spec_field_lines(bytes: Seq<u8>, q: int) -> Seq<AmlLine> {
    let a = spec_length_end(bytes, q);
    let b = spec_name_end(bytes, a);
    let c = b + spec_num_len(bytes, b, 1);
    seq![AmlLine::Field { name: spec_name(bytes, a), flags: spec_num(bytes, b, 1) as u8 }]
        + spec_field_units(bytes, c, spec_sized_end(bytes, q)) + seq![AmlLine::End]
}

/// The extended operation at `q` opens a block: a device inside a scope.
pub open spec fn spec_ext_is_block(ext: u8, kind: BlockKind) -> bool {
    ext == DEVICE_OP && kind == BlockKind::Scope
}

/// The items for the extended operation at `q` that opens no block. A mutex
/// and a processor are known inside a scope only.
pub open spec fn spec_ext_lines(bytes: Seq<u8>, q: int, kind: BlockKind) -> Seq<AmlLine> {
    let ext = bytes[q];
    if ext == MUTEX_OP && kind == BlockKind::Scope {
        let b = spec_name_end(bytes, q + 1);
        seq![AmlLine::Mutex { name: spec_name(bytes, q + 1), flags: spec_num(bytes, b, 1) as u8 }]
    } else if ext == OP_REGION_OP {
        let b = spec_name_end(bytes, q + 1);
        let c = b + spec_num_len(bytes, b, 1);
        let d = spec_int_end(bytes, c);
        seq![
            AmlLine::OpRegion {
                name: spec_name(bytes, q + 1),
                space: spec_num(bytes, b, 1) as u8,
                offset: spec_int(bytes, c) as u64,
                size: spec_int(bytes, d) as u64,
            },
        ]
    } else if ext == FIELD_OP {
        spec_field_lines(bytes, q + 1)
    } else if ext == PROCESSOR_OP && kind == BlockKind::Scope {
        seq![AmlLine::Processor(spec_name(bytes, spec_length_end(bytes, q + 1)))]
    } else {
        seq![AmlLine::UnknownExt(ext)]
    }
}

/// The position behind the extended operation at `q`.
pub open spec fn spec_ext_end(bytes: Seq<u8>, q: int, kind: BlockKind) -> int {
    let ext = bytes[q];
    if ext == MUTEX_OP && kind == BlockKind::Scope {
        let b = spec_name_end(bytes, q + 1);
        b + spec_num_len(bytes, b, 1)
    } else if ext == OP_REGION_OP {
        let b = spec_name_end(bytes, q + 1);
        let c = b + spec_num_len(bytes, b, 1);
        spec_int_end(bytes, spec_int_end(bytes, c))
    } else if ext == FIELD_OP || (ext == PROCESSOR_OP && kind == BlockKind::Scope)
        || spec_ext_is_block(ext, kind) {
        spec_sized_end(bytes, q + 1)
    } else {
        q + 1
    }
}

/// Reads the integer constant at the cursor.
fn parse_constant(bytes: &[u8], i: &mut usize, out: &mut Vec<AmlItem>)
    requires
        *old(i) < bytes.len(),
        spec_is_constant(bytes@[*old(i) as int]),
    ensures
        spec_lines(final(out)@) == spec_lines(old(out)@).push(
            spec_constant_line(bytes@, *old(i) as int),
        ),
        *final(i) == spec_int_end(bytes@, *old(i) as int),
{
    let op = bytes[*i];
    *i += 1;
    proof {
        lemma_pow256_values();
    }
    if op == ZERO_OP {
        emit(out, AmlItem::Zero);
    } else if op == ONE_OP {
        emit(out, AmlItem::One);
    } else if op == BYTE_PREFIX {
        let v = parse_num(bytes, i, 1);
        emit(out, AmlItem::Byte(v as u8));
    } else if op == WORD_PREFIX {
        let v = parse_num(bytes, i, 2);
        emit(out, AmlItem::Word(v as u16));
    } else if op == DWORD_PREFIX {
        let v = parse_num(bytes, i, 4);
        emit(out, AmlItem::DWord(v as u32));
    } else {
        let v = parse_num(bytes, i, 8);
        emit(out, AmlItem::QWord(v));
    }
}

/// Reads one byte as a number.
fn parse_byte(bytes: &[u8], i: &mut usize) -> (v: u8)
    ensures
        v == spec_num(bytes@, *old(i) as int, 1),
        *final(i) == *old(i) + spec_num_len(bytes@, *old(i) as int, 1),
{
    proof {
        lemma_pow256_values();
    }
    let v = parse_num(bytes, i, 1);
    v as u8
}

/// Reads the method whose encoded length stands at the cursor.
fn parse_method(bytes: &[u8], i: &mut usize, out: &mut Vec<AmlItem>)
    requires
        bytes.len() <= CURSOR_MAX,
        *old(i) <= bytes.len(),
    ensures
        spec_lines(final(out)@) == spec_lines(old(out)@).push(
            spec_method_line(bytes@, *old(i) as int),
        ),
        *final(i) == spec_sized_end(bytes@, *old(i) as int),
{
    let start: usize = *i;
    let length = parse_length(bytes, i);
    let end: usize = start + length;
    let name = parse_name(bytes, i);
    let flags = parse_byte(bytes, i);
    emit(out, AmlItem::Method { name, flags });
    *i = end;
}

/// Reads the buffer whose encoded length stands at the cursor.
fn parse_buffer(bytes: &[u8], i: &mut usize, out: &mut Vec<AmlItem>)
    requires
        bytes.len() <= CURSOR_MAX,
        *old(i) <= bytes.len(),
    ensures
        spec_lines(final(out)@) == spec_lines(old(out)@).push(
            spec_buffer_line(bytes@, *old(i) as int),
        ),
        *final(i) == spec_sized_end(bytes@, *old(i) as int),
{
    let start: usize = *i;
    let length = parse_length(bytes, i);
    let end: usize = start + length;
    let count = parse_int(bytes, i);
    emit(out, AmlItem::Buffer(count));
    *i = end;
}

/// Reads the field whose encoded length stands at the cursor.
fn parse_field(bytes: &[u8], i: &mut usize, out: &mut Vec<AmlItem>)
    requires
        bytes.len() <= CURSOR_MAX,
        *old(i) <= bytes.len(),
    ensures
        spec_lines(final(out)@) == spec_lines(old(out)@) + spec_field_lines(
            bytes@,
            *old(i) as int,
        ),
        *final(i) == spec_sized_end(bytes@, *old(i) as int),
{
    let start: usize = *i;
    let length = parse_length(bytes, i);
    let end: usize = start + length;
    let name = parse_name(bytes, i);
    let flags = parse_byte(bytes, i);
    let ghost head = AmlLine::Field { name: name@, flags };
    emit(out, AmlItem::Field { name, flags });
    let ghost first: int = *i as int;
    let ghost before: Seq<AmlLine> = spec_lines(old(out)@);
    proof {
        assert(before.push(head) + spec_field_units(bytes@, first, end as int) =~= before + (seq![
            head,
        ] + spec_field_units(bytes@, first, end as int)));
    }
    while *i < bytes.len() && *i < end
        invariant
            bytes.len() <= CURSOR_MAX,
            spec_lines(out@) + spec_field_units(bytes@, *i as int, end as int) == before + (seq![
                head,
            ] + spec_field_units(bytes@, first, end as int)),
        decreases spec_rest(bytes@, *i as int),
    {
        let ghost q: int = *i as int;
        let ghost so_far = spec_lines(out@);
        proof {
            lemma_name_advances(bytes@, q);
        }
        let name = parse_name(bytes, i);
        let length = parse_length(bytes, i);
        let ghost unit = AmlLine::FieldUnit { name: name@, length };
        emit(out, AmlItem::FieldUnit { name, length });
        proof {
            let rest = spec_field_units(bytes@, spec_field_unit_end(bytes@, q), end as int);
            assert(so_far.push(unit) + rest =~= so_far + (seq![unit] + rest));
        }
    }
    let ghost units = spec_field_units(bytes@, first, end as int);
    proof {
        assert(spec_field_units(bytes@, *i as int, end as int) =~= Seq::<AmlLine>::empty());
        assert(spec_lines(out@) =~= before + (seq![head] + units));
    }
    emit(out, AmlItem::End);
    proof {
        assert((before + (seq![head] + units)).push(AmlLine::End) =~= before + (seq![head] + units
            + seq![AmlLine::End]));
    }
    *i = end;
}

/// Reads the extended operation at the cursor, where it opens no block.
fn parse_ext(bytes: &[u8], i: &mut usize, kind: BlockKind, out: &mut Vec<AmlItem>)
    requires
        bytes.len() <= CURSOR_MAX,
        *old(i) < bytes.len(),
        !spec_ext_is_block(bytes@[*old(i) as int], kind),
    ensures
        spec_lines(final(out)@) == spec_lines(old(out)@) + spec_ext_lines(
            bytes@,
            *old(i) as int,
            kind,
        ),
        *final(i) == spec_ext_end(bytes@, *old(i) as int, kind),
{
    let ext = bytes[*i];
    *i += 1;
    let in_scope = match kind {
        BlockKind::Scope => true,
        _ => false,
    };
    let ghost before: Seq<AmlLine> = spec_lines(out@);
    if ext == MUTEX_OP && in_scope {
        let name = parse_name(bytes, i);
        let flags = parse_byte(bytes, i);
        let ghost line = AmlLine::Mutex { name: name@, flags };
        emit(out, AmlItem::Mutex { name, flags });
        assert(before.push(line) =~= before + seq![line]);
    } else if ext == OP_REGION_OP {
        let name = parse_name(bytes, i);
        let space = parse_byte(bytes, i);
        let offset = parse_int(bytes, i);
        let size = parse_int(bytes, i);
        let ghost line = AmlLine::OpRegion { name: name@, space, offset, size };
        emit(out, AmlItem::OpRegion { name, space, offset, size });
        assert(before.push(line) =~= before + seq![line]);
    } else if ext == FIELD_OP {
        parse_field(bytes, i, out);
    } else if ext == PROCESSOR_OP && in_scope {
        let start: usize = *i;
        let length = parse_length(bytes, i);
        let end: usize = start + length;
        let name = parse_name(bytes, i);
        let ghost line = AmlLine::Processor(name@);
        emit(out, AmlItem::Processor(name));
        assert(before.push(line) =~= before + seq![line]);
        *i = end;
    } else {
        emit(out, AmlItem::UnknownExt(ext));
        assert(before.push(AmlLine::UnknownExt(ext)) =~= before + seq![AmlLine::UnknownExt(ext)]);
    }
}

// ---------------------------------------------------------------------------
// Blocks
// ---------------------------------------------------------------------------

/// The operation at `p` opens a nested block inside a block of `kind`, and
/// the kind of that block: a package anywhere, a scope or a device inside a
/// scope.
pub open spec fn spec_nested_kind(bytes: Seq<u8>, p: int, kind: BlockKind) -> Option<BlockKind> {
    let op = bytes[p];
    if op == PACKAGE_OP {
        Some(BlockKind::Package)
    } else if op == SCOPE_OP && kind == BlockKind::Scope {
        Some(BlockKind::Scope)
    } else if op == EXT_OP_PREFIX && kind != BlockKind::Package && p + 1 < bytes.len()
        && spec_ext_is_block(bytes[p + 1], kind) {
        Some(BlockKind::Device)
    } else {
        None
    }
}

/// Where the encoded length of the nested block that opens at `p` stands.
pub open spec fn spec_nested_start(bytes: Seq<u8>, p: int) -> int {
    if bytes[p] == EXT_OP_PREFIX {
        p + 2
    } else {
        p + 1
    }
}

/// A device or a scope does not know the operation at `p`, and stops there.
pub open spec fn spec_term_stops(bytes: Seq<u8>, p: int, kind: BlockKind) -> bool {
    let op = bytes[p];
    kind != BlockKind::Package && !spec_is_constant(op) && op != PACKAGE_OP && op != STRING_PREFIX
        && op != NAME_OP && op != METHOD_OP && op != BUFFER_OP && op != EXT_OP_PREFIX && !(op
        == SCOPE_OP && kind == BlockKind::Scope)
}

/// The position behind the term at `p` inside a block of `kind`.
pub open spec fn spec_term_end(bytes: Seq<u8>, p: int, kind: BlockKind) -> int {
    let op = bytes[p];
    if spec_is_constant(op) {
        spec_int_end(bytes, p)
    } else if spec_nested_kind(bytes, p, kind) is Some {
        spec_sized_end(bytes, spec_nested_start(bytes, p))
    } else if kind == BlockKind::Package {
        spec_name_end(bytes, p)
    } else if op == STRING_PREFIX || op == NAME_OP {
        spec_string_end(bytes, p + 1)
    } else if op == METHOD_OP || op == BUFFER_OP {
        spec_sized_end(bytes, p + 1)
    } else if op == EXT_OP_PREFIX && p + 1 < bytes.len() {
        spec_ext_end(bytes, p + 1, kind)
    } else {
        p + 1
    }
}

/// Every term inside the code takes at least one byte.
pub proof fn lemma_term_advances(bytes: Seq<u8>, p: int, kind: BlockKind)
    requires
        0 <= p < bytes.len(),
    ensures
        p < spec_term_end(bytes, p, kind),
{
    lemma_name_advances(bytes, p);
    lemma_string_end_bounds(bytes, p + 1);
    if p + 1 < bytes.len() {
        lemma_name_end_bounds(bytes, p + 2);
        let b = spec_name_end(bytes, p + 2);
        let c = b + spec_num_len(bytes, b, 1);
        assert(spec_int_end(bytes, c) >= c);
        assert(spec_int_end(bytes, spec_int_end(bytes, c)) >= c);
    }
}

/// The items for the term at `p` inside a block of `kind`.
pub open spec fn spec_term_lines(bytes: Seq<u8>, p: int, kind: BlockKind) -> Seq<AmlLine>
    decreases spec_rest(bytes, p), 0nat,
{
    if 0 <= p < bytes.len() {
        let op = bytes[p];
        if spec_is_constant(op) {
            seq![spec_constant_line(bytes, p)]
        } else if spec_nested_kind(bytes, p, kind) is Some {
            spec_block_lines(
                bytes,
                spec_nested_start(bytes, p),
                spec_nested_kind(bytes, p, kind)->0,
            )
        } else if kind == BlockKind::Package {
            seq![AmlLine::Path(spec_name(bytes, p))]
        } else if op == STRING_PREFIX {
            seq![AmlLine::Text(spec_string(bytes, p + 1))]
        } else if op == NAME_OP {
            seq![AmlLine::Name(spec_string(bytes, p + 1))]
        } else if op == METHOD_OP {
            seq![spec_method_line(bytes, p + 1)]
        } else if op == BUFFER_OP {
            seq![spec_buffer_line(bytes, p + 1)]
        } else if op == EXT_OP_PREFIX {
            if p + 1 < bytes.len() {
                spec_ext_lines(bytes, p + 1, kind)
            } else {
                Seq::empty()
            }
        } else {
            seq![AmlLine::Unknown(op)]
        }
    } else {
        Seq::empty()
    }
}

/// The items for the terms from `p` up to `end` inside a block of `kind`.
pub open spec fn spec_body_lines(bytes: Seq<u8>, p: int, end: int, kind: BlockKind) -> Seq<
    AmlLine,
>
    decreases spec_rest(bytes, p), 1nat,
{
    if 0 <= p < bytes.len() && p < end {
        proof {
            lemma_term_advances(bytes, p, kind);
        }
        if spec_term_stops(bytes, p, kind) {
            spec_term_lines(bytes, p, kind)
        } else {
            spec_term_lines(bytes, p, kind) + spec_body_lines(
                bytes,
                spec_term_end(bytes, p, kind),
                end,
                kind,
            )
        }
    } else {
        Seq::empty()
    }
}

/// The header of the block of `kind` whose encoded length stands at `i`: a
/// package gives its number of elements, a device and a scope their name.
pub open spec fn spec_block_head(bytes: Seq<u8>, i: int, kind: BlockKind) -> AmlLine {
    let a = spec_length_end(bytes, i);
    match kind {
        BlockKind::Package => AmlLine::Package(spec_num(bytes, a, 1) as u8),
        BlockKind::Device => AmlLine::Device(spec_name(bytes, a)),
        BlockKind::Scope => AmlLine::Scope(spec_name(bytes, a)),
    }
}

/// The position of the first term of the block whose encoded length stands
/// at `i`.
pub open spec fn spec_block_body_start(bytes: Seq<u8>, i: int, kind: BlockKind) -> int {
    let a = spec_length_end(bytes, i);
    match kind {
        BlockKind::Package => a + spec_num_len(bytes, a, 1),
        _ => spec_name_end(bytes, a),
    }
}

/// The items for the block of `kind` whose encoded length stands at `i`: its
/// header, its terms up to the end that the length gives, and `End`.
pub open spec fn spec_block_lines(bytes: Seq<u8>, i: int, kind: BlockKind) -> Seq<AmlLine>
    decreases spec_rest(bytes, i), 2nat,
{
    if 0 <= i {
        proof {
            lemma_name_end_bounds(bytes, spec_length_end(bytes, i));
        }
        seq![spec_block_head(bytes, i, kind)] + spec_body_lines(
            bytes,
            spec_block_body_start(bytes, i, kind),
            spec_sized_end(bytes, i),
            kind,
        ) + seq![AmlLine::End]
    } else {
        Seq::empty()
    }
}

/// Tells whether `op` is zero, one, or an integer prefix.
fn is_constant(op: u8) -> (b: bool)
    ensures
        b == spec_is_constant(op),
{
    op == ZERO_OP || op == ONE_OP || op == BYTE_PREFIX || op == WORD_PREFIX || op == DWORD_PREFIX
        || op == QWORD_PREFIX
}

/// Reads the block of `kind` whose encoded length stands at the cursor,
/// appends its items to `out`, and moves the cursor to the end that the
/// length gives.
#[verifier::rlimit(40)]
pub fn parse_block(bytes: &[u8], i: &mut usize, kind: BlockKind, out: &mut Vec<AmlItem>)
    requires
        bytes.len() <= CURSOR_MAX,
        *old(i) <= CURSOR_MAX,
    ensures
        spec_lines(final(out)@) == spec_lines(old(out)@) + spec_block_lines(
            bytes@,
            *old(i) as int,
            kind,
        ),
        *final(i) == spec_sized_end(bytes@, *old(i) as int),
    decreases spec_rest(bytes@, *old(i) as int),
{
    let start: usize = *i;
    let length = parse_length(bytes, i);
    let end: usize = start + length;
    let ghost before: Seq<AmlLine> = spec_lines(out@);
    let ghost head = spec_block_head(bytes@, start as int, kind);
    let (in_scope, in_package) = match kind {
        BlockKind::Scope => (true, false),
        BlockKind::Device => (false, false),
        BlockKind::Package => (false, true),
    };
    match kind {
        BlockKind::Package => {
            let elements = parse_byte(bytes, i);
            emit(out, AmlItem::Package(elements));
        },
        BlockKind::Device => {
            let name = parse_name(bytes, i);
            emit(out, AmlItem::Device(name));
        },
        BlockKind::Scope => {
            let name = parse_name(bytes, i);
            emit(out, AmlItem::Scope(name));
        },
    }
    let ghost first: int = *i as int;
    let ghost body = spec_body_lines(bytes@, first, end as int, kind);
    proof {
        lemma_name_end_bounds(bytes@, spec_length_end(bytes@, start as int));
    }
    while *i < bytes.len() && *i < end
        invariant_except_break
            spec_lines(out@) + spec_body_lines(bytes@, *i as int, end as int, kind)
                == before.push(head) + body,
        invariant
            bytes.len() <= CURSOR_MAX,
            start == *old(i),
            start <= *i,
            in_scope == (kind == BlockKind::Scope),
            in_package == (kind == BlockKind::Package),
        ensures
            spec_lines(out@) == before.push(head) + body,
        decreases spec_rest(bytes@, *i as int),
    {
        let p: usize = *i;
        let op = bytes[p];
        let ghost so_far = spec_lines(out@);
        let ghost term = spec_term_lines(bytes@, p as int, kind);
        let ghost next = spec_term_end(bytes@, p as int, kind);
        proof {
            lemma_term_advances(bytes@, p as int, kind);
        }
        if is_constant(op) {
            parse_constant(bytes, i, out);
            assert(spec_lines(out@) =~= so_far + term);
        } else if op == PACKAGE_OP {
            *i += 1;
            parse_block(bytes, i, BlockKind::Package, out);
        } else if in_package {
            let name = parse_name(bytes, i);
            emit(out, AmlItem::Path(name));
            assert(spec_lines(out@) =~= so_far + term);
        } else if op == STRING_PREFIX {
            *i += 1;
            let text = parse_string(bytes, i);
            emit(out, AmlItem::Text(text));
            assert(spec_lines(out@) =~= so_far + term);
        } else if op == NAME_OP {
            *i += 1;
            let text = parse_string(bytes, i);
            emit(out, AmlItem::Name(text));
            assert(spec_lines(out@) =~= so_far + term);
        } else if op == METHOD_OP {
            *i += 1;
            parse_method(bytes, i, out);
            assert(spec_lines(out@) =~= so_far + term);
        } else if op == BUFFER_OP {
            *i += 1;
            parse_buffer(bytes, i, out);
            assert(spec_lines(out@) =~= so_far + term);
        } else if op == SCOPE_OP && in_scope {
            *i += 1;
            parse_block(bytes, i, BlockKind::Scope, out);
        } else if op == EXT_OP_PREFIX {
            *i += 1;
            if *i < bytes.len() {
                if bytes[*i] == DEVICE_OP && in_scope {
                    *i += 1;
                    parse_block(bytes, i, BlockKind::Device, out);
                } else {
                    parse_ext(bytes, i, kind, out);
                }
            } else {
                assert(spec_lines(out@) =~= so_far + term);
            }
        } else {
            emit(out, AmlItem::Unknown(op));
            assert(spec_lines(out@) =~= so_far + term);
            break ;
        }
        proof {
            assert(spec_lines(out@) == so_far + term);
            assert(*i == next);
            let rest = spec_body_lines(bytes@, next, end as int, kind);
            assert((so_far + term) + rest =~= so_far + (term + rest));
        }
    }
    emit(out, AmlItem::End);
    proof {
        assert((before.push(head) + body).push(AmlLine::End) =~= before + (seq![head] + body
            + seq![AmlLine::End]));
    }
    *i = end;
}

/// Reads the package whose encoded length stands at the cursor.
pub fn parse_package(bytes: &[u8], i: &mut usize) -> (items: Vec<AmlItem>)
    requires
        bytes.len() <= CURSOR_MAX,
        *old(i) <= CURSOR_MAX,
    ensures
        spec_lines(items@) == spec_block_lines(bytes@, *old(i) as int, BlockKind::Package),
        *final(i) == spec_sized_end(bytes@, *old(i) as int),
{
    let mut items: Vec<AmlItem> = Vec::new();
    parse_block(bytes, i, BlockKind::Package, &mut items);
    assert(spec_lines(Seq::<AmlItem>::empty()) + spec_block_lines(
        bytes@,
        *old(i) as int,
        BlockKind::Package,
    ) =~= spec_block_lines(bytes@, *old(i) as int, BlockKind::Package));
    items
}

/// Reads the device whose encoded length stands at the cursor.
pub fn parse_device(bytes: &[u8], i: &mut usize) -> (items: Vec<AmlItem>)
    requires
        bytes.len() <= CURSOR_MAX,
        *old(i) <= CURSOR_MAX,
    ensures
        spec_lines(items@) == spec_block_lines(bytes@, *old(i) as int, BlockKind::Device),
        *final(i) == spec_sized_end(bytes@, *old(i) as int),
{
    let mut items: Vec<AmlItem> = Vec::new();
    parse_block(bytes, i, BlockKind::Device, &mut items);
    assert(spec_lines(Seq::<AmlItem>::empty()) + spec_block_lines(
        bytes@,
        *old(i) as int,
        BlockKind::Device,
    ) =~= spec_block_lines(bytes@, *old(i) as int, BlockKind::Device));
    items
}

/// Reads the scope whose encoded length stands at the cursor.
pub fn parse_scope(bytes: &[u8], i: &mut usize) -> (items: Vec<AmlItem>)
    requires
        bytes.len() <= CURSOR_MAX,
        *old(i) <= CURSOR_MAX,
    ensures
        spec_lines(items@) == spec_block_lines(bytes@, *old(i) as int, BlockKind::Scope),
        *final(i) == spec_sized_end(bytes@, *old(i) as int),
{
    let mut items: Vec<AmlItem> = Vec::new();
    parse_block(bytes, i, BlockKind::Scope, &mut items);
    assert(spec_lines(Seq::<AmlItem>::empty()) + spec_block_lines(
        bytes@,
        *old(i) as int,
        BlockKind::Scope,
    ) =~= spec_block_lines(bytes@, *old(i) as int, BlockKind::Scope));
    items
}

/// The items for the byte code from `p` on: one scope after the other, up to
/// the first operation that opens none.
pub open spec fn spec_parse_lines(bytes: Seq<u8>, p: int) -> Seq<AmlLine>
    decreases spec_rest(bytes, p),
{
    if 0 <= p < bytes.len() {
        if bytes[p] == SCOPE_OP {
            spec_block_lines(bytes, p + 1, BlockKind::Scope) + spec_parse_lines(
                bytes,
                spec_sized_end(bytes, p + 1),
            )
        } else {
            seq![AmlLine::Unknown(bytes[p])]
        }
    } else {
        Seq::empty()
    }
}

/// Reads a whole table of byte code.
pub fn parse(bytes: &[u8]) -> (items: Vec<AmlItem>)
    requires
        bytes.len() <= CURSOR_MAX,
    ensures
        spec_lines(items@) == spec_parse_lines(bytes@, 0),
{
    let mut items: Vec<AmlItem> = Vec::new();
    let mut i: usize = 0;
    assert(spec_lines(items@) + spec_parse_lines(bytes@, 0) =~= spec_parse_lines(bytes@, 0));
    while i < bytes.len()
        invariant_except_break
            spec_lines(items@) + spec_parse_lines(bytes@, i as int) == spec_parse_lines(bytes@, 0),
        invariant
            bytes.len() <= CURSOR_MAX,
        ensures
            spec_lines(items@) == spec_parse_lines(bytes@, 0),
        decreases spec_rest(bytes@, i as int),
    {
        let op = bytes[i];
        let ghost so_far = spec_lines(items@);
        let ghost p: int = i as int;
        i += 1;
        if op == SCOPE_OP {
            parse_block(bytes, &mut i, BlockKind::Scope, &mut items);
            proof {
                let block = spec_block_lines(bytes@, p + 1, BlockKind::Scope);
                let rest = spec_parse_lines(bytes@, i as int);
                assert((so_far + block) + rest =~= so_far + (block + rest));
            }
        } else {
            emit(&mut items, AmlItem::Unknown(op));
            assert(spec_lines(items@) =~= so_far + seq![AmlLine::Unknown(op)]);
            break ;
        }
    }
    proof {
        assert(spec_lines(items@) + Seq::<AmlLine>::empty() =~= spec_lines(items@));
    }
    items
}

} // verus!
