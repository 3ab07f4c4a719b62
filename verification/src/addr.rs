//! IP addresses as plain numbers, and the text that writes them.
//!
//! An IPv4 address is written as four decimal numbers joined by dots. An
//! IPv6 address is written as eight groups of hexadecimal digits joined by
//! colons, where one run of zero groups may be left out and marked by a
//! double colon, and the last two groups may be written as an IPv4 address.

use vstd::prelude::*;
use crate::text::{all_digits, lemma_split_nonempty, number, read_number, split, split_ranges};

verus! {

/// An IP address: the 32 bits of an IPv4 address or the 128 bits of an IPv6
/// address, most significant byte first.
#[derive(Clone, Copy, Debug, PartialEq, Eq, Structural)]
pub enum IpAddress {
    V4(u32),
    V6(u128),
}

/// Whether `s` writes one number of an IPv4 address: one to three decimal
/// digits, no leading zero before another digit, at most 255.
pub open spec fn is_octet_text(s: Seq<u8>) -> bool {
    &&& 1 <= s.len() <= 3
    &&& all_digits(s, 10)
    &&& (s.len() > 1 ==> s[0] != 0x30)
    &&& number(s, 10) <= 255
}

/// Whether `s` writes one group of an IPv6 address: one to four hexadecimal
/// digits.
pub open spec fn is_group_text(s: Seq<u8>) -> bool {
    &&& 1 <= s.len() <= 4
    &&& all_digits(s, 16)
}

/// The IPv4 address that `s` writes, if it writes one.
pub open spec fn ipv4_of(s: Seq<u8>) -> Option<u32> {
    let fields = split(s, 0x2e);
    if fields.len() == 4 && is_octet_text(fields[0]) && is_octet_text(fields[1]) && is_octet_text(
        fields[2],
    ) && is_octet_text(fields[3]) {
        Some(
            (number(fields[0], 10) * 0x100_0000 + number(fields[1], 10) * 0x1_0000 + number(
                fields[2],
                10,
            ) * 0x100 + number(fields[3], 10)) as u32,
        )
    } else {
        None
    }
}

/// The groups that the fields write, if each field is a group.
pub open spec fn plain_groups(fields: Seq<Seq<u8>>) -> Option<Seq<u16>> {
    if forall|k: int| 0 <= k < fields.len() ==> is_group_text(#[trigger] fields[k]) {
        Some(Seq::new(fields.len(), |k: int| number(fields[k], 16) as u16))
    } else {
        None
    }
}

/// The groups that the fields write, where the last field may be a group or
/// an IPv4 address, which stands for two groups.
pub open spec fn closing_groups(fields: Seq<Seq<u8>>) -> Option<Seq<u16>> {
    if fields.len() == 0 {
        None
    } else {
        match plain_groups(fields.drop_last()) {
            None => None,
            Some(front) => if is_group_text(fields.last()) {
                Some(front.push(number(fields.last(), 16) as u16))
            } else {
                match ipv4_of(fields.last()) {
                    Some(v4) => Some(front.push((v4 / 0x1_0000) as u16).push((v4 % 0x1_0000) as u16)),
                    None => None,
                }
            },
        }
    }
}

/// The groups that one side of a double colon writes. An empty side writes no
/// group. Only the closing side may end in an IPv4 address.
pub open spec fn side_groups(s: Seq<u8>, closing: bool) -> Option<Seq<u16>> {
    if s.len() == 0 {
        Some(Seq::<u16>::empty())
    } else if closing {
        closing_groups(split(s, 0x3a))
    } else {
        plain_groups(split(s, 0x3a))
    }
}

/// Whether a double colon starts at index `i` of `s`.
pub open spec fn gap_at(s: Seq<u8>, i: int) -> bool {
    0 <= i && i + 1 < s.len() && s[i] == 0x3a && s[i + 1] == 0x3a
}

/// Whether the first double colon of `s` starts at index `i`.
pub open spec fn first_gap_at(s: Seq<u8>, i: int) -> bool {
    gap_at(s, i) && forall|j: int| 0 <= j < i ==> !gap_at(s, j)
}

/// The 128 bits that eight groups make, first group most significant.
pub open spec fn pack(groups: Seq<u16>) -> u128
    recommends
        groups.len() == 8,
{
    (((((((groups[0] as int * 0x1_0000 + groups[1] as int) * 0x1_0000 + groups[2] as int)
        * 0x1_0000 + groups[3] as int) * 0x1_0000 + groups[4] as int) * 0x1_0000
        + groups[5] as int) * 0x1_0000 + groups[6] as int) * 0x1_0000 + groups[7] as int) as u128
}

/// The IPv6 address that `s` writes, if it writes one.
///
/// Without a double colon the text must write all eight groups. With one, the
/// text before its first occurrence and the text after it must together write
/// at most seven, and zero groups fill the place between them.
pub open spec fn ipv6_of(s: Seq<u8>) -> Option<u128> {
    if exists|i: int| first_gap_at(s, i) {
        let i = choose|i: int| first_gap_at(s, i);
        match (side_groups(s.subrange(0, i), false), side_groups(s.subrange(i + 2, s.len() as int), true)) {
            (Some(front), Some(back)) => if front.len() + back.len() <= 7 {
                Some(
                    pack(
                        front + Seq::new((8 - front.len() - back.len()) as nat, |k: int| 0u16)
                            + back,
                    ),
                )
            } else {
                None
            },
            _ => None,
        }
    } else {
        match side_groups(s, true) {
            Some(groups) => if groups.len() == 8 {
                Some(pack(groups))
            } else {
                None
            },
            None => None,
        }
    }
}

/// The address that `s` writes, if it writes one: an IPv4 address, or else an
/// IPv6 address.
pub open spec fn ip_of(s: Seq<u8>) -> Option<IpAddress> {
    match ipv4_of(s) {
        Some(bits) => Some(IpAddress::V4(bits)),
        None => match ipv6_of(s) {
            Some(bits) => Some(IpAddress::V6(bits)),
            None => None,
        },
    }
}

/// Reads `s[from..to]` as one number of an IPv4 address.
fn read_octet(s: &[u8], from: usize, to: usize) -> (r: Option<u32>)
    requires
        from <= to <= s@.len(),
    ensures
        r is Some <==> is_octet_text(s@.subrange(from as int, to as int)),
        r matches Some(v) ==> v == number(s@.subrange(from as int, to as int), 10) && v <= 255,
{
    if to - from > 1 && s[from] == 0x30 {
        proof {
            assert(s@.subrange(from as int, to as int)[0] == s@[from as int]);
        }
        return None;
    }
    proof {
        if to - from > 1 {
            assert(s@.subrange(from as int, to as int)[0] == s@[from as int]);
        }
    }
    match read_number(s, from, to, 10, 3) {
        Some(v) => if v <= 255 {
            Some(v)
        } else {
            None
        },
        None => None,
    }
}

/// Reads `s[from..to]` as an IPv4 address.
fn read_ipv4(s: &[u8], from: usize, to: usize) -> (r: Option<u32>)
    requires
        from <= to <= s@.len(),
    ensures
        r == ipv4_of(s@.subrange(from as int, to as int)),
{
    let fields = split_ranges(s, from, to, 0x2e);
    if fields.len() != 4 {
        return None;
    }
    let a = read_octet(s, fields[0].0, fields[0].1);
    let b = read_octet(s, fields[1].0, fields[1].1);
    let c = read_octet(s, fields[2].0, fields[2].1);
    let d = read_octet(s, fields[3].0, fields[3].1);
    match (a, b, c, d) {
        (Some(a), Some(b), Some(c), Some(d)) => Some(a * 0x100_0000 + b * 0x1_0000 + c * 0x100 + d),
        _ => None,
    }
}

/// The texts of the fields that `ranges` mark in `s`.
pub open spec fn field_texts(s: Seq<u8>, ranges: Seq<(usize, usize)>) -> Seq<Seq<u8>> {
    Seq::new(ranges.len(), |k: int| s.subrange(ranges[k].0 as int, ranges[k].1 as int))
}

/// Reads one side of a double colon, `s[from..to]`, as groups.
fn read_side(s: &[u8], from: usize, to: usize, closing: bool) -> (r: Option<Vec<u16>>)
    requires
        from <= to <= s@.len(),
    ensures
        match r {
            Some(groups) => side_groups(s@.subrange(from as int, to as int), closing) == Some(
                groups@,
            ),
            None => side_groups(s@.subrange(from as int, to as int), closing) is None,
        },
{
    let mut groups: Vec<u16> = Vec::new();
    if from == to {
        return Some(groups);
    }
    let ranges = split_ranges(s, from, to, 0x3a);
    let ghost fields = split(s@.subrange(from as int, to as int), 0x3a);
    proof {
        lemma_split_nonempty(s@.subrange(from as int, to as int), 0x3a);
        assert(field_texts(s@, ranges@) =~= fields);
    }
    let plain: usize = if closing {
        ranges.len() - 1
    } else {
        ranges.len()
    };
    let mut k: usize = 0;
    while k < plain
        invariant
            k <= plain <= ranges@.len(),
            ranges@.len() >= 1,
            from < to <= s@.len(),
            fields == split(s@.subrange(from as int, to as int), 0x3a),
            plain == if closing {
                ranges@.len() - 1
            } else {
                ranges@.len() as int
            },
            fields == field_texts(s@, ranges@),
            forall|j: int|
                0 <= j < ranges@.len() ==> (#[trigger] ranges@[j]).0 <= ranges@[j].1 <= s@.len(),
            groups@.len() == k,
            forall|j: int| 0 <= j < k ==> is_group_text(#[trigger] fields[j]),
            forall|j: int| 0 <= j < k ==> #[trigger] groups@[j] == number(fields[j], 16) as u16,
        decreases plain - k,
    {
        match read_number(s, ranges[k].0, ranges[k].1, 16, 4) {
            Some(v) => {
                groups.push(v as u16);
            },
            None => {
                proof {
                    assert(!is_group_text(fields[k as int]));
                    if closing {
                        assert(fields.drop_last()[k as int] == fields[k as int]);
                    }
                }
                return None;
            },
        }
        k += 1;
    }
    if closing {
        let ghost front = fields.drop_last();
        proof {
            assert forall|j: int| 0 <= j < front.len() implies is_group_text(
                #[trigger] front[j],
            ) by {
                assert(front[j] == fields[j]);
            }
            assert(groups@ =~= plain_groups(front)->0);
        }
        let last: (usize, usize) = ranges[ranges.len() - 1];
        proof {
            assert(fields.last() == s@.subrange(last.0 as int, last.1 as int));
        }
        match read_number(s, last.0, last.1, 16, 4) {
            Some(v) => {
                groups.push(v as u16);
            },
            None => match read_ipv4(s, last.0, last.1) {
                Some(v4) => {
                    groups.push((v4 / 0x1_0000) as u16);
                    groups.push((v4 % 0x1_0000) as u16);
                },
                None => {
                    return None;
                },
            },
        }
    } else {
        proof {
            assert(groups@ =~= plain_groups(fields)->0);
        }
    }
    Some(groups)
}

/// Finds the first double colon of `s`.
fn find_gap(s: &[u8]) -> (r: Option<usize>)
    ensures
        match r {
            Some(i) => first_gap_at(s@, i as int) && i + 2 <= s@.len(),
            None => forall|i: int| !gap_at(s@, i),
        },
{
    if s.len() < 2 {
        return None;
    }
    let mut i: usize = 0;
    while i < s.len() - 1
        invariant
            i + 1 <= s@.len(),
            forall|j: int| 0 <= j < i ==> !gap_at(s@, j),
        decreases s@.len() - i,
    {
        if s[i] == 0x3a && s[i + 1] == 0x3a {
            return Some(i);
        }
        i += 1;
    }
    None
}

/// Makes the 128 bits of an IPv6 address from its eight groups.
fn pack_groups(groups: &Vec<u16>) -> (bits: u128)
    requires
        groups@.len() == 8,
    ensures
        bits == pack(groups@),
{
    let a: u128 = groups[0] as u128 * 0x1_0000 + groups[1] as u128;
    let b: u128 = a * 0x1_0000 + groups[2] as u128;
    let c: u128 = b * 0x1_0000 + groups[3] as u128;
    let d: u128 = c * 0x1_0000 + groups[4] as u128;
    let e: u128 = d * 0x1_0000 + groups[5] as u128;
    let f: u128 = e * 0x1_0000 + groups[6] as u128;
    f * 0x1_0000 + groups[7] as u128
}

/// Reads `s` as an IPv6 address.
fn read_ipv6(s: &[u8]) -> (r: Option<u128>)
    ensures
        r == ipv6_of(s@),
{
    let len: usize = s.len();
    match find_gap(s) {
        Some(i) => {
            proof {
                let chosen = choose|j: int| first_gap_at(s@, j);
                assert(first_gap_at(s@, chosen));
                assert(chosen == i) by {
                    if chosen < i {
                        assert(!gap_at(s@, chosen));
                    }
                    if i < chosen {
                        assert(!gap_at(s@, i as int));
                    }
                }
            }
            let front = match read_side(s, 0, i, false) {
                Some(groups) => groups,
                None => {
                    return None;
                },
            };
            let back = match read_side(s, i + 2, len, true) {
                Some(groups) => groups,
                None => {
                    return None;
                },
            };
            if front.len() > 7 || back.len() > 7 - front.len() {
                return None;
            }
            let zeros: usize = 8 - front.len() - back.len();
            let mut groups: Vec<u16> = Vec::new();
            let mut k: usize = 0;
            while k < 8
                invariant
                    k <= 8,
                    front@.len() + zeros + back@.len() == 8,
                    groups@.len() == k,
                    forall|j: int|
                        0 <= j < k ==> #[trigger] groups@[j] == (front@ + Seq::new(
                            zeros as nat,
                            |k: int| 0u16,
                        ) + back@)[j],
                decreases 8 - k,
            {
                if k < front.len() {
                    groups.push(front[k]);
                } else if k < front.len() + zeros {
                    groups.push(0);
                } else {
                    groups.push(back[k - front.len() - zeros]);
                }
                k += 1;
            }
            proof {
                assert(groups@ =~= front@ + Seq::new(zeros as nat, |k: int| 0u16) + back@);
            }
            Some(pack_groups(&groups))
        },
        None => {
            proof {
                assert(s@.subrange(0, s@.len() as int) =~= s@);
                assert(!exists|i: int| first_gap_at(s@, i));
            }
            match read_side(s, 0, len, true) {
                Some(groups) => if groups.len() == 8 {
                    Some(pack_groups(&groups))
                } else {
                    None
                },
                None => None,
            }
        },
    }
}

impl IpAddress {
    /// Reads an address from its text. The whole text must be the address:
    /// nothing may stand before or after it.
    pub fn parse(text: &[u8]) -> (r: Option<IpAddress>)
        ensures
            r == ip_of(text@),
    {
        proof {
            assert(text@.subrange(0, text@.len() as int) =~= text@);
        }
        match read_ipv4(text, 0, text.len()) {
            Some(bits) => Some(IpAddress::V4(bits)),
            None => match read_ipv6(text) {
                Some(bits) => Some(IpAddress::V6(bits)),
                None => None,
            },
        }
    }
}

} // verus!
