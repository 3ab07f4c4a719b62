//! Text as bytes: fields between separators, and numbers written in digits.

use vstd::prelude::*;

verus! {

/// The fields of `s` between occurrences of `sep`, in order. A text without
/// `sep` is one field; two neighbouring separators enclose an empty field, and
/// so do a separator and either end of the text.
pub open spec fn split(s: Seq<u8>, sep: u8) -> Seq<Seq<u8>>
    decreases s.len(),
{
    if s.len() == 0 {
        seq![Seq::<u8>::empty()]
    } else {
        let before = split(s.drop_last(), sep);
        if s.last() == sep {
            before.push(Seq::<u8>::empty())
        } else {
            before.drop_last().push(before.last().push(s.last()))
        }
    }
}

/// The fields of `s` put together again, with `sep` between them.
pub open spec fn join(fields: Seq<Seq<u8>>, sep: u8) -> Seq<u8>
    decreases fields.len(),
{
    if fields.len() == 0 {
        Seq::<u8>::empty()
    } else if fields.len() == 1 {
        fields[0]
    } else {
        join(fields.drop_last(), sep).push(sep) + fields.last()
    }
}

/// The value of a digit in base sixteen: `0`-`9`, `a`-`f` and `A`-`F`.
pub open spec fn digit_value(c: u8) -> Option<int> {
    if 0x30 <= c <= 0x39 {
        Some(c - 0x30)
    } else if 0x61 <= c <= 0x66 {
        Some(c - 0x61 + 10)
    } else if 0x41 <= c <= 0x46 {
        Some(c - 0x41 + 10)
    } else {
        None
    }
}

/// Whether `c` is a digit of the given base (ten or sixteen).
pub open spec fn is_digit(c: u8, radix: int) -> bool {
    match digit_value(c) {
        Some(v) => v < radix,
        None => false,
    }
}

/// Whether every byte of `s` is a digit of the given base.
pub open spec fn all_digits(s: Seq<u8>, radix: int) -> bool {
    forall|i: int| 0 <= i < s.len() ==> is_digit(#[trigger] s[i], radix)
}

/// The number that the digits of `s` write in the given base, most
/// significant digit first.
pub open spec fn number(s: Seq<u8>, radix: int) -> int
    decreases s.len(),
{
    if s.len() == 0 {
        0
    } else {
        number(s.drop_last(), radix) * radix + digit_value(s.last()).unwrap_or(0)
    }
}

/// A text always has at least one field.
pub proof fn lemma_split_nonempty(s: Seq<u8>, sep: u8)
    ensures
        split(s, sep).len() >= 1,
    decreases s.len(),
{
    if s.len() > 0 {
        lemma_split_nonempty(s.drop_last(), sep);
    }
}

/// No field holds the separator, and the fields joined by the separator are
/// the text again: `split` loses nothing and invents nothing.
pub proof fn lemma_split_join(s: Seq<u8>, sep: u8)
    ensures
        join(split(s, sep), sep) == s,
        forall|k: int, i: int|
            0 <= k < split(s, sep).len() && 0 <= i < split(s, sep)[k].len() ==> #[trigger] split(
                s,
                sep,
            )[k][i] != sep,
    decreases s.len(),
{
    if s.len() == 0 {
        assert(join(split(s, sep), sep) =~= s);
    } else {
        let before = split(s.drop_last(), sep);
        lemma_split_nonempty(s.drop_last(), sep);
        lemma_split_join(s.drop_last(), sep);
        let now = split(s, sep);
        if s.last() == sep {
            assert(now.drop_last() =~= before);
            assert(join(now, sep) =~= s.drop_last().push(sep));
            assert(s.drop_last().push(sep) =~= s);
        } else {
            let grown = before.last().push(s.last());
            assert(now.last() == grown);
            if before.len() == 1 {
                assert(join(before, sep) == before[0]);
                assert(join(now, sep) =~= s.drop_last().push(s.last()));
            } else {
                assert(now.drop_last() =~= before.drop_last());
                assert(join(now, sep) =~= (join(before.drop_last(), sep).push(sep)
                    + before.last()).push(s.last()));
            }
            assert(s.drop_last().push(s.last()) =~= s);
        }
    }
}

/// Finds the fields of `s[from..to]` between occurrences of `sep`. Each field
/// is given by the index of its first byte and the index after its last.
pub fn split_ranges(s: &[u8], from: usize, to: usize, sep: u8) -> (fields: Vec<(usize, usize)>)
    requires
        from <= to <= s@.len(),
    ensures
        fields@.len() == split(s@.subrange(from as int, to as int), sep).len(),
        forall|k: int|
            0 <= k < fields@.len() ==> {
                &&& from <= (#[trigger] fields@[k]).0 <= fields@[k].1 <= to
                &&& s@.subrange(fields@[k].0 as int, fields@[k].1 as int) == split(
                    s@.subrange(from as int, to as int),
                    sep,
                )[k]
            },
{
    let mut fields: Vec<(usize, usize)> = Vec::new();
    let mut start: usize = from;
    let mut i: usize = from;
    proof {
        assert(s@.subrange(from as int, from as int) =~= Seq::<u8>::empty());
    }
    while i < to
        invariant
            from <= start <= i <= to <= s@.len(),
            fields@.len() + 1 == split(s@.subrange(from as int, i as int), sep).len(),
            s@.subrange(start as int, i as int) == split(
                s@.subrange(from as int, i as int),
                sep,
            ).last(),
            forall|k: int|
                0 <= k < fields@.len() ==> {
                    &&& from <= (#[trigger] fields@[k]).0 <= fields@[k].1 <= i
                    &&& s@.subrange(fields@[k].0 as int, fields@[k].1 as int) == split(
                        s@.subrange(from as int, i as int),
                        sep,
                    )[k]
                },
        decreases to - i,
    {
        let ghost seen = s@.subrange(from as int, i as int);
        let ghost next = s@.subrange(from as int, i + 1);
        proof {
            assert(next.drop_last() =~= seen);
            assert(next.last() == s@[i as int]);
            lemma_split_nonempty(seen, sep);
        }
        if s[i] == sep {
            fields.push((start, i));
            start = i + 1;
            proof {
                assert(s@.subrange(start as int, i + 1) =~= Seq::<u8>::empty());
            }
        } else {
            proof {
                assert(s@.subrange(start as int, i + 1) =~= s@.subrange(
                    start as int,
                    i as int,
                ).push(s@[i as int]));
            }
        }
        i += 1;
    }
    fields.push((start, to));
    fields
}

/// The value of one digit, if the byte is a digit of base sixteen.
pub(crate) fn digit_of(c: u8) -> (r: Option<u32>)
    ensures
        match r {
            Some(v) => digit_value(c) == Some(v as int),
            None => digit_value(c) is None,
        },
{
    if 0x30 <= c && c <= 0x39 {
        Some((c - 0x30) as u32)
    } else if 0x61 <= c && c <= 0x66 {
        Some((c - 0x61) as u32 + 10)
    } else if 0x41 <= c && c <= 0x46 {
        Some((c - 0x41) as u32 + 10)
    } else {
        None
    }
}

/// Reads `s[from..to]` as a number of one to `max` digits in base ten or
/// sixteen. Any other byte, no digit at all or a digit too many gives `None`.
pub(crate) fn read_number(s: &[u8], from: usize, to: usize, radix: u32, max: usize) -> (r: Option<u32>)
    requires
        from <= to <= s@.len(),
        radix == 10 || radix == 16,
        max <= 4,
    ensures
        r is Some <==> 1 <= to - from <= max && all_digits(
            s@.subrange(from as int, to as int),
            radix as int,
        ),
        r matches Some(v) ==> v == number(s@.subrange(from as int, to as int), radix as int),
        r matches Some(v) ==> v < 65536,
{
    if to - from < 1 || to - from > max {
        return None;
    }
    let ghost whole = s@.subrange(from as int, to as int);
    let mut acc: u32 = 0;
    let mut i: usize = from;
    proof {
        assert(s@.subrange(from as int, from as int) =~= Seq::<u8>::empty());
    }
    while i < to
        invariant
            from <= i <= to <= s@.len(),
            to - from <= 4,
            radix == 10 || radix == 16,
            whole == s@.subrange(from as int, to as int),
            acc == number(s@.subrange(from as int, i as int), radix as int),
            all_digits(s@.subrange(from as int, i as int), radix as int),
            i - from == 0 ==> acc == 0,
            i - from == 1 ==> acc < 16,
            i - from == 2 ==> acc < 256,
            i - from == 3 ==> acc < 4096,
            i - from == 4 ==> acc < 65536,
        decreases to - i,
    {
        let ghost seen = s@.subrange(from as int, i as int);
        let ghost next = s@.subrange(from as int, i + 1);
        proof {
            assert(next.drop_last() =~= seen);
            assert(next.last() == s@[i as int]);
            assert(whole[i - from] == s@[i as int]);
        }
        match digit_of(s[i]) {
            Some(d) => {
                if d >= radix {
                    proof {
                        assert(!is_digit(whole[i - from], radix as int));
                    }
                    return None;
                }
                acc = acc * radix + d;
                proof {
                    assert forall|j: int| 0 <= j < next.len() implies is_digit(
                        #[trigger] next[j],
                        radix as int,
                    ) by {
                        if j < seen.len() {
                            assert(next[j] == seen[j]);
                        }
                    }
                }
            },
            None => {
                proof {
                    assert(!is_digit(whole[i - from], radix as int));
                }
                return None;
            },
        }
        i += 1;
    }
    Some(acc)
}

/// Digits written after a decimal number never make it smaller: the number
/// of a text is at least the number of each of its beginnings.
pub proof fn lemma_decimal_prefix(s: Seq<u8>, k: int)
    requires
        0 <= k <= s.len(),
    ensures
        0 <= number(s.subrange(0, k), 10) <= number(s, 10),
    decreases s.len(),
{
    if k == s.len() {
        assert(s.subrange(0, k) =~= s);
        if s.len() > 0 {
            lemma_decimal_prefix(s.drop_last(), s.len() - 1);
            assert(s.drop_last().subrange(0, s.len() - 1) =~= s.drop_last());
        }
    } else {
        lemma_decimal_prefix(s.drop_last(), k);
        assert(s.drop_last().subrange(0, k) =~= s.subrange(0, k));
    }
}

/// Reads the whole of `s` as a decimal number of any length that fits in 64
/// bits. Any other byte, no digit at all or a number too large gives `None`.
pub fn read_decimal(s: &[u8]) -> (r: Option<u64>)
    ensures
        r is Some <==> s@.len() >= 1 && all_digits(s@, 10) && number(s@, 10) <= u64::MAX,
        r matches Some(v) ==> v == number(s@, 10),
{
    if s.len() == 0 {
        return None;
    }
    let mut acc: u64 = 0;
    let mut i: usize = 0;
    proof {
        assert(s@.subrange(0, 0) =~= Seq::<u8>::empty());
    }
    while i < s.len()
        invariant
            i <= s@.len(),
            acc == number(s@.subrange(0, i as int), 10),
            all_digits(s@.subrange(0, i as int), 10),
        decreases s@.len() - i,
    {
        let ghost seen = s@.subrange(0, i as int);
        let ghost next = s@.subrange(0, i + 1);
        proof {
            assert(next.drop_last() =~= seen);
            assert(next.last() == s@[i as int]);
            lemma_decimal_prefix(s@, i + 1);
        }
        let d: u64 = match digit_of(s[i]) {
            Some(d) => if d < 10 {
                d as u64
            } else {
                proof {
                    assert(!is_digit(s@[i as int], 10));
                }
                return None;
            },
            None => {
                proof {
                    assert(!is_digit(s@[i as int], 10));
                }
                return None;
            },
        };
        let grown: u64 = match acc.checked_mul(10) {
            Some(tens) => match tens.checked_add(d) {
                Some(sum) => sum,
                None => {
                    return None;
                },
            },
            None => {
                return None;
            },
        };
        acc = grown;
        proof {
            assert forall|j: int| 0 <= j < next.len() implies is_digit(#[trigger] next[j], 10) by {
                if j < seen.len() {
                    assert(next[j] == seen[j]);
                }
            }
        }
        i += 1;
    }
    proof {
        assert(s@.subrange(0, s@.len() as int) =~= s@);
    }
    Some(acc)
}

} // verus!
