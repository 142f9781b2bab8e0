use vstd::prelude::*;

verus! {

/// The ASCII decimal digits of `n`, most significant first, without
/// leading zeros.
pub open spec fn digits_of(n: nat) -> Seq<u8>
    decreases n,
{
    if n < 10 {
        seq![(n + 48) as u8]
    } else {
        digits_of(n / 10).push((n % 10 + 48) as u8)
    }
}

pub open spec fn is_digit(b: u8) -> bool {
    48 <= b <= 57
}

pub open spec fn all_digits(s: Seq<u8>) -> bool {
    forall|i: int| 0 <= i < s.len() ==> is_digit(#[trigger] s[i])
}

/// The number that a sequence of ASCII digits stands for.
pub open spec fn digits_value(s: Seq<u8>) -> nat
    decreases s.len(),
{
    if s.len() == 0 {
        0
    } else {
        digits_value(s.drop_last()) * 10 + (s.last() - 48) as nat
    }
}

/// What is left of a field once an optional leading `+` is taken off.
pub open spec fn unsigned_part(s: Seq<u8>) -> Seq<u8> {
    if s.len() > 0 && s[0] == 43 {
        s.drop_first()
    } else {
        s
    }
}

/// The value of a decimal field of an unsigned integer type whose values
/// lie below `bound`: an optional `+` and at least one digit, nothing else.
pub open spec fn field_value(s: Seq<u8>, bound: nat) -> Option<nat> {
    let d = unsigned_part(s);
    if d.len() > 0 && all_digits(d) && digits_value(d) < bound {
        Some(digits_value(d))
    } else {
        None
    }
}

pub proof fn lemma_digits_of(n: nat)
    ensures
        digits_of(n).len() > 0,
        all_digits(digits_of(n)),
        digits_value(digits_of(n)) == n,
    decreases n,
{
    if n < 10 {
        assert(digits_of(n).drop_last() == Seq::<u8>::empty());
        assert(digits_value(digits_of(n)) == digits_value(Seq::<u8>::empty()) * 10 + n);
    } else {
        lemma_digits_of(n / 10);
        let s = digits_of(n);
        let p = digits_of(n / 10);
        assert(s.drop_last() == p);
        assert(s.last() == (n % 10 + 48) as u8);
        assert(digits_value(s) == digits_value(p) * 10 + n % 10);
        assert((n / 10) * 10 + n % 10 == n);
        assert forall|i: int| 0 <= i < s.len() implies is_digit(#[trigger] s[i]) by {
            if i < p.len() {
                assert(s[i] == p[i]);
            }
        }
    }
}

proof fn lemma_value_grows(s: Seq<u8>, i: int)
    requires
        0 <= i <= s.len(),
        all_digits(s),
    ensures
        digits_value(s.subrange(0, i)) <= digits_value(s),
    decreases s.len() - i,
{
    if i < s.len() {
        lemma_value_grows(s, i + 1);
        assert(s.subrange(0, i + 1).drop_last() == s.subrange(0, i));
    } else {
        assert(s.subrange(0, i) == s);
    }
}

/// Appends the decimal digits of `n` to `out`.
pub fn push_decimal(n: u128, out: &mut Vec<u8>)
    ensures
        final(out)@ == old(out)@ + digits_of(n as nat),
    decreases n,
{
    if n >= 10 {
        push_decimal(n / 10, out);
    }
    out.push((n % 10) as u8 + 48);
    assert(final(out)@ == old(out)@ + digits_of(n as nat));
}

/// Reads the field `s[start..end]` as an unsigned decimal below `bound`.
pub fn parse_field(s: &[u8], start: usize, end: usize, bound: u128) -> (r: Option<u128>)
    requires
        start <= end <= s@.len(),
        0 < bound <= 0x1_0000_0000_0000_0000,
    ensures
        match field_value(s@.subrange(start as int, end as int), bound as nat) {
            Some(v) => r == Some(v as u128),
            None => r is None,
        },
{
    let ghost f = s@.subrange(start as int, end as int);
    let mut i: usize = start;
    if i < end && s[i] == 43 {
        i = i + 1;
    }
    let ghost d = unsigned_part(f);
    assert(d == s@.subrange(i as int, end as int));
    if i == end {
        return None;
    }
    let first: usize = i;
    let mut acc: u128 = 0;
    while i < end
        invariant
            first <= i <= end <= s@.len(),
            d == s@.subrange(first as int, end as int),
            f == s@.subrange(start as int, end as int),
            d == unsigned_part(f),
            d.len() > 0,
            0 < bound <= 0x1_0000_0000_0000_0000,
            all_digits(s@.subrange(first as int, i as int)),
            acc as nat == digits_value(s@.subrange(first as int, i as int)),
            acc < bound,
        decreases end - i,
    {
        let b = s[i];
        assert(s@.subrange(first as int, i + 1).drop_last() == s@.subrange(first as int, i as int));
        if b < 48 || b > 57 {
            assert(d[i - first] == b);
            assert(!is_digit(d[i - first]));
            assert(!all_digits(d));
            assert(field_value(f, bound as nat) is None);
            return None;
        }
        let next: u128 = acc * 10 + (b - 48) as u128;
        if next >= bound {
            proof {
                assert(d.subrange(0, i + 1 - first) == s@.subrange(first as int, i + 1));
                let p = s@.subrange(first as int, i + 1);
                assert(p.last() == b);
                assert(digits_value(p) == next);
                if all_digits(d) {
                    lemma_value_grows(d, i + 1 - first);
                }
                assert(field_value(f, bound as nat) is None);
            }
            return None;
        }
        acc = next;
        i = i + 1;
    }
    assert(s@.subrange(first as int, i as int) == d);
    Some(acc)
}

} // verus!
