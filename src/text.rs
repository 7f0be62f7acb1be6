//! Byte-level helpers: splitting on a separator and reading decimal integers
//! with the grammar of Rust's integer `FromStr` (optional sign, then digits).
use vstd::prelude::*;

verus! {

/// The pieces of `s` between occurrences of `sep`, as `str::split` yields them:
/// one more piece than there are separators, empty pieces included.
pub open spec fn split_on(s: Seq<u8>, sep: u8) -> Seq<Seq<u8>>
    decreases s.len(),
{
    if s.len() == 0 {
        seq![Seq::empty()]
    } else {
        let head = split_on(s.drop_last(), sep);
        if s.last() == sep {
            head.push(Seq::empty())
        } else {
            head.update(head.len() - 1, head.last().push(s.last()))
        }
    }
}

proof fn lemma_split_on_nonempty(s: Seq<u8>, sep: u8)
    ensures
        split_on(s, sep).len() >= 1,
    decreases s.len(),
{
    if s.len() > 0 {
        lemma_split_on_nonempty(s.drop_last(), sep);
    }
}

/// Splits `s` at every `sep` byte.
pub fn split_bytes(s: &Vec<u8>, sep: u8) -> (r: Vec<Vec<u8>>)
    ensures
        r@.map_values(|p: Vec<u8>| p@) == split_on(s@, sep),
{
    let mut done: Vec<Vec<u8>> = Vec::new();
    let mut cur: Vec<u8> = Vec::new();
    let mut i: usize = 0;
    while i < s.len()
        invariant
            i <= s@.len(),
            done@.map_values(|p: Vec<u8>| p@).push(cur@) == split_on(s@.subrange(0, i as int), sep),
        decreases s@.len() - i,
    {
        proof {
            lemma_split_on_nonempty(s@.subrange(0, i as int), sep);
            assert(s@.subrange(0, i as int + 1).drop_last() =~= s@.subrange(0, i as int));
        }
        let b = s[i];
        let ghost before = done@.map_values(|p: Vec<u8>| p@).push(cur@);
        if b == sep {
            let finished = cur;
            done.push(finished);
            cur = Vec::new();
            assert(done@.map_values(|p: Vec<u8>| p@).push(cur@) =~= before.push(Seq::empty()));
        } else {
            cur.push(b);
            assert(done@.map_values(|p: Vec<u8>| p@).push(cur@) =~= before.update(
                before.len() - 1,
                before.last().push(b),
            ));
        }
        i += 1;
    }
    done.push(cur);
    proof {
        assert(s@.subrange(0, s@.len() as int) =~= s@);
    }
    done
}

pub open spec fn is_digit(b: u8) -> bool {
    48 <= b <= 57
}

pub open spec fn all_digits(s: Seq<u8>) -> bool {
    forall|i: int| 0 <= i < s.len() ==> is_digit(#[trigger] s[i])
}

/// The number that a run of decimal digits spells, most significant first.
pub open spec fn digits_value(s: Seq<u8>) -> nat
    decreases s.len(),
{
    if s.len() == 0 {
        0
    } else {
        digits_value(s.drop_last()) * 10 + (s.last() - 48) as nat
    }
}

/// The magnitude spelt by `s` when `s` is a non-empty run of digits whose value
/// does not exceed `limit`.
pub open spec fn magnitude_within(s: Seq<u8>, limit: nat) -> Option<nat> {
    if s.len() > 0 && all_digits(s) && digits_value(s) <= limit {
        Some(digits_value(s))
    } else {
        None
    }
}

/// What `s.parse::<u32>()` gives: an optional `+`, then digits, within range.
pub open spec fn parse_u32_spec(s: Seq<u8>) -> Option<u32> {
    let d = if s.len() > 0 && s[0] == 43u8 {
        s.drop_first()
    } else {
        s
    };
    match magnitude_within(d, u32::MAX as nat) {
        Some(v) => Some(v as u32),
        None => None,
    }
}

/// What `s.parse::<i32>()` gives: an optional `+` or `-`, then digits, within range.
pub open spec fn parse_i32_spec(s: Seq<u8>) -> Option<i32> {
    if s.len() > 0 && s[0] == 45u8 {
        match magnitude_within(s.drop_first(), 0x8000_0000) {
            Some(v) => Some((-v) as i32),
            None => None,
        }
    } else {
        let d = if s.len() > 0 && s[0] == 43u8 {
            s.drop_first()
        } else {
            s
        };
        match magnitude_within(d, i32::MAX as nat) {
            Some(v) => Some(v as i32),
            None => None,
        }
    }
}

proof fn lemma_prefix_value_le(s: Seq<u8>, k: int)
    requires
        all_digits(s),
        0 <= k <= s.len(),
    ensures
        digits_value(s.subrange(0, k)) <= digits_value(s),
    decreases s.len(),
{
    if k < s.len() {
        let t = s.drop_last();
        assert(t.subrange(0, k) =~= s.subrange(0, k));
        lemma_prefix_value_le(t, k);
    } else {
        assert(s.subrange(0, k) =~= s);
    }
}

/// Reads the digits of `s` from `start` to its end.
fn read_magnitude(s: &Vec<u8>, start: usize, limit: u64) -> (r: Option<u64>)
    requires
        start <= s@.len(),
        limit <= 0x1_0000_0000,
    ensures
        r == (match magnitude_within(s@.subrange(start as int, s@.len() as int), limit as nat) {
            Some(v) => Some(v as u64),
            None => None::<u64>,
        }),
{
    if start == s.len() {
        return None;
    }
    let ghost whole = s@.subrange(start as int, s@.len() as int);
    let mut acc: u64 = 0;
    let mut i: usize = start;
    while i < s.len()
        invariant
            start <= i <= s@.len(),
            whole == s@.subrange(start as int, s@.len() as int),
            limit <= 0x1_0000_0000,
            all_digits(s@.subrange(start as int, i as int)),
            acc as nat == digits_value(s@.subrange(start as int, i as int)),
            acc <= limit,
        decreases s@.len() - i,
    {
        let b = s[i];
        if b < 48 || b > 57 {
            assert(whole[i - start] == b);
            return None;
        }
        let next: u64 = acc * 10 + (b - 48) as u64;
        assert(s@.subrange(start as int, i + 1).drop_last() =~= s@.subrange(start as int, i as int));
        if next > limit {
            proof {
                if all_digits(whole) {
                    assert(whole.subrange(0, i + 1 - start) =~= s@.subrange(start as int, i + 1));
                    lemma_prefix_value_le(whole, i + 1 - start);
                }
            }
            return None;
        }
        acc = next;
        i += 1;
    }
    Some(acc)
}

/// Parses `s` as `str::parse::<u32>` does.
pub fn parse_u32(s: &Vec<u8>) -> (r: Option<u32>)
    ensures
        r == parse_u32_spec(s@),
{
    let start: usize = if s.len() > 0 && s[0] == 43u8 {
        1
    } else {
        0
    };
    assert(s@.subrange(start as int, s@.len() as int) =~= (if s@.len() > 0 && s@[0] == 43u8 {
        s@.drop_first()
    } else {
        s@
    }));
    match read_magnitude(s, start, 0xffff_ffff) {
        Some(v) => Some(v as u32),
        None => None,
    }
}

/// Parses `s` as `str::parse::<i32>` does.
pub fn parse_i32(s: &Vec<u8>) -> (r: Option<i32>)
    ensures
        r == parse_i32_spec(s@),
{
    if s.len() > 0 && s[0] == 45u8 {
        assert(s@.subrange(1, s@.len() as int) =~= s@.drop_first());
        match read_magnitude(s, 1, 0x8000_0000) {
            Some(v) => Some((0i64 - v as i64) as i32),
            None => None,
        }
    } else {
        let start: usize = if s.len() > 0 && s[0] == 43u8 {
            1
        } else {
            0
        };
        assert(s@.subrange(start as int, s@.len() as int) =~= (if s@.len() > 0 && s@[0] == 43u8 {
            s@.drop_first()
        } else {
            s@
        }));
        match read_magnitude(s, start, 0x7fff_ffff) {
            Some(v) => Some(v as i32),
            None => None,
        }
    }
}

} // verus!
