//! The list of child process ids, as the process table prints it: decimal
//! numbers separated by white space.

use vstd::prelude::*;

verus! {

/// Longest text that is still read as a list of children.
pub const CHILDREN_TEXT_LIMIT: usize = 65536;

/// ASCII white space: space, tab, line feed, vertical tab, form feed, carriage return.
pub open spec fn is_space(b: u8) -> bool {
    b == 0x20 || (0x09 <= b && b <= 0x0d)
}

pub open spec fn is_digit(b: u8) -> bool {
    0x30 <= b && b <= 0x39
}

pub open spec fn all_digits(field: Seq<u8>) -> bool {
    forall|k: int| 0 <= k < field.len() ==> is_digit(#[trigger] field[k])
}

/// The number that a run of decimal digits spells.
pub open spec fn decimal(field: Seq<u8>) -> int
    decreases field.len(),
{
    if field.len() == 0 {
        0
    } else {
        decimal(field.drop_last()) * 10 + (field.last() as int - 0x30)
    }
}

/// The process id that one field spells: digits only, and no more than fits
/// in 32 bits.
pub open spec fn pid_of(field: Seq<u8>) -> Option<u32> {
    if all_digits(field) && decimal(field) <= u32::MAX {
        Some(decimal(field) as u32)
    } else {
        None
    }
}

/// Length of the field at the start of `text`: the bytes before the first
/// white space.
pub open spec fn run_len(text: Seq<u8>) -> int
    decreases text.len(),
{
    if text.len() == 0 || is_space(text[0]) {
        0
    } else {
        1 + run_len(text.skip(1))
    }
}

/// The process ids that `text` lists, in order; `None` if one of its fields
/// is not a process id.
pub open spec fn parse_list(text: Seq<u8>) -> Option<Seq<u32>>
    decreases text.len(),
{
    if text.len() == 0 {
        Some(Seq::empty())
    } else if is_space(text[0]) {
        parse_list(text.skip(1))
    } else {
        let n = run_len(text);
        if 0 < n <= text.len() {
            match (pid_of(text.take(n)), parse_list(text.skip(n))) {
                (Some(pid), Some(rest)) => Some(seq![pid] + rest),
                _ => None,
            }
        } else {
            None
        }
    }
}

/// What a children list says: nothing if it is over the size limit or
/// malformed, else its process ids.
pub open spec fn children_of(text: Seq<u8>) -> Option<Seq<u32>> {
    if text.len() > CHILDREN_TEXT_LIMIT {
        None
    } else {
        parse_list(text)
    }
}

/// `ids` followed by what the rest of the text lists.
pub open spec fn followed_by(ids: Seq<u32>, rest: Option<Seq<u32>>) -> Option<Seq<u32>> {
    match rest {
        Some(more) => Some(ids + more),
        None => None,
    }
}

/// A run of `n` bytes without white space, ended by white space or by the end
/// of the text, is the first field.
proof fn lemma_run_len(text: Seq<u8>, n: int)
    requires
        0 <= n <= text.len(),
        forall|k: int| 0 <= k < n ==> !is_space(#[trigger] text[k]),
        n == text.len() || is_space(text[n]),
    ensures
        run_len(text) == n,
    decreases n,
{
    if n > 0 {
        let tail = text.skip(1);
        assert forall|k: int| 0 <= k < n - 1 implies !is_space(#[trigger] tail[k]) by {
            assert(tail[k] == text[k + 1]);
        }
        lemma_run_len(tail, n - 1);
    }
}

/// Further digits never make the number smaller.
proof fn lemma_decimal_grows(field: Seq<u8>, n: int)
    requires
        0 <= n <= field.len(),
        all_digits(field),
    ensures
        0 <= decimal(field.take(n)) <= decimal(field),
    decreases field.len(),
{
    if field.len() == 0 {
        assert(field.take(n) =~= field);
    } else if n == field.len() {
        assert(field.take(n) =~= field);
        lemma_decimal_grows(field.drop_last(), n - 1);
        assert(is_digit(field[field.len() - 1]));
    } else {
        lemma_decimal_grows(field.drop_last(), n);
        assert(field.drop_last().take(n) =~= field.take(n));
        assert(is_digit(field[field.len() - 1]));
    }
}

/// Whether a byte is white space.
fn space(b: u8) -> (yes: bool)
    ensures
        yes == is_space(b),
{
    b == 0x20 || (0x09 <= b && b <= 0x0d)
}

/// Reads the process id spelled by `text[from..to]`.
fn parse_pid(text: &[u8], from: usize, to: usize) -> (pid: Option<u32>)
    requires
        from <= to <= text@.len(),
    ensures
        pid == pid_of(text@.subrange(from as int, to as int)),
{
    let ghost field = text@.subrange(from as int, to as int);
    let mut value: u64 = 0;
    let mut k: usize = from;
    while k < to
        invariant
            from <= k <= to <= text@.len(),
            field == text@.subrange(from as int, to as int),
            forall|m: int| 0 <= m < k - from ==> is_digit(#[trigger] field[m]),
            value == decimal(field.take(k - from)),
            value <= u32::MAX,
        decreases to - k,
    {
        let b = text[k];
        assert(field[k - from] == b);
        if b < 0x30 || b > 0x39 {
            return None;
        }
        let next: u64 = value * 10 + (b - 0x30) as u64;
        proof {
            let longer = field.take(k - from + 1);
            assert(longer.drop_last() =~= field.take(k - from));
            assert(longer.last() == b);
            assert(decimal(longer) == next);
            if all_digits(field) {
                lemma_decimal_grows(field, k - from + 1);
            }
        }
        if next > 0xffff_ffff {
            return None;
        }
        value = next;
        k += 1;
    }
    proof {
        assert(field.take(to - from) =~= field);
    }
    Some(value as u32)
}

/// Reads a process's list of children. A text over [`CHILDREN_TEXT_LIMIT`]
/// bytes, or with a field that is not a decimal number of at most 32 bits,
/// is refused as a whole.
pub fn parse_children(text: &[u8]) -> (children: Option<Vec<u32>>)
    ensures
        match children {
            Some(ids) => children_of(text@) == Some(ids@),
            None => children_of(text@) is None,
        },
{
    if text.len() > CHILDREN_TEXT_LIMIT {
        return None;
    }
    let mut ids: Vec<u32> = Vec::new();
    let mut i: usize = 0;
    proof {
        assert(text@.skip(0) =~= text@);
        assert(ids@ + parse_list(text@)->0 =~= parse_list(text@)->0);
    }
    while i < text.len()
        invariant
            i <= text@.len(),
            parse_list(text@) == followed_by(ids@, parse_list(text@.skip(i as int))),
        decreases text@.len() - i,
    {
        let ghost rest = text@.skip(i as int);
        let b = text[i];
        if space(b) {
            proof {
                assert(rest[0] == b);
                assert(rest.skip(1) =~= text@.skip(i + 1));
            }
            i += 1;
        } else {
            let mut j: usize = i + 1;
            while j < text.len() && !space(text[j])
                invariant
                    i < j <= text@.len(),
                    forall|k: int| i <= k < j ==> !is_space(#[trigger] text@[k]),
                decreases text@.len() - j,
            {
                j += 1;
            }
            proof {
                assert forall|k: int| 0 <= k < j - i implies !is_space(#[trigger] rest[k]) by {
                    assert(rest[k] == text@[i + k]);
                }
                if j < text@.len() {
                    assert(rest[j - i] == text@[j as int]);
                }
                lemma_run_len(rest, j - i);
                assert(rest.take(j - i) =~= text@.subrange(i as int, j as int));
                assert(rest.skip(j - i) =~= text@.skip(j as int));
                assert(rest[0] == b);
            }
            match parse_pid(text, i, j) {
                None => {
                    return None;
                },
                Some(pid) => {
                    proof {
                        let tail = parse_list(text@.skip(j as int));
                        if tail is Some {
                            assert(ids@ + (seq![pid] + tail->0) =~= ids@.push(pid) + tail->0);
                        }
                    }
                    ids.push(pid);
                    i = j;
                },
            }
        }
    }
    proof {
        assert(text@.skip(i as int).len() == 0);
        assert(ids@ + Seq::<u32>::empty() =~= ids@);
    }
    Some(ids)
}

} // verus!
