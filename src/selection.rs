//! Reading task ids back out of the lines with which tasks were offered for
//! selection (`ID:<id>` on the first line of each).

use crate::date::{digit_value, is_digit};
use vstd::prelude::*;
use vstd::string::*;

verus! {

/// The decimal digits of `s`, in order.
pub open spec fn digits_in(s: Seq<char>) -> Seq<char>
    decreases s.len(),
{
    if s.len() == 0 {
        s
    } else if is_digit(s.last()) {
        digits_in(s.drop_last()).push(s.last())
    } else {
        digits_in(s.drop_last())
    }
}

/// The number of characters of `s` before its first line break.
pub open spec fn head_len(s: Seq<char>) -> nat
    decreases s.len(),
{
    if s.len() == 0 {
        0
    } else if s[0] == '\n' {
        0
    } else {
        1 + head_len(s.drop_first())
    }
}

/// The number that a sequence of decimal digits writes.
pub open spec fn decimal_value(d: Seq<char>) -> nat
    decreases d.len(),
{
    if d.len() == 0 {
        0
    } else {
        decimal_value(d.drop_last()) * 10 + digit_value(d.last()) as nat
    }
}

/// The digits that stand in the first line of `line`.
pub open spec fn id_digits(line: Seq<char>) -> Seq<char> {
    digits_in(line.take(head_len(line) as int))
}

/// The id that `line` names: the number written by all the digits of its first
/// line, where there is at least one and the number fits a `u32`.
pub open spec fn line_id(line: Seq<char>) -> Option<u32> {
    let d = id_digits(line);
    if d.len() > 0 && decimal_value(d) <= u32::MAX {
        Some(decimal_value(d) as u32)
    } else {
        None
    }
}

proof fn lemma_head_len(s: Seq<char>, i: int)
    requires
        0 <= i <= s.len(),
        forall|j: int| 0 <= j < i ==> s[j] != '\n',
        i == s.len() || s[i] == '\n',
    ensures
        head_len(s) == i,
    decreases i,
{
    if i > 0 {
        lemma_head_len(s.drop_first(), i - 1);
    }
}

/// The id named by one selection line, as `line_id` says.
pub fn line_id_of(line: &str) -> (r: Option<u32>)
    ensures
        r == line_id(line@),
{
    let n = line.unicode_len();
    let ghost s = line@;
    let mut value: u64 = 0;
    let mut any = false;
    let mut over = false;
    let mut i: usize = 0;
    while i < n
        invariant
            n == s.len(),
            s == line@,
            i <= n,
            forall|j: int| 0 <= j < i ==> s[j] != '\n',
            any == (digits_in(s.take(i as int)).len() > 0),
            !over ==> value == decimal_value(digits_in(s.take(i as int))),
            !over ==> value <= u32::MAX,
            over ==> decimal_value(digits_in(s.take(i as int))) > u32::MAX,
        ensures
            i <= n,
            i == n || s[i as int] == '\n',
        decreases n - i,
    {
        let c = line.get_char(i);
        if c == '\n' {
            break;
        }
        let ghost prev = digits_in(s.take(i as int));
        assert(s.take(i + 1).drop_last() =~= s.take(i as int));
        if '0' <= c && c <= '9' {
            assert(prev.push(c).drop_last() =~= prev);
            any = true;
            if !over {
                let next = value * 10 + ((c as u32) - ('0' as u32)) as u64;
                if next > u32::MAX as u64 {
                    over = true;
                } else {
                    value = next;
                }
            }
        }
        i += 1;
    }
    proof {
        lemma_head_len(s, i as int);
    }
    if any && !over {
        Some(value as u32)
    } else {
        None
    }
}

} // verus!
