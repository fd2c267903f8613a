//! The compute core of the CLI client: an unregister target is either
//! a 1-based index into the listed services or a plain address, and an
//! index must be resolved against a snapshot of the service list.

use vstd::prelude::*;
use vstd::string::*;

use crate::models::ProxyServerInfo;

verus! {

/// A decimal digit.
pub open spec fn is_digit_char(c: char) -> bool {
    48 <= c as u32 <= 57
}

/// The value of a digit, zero for any other character.
pub open spec fn digit_val(c: char) -> nat {
    if is_digit_char(c) {
        (c as u32 - 48) as nat
    } else {
        0
    }
}

/// Whether the string is a plain decimal number: non-empty, digits only.
pub open spec fn all_digits(s: Seq<char>) -> bool {
    s.len() > 0 && forall|i: int| 0 <= i < s.len() ==> is_digit_char(#[trigger] s[i])
}

/// The numeric value of a digit string.
pub open spec fn dec_value(s: Seq<char>) -> nat
    decreases s.len(),
{
    if s.len() == 0 {
        0
    } else {
        dec_value(s.drop_last()) * 10 + digit_val(s.last())
    }
}

/// Whether the string is taken as an index: digits whose value fits the
/// machine word.
pub open spec fn index_form(s: Seq<char>) -> bool {
    all_digits(s) && dec_value(s) <= usize::MAX
}

proof fn lemma_dec_value_prefix(s: Seq<char>, k: int)
    requires
        0 <= k <= s.len(),
    ensures
        dec_value(s.take(k)) <= dec_value(s),
    decreases s.len() - k,
{
    if k == s.len() {
        assert(s.take(k) =~= s);
    } else {
        lemma_dec_value_prefix(s, k + 1);
        let t = s.take(k + 1);
        assert(t.drop_last() =~= s.take(k));
        assert(t.last() == s[k]);
        assert(dec_value(s.take(k)) * 10 >= dec_value(s.take(k)));
    }
}

/// Parses a plain decimal string: exactly the strings of digits whose
/// value fits the machine word.
pub fn parse_index(s: &str) -> (r: Option<usize>)
    ensures
        (r is Some <==> index_form(s@)),
        r matches Some(v) ==> v == dec_value(s@),
{
    let n: usize = s.unicode_len();
    if n == 0 {
        return None;
    }
    let mut acc: usize = 0;
    let mut i: usize = 0;
    while i < n
        invariant
            n == s@.len(),
            n > 0,
            0 <= i <= n,
            forall|j: int| 0 <= j < i ==> is_digit_char(#[trigger] s@[j]),
            acc == dec_value(s@.take(i as int)),
        decreases n - i,
    {
        let c = s.get_char(i);
        let u: u32 = c as u32;
        if u < 48 || u > 57 {
            proof {
                assert(!is_digit_char(s@[i as int]));
            }
            return None;
        }
        let d: usize = (u - 48) as usize;
        proof {
            assert(s@.take(i as int + 1).drop_last() =~= s@.take(i as int));
            assert(s@.take(i as int + 1).last() == s@[i as int]);
            assert(digit_val(s@[i as int]) == d as nat);
        }
        match acc.checked_mul(10) {
            None => {
                proof {
                    lemma_dec_value_prefix(s@, i as int + 1);
                }
                return None;
            },
            Some(x) => match x.checked_add(d) {
                None => {
                    proof {
                        lemma_dec_value_prefix(s@, i as int + 1);
                    }
                    return None;
                },
                Some(y) => {
                    acc = y;
                },
            },
        }
        i = i + 1;
    }
    proof {
        assert(s@.take(n as int) =~= s@);
    }
    Some(acc)
}

/// How an unregister target resolves against the service list.
#[derive(Debug)]
pub enum TargetResolution {
    Address { addr: String },
    Resolved { addr: String },
    ZeroIndex,
    EmptyList,
    OutOfRange,
}

/// Resolves an unregister target: a string of digits is a 1-based index
/// into the listed services and yields that entry's address; anything
/// else is taken as an address, passed on as given. Indices start at 1;
/// an index into an empty list and one past the end are distinct errors.
pub fn resolve_target(list: &Vec<ProxyServerInfo>, target: &str) -> (r: TargetResolution)
    ensures
        !index_form(target@) ==> (r matches TargetResolution::Address { addr } && addr@
            == target@),
        (index_form(target@) && dec_value(target@) == 0) ==> r is ZeroIndex,
        (index_form(target@) && dec_value(target@) > 0 && list@.len() == 0) ==> r is EmptyList,
        (index_form(target@) && dec_value(target@) > list@.len() && list@.len() > 0)
            ==> r is OutOfRange,
        (index_form(target@) && 1 <= dec_value(target@) <= list@.len()) ==> (r matches
        TargetResolution::Resolved { addr } && addr@ == list@[dec_value(target@) - 1].addr@),
{
    match parse_index(target) {
        None => TargetResolution::Address { addr: String::from_str(target) },
        Some(v) => {
            if v == 0 {
                TargetResolution::ZeroIndex
            } else if list.len() == 0 {
                TargetResolution::EmptyList
            } else if v > list.len() {
                TargetResolution::OutOfRange
            } else {
                let e = &list[v - 1];
                TargetResolution::Resolved { addr: e.addr.clone() }
            }
        },
    }
}

} // verus!
