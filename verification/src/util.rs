//! Small helpers over optional values, shared by the conversion code.

use vstd::prelude::*;

verus! {

/// Character-wise equality of two string slices.
pub fn str_eq_str(a: &str, b: &str) -> (r: bool)
    ensures
        r == (a@ == b@),
{
    let sa = String::from_str(a);
    let sb = String::from_str(b);
    sa == sb
}

/// Index of the first occurrence of `ch` at or after `i`, if any.
pub open spec fn find_char_from(s: Seq<char>, ch: char, i: int) -> Option<int>
    decreases s.len() - i,
{
    if i < 0 || i >= s.len() {
        None
    } else if s[i] == ch {
        Some(i)
    } else {
        find_char_from(s, ch, i + 1)
    }
}

/// Index of the first occurrence of `ch` in `s` at or after `from`, if any.
pub fn find_char(s: &str, ch: char, from: usize) -> (r: Option<usize>)
    requires
        from <= s@.len(),
    ensures
        match r {
            Some(c) => find_char_from(s@, ch, from as int) == Some(c as int) && from <= c < s@.len()
                && s@[c as int] == ch,
            None => find_char_from(s@, ch, from as int) is None,
        },
{
    let n = s.unicode_len();
    let mut i: usize = from;
    while i < n
        invariant
            from <= i <= n,
            n == s@.len(),
            find_char_from(s@, ch, from as int) == find_char_from(s@, ch, i as int),
        decreases n - i,
    {
        if s.get_char(i) == ch {
            return Some(i);
        }
        i = i + 1;
    }
    None
}

/// The first present value at or after `i`, if any.
pub open spec fn first_present<T>(s: Seq<Option<T>>, i: int) -> Option<T>
    decreases s.len() - i,
{
    if i < 0 || i >= s.len() {
        None
    } else {
        match s[i] {
            Some(x) => Some(x),
            None => first_present(s, i + 1),
        }
    }
}

/// Whether any part at or after `i` is present.
pub open spec fn any_present(parts: Seq<Option<Seq<char>>>, i: int) -> bool {
    exists|k: int| i <= k < parts.len() && parts[k] is Some
}

/// The present parts at or after `i`, joined with single spaces.
pub open spec fn spec_join_name(parts: Seq<Option<Seq<char>>>, i: int) -> Seq<char>
    decreases parts.len() - i,
{
    if i < 0 || i >= parts.len() {
        Seq::empty()
    } else {
        match parts[i] {
            None => spec_join_name(parts, i + 1),
            Some(s) => if any_present(parts, i + 1) {
                s + " "@ + spec_join_name(parts, i + 1)
            } else {
                s
            },
        }
    }
}

/// Whether any part of `name` at or after `i` is present.
fn any_present_from(name: &Vec<Option<String>>, i: usize) -> (r: bool)
    requires
        i <= name@.len(),
    ensures
        r == any_present(name.deep_view(), i as int),
    decreases name@.len() - i,
{
    let n = name.len();
    if i >= n {
        return false;
    }
    match &name[i] {
        Some(_) => {
            proof {
                assert(name.deep_view()[i as int] is Some);
            }
            true
        },
        None => {
            proof {
                assert(name.deep_view()[i as int] is None);
            }
            any_present_from(name, i + 1)
        },
    }
}

/// Joins the present parts of a name with single spaces, skipping the
/// absent ones: exactly `spec_join_name` of the whole sequence.
pub fn join_name(name: &Vec<Option<String>>) -> (r: String)
    ensures
        r@ == spec_join_name(name.deep_view(), 0),
{
    join_name_from(name, 0)
}

/// Joins the present parts at or after `i` with single spaces.
fn join_name_from(name: &Vec<Option<String>>, i: usize) -> (r: String)
    requires
        i <= name@.len(),
    ensures
        r@ == spec_join_name(name.deep_view(), i as int),
    decreases name@.len() - i,
{
    let n = name.len();
    if i >= n {
        return String::new();
    }
    match &name[i] {
        None => {
            proof {
                assert(name.deep_view()[i as int] is None);
            }
            join_name_from(name, i + 1)
        },
        Some(s) => {
            proof {
                assert(name.deep_view()[i as int] == Some(s@));
            }
            if any_present_from(name, i + 1) {
                let rest = join_name_from(name, i + 1);
                let out = String::from_str(s.as_str());
                let out = out.concat(" ");
                let out = out.concat(rest.as_str());
                proof {
                    assert(out@ =~= s@ + " "@ + rest@);
                }
                out
            } else {
                String::from_str(s.as_str())
            }
        },
    }
}

/// The present values among the first `i` entries, in order.
pub open spec fn spec_present_prefix<T>(s: Seq<Option<T>>, i: int) -> Seq<T>
    decreases i,
{
    if i <= 0 {
        Seq::empty()
    } else {
        match s[i - 1] {
            None => spec_present_prefix(s, i - 1),
            Some(x) => spec_present_prefix(s, i - 1).push(x),
        }
    }
}

/// Unwraps the present values of a slice of options, in order; each output
/// entry is a clone of the corresponding present input value.
pub fn double_unwrap<T: Clone>(it: &[Option<T>]) -> (r: Vec<T>)
    ensures
        r@.len() == spec_present_prefix(it@, it@.len() as int).len(),
        forall|k: int|
            0 <= k < r@.len() ==> cloned::<T>(
                spec_present_prefix(it@, it@.len() as int)[k],
                #[trigger] r@[k],
            ),
{
    let n = it.len();
    let mut r: Vec<T> = Vec::new();
    let mut i: usize = 0;
    while i < n
        invariant
            i <= n,
            n == it@.len(),
            r@.len() == spec_present_prefix(it@, i as int).len(),
            forall|k: int|
                0 <= k < r@.len() ==> cloned::<T>(
                    spec_present_prefix(it@, i as int)[k],
                    #[trigger] r@[k],
                ),
        decreases n - i,
    {
        match &it[i] {
            None => {},
            Some(x) => {
                r.push(x.clone());
            },
        }
        i = i + 1;
    }
    r
}

} // verus!
