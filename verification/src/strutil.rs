//! Verified string helpers: decimal rendering and substring search.

use vstd::prelude::*;

verus! {

/// The digit character for one decimal digit.
pub open spec fn dec_digit(d: int) -> char
    recommends
        0 <= d <= 9,
{
    if d == 0 {
        '0'
    } else if d == 1 {
        '1'
    } else if d == 2 {
        '2'
    } else if d == 3 {
        '3'
    } else if d == 4 {
        '4'
    } else if d == 5 {
        '5'
    } else if d == 6 {
        '6'
    } else if d == 7 {
        '7'
    } else if d == 8 {
        '8'
    } else {
        '9'
    }
}

/// The decimal rendering of a non-negative integer, most significant
/// digit first and without leading zeros.
pub open spec fn dec_str(n: int) -> Seq<char>
    recommends
        n >= 0,
    decreases n,
{
    if n < 10 {
        seq![dec_digit(n)]
    } else {
        dec_str(n / 10).push(dec_digit(n % 10))
    }
}

/// A one-character string for one decimal digit.
fn digit_string(d: u32) -> (r: String)
    requires
        d <= 9,
    ensures
        r@ =~= seq![dec_digit(d as int)],
{
    proof {
        reveal_strlit("0");
        reveal_strlit("1");
        reveal_strlit("2");
        reveal_strlit("3");
        reveal_strlit("4");
        reveal_strlit("5");
        reveal_strlit("6");
        reveal_strlit("7");
        reveal_strlit("8");
        reveal_strlit("9");
    }
    match d {
        0 => String::from_str("0"),
        1 => String::from_str("1"),
        2 => String::from_str("2"),
        3 => String::from_str("3"),
        4 => String::from_str("4"),
        5 => String::from_str("5"),
        6 => String::from_str("6"),
        7 => String::from_str("7"),
        8 => String::from_str("8"),
        _ => String::from_str("9"),
    }
}

/// Renders an id in decimal, as the catalog keys and pin paths use it.
pub fn u32_to_string(x: u32) -> (r: String)
    ensures
        r@ == dec_str(x as int),
    decreases x,
{
    if x < 10 {
        digit_string(x)
    } else {
        let mut s = u32_to_string(x / 10);
        let d = digit_string(x % 10);
        s.append(d.as_str());
        proof {
            assert(s@ =~= dec_str((x / 10) as int) + seq![dec_digit((x % 10) as int)]);
            assert(dec_str(x as int) == dec_str(x as int / 10).push(dec_digit(x as int % 10)));
            assert(s@ =~= dec_str(x as int));
        }
        s
    }
}

/// Whether `needle` occurs in `hay` starting at position `at`.
pub open spec fn occurs_at(hay: Seq<char>, needle: Seq<char>, at: int) -> bool {
    &&& 0 <= at
    &&& at + needle.len() <= hay.len()
    &&& hay.subrange(at, at + needle.len()) == needle
}

/// Whether `needle` occurs anywhere in `hay`; the empty needle occurs.
pub open spec fn spec_contains_str(hay: Seq<char>, needle: Seq<char>) -> bool {
    exists|at: int| occurs_at(hay, needle, at)
}

/// Substring search; exact, for any strings.
pub fn str_contains(hay: &String, needle: &String) -> (r: bool)
    ensures
        r == spec_contains_str(hay@, needle@),
{
    let hay_len = hay.as_str().unicode_len();
    let needle_len = needle.as_str().unicode_len();
    if needle_len > hay_len {
        proof {
            assert forall|at: int| !occurs_at(hay@, needle@, at) by {
                assert(needle@.len() > hay@.len());
            }
        }
        return false;
    }
    if needle_len == 0 {
        proof {
            assert(occurs_at(hay@, needle@, 0)) by {
                assert(hay@.subrange(0, 0) =~= needle@);
            }
        }
        return true;
    }
    let mut at: usize = 0;
    while at <= hay_len - needle_len
        invariant
            needle_len == needle@.len(),
            hay_len == hay@.len(),
            1 <= needle_len <= hay_len,
            at <= hay_len - needle_len + 1,
            forall|p: int| 0 <= p < at ==> !occurs_at(hay@, needle@, p),
        decreases hay_len - at,
    {
        let mut k: usize = 0;
        let mut matched = true;
        while k < needle_len
            invariant
                needle_len == needle@.len(),
                hay_len == hay@.len(),
                needle_len <= hay_len,
                at + needle_len <= hay_len,
                k <= needle_len,
                matched ==> forall|q: int| 0 <= q < k ==> hay@[at + q] == needle@[q],
                !matched ==> !occurs_at(hay@, needle@, at as int),
            decreases needle_len - k,
        {
            if hay.as_str().get_char(at + k) != needle.as_str().get_char(k) {
                proof {
                    assert(hay@[at + k] != needle@[k as int]);
                    if occurs_at(hay@, needle@, at as int) {
                        assert(hay@.subrange(at as int, at + needle@.len())[k as int] == needle@[k
                            as int]);
                    }
                }
                matched = false;
                k = needle_len;
            } else {
                k += 1;
            }
        }
        if matched {
            proof {
                assert(hay@.subrange(at as int, at + needle@.len()) =~= needle@);
                assert(occurs_at(hay@, needle@, at as int));
            }
            return true;
        }
        at += 1;
    }
    proof {
        assert forall|p: int| !occurs_at(hay@, needle@, p) by {
            if p >= 0 && p + needle@.len() <= hay@.len() {
                assert(p < at);
            }
        }
    }
    false
}

/// Splits at the first colon: the credential form `user:pass`.
pub fn split_user_pass(s: &String) -> (r: Option<(String, String)>)
    ensures
        r matches Some((u, p)) ==> {
            &&& exists|i: int|
                0 <= i < s@.len() && s@[i] == ':' && u@ =~= s@.subrange(0, i) && p@
                    =~= s@.subrange(i + 1, s@.len() as int) && forall|q: int|
                    0 <= q < i ==> s@[q] != ':'
        },
        r is None ==> forall|i: int| 0 <= i < s@.len() ==> s@[i] != ':',
    {
    let len = s.as_str().unicode_len();
    let mut i: usize = 0;
    while i < len
        invariant
            len == s@.len(),
            i <= len,
            forall|q: int| 0 <= q < i ==> s@[q] != ':',
        decreases len - i,
    {
        if s.as_str().get_char(i) == ':' {
            let user = s.as_str().substring_char(0, i).to_owned();
            let pass = s.as_str().substring_char(i + 1, len).to_owned();
            return Some((user, pass));
        }
        i += 1;
    }
    None
}

} // verus!
