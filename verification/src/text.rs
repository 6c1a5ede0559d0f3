//! Character-level text utilities: conversion between `&str`/`String` and
//! `Vec<char>`, whitespace trimming, and splitting on a separator character.

use vstd::prelude::*;
use vstd::string::*;

verus! {

/// Characters that count as whitespace when a field is trimmed.
pub open spec fn is_space(c: char) -> bool {
    c == ' ' || c == '\t' || c == '\r' || c == '\n'
}

fn space_char(c: char) -> (b: bool)
    ensures
        b == is_space(c),
{
    c == ' ' || c == '\t' || c == '\r' || c == '\n'
}

/// Relies on `String::push`: appends the single character `c` at the end.
#[verifier::external_body]
pub(crate) fn push_char(s: &mut String, c: char)
    ensures
        final(s)@ == old(s)@.push(c),
{
    s.push(c);
}

/// The characters of `s`, in order, as a vector.
pub fn str_chars(s: &str) -> (v: Vec<char>)
    ensures
        v@ == s@,
{
    let n: usize = s.unicode_len();
    let mut v: Vec<char> = Vec::new();
    let mut i: usize = 0;
    while i < n
        invariant
            n == s@.len(),
            i <= n,
            v@ == s@.take(i as int),
        decreases n - i,
    {
        v.push(s.get_char(i));
        i = i + 1;
        proof {
            assert(s@.take(i as int) =~= s@.take(i - 1 as int).push(s@[i - 1]));
        }
    }
    proof {
        assert(s@.take(n as int) =~= s@);
    }
    v
}

/// A string holding exactly the characters of `v`, in order.
pub fn chars_to_string(v: &Vec<char>) -> (s: String)
    ensures
        s@ == v@,
{
    let mut s = String::new();
    let mut i: usize = 0;
    while i < v.len()
        invariant
            i <= v.len(),
            s@ == v@.take(i as int),
        decreases v.len() - i,
    {
        push_char(&mut s, v[i]);
        i = i + 1;
        proof {
            assert(v@.take(i as int) =~= v@.take(i - 1 as int).push(v@[i - 1]));
        }
    }
    proof {
        assert(v@.take(v.len() as int) =~= v@);
    }
    s
}

/// Whether two character vectors hold the same characters.
pub fn eq_chars(a: &Vec<char>, b: &Vec<char>) -> (r: bool)
    ensures
        r == (a@ == b@),
{
    if a.len() != b.len() {
        return false;
    }
    let mut i: usize = 0;
    while i < a.len()
        invariant
            a@.len() == b@.len(),
            i <= a.len(),
            forall|j: int| 0 <= j < i ==> a@[j] == b@[j],
        decreases a.len() - i,
    {
        if a[i] != b[i] {
            return false;
        }
        i = i + 1;
    }
    proof {
        assert(a@ =~= b@);
    }
    true
}

/// `s` with its leading whitespace removed.
pub open spec fn trim_front(s: Seq<char>) -> Seq<char>
    decreases s.len(),
{
    if s.len() > 0 && is_space(s[0]) {
        trim_front(s.drop_first())
    } else {
        s
    }
}

/// `s` with its trailing whitespace removed.
pub open spec fn trim_back(s: Seq<char>) -> Seq<char>
    decreases s.len(),
{
    if s.len() > 0 && is_space(s.last()) {
        trim_back(s.drop_last())
    } else {
        s
    }
}

/// `s` with both leading and trailing whitespace removed.
pub open spec fn trimmed(s: Seq<char>) -> Seq<char> {
    trim_back(trim_front(s))
}

/// The characters of `v` with surrounding whitespace removed.
pub fn trim_chars(v: &Vec<char>) -> (r: Vec<char>)
    ensures
        r@ == trimmed(v@),
{
    let mut start: usize = 0;
    proof {
        assert(v@.skip(0) =~= v@);
    }
    while start < v.len() && space_char(v[start])
        invariant
            start <= v.len(),
            trim_front(v@) == trim_front(v@.skip(start as int)),
        decreases v.len() - start,
    {
        proof {
            assert(v@.skip(start as int).drop_first() =~= v@.skip(start + 1 as int));
        }
        start = start + 1;
    }
    proof {
        assert(trim_front(v@.skip(start as int)) =~= v@.skip(start as int));
        assert(v@.skip(start as int) =~= v@.subrange(start as int, v@.len() as int));
    }
    let mut end: usize = v.len();
    while end > start && space_char(v[end - 1])
        invariant
            start <= end <= v.len(),
            trim_front(v@) == v@.subrange(start as int, v@.len() as int),
            trim_back(trim_front(v@)) == trim_back(v@.subrange(start as int, end as int)),
        decreases end,
    {
        proof {
            assert(v@.subrange(start as int, end as int).drop_last() =~= v@.subrange(
                start as int,
                end - 1 as int,
            ));
        }
        end = end - 1;
    }
    proof {
        assert(trim_back(v@.subrange(start as int, end as int)) =~= v@.subrange(
            start as int,
            end as int,
        ));
    }
    let mut r: Vec<char> = Vec::new();
    let mut i: usize = start;
    while i < end
        invariant
            start <= i <= end <= v@.len(),
            r@ == v@.subrange(start as int, i as int),
        decreases end - i,
    {
        r.push(v[i]);
        i = i + 1;
        proof {
            assert(v@.subrange(start as int, i as int) =~= v@.subrange(
                start as int,
                i - 1 as int,
            ).push(v@[i - 1]));
        }
    }
    r
}

/// The fields of `s` split on the separator `sep`: splitting the empty
/// sequence gives one empty field, and each occurrence of `sep` ends the
/// field before it, so `n` separators give `n + 1` fields.
pub open spec fn split_at_sep(s: Seq<char>, sep: char) -> Seq<Seq<char>>
    decreases s.len(),
{
    if s.len() == 0 {
        seq![Seq::<char>::empty()]
    } else if s[0] == sep {
        seq![Seq::<char>::empty()] + split_at_sep(s.drop_first(), sep)
    } else {
        let rest = split_at_sep(s.drop_first(), sep);
        seq![seq![s[0]] + rest[0]] + rest.drop_first()
    }
}

pub proof fn lemma_split_at_sep_len(s: Seq<char>, sep: char)
    ensures
        split_at_sep(s, sep).len() >= 1,
    decreases s.len(),
{
    if s.len() == 0 {
    } else if s[0] == sep {
    } else {
        lemma_split_at_sep_len(s.drop_first(), sep);
    }
}

/// Splits `v` on the separator character, keeping empty fields.
pub fn split_chars(v: &Vec<char>, sep: char) -> (r: Vec<Vec<char>>)
    ensures
        r@.len() == split_at_sep(v@, sep).len(),
        forall|j: int| 0 <= j < r@.len() ==> r@[j]@ == split_at_sep(v@, sep)[j],
{
    let mut fields: Vec<Vec<char>> = Vec::new();
    let mut cur: Vec<char> = Vec::new();
    let ghost whole: Seq<Seq<char>> = split_at_sep(v@, sep);
    let mut i: usize = 0;
    proof {
        lemma_split_at_sep_len(v@, sep);
        assert(v@.skip(0) =~= v@);
        assert(Seq::<char>::empty() + whole[0] =~= whole[0]);
        assert(seq![Seq::<char>::empty() + whole[0]] + whole.drop_first() =~= whole);
    }
    while i < v.len()
        invariant
            i <= v.len(),
            whole == split_at_sep(v@, sep),
            split_at_sep(v@.skip(i as int), sep).len() >= 1,
            fields@.len() + split_at_sep(v@.skip(i as int), sep).len() == whole.len(),
            forall|j: int| 0 <= j < fields@.len() ==> fields@[j]@ == whole[j],
            cur@ + split_at_sep(v@.skip(i as int), sep)[0] == whole[fields@.len() as int],
            forall|k: int|
                1 <= k < split_at_sep(v@.skip(i as int), sep).len() ==> split_at_sep(
                    v@.skip(i as int),
                    sep,
                )[k] == whole[fields@.len() + k],
        decreases v.len() - i,
    {
        let ghost rest = v@.skip(i as int);
        let ghost rest1 = v@.skip(i + 1 as int);
        let ghost n0 = fields@.len() as int;
        proof {
            assert(rest.len() > 0);
            assert(rest[0] == v@[i as int]);
            assert(rest.drop_first() =~= rest1);
            lemma_split_at_sep_len(rest1, sep);
        }
        let c = v[i];
        if c == sep {
            proof {
                assert(split_at_sep(rest, sep) =~= seq![Seq::<char>::empty()] + split_at_sep(
                    rest1,
                    sep,
                ));
                assert(cur@ + split_at_sep(rest, sep)[0] =~= cur@);
            }
            fields.push(cur);
            cur = Vec::new();
            i = i + 1;
            proof {
                let r1 = split_at_sep(rest1, sep);
                assert(split_at_sep(rest, sep)[1] == r1[0]);
                assert(split_at_sep(rest, sep)[1] == whole[n0 + 1]);
                assert(cur@ + r1[0] =~= r1[0]);
                assert forall|k: int| 1 <= k < r1.len() implies r1[k] == whole[n0 + 1 + k] by {
                    assert(split_at_sep(rest, sep)[k + 1] == r1[k]);
                    assert(split_at_sep(rest, sep)[k + 1] == whole[n0 + k + 1]);
                }
            }
        } else {
            proof {
                let r1 = split_at_sep(rest1, sep);
                assert(split_at_sep(rest, sep) =~= seq![seq![rest[0]] + r1[0]] + r1.drop_first());
                assert(split_at_sep(rest, sep)[0] == seq![rest[0]] + r1[0]);
                assert(cur@ + (seq![rest[0]] + r1[0]) =~= cur@.push(rest[0]) + r1[0]);
            }
            cur.push(c);
            i = i + 1;
            proof {
                let r1 = split_at_sep(rest1, sep);
                assert(cur@ + r1[0] == whole[n0]);
                assert forall|k: int| 1 <= k < r1.len() implies r1[k] == whole[n0 + k] by {
                    assert(split_at_sep(rest, sep)[k] == r1.drop_first()[k - 1]);
                    assert(r1.drop_first()[k - 1] == r1[k]);
                    assert(split_at_sep(rest, sep)[k] == whole[n0 + k]);
                }
            }
        }
    }
    proof {
        assert(v@.skip(v@.len() as int) =~= Seq::<char>::empty());
        assert(split_at_sep(v@.skip(i as int), sep) =~= seq![Seq::<char>::empty()]);
        assert(cur@ + Seq::<char>::empty() =~= cur@);
    }
    fields.push(cur);
    fields
}

} // verus!
