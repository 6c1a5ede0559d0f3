//! Fixed-width table cells: padding, truncation and centering over
//! character sequences.

use vstd::prelude::*;

verus! {

/// `n` space characters (none when `n` is negative).
pub open spec fn spaces(n: int) -> Seq<char> {
    Seq::new(if n < 0 { 0 } else { n as nat }, |i: int| ' ')
}

/// `s` padded on the left with spaces up to width `w`; a value already
/// `w` or wider is kept whole (right alignment never truncates).
pub open spec fn pad_left(s: Seq<char>, w: int) -> Seq<char> {
    if s.len() >= w {
        s
    } else {
        spaces(w - s.len()) + s
    }
}

/// `s` padded on the right with spaces up to width `w`.
pub open spec fn pad_right(s: Seq<char>, w: int) -> Seq<char> {
    if s.len() >= w {
        s
    } else {
        s + spaces(w - s.len())
    }
}

/// `s` centered in width `w`, the extra space on the right when the
/// padding is odd.
pub open spec fn center(s: Seq<char>, w: int) -> Seq<char> {
    if s.len() >= w {
        s
    } else {
        let l = (w - s.len()) / 2;
        spaces(l) + s + spaces(w - s.len() - l)
    }
}

/// The first `w` characters of `s`, or all of `s` if it is shorter.
pub open spec fn take_width(s: Seq<char>, w: int) -> Seq<char> {
    if s.len() <= w {
        s
    } else {
        s.take(w)
    }
}

/// A left-aligned cell of exactly width `w`: truncated or padded on the
/// right.
pub open spec fn clip_left(s: Seq<char>, w: int) -> Seq<char> {
    pad_right(take_width(s, w), w)
}

/// A right-aligned cell of exactly width `w`: truncated or padded on the
/// left.
pub open spec fn clip_right(s: Seq<char>, w: int) -> Seq<char> {
    pad_left(take_width(s, w), w)
}

/// A clipped cell always has exactly the asked-for width: shorter input
/// is padded, never indexed past its end, and longer input is cut to the
/// width exactly.
pub proof fn lemma_clip_exact(s: Seq<char>, w: int)
    requires
        w >= 0,
    ensures
        clip_left(s, w).len() == w,
        clip_right(s, w).len() == w,
        s.len() <= w ==> clip_right(s, w) == spaces(w - s.len()) + s,
        s.len() <= w ==> clip_left(s, w) == s + spaces(w - s.len()),
        s.len() > w ==> clip_right(s, w) == s.take(w),
        s.len() > w ==> clip_left(s, w) == s.take(w),
{
    if s.len() < w {
        assert(spaces(w - s.len()).len() == w - s.len());
    }
    if s.len() == w {
        assert(spaces(0).len() == 0);
        assert(spaces(0) + s =~= s);
        assert(s + spaces(0) =~= s);
    }
}

fn make_spaces(n: usize) -> (r: Vec<char>)
    ensures
        r@ == spaces(n as int),
{
    let mut r: Vec<char> = Vec::new();
    let mut i: usize = 0;
    while i < n
        invariant
            i <= n,
            r@ == spaces(i as int),
        decreases n - i,
    {
        r.push(' ');
        i = i + 1;
        proof {
            assert(r@ =~= spaces(i as int));
        }
    }
    r
}

pub(crate) fn push_all(dst: &mut Vec<char>, src: &Vec<char>)
    ensures
        final (dst)@ == old(dst)@ + src@,
{
    let mut i: usize = 0;
    while i < src.len()
        invariant
            i <= src@.len(),
            dst@ == old(dst)@ + src@.take(i as int),
        decreases src@.len() - i,
    {
        proof {
            assert(old(dst)@ + src@.take(0) =~= old(dst)@);
        }
        dst.push(src[i]);
        i = i + 1;
        proof {
            assert(old(dst)@ + src@.take(i as int) =~= (old(dst)@ + src@.take(i - 1 as int)).push(
                src@[i - 1],
            ));
        }
    }
    proof {
        assert(old(dst)@ + src@.take(0) =~= old(dst)@);
        assert(old(dst)@ + src@.take(src@.len() as int) =~= old(dst)@ + src@);
    }
}

fn take_chars(v: &Vec<char>, w: usize) -> (r: Vec<char>)
    ensures
        r@ == take_width(v@, w as int),
{
    let n: usize = if v.len() <= w {
        v.len()
    } else {
        w
    };
    let mut r: Vec<char> = Vec::new();
    let mut i: usize = 0;
    while i < n
        invariant
            i <= n <= v@.len(),
            r@ == v@.take(i as int),
        decreases n - i,
    {
        r.push(v[i]);
        i = i + 1;
        proof {
            assert(v@.take(i as int) =~= v@.take(i - 1 as int).push(v@[i - 1]));
        }
    }
    proof {
        assert(v@.take(v@.len() as int) =~= v@);
    }
    r
}

/// `v` right-aligned in width `w` (padded only, never truncated).
pub fn pad_left_chars(v: &Vec<char>, w: usize) -> (r: Vec<char>)
    ensures
        r@ == pad_left(v@, w as int),
{
    if v.len() >= w {
        let mut r = Vec::new();
        push_all(&mut r, v);
        proof {
            assert(Seq::<char>::empty() + v@ =~= v@);
        }
        r
    } else {
        let mut r = make_spaces(w - v.len());
        push_all(&mut r, v);
        r
    }
}

/// `v` centered in width `w`.
pub fn center_chars(v: &Vec<char>, w: usize) -> (r: Vec<char>)
    ensures
        r@ == center(v@, w as int),
{
    if v.len() >= w {
        let mut r = Vec::new();
        push_all(&mut r, v);
        proof {
            assert(Seq::<char>::empty() + v@ =~= v@);
        }
        r
    } else {
        let pad: usize = w - v.len();
        let left: usize = pad / 2;
        let mut r = make_spaces(left);
        push_all(&mut r, v);
        let right = make_spaces(pad - left);
        push_all(&mut r, &right);
        r
    }
}

/// A left-aligned cell of exactly width `w`.
pub fn clip_left_chars(v: &Vec<char>, w: usize) -> (r: Vec<char>)
    ensures
        r@ == clip_left(v@, w as int),
{
    let mut r = take_chars(v, w);
    if r.len() < w {
        let pad = make_spaces(w - r.len());
        push_all(&mut r, &pad);
    } else {
        proof {
            assert(pad_right(take_width(v@, w as int), w as int) == take_width(v@, w as int));
        }
    }
    r
}

/// A right-aligned cell of exactly width `w`.
pub fn clip_right_chars(v: &Vec<char>, w: usize) -> (r: Vec<char>)
    ensures
        r@ == clip_right(v@, w as int),
{
    let t = take_chars(v, w);
    pad_left_chars(&t, w)
}

} // verus!
