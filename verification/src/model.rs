//! Values and their mathematical counterparts: copying and comparing by view.

use vstd::prelude::*;

verus! {

/// The views of the elements, in order.
pub open spec fn views<T: View>(s: Seq<T>) -> Seq<T::V> {
    Seq::new(s.len(), |i: int| s[i]@)
}

/// The view of what an option holds.
pub open spec fn opt_view<T: View>(o: Option<T>) -> Option<T::V> {
    match o {
        Some(x) => Some(x@),
        None => None,
    }
}

/// Types whose values can be copied without changing what they stand for.
pub trait Dup: View + Sized {
    fn dup(&self) -> (r: Self)
        ensures
            r@ == self@,
    ;
}

/// Types whose values can be compared by what they stand for.
pub trait SameView: View + Sized {
    fn same(&self, other: &Self) -> (r: bool)
        ensures
            r == (self@ == other@),
    ;
}

impl Dup for String {
    fn dup(&self) -> (r: Self) {
        self.clone()
    }
}

impl SameView for String {
    fn same(&self, other: &Self) -> (r: bool) {
        *self == *other
    }
}

pub fn dup_all<T: Dup>(v: &Vec<T>) -> (r: Vec<T>)
    ensures
        views(r@) == views(v@),
{
    let mut r: Vec<T> = Vec::new();
    let mut i: usize = 0;
    while i < v.len()
        invariant
            i <= v@.len(),
            views(r@) =~= views(v@).take(i as int),
        decreases v@.len() - i,
    {
        let ghost before = r@;
        r.push(v[i].dup());
        assert(views(r@) =~= views(before).push(v@[i as int]@));
        i = i + 1;
    }
    assert(views(v@).take(i as int) =~= views(v@));
    r
}

pub fn dup_opt<T: Dup>(o: &Option<T>) -> (r: Option<T>)
    ensures
        opt_view(r) == opt_view(*o),
{
    match o {
        Some(x) => Some(x.dup()),
        None => None,
    }
}

pub fn same_all<T: SameView>(a: &Vec<T>, b: &Vec<T>) -> (r: bool)
    ensures
        r == (views(a@) == views(b@)),
{
    if a.len() != b.len() {
        assert(views(a@).len() != views(b@).len());
        return false;
    }
    let mut i: usize = 0;
    while i < a.len()
        invariant
            i <= a@.len(),
            a@.len() == b@.len(),
            views(a@).take(i as int) =~= views(b@).take(i as int),
        decreases a@.len() - i,
    {
        if !a[i].same(&b[i]) {
            assert(views(a@)[i as int] != views(b@)[i as int]);
            return false;
        }
        assert(views(a@).take(i + 1) =~= views(a@).take(i as int).push(a@[i as int]@));
        assert(views(b@).take(i + 1) =~= views(b@).take(i as int).push(b@[i as int]@));
        i = i + 1;
    }
    assert(views(a@).take(i as int) =~= views(a@));
    assert(views(b@).take(i as int) =~= views(b@));
    true
}

pub fn same_opt<T: SameView>(a: &Option<T>, b: &Option<T>) -> (r: bool)
    ensures
        r == (opt_view(*a) == opt_view(*b)),
{
    match (a, b) {
        (Some(x), Some(y)) => x.same(y),
        (None, None) => true,
        _ => false,
    }
}

/// Whether an element stands for the same as `x`.
pub fn holds<T: SameView>(v: &Vec<T>, x: &T) -> (r: bool)
    ensures
        r == views(v@).contains(x@),
{
    let mut i: usize = 0;
    while i < v.len()
        invariant
            i <= v@.len(),
            forall|j: int| 0 <= j < i ==> views(v@)[j] != x@,
        decreases v@.len() - i,
    {
        if v[i].same(x) {
            assert(views(v@)[i as int] == x@);
            return true;
        }
        i = i + 1;
    }
    false
}

/// `s`, followed by the elements of the first `n` of `extra` that are not there yet, in order.
pub open spec fn add_missing<T>(s: Seq<T>, extra: Seq<T>, n: nat) -> Seq<T>
    decreases n,
{
    if n == 0 || n > extra.len() {
        s
    } else {
        let before = add_missing(s, extra, (n - 1) as nat);
        if before.contains(extra[n - 1]) {
            before
        } else {
            before.push(extra[n - 1])
        }
    }
}

pub fn extend_missing<T: Dup + SameView>(v: &mut Vec<T>, extra: &Vec<T>)
    ensures
        views(final(v)@) == add_missing(views(old(v)@), views(extra@), extra@.len()),
{
    let ghost start = views(v@);
    let mut i: usize = 0;
    while i < extra.len()
        invariant
            i <= extra@.len(),
            views(v@) == add_missing(start, views(extra@), i as nat),
        decreases extra@.len() - i,
    {
        let ghost before = v@;
        if !holds(v, &extra[i]) {
            v.push(extra[i].dup());
            assert(views(v@) =~= views(before).push(extra@[i as int]@));
        }
        i = i + 1;
    }
}

/// Small values that can be copied and compared as they are.
pub trait Plain: Copy + Sized {
    fn equal(&self, other: &Self) -> (r: bool)
        ensures
            r == (*self == *other),
    ;
}

impl Plain for u64 {
    fn equal(&self, other: &Self) -> (r: bool) {
        *self == *other
    }
}

pub fn copy_all<T: Plain>(v: &Vec<T>) -> (r: Vec<T>)
    ensures
        r@ == v@,
{
    let mut r: Vec<T> = Vec::new();
    let mut i: usize = 0;
    while i < v.len()
        invariant
            i <= v@.len(),
            r@ =~= v@.take(i as int),
        decreases v@.len() - i,
    {
        r.push(v[i]);
        i = i + 1;
    }
    r
}

pub fn same_plain<T: Plain>(a: &Vec<T>, b: &Vec<T>) -> (r: bool)
    ensures
        r == (a@ == b@),
{
    if a.len() != b.len() {
        return false;
    }
    let mut i: usize = 0;
    while i < a.len()
        invariant
            i <= a@.len(),
            a@.len() == b@.len(),
            forall|j: int| 0 <= j < i ==> a@[j] == b@[j],
        decreases a@.len() - i,
    {
        if !a[i].equal(&b[i]) {
            return false;
        }
        i = i + 1;
    }
    assert(a@ =~= b@);
    true
}

fn holds_plain<T: Plain>(v: &Vec<T>, x: T) -> (r: bool)
    ensures
        r == v@.contains(x),
{
    let mut i: usize = 0;
    while i < v.len()
        invariant
            i <= v@.len(),
            forall|j: int| 0 <= j < i ==> v@[j] != x,
        decreases v@.len() - i,
    {
        if v[i].equal(&x) {
            return true;
        }
        i = i + 1;
    }
    false
}

pub fn extend_missing_plain<T: Plain>(v: &mut Vec<T>, extra: &Vec<T>)
    ensures
        final(v)@ == add_missing(old(v)@, extra@, extra@.len()),
{
    let ghost start = v@;
    let mut i: usize = 0;
    while i < extra.len()
        invariant
            i <= extra@.len(),
            v@ == add_missing(start, extra@, i as nat),
        decreases extra@.len() - i,
    {
        if !holds_plain(v, extra[i]) {
            v.push(extra[i]);
        }
        i = i + 1;
    }
}

} // verus!
