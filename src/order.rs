//! The order in which tasks are listed: paths compared component by component,
//! which is character order with the separator below every other character.
use vstd::prelude::*;
use vstd::string::*;

verus! {

pub open spec fn rank(c: char) -> int {
    if c == '/' { -1 } else { c as int }
}

/// `a` comes strictly before `b`. Paths are compared as written: unlike
/// `std::path`, no separators are collapsed and no `.` components dropped, so
/// `a//b.png` and `a/b.png` are two different paths here.
pub open spec fn path_less(a: Seq<char>, b: Seq<char>) -> bool
    decreases a.len(),
{
    if a.len() == 0 {
        b.len() > 0
    } else if b.len() == 0 {
        false
    } else if rank(a[0]) != rank(b[0]) {
        rank(a[0]) < rank(b[0])
    } else {
        path_less(a.skip(1), b.skip(1))
    }
}

proof fn lemma_rank_eq(a: char, b: char)
    ensures
        rank(a) == rank(b) <==> a == b,
{
    if rank(a) == rank(b) {
        if a != '/' && b != '/' {
            assert(a as u32 == b as u32);
        }
    }
}

pub proof fn lemma_less_irreflexive(a: Seq<char>)
    ensures
        !path_less(a, a),
    decreases a.len(),
{
    if a.len() > 0 {
        lemma_less_irreflexive(a.skip(1));
    }
}

pub proof fn lemma_less_asymmetric(a: Seq<char>, b: Seq<char>)
    ensures
        path_less(a, b) ==> !path_less(b, a),
    decreases a.len(),
{
    if a.len() > 0 && b.len() > 0 && rank(a[0]) == rank(b[0]) {
        lemma_less_asymmetric(a.skip(1), b.skip(1));
    }
}

pub proof fn lemma_less_total(a: Seq<char>, b: Seq<char>)
    ensures
        a != b ==> path_less(a, b) || path_less(b, a),
    decreases a.len(),
{
    if a.len() > 0 && b.len() > 0 && rank(a[0]) == rank(b[0]) {
        lemma_rank_eq(a[0], b[0]);
        lemma_less_total(a.skip(1), b.skip(1));
        if a.skip(1) == b.skip(1) {
            assert(a =~= seq![a[0]] + a.skip(1));
            assert(b =~= seq![b[0]] + b.skip(1));
        }
    } else if a.len() == 0 && b.len() == 0 {
        assert(a =~= b);
    }
}

pub proof fn lemma_less_transitive(a: Seq<char>, b: Seq<char>, c: Seq<char>)
    ensures
        path_less(a, b) && path_less(b, c) ==> path_less(a, c),
    decreases a.len(),
{
    if a.len() > 0 && b.len() > 0 && c.len() > 0 {
        lemma_less_transitive(a.skip(1), b.skip(1), c.skip(1));
    }
}

/// Compares two paths in the task order.
pub fn path_less_exec(a: &str, b: &str) -> (r: bool)
    ensures
        r == path_less(a@, b@),
{
    let na = a.unicode_len();
    let nb = b.unicode_len();
    let mut i: usize = 0;
    assert(a@.skip(0) =~= a@);
    assert(b@.skip(0) =~= b@);
    while i < na && i < nb
        invariant
            na == a@.len(),
            nb == b@.len(),
            i <= na,
            i <= nb,
            path_less(a@, b@) == path_less(a@.skip(i as int), b@.skip(i as int)),
        decreases na - i,
    {
        let x = a.get_char(i);
        let y = b.get_char(i);
        let rx: i64 = if x == '/' { -1 } else { x as u32 as i64 };
        let ry: i64 = if y == '/' { -1 } else { y as u32 as i64 };
        if rx != ry {
            return rx < ry;
        }
        assert(a@.skip(i as int).skip(1) =~= a@.skip(i + 1));
        assert(b@.skip(i as int).skip(1) =~= b@.skip(i + 1));
        i = i + 1;
    }
    i == na && i < nb
}

} // verus!
