//! Character-level text primitives used to match attribute names against the
//! directive table and to carve metric names out of them.
use vstd::prelude::*;
use vstd::std_specs::iter::IteratorSpec;

verus! {

broadcast use vstd::string::axiom_spec_iter, vstd::string::next_postcondition;

/// `p` is a (not necessarily proper) prefix of `n`.
pub open spec fn has_prefix(n: Seq<char>, p: Seq<char>) -> bool {
    p.len() <= n.len() && n.subrange(0, p.len() as int) == p
}

/// Collects the characters of a string slice, in order.
pub fn chars_of(s: &str) -> (r: Vec<char>)
    ensures
        r@ == s@,
{
    let mut it = s.chars();
    let mut out: Vec<char> = Vec::new();
    proof {
        assert(s@ =~= out@ + it.remaining());
    }
    loop
        invariant
            it.obeys_prophetic_iter_laws(),
            it.decrease() is Some,
            s@ == out@ + it.remaining(),
        ensures
            out@ == s@,
        decreases it.decrease()->0,
    {
        match it.next() {
            Some(c) => {
                out.push(c);
                proof {
                    assert(s@ =~= out@ + it.remaining());
                }
            },
            None => {
                proof {
                    assert(out@ =~= s@);
                }
                break ;
            },
        }
    }
    out
}

/// True exactly when `name` spells the same characters as `lit`.
pub fn eq_str(name: &Vec<char>, lit: &str) -> (r: bool)
    ensures
        r == (name@ == lit@),
{
    let mut it = lit.chars();
    let mut i: usize = 0;
    proof {
        assert(lit@ =~= lit@.subrange(0, 0) + it.remaining());
        assert(name@.subrange(0, 0) =~= lit@.subrange(0, 0));
    }
    loop
        invariant
            it.obeys_prophetic_iter_laws(),
            it.decrease() is Some,
            i <= name@.len(),
            lit@ == lit@.subrange(0, i as int) + it.remaining(),
            name@.subrange(0, i as int) == lit@.subrange(0, i as int),
        decreases it.decrease()->0,
    {
        match it.next() {
            Some(c) => {
                proof {
                    assert(c == lit@[i as int]);
                }
                if i >= name.len() {
                    proof {
                        assert(lit@.len() > name@.len());
                    }
                    return false;
                }
                if name[i] != c {
                    proof {
                        assert(name@[i as int] != lit@[i as int]);
                    }
                    return false;
                }
                i = i + 1;
                proof {
                    assert(lit@ =~= lit@.subrange(0, i as int) + it.remaining());
                    assert(name@.subrange(0, i as int) =~= lit@.subrange(0, i as int));
                }
            },
            None => {
                proof {
                    assert(lit@ =~= lit@.subrange(0, i as int));
                }
                if i == name.len() {
                    proof {
                        assert(name@ =~= lit@);
                    }
                    return true;
                } else {
                    proof {
                        assert(name@.len() != lit@.len());
                    }
                    return false;
                }
            },
        }
    }
}

/// True exactly when the characters of `lit` are a prefix of `name`.
pub fn starts_with_str(name: &Vec<char>, lit: &str) -> (r: bool)
    ensures
        r == has_prefix(name@, lit@),
{
    let mut it = lit.chars();
    let mut i: usize = 0;
    proof {
        assert(lit@ =~= lit@.subrange(0, 0) + it.remaining());
        assert(name@.subrange(0, 0) =~= lit@.subrange(0, 0));
    }
    loop
        invariant
            it.obeys_prophetic_iter_laws(),
            it.decrease() is Some,
            i <= name@.len(),
            lit@ == lit@.subrange(0, i as int) + it.remaining(),
            name@.subrange(0, i as int) == lit@.subrange(0, i as int),
        decreases it.decrease()->0,
    {
        match it.next() {
            Some(c) => {
                proof {
                    assert(c == lit@[i as int]);
                }
                if i >= name.len() {
                    proof {
                        assert(lit@.len() > name@.len());
                    }
                    return false;
                }
                if name[i] != c {
                    proof {
                        if has_prefix(name@, lit@) {
                            assert(name@.subrange(0, lit@.len() as int)[i as int] == name@[
                                i as int
                            ]);
                        }
                    }
                    return false;
                }
                i = i + 1;
                proof {
                    assert(lit@ =~= lit@.subrange(0, i as int) + it.remaining());
                    assert(name@.subrange(0, i as int) =~= lit@.subrange(0, i as int));
                }
            },
            None => {
                proof {
                    assert(lit@ =~= lit@.subrange(0, i as int));
                    assert(name@.subrange(0, lit@.len() as int) =~= lit@);
                }
                return true;
            },
        }
    }
}

/// Copies `name[start..]`, the metric name left after a directive prefix.
pub fn suffix_from(name: &Vec<char>, start: usize) -> (r: Vec<char>)
    requires
        start <= name@.len(),
    ensures
        r@ == name@.subrange(start as int, name@.len() as int),
{
    let mut out: Vec<char> = Vec::new();
    let mut i: usize = start;
    proof {
        assert(out@ =~= name@.subrange(start as int, i as int));
    }
    while i < name.len()
        invariant
            start <= i && i <= name@.len(),
            out@ == name@.subrange(start as int, i as int),
        decreases name@.len() - i,
    {
        out.push(name[i]);
        i = i + 1;
        proof {
            assert(out@ =~= name@.subrange(start as int, i as int));
        }
    }
    out
}

/// Relies on `String`'s `FromIterator<&char>`: collecting an iterator of
/// characters yields the string made of exactly those characters, in order.
#[verifier::external_body]
pub fn string_of_chars(v: &Vec<char>) -> (r: String)
    ensures
        r@ == v@,
{
    v.iter().collect()
}

} // verus!
