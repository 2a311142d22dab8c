//! Path text: splitting a relative path into components and joining a base
//! with components using the `/` separator.
use vstd::prelude::*;
use vstd::string::*;

verus! {

/// Splits `s` on `'/'`, one character at a time. `cur` is the piece gathered
/// since the last separator and `acc` the components already finished; empty
/// pieces (from doubled, leading or trailing separators) are dropped.
pub open spec fn split_rec(s: Seq<char>, cur: Seq<char>, acc: Seq<Seq<char>>) -> Seq<Seq<char>>
    decreases s.len(),
{
    if s.len() == 0 {
        if cur.len() == 0 {
            acc
        } else {
            acc.push(cur)
        }
    } else if s[0] == '/' {
        split_rec(s.skip(1), Seq::empty(), if cur.len() == 0 {
            acc
        } else {
            acc.push(cur)
        })
    } else {
        split_rec(s.skip(1), cur.push(s[0]), acc)
    }
}

/// The non-empty `/`-separated components of a path string.
pub open spec fn components_of(s: Seq<char>) -> Seq<Seq<char>> {
    split_rec(s, Seq::empty(), Seq::empty())
}

/// The base followed by each component, every component preceded by `/`.
pub open spec fn joined(base: Seq<char>, comps: Seq<Seq<char>>) -> Seq<char>
    decreases comps.len(),
{
    if comps.len() == 0 {
        base
    } else {
        joined(base, comps.drop_last()) + seq!['/'] + comps.last()
    }
}

/// Splits a relative path string into its non-empty `/`-separated components.
pub fn split_components(s: &str) -> (r: Vec<String>)
    ensures
        r.deep_view() == components_of(s@),
{
    let n: usize = s.unicode_len();
    let mut out: Vec<String> = Vec::new();
    let mut i: usize = 0;
    let mut j: usize = 0;
    proof {
        assert(s@.skip(0) =~= s@);
        assert(s@.subrange(0, 0) =~= Seq::<char>::empty());
        assert(out.deep_view() =~= Seq::<Seq<char>>::empty());
    }
    while i < n
        invariant
            j <= i <= n,
            n == s@.len(),
            split_rec(s@.skip(i as int), s@.subrange(j as int, i as int), out.deep_view())
                == components_of(s@),
        decreases n - i,
    {
        let ghost pre = out.deep_view();
        let ghost cur = s@.subrange(j as int, i as int);
        let c = s.get_char(i);
        proof {
            assert(s@.skip(i as int)[0] == s@[i as int]);
            assert(s@.skip(i as int).skip(1) =~= s@.skip(i + 1));
        }
        if c == '/' {
            if i > j {
                let piece = s.substring_char(j, i).to_owned();
                out.push(piece);
                proof {
                    assert(out.deep_view() =~= pre.push(cur));
                }
            } else {
                proof {
                    assert(cur.len() == 0);
                }
            }
            j = i + 1;
            proof {
                assert(s@.subrange(j as int, (i + 1) as int) =~= Seq::<char>::empty());
            }
        } else {
            proof {
                assert(s@.subrange(j as int, (i + 1) as int) =~= cur.push(s@[i as int]));
            }
        }
        i = i + 1;
    }
    proof {
        assert(s@.skip(n as int) =~= Seq::<char>::empty());
    }
    if j < n {
        let ghost pre = out.deep_view();
        let ghost cur = s@.subrange(j as int, n as int);
        let piece = s.substring_char(j, n).to_owned();
        out.push(piece);
        proof {
            assert(out.deep_view() =~= pre.push(cur));
        }
    } else {
        proof {
            assert(s@.subrange(j as int, n as int).len() == 0);
        }
    }
    out
}

/// Appends each component to the base, preceded by the `/` separator.
pub fn join_under(base: &str, comps: &Vec<String>) -> (r: String)
    ensures
        r@ == joined(base@, comps.deep_view()),
{
    let mut r = base.to_owned();
    let mut i: usize = 0;
    proof {
        assert(comps.deep_view().take(0) =~= Seq::<Seq<char>>::empty());
    }
    while i < comps.len()
        invariant
            i <= comps.len(),
            comps.deep_view().len() == comps@.len(),
            r@ == joined(base@, comps.deep_view().take(i as int)),
        decreases comps.len() - i,
    {
        let ghost dv = comps.deep_view();
        let ghost prefix = r@;
        r.append("/");
        r.append(comps[i].as_str());
        proof {
            reveal_strlit("/");
            assert(dv[i as int] == comps@[i as int]@);
            assert(dv.take(i + 1).drop_last() =~= dv.take(i as int));
            assert(dv.take(i + 1).last() == dv[i as int]);
            assert(r@ =~= joined(base@, dv.take(i as int)) + seq!['/'] + dv[i as int]);
        }
        i = i + 1;
    }
    proof {
        assert(comps.deep_view().take(comps@.len() as int) =~= comps.deep_view());
    }
    r
}

} // verus!
