//! Tool calls written on a command line as `name=key=value,key=value`.
use crate::text::{find_char, first_from, first_index, is_char, owned, pieces, split_char, views};
use vstd::prelude::*;

verus! {

/// `s` split at its first `c`: the part before and the part after it; all of `s` and
/// nothing when `c` does not occur.
pub open spec fn split_at_first(s: Seq<char>, c: char) -> (Seq<char>, Seq<char>) {
    let i = first_index(s, is_char(c));
    if i < 0 {
        (s, Seq::empty())
    } else {
        (s.subrange(0, i), s.subrange(i + 1, s.len() as int))
    }
}

/// The comma-separated pieces of an argument list; none for an empty list.
pub open spec fn pair_pieces(rest: Seq<char>) -> Seq<Seq<char>> {
    if rest.len() == 0 {
        Seq::empty()
    } else {
        pieces(rest, ',')
    }
}

/// A piece with no `=` in it.
pub open spec fn lacks_eq() -> spec_fn(Seq<char>) -> bool {
    |p: Seq<char>| first_index(p, is_char('=')) < 0
}

/// `s` split at its first `c`, or `None` when `c` does not occur.
pub fn split_once_char(s: &str, c: char) -> (r: Option<(String, String)>)
    ensures
        match r {
            Some((a, b)) => first_index(s@, is_char(c)) >= 0 && (a@, b@) == split_at_first(s@, c),
            None => first_index(s@, is_char(c)) < 0,
        },
{
    match find_char(s, c) {
        Some(i) => {
            let n = s.unicode_len();
            let a = owned(s.substring_char(0, i));
            let b = owned(s.substring_char(i + 1, n));
            Some((a, b))
        },
        None => None,
    }
}

/// Reads `name=key=value,key=value`: the tool name before the first `=`, then the
/// comma-separated `key=value` pairs, each split at its first `=`. A pair without `=`
/// is refused and handed back.
pub fn parse_call_spec(spec: &str) -> (r: Result<(String, Vec<(String, String)>), String>)
    ensures
        ({
            let parts = split_at_first(spec@, '=');
            let ps = pair_pieces(parts.1);
            let bad = first_index(ps, lacks_eq());
            &&& (r is Ok <==> bad < 0)
            &&& (r matches Ok((name, pairs)) ==> {
                &&& name@ == parts.0
                &&& pairs@.len() == ps.len()
                &&& forall|k: int|
                    0 <= k < ps.len() ==> ((#[trigger] pairs@[k]).0@, pairs@[k].1@) == split_at_first(ps[k], '=')
            })
            &&& (r matches Err(p) ==> 0 <= bad < ps.len() && p@ == ps[bad])
        }),
{
    let (name, rest) = match split_once_char(spec, '=') {
        Some((a, b)) => (a, b),
        None => {
            let r = (owned(spec), String::new());
            proof {
                assert(r.1@ =~= Seq::<char>::empty());
            }
            r
        },
    };
    assert(name@ == split_at_first(spec@, '=').0 && rest@ == split_at_first(spec@, '=').1);
    let ghost ps = pair_pieces(rest@);
    let ghost f = lacks_eq();
    let mut pairs: Vec<(String, String)> = Vec::new();
    if rest.unicode_len() == 0 {
        assert(ps.len() == 0);
        return Ok((name, pairs));
    }
    let v = split_char(rest.as_str(), ',');
    assert(views(v@) == ps);
    let mut i: usize = 0;
    while i < v.len()
        invariant
            views(v@) == ps,
            ps == pair_pieces(split_at_first(spec@, '=').1),
            name@ == split_at_first(spec@, '=').0,
            f == lacks_eq(),
            i <= v@.len(),
            pairs@.len() == i,
            first_from(ps, f, 0) == first_from(ps, f, i as int),
            forall|k: int| 0 <= k < i ==> ((#[trigger] pairs@[k]).0@, pairs@[k].1@) == split_at_first(ps[k], '='),
        decreases v@.len() - i,
    {
        assert(views(v@)[i as int] == v@[i as int]@);
        match split_once_char(v[i].as_str(), '=') {
            Some((k, val)) => {
                assert(!f(ps[i as int]));
                pairs.push((k, val));
            },
            None => {
                assert(f(ps[i as int]));
                assert(first_from(ps, f, i as int) == i as int);
                let e = owned(v[i].as_str());
                assert(e@ == ps[i as int]);
                return Err(e);
            },
        }
        i = i + 1;
    }
    Ok((name, pairs))
}

} // verus!
