//! Relative-path manipulation: splitting a path into its separator-delimited
//! components and joining component ranges back into node labels.

use vstd::prelude::*;

use crate::strutil::views_of;

verus! {

/// The components of `s` delimited by the path separator. A string without a
/// separator is one component; every separator opens a new (possibly empty)
/// component, so the result always holds one component more than `s` holds
/// separators.
pub open spec fn spec_split(s: Seq<char>) -> Seq<Seq<char>>
    decreases s.len(),
{
    if s.len() == 0 {
        seq![Seq::<char>::empty()]
    } else {
        let rest = spec_split(s.drop_last());
        if s.last() == '/' {
            rest.push(Seq::empty())
        } else {
            rest.update(rest.len() - 1, rest.last().push(s.last()))
        }
    }
}

/// Components joined with the path separator; empty for no components.
pub open spec fn spec_join(parts: Seq<Seq<char>>) -> Seq<char>
    decreases parts.len(),
{
    if parts.len() == 0 {
        Seq::empty()
    } else if parts.len() == 1 {
        parts[0]
    } else {
        spec_join(parts.drop_last()) + seq!['/'] + parts.last()
    }
}

/// The join of a prefix grows by one separator and one component at a time.
pub proof fn lemma_join_step(parts: Seq<Seq<char>>, j: int)
    requires
        2 <= j <= parts.len(),
    ensures
        spec_join(parts.take(j)) == spec_join(parts.take(j - 1)) + seq!['/'] + parts[j - 1],
{
    assert(parts.take(j).drop_last() =~= parts.take(j - 1));
    assert(parts.take(j).last() == parts[j - 1]);
}

/// Split a path into its separator-delimited components.
pub fn split_slash(s: &str) -> (parts: Vec<String>)
    ensures
        views_of(parts@) == spec_split(s@),
        parts@.len() >= 1,
{
    let len = s.unicode_len();
    let mut parts: Vec<String> = Vec::new();
    let mut start: usize = 0;
    let mut i: usize = 0;
    proof {
        assert(s@.take(0) =~= Seq::<char>::empty());
        assert(views_of(parts@).push(s@.subrange(0, 0)) =~~= spec_split(s@.take(0)));
    }
    while i < len
        invariant
            len == s@.len(),
            start <= i <= len,
            spec_split(s@.take(i as int)) == views_of(parts@).push(
                s@.subrange(start as int, i as int),
            ),
        decreases len - i,
    {
        let ghost prev_parts = parts@;
        let ghost prev_start = start as int;
        proof {
            assert(s@.take(i + 1).drop_last() =~= s@.take(i as int));
            assert(s@.take(i + 1).last() == s@[i as int]);
        }
        if s.get_char(i) == '/' {
            let seg = s.substring_char(start, i).to_owned();
            parts.push(seg);
            start = i + 1;
            proof {
                assert(views_of(parts@) =~~= views_of(prev_parts).push(
                    s@.subrange(prev_start, i as int),
                ));
                assert(s@.subrange(i + 1, i + 1) =~= Seq::<char>::empty());
                assert(spec_split(s@.take(i + 1)) =~~= views_of(parts@).push(
                    s@.subrange(i + 1, i + 1),
                ));
            }
        } else {
            proof {
                let rest = spec_split(s@.take(i as int));
                assert(rest.last() == s@.subrange(prev_start, i as int));
                assert(s@.subrange(prev_start, i as int).push(s@[i as int]) =~= s@.subrange(
                    prev_start,
                    i + 1,
                ));
                assert(spec_split(s@.take(i + 1)) =~~= views_of(parts@).push(
                    s@.subrange(prev_start, i + 1),
                ));
            }
        }
        i = i + 1;
    }
    let last = s.substring_char(start, len).to_owned();
    parts.push(last);
    proof {
        assert(s@.take(len as int) =~= s@);
        assert(views_of(parts@) =~~= spec_split(s@));
    }
    parts
}

/// Join the components from `from` (inclusive) to `to` (exclusive) with the
/// path separator.
pub fn join_range(parts: &Vec<String>, from: usize, to: usize) -> (r: String)
    requires
        from <= to <= parts@.len(),
    ensures
        r@ == spec_join(views_of(parts@).subrange(from as int, to as int)),
{
    let ghost pviews = views_of(parts@);
    let mut r = String::new();
    let mut i: usize = from;
    proof {
        assert(pviews.subrange(from as int, from as int) =~= Seq::<Seq<char>>::empty());
    }
    while i < to
        invariant
            from <= i <= to <= parts@.len(),
            pviews == views_of(parts@),
            r@ == spec_join(pviews.subrange(from as int, i as int)),
        decreases to - i,
    {
        let ghost sub_next = pviews.subrange(from as int, i + 1);
        proof {
            assert(sub_next.drop_last() =~= pviews.subrange(from as int, i as int));
            assert(sub_next.last() == pviews[i as int]);
        }
        if i > from {
            r.append("/");
            proof {
                reveal_strlit("/");
                assert("/"@ =~= seq!['/']);
            }
        }
        r.append(parts[i].as_str());
        proof {
            if i == from {
                assert(sub_next.len() == 1);
                assert(r@ =~= spec_join(sub_next));
            } else {
                assert(r@ =~= spec_join(sub_next));
            }
        }
        i = i + 1;
    }
    r
}

} // verus!
