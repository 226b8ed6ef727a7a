//! Lists of strings written in one text with a separator between them, as
//! `str::split` reads them.

use vstd::prelude::*;
use crate::decimal::{chars_of, push_char};

verus! {

/// The views of a sequence of strings.
pub open spec fn views(v: Seq<String>) -> Seq<Seq<char>> {
    v.map_values(|s: String| s@)
}

/// The pieces written one after another with `sep` between each two.
pub open spec fn join(parts: Seq<Seq<char>>, sep: char) -> Seq<char>
    decreases parts.len(),
{
    if parts.len() == 0 {
        Seq::<char>::empty()
    } else if parts.len() == 1 {
        parts[0]
    } else {
        join(parts.drop_last(), sep).push(sep) + parts.last()
    }
}

/// No piece holds the separator.
pub open spec fn free_of(parts: Seq<Seq<char>>, sep: char) -> bool {
    forall|i: int| 0 <= i < parts.len() ==> !(#[trigger] parts[i]).contains(sep)
}

proof fn lemma_join_extend(parts: Seq<Seq<char>>, last: Seq<char>, c: char, sep: char)
    ensures
        join(parts.push(last.push(c)), sep) == join(parts.push(last), sep).push(c),
{
    assert(parts.push(last.push(c)).drop_last() =~= parts);
    assert(parts.push(last).drop_last() =~= parts);
    if parts.len() > 0 {
        assert(join(parts, sep).push(sep) + last.push(c) =~= (join(parts, sep).push(sep) + last).push(c));
    }
}

proof fn lemma_join_new_piece(parts: Seq<Seq<char>>, last: Seq<char>, sep: char)
    ensures
        join(parts.push(last).push(Seq::<char>::empty()), sep) == join(parts.push(last), sep).push(sep),
{
    let p = parts.push(last).push(Seq::<char>::empty());
    assert(p.drop_last() =~= parts.push(last));
    assert(join(parts.push(last), sep).push(sep) + Seq::<char>::empty() =~= join(parts.push(last), sep).push(sep));
}

/// Splits `s` at every `,`, as `s.split(",")` does: the pieces hold no comma
/// and, joined with commas, give `s` back (so there is one piece more than
/// there are commas, and an empty text gives one empty piece).
pub fn split_commas(s: &str) -> (parts: Vec<String>)
    ensures
        parts@.len() >= 1,
        free_of(views(parts@), ','),
        join(views(parts@), ',') == s@,
{
    let chars = chars_of(s);
    let mut parts: Vec<String> = Vec::new();
    let mut cur = String::new();
    let mut i: usize = 0;
    assert(join(views(parts@).push(cur@), ',') =~= chars@.take(0));
    while i < chars.len()
        invariant
            i <= chars@.len(),
            chars@ == s@,
            free_of(views(parts@), ','),
            !cur@.contains(','),
            join(views(parts@).push(cur@), ',') == chars@.take(i as int),
        decreases chars@.len() - i,
    {
        let c = chars[i];
        let ghost before = views(parts@);
        let ghost cur_before = cur@;
        assert(chars@.take(i + 1) =~= chars@.take(i as int).push(c));
        if c == ',' {
            parts.push(cur);
            cur = String::new();
            assert(views(parts@) =~= before.push(cur_before));
            proof {
                lemma_join_new_piece(before, cur_before, ',');
            }
            assert(views(parts@).push(cur@) =~= before.push(cur_before).push(Seq::<char>::empty()));
        } else {
            push_char(&mut cur, c);
            proof {
                lemma_join_extend(before, cur_before, c, ',');
                assert forall|k: int| 0 <= k < cur@.len() implies cur@[k] != ',' by {
                    if k < cur_before.len() {
                        assert(cur@[k] == cur_before[k]);
                    }
                }
            }
        }
        i = i + 1;
    }
    let ghost before = views(parts@);
    parts.push(cur);
    assert(views(parts@) =~= before.push(cur@));
    assert(chars@.take(chars@.len() as int) =~= s@);
    parts
}

proof fn lemma_join_len(parts: Seq<Seq<char>>, sep: char)
    requires
        parts.len() >= 1,
    ensures
        join(parts, sep).len() >= parts.last().len(),
        join(parts, sep).subrange(join(parts, sep).len() - parts.last().len(), join(parts, sep).len() as int) == parts.last(),
        parts.len() >= 2 ==> join(parts, sep)[join(parts, sep).len() - parts.last().len() - 1] == sep,
        parts.len() >= 2 ==> join(parts, sep).subrange(0, join(parts, sep).len() - parts.last().len() - 1) == join(parts.drop_last(), sep),
{
    let j = join(parts, sep);
    if parts.len() == 1 {
        assert(j.subrange(0, j.len() as int) =~= j);
    } else {
        let front = join(parts.drop_last(), sep).push(sep);
        assert(j == front + parts.last());
        assert(j.subrange(front.len() as int, j.len() as int) =~= parts.last());
        assert(j.subrange(0, front.len() - 1) =~= join(parts.drop_last(), sep));
    }
}

/// Splitting is well defined: two lists of pieces that hold no separator
/// and give the same text when joined are the same list. So `split_commas`
/// has one possible result for each text.
pub proof fn lemma_join_injective(p: Seq<Seq<char>>, q: Seq<Seq<char>>, sep: char)
    requires
        p.len() >= 1,
        q.len() >= 1,
        free_of(p, sep),
        free_of(q, sep),
        join(p, sep) == join(q, sep),
    ensures
        p == q,
    decreases p.len() + q.len(),
{
    let j = join(p, sep);
    lemma_join_len(p, sep);
    lemma_join_len(q, sep);
    let lp = p.last();
    let lq = q.last();
    assert(!lp.contains(sep)) by { assert(lp == p[p.len() - 1]); }
    assert(!lq.contains(sep)) by { assert(lq == q[q.len() - 1]); }
    if p.len() >= 2 && lp.len() < lq.len() {
        let k = j.len() - lp.len() - 1;
        assert(j.subrange(j.len() - lq.len(), j.len() as int)[k - (j.len() - lq.len())] == j[k]);
        assert(lq[k - (j.len() - lq.len())] == sep);
        assert(false);
    }
    if q.len() >= 2 && lq.len() < lp.len() {
        let k = j.len() - lq.len() - 1;
        assert(j.subrange(j.len() - lp.len(), j.len() as int)[k - (j.len() - lp.len())] == j[k]);
        assert(lp[k - (j.len() - lp.len())] == sep);
        assert(false);
    }
    if p.len() == 1 && q.len() >= 2 {
        let k = j.len() - lq.len() - 1;
        assert(p[0] == lp);
        assert(lp[k] == sep);
        assert(false);
    }
    if q.len() == 1 && p.len() >= 2 {
        let k = j.len() - lp.len() - 1;
        assert(q[0] == lq);
        assert(lq[k] == sep);
        assert(false);
    }
    if p.len() == 1 && q.len() == 1 {
        assert(p =~= q);
    } else {
        assert(lp.len() == lq.len());
        assert(lp == lq);
        let pp = p.drop_last();
        let qq = q.drop_last();
        assert(free_of(pp, sep)) by {
            assert forall|i: int| 0 <= i < pp.len() implies !(#[trigger] pp[i]).contains(sep) by {
                assert(pp[i] == p[i]);
            }
        }
        assert(free_of(qq, sep)) by {
            assert forall|i: int| 0 <= i < qq.len() implies !(#[trigger] qq[i]).contains(sep) by {
                assert(qq[i] == q[i]);
            }
        }
        lemma_join_injective(pp, qq, sep);
        assert(p =~= pp.push(lp));
        assert(q =~= qq.push(lq));
    }
}

/// Whether `v` holds a string equal to `s`.
pub(crate) fn contains_string(v: &Vec<String>, s: &String) -> (r: bool)
    ensures
        r == views(v@).contains(s@),
{
    let mut i: usize = 0;
    while i < v.len()
        invariant
            i <= v@.len(),
            forall|j: int| 0 <= j < i ==> v@[j]@ != s@,
        decreases v@.len() - i,
    {
        if v[i] == *s {
            assert(views(v@)[i as int] == s@);
            return true;
        }
        i = i + 1;
    }
    proof {
        if views(v@).contains(s@) {
            let k = choose|k: int| 0 <= k < views(v@).len() && views(v@)[k] == s@;
            assert(v@[k]@ == s@);
        }
    }
    false
}

} // verus!
