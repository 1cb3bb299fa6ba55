use vstd::prelude::*;

use crate::text::extend_chars;
use crate::text::is_space;
use crate::text::space;

verus! {

/// Lines as character sequences.
pub open spec fn lines_view(v: Seq<Vec<char>>) -> Seq<Seq<char>> {
    v.map_values(|l: Vec<char>| l@)
}

/// The lines of `s` from position `i`, given the part `cur` of the current line already read
/// and the lines `acc` before it. Each line keeps its line break; the last one may have none.
pub open spec fn lines_acc(s: Seq<char>, i: int, cur: Seq<char>, acc: Seq<Seq<char>>) -> Seq<
    Seq<char>,
>
    decreases s.len() - i,
{
    if i < 0 || i >= s.len() {
        if cur.len() > 0 {
            acc.push(cur)
        } else {
            acc
        }
    } else if s[i] == '\n' {
        lines_acc(s, i + 1, Seq::empty(), acc.push(cur.push('\n')))
    } else {
        lines_acc(s, i + 1, cur.push(s[i]), acc)
    }
}

/// The lines of `s`, each with its line break.
pub open spec fn split_lines(s: Seq<char>) -> Seq<Seq<char>> {
    lines_acc(s, 0, Seq::empty(), Seq::empty())
}

/// The lines one after the other.
pub open spec fn join_lines(ls: Seq<Seq<char>>) -> Seq<char>
    decreases ls.len(),
{
    if ls.len() == 0 {
        Seq::empty()
    } else {
        join_lines(ls.drop_last()) + ls.last()
    }
}

/// The characters of `l` that are not spaces.
pub open spec fn squeeze(l: Seq<char>) -> Seq<char>
    decreases l.len(),
{
    if l.len() == 0 {
        Seq::empty()
    } else if is_space(l.last()) {
        squeeze(l.drop_last())
    } else {
        squeeze(l.drop_last()).push(l.last())
    }
}

proof fn lemma_lines_push(v: Seq<Vec<char>>, l: Vec<char>)
    ensures
        lines_view(v.push(l)) == lines_view(v).push(l@),
{
    assert(lines_view(v.push(l)) =~= lines_view(v).push(l@));
}

/// The lines of `s`, each with its line break.
pub fn to_lines(s: &Vec<char>) -> (r: Vec<Vec<char>>)
    ensures
        lines_view(r@) == split_lines(s@),
{
    let mut acc: Vec<Vec<char>> = Vec::new();
    let mut cur: Vec<char> = Vec::new();
    let mut i: usize = 0;
    assert(lines_view(acc@) =~= Seq::<Seq<char>>::empty());
    while i < s.len()
        invariant
            i <= s@.len(),
            split_lines(s@) == lines_acc(s@, i as int, cur@, lines_view(acc@)),
        decreases s.len() - i,
    {
        if s[i] == '\n' {
            cur.push('\n');
            proof {
                lemma_lines_push(acc@, cur);
            }
            acc.push(cur);
            cur = Vec::new();
        } else {
            cur.push(s[i]);
        }
        i = i + 1;
    }
    if cur.len() > 0 {
        proof {
            lemma_lines_push(acc@, cur);
        }
        acc.push(cur);
    }
    acc
}

/// The lines one after the other.
pub fn from_lines(ls: &Vec<Vec<char>>) -> (r: Vec<char>)
    ensures
        r@ == join_lines(lines_view(ls@)),
{
    let ghost lv = lines_view(ls@);
    let mut r: Vec<char> = Vec::new();
    let mut i: usize = 0;
    assert(lv.subrange(0, 0) =~= Seq::<Seq<char>>::empty());
    while i < ls.len()
        invariant
            i <= ls@.len(),
            lv == lines_view(ls@),
            r@ == join_lines(lv.subrange(0, i as int)),
        decreases ls.len() - i,
    {
        extend_chars(&mut r, &ls[i]);
        assert(lv.subrange(0, i + 1).drop_last() =~= lv.subrange(0, i as int));
        i = i + 1;
    }
    assert(lv.subrange(0, lv.len() as int) =~= lv);
    r
}

/// The characters of `l` that are not spaces.
pub fn squeezed(l: &Vec<char>) -> (r: Vec<char>)
    ensures
        r@ == squeeze(l@),
{
    let mut r: Vec<char> = Vec::new();
    let mut i: usize = 0;
    assert(l@.subrange(0, 0) =~= Seq::<char>::empty());
    while i < l.len()
        invariant
            i <= l@.len(),
            r@ == squeeze(l@.subrange(0, i as int)),
        decreases l.len() - i,
    {
        assert(l@.subrange(0, i + 1).drop_last() =~= l@.subrange(0, i as int));
        if !space(l[i]) {
            r.push(l[i]);
        }
        i = i + 1;
    }
    assert(l@.subrange(0, l@.len() as int) =~= l@);
    r
}

} // verus!
