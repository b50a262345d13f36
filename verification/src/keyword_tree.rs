//! Keywords grouped by level.
use vstd::prelude::*;
use crate::domain::Keyword;

verus! {

/// Keywords grouped by level; every level other than 1 and 2 counts as 3.
#[derive(Debug)]
pub struct KeywordTree {
    pub level_1: Vec<Keyword>,
    pub level_2: Vec<Keyword>,
    pub level_3: Vec<Keyword>,
}

/// The group a keyword of `level` belongs to.
pub open spec fn group_of(level: i16) -> int {
    if level == 1 {
        1
    } else if level == 2 {
        2
    } else {
        3
    }
}

/// The keywords of one group, in order.
pub open spec fn group_spec(ks: Seq<Keyword>, g: int) -> Seq<Keyword>
    decreases ks.len(),
{
    if ks.len() == 0 {
        Seq::empty()
    } else if group_of(ks.last().level) == g {
        group_spec(ks.drop_last(), g).push(ks.last())
    } else {
        group_spec(ks.drop_last(), g)
    }
}

/// Splits keywords by level, keeping their order within each level.
pub fn partition_keywords(all: Vec<Keyword>) -> (r: KeywordTree)
    ensures
        r.level_1@ == group_spec(all@, 1),
        r.level_2@ == group_spec(all@, 2),
        r.level_3@ == group_spec(all@, 3),
{
    let ghost orig = all@;
    let n = all.len();
    let mut rest = all;
    let mut level_1: Vec<Keyword> = Vec::new();
    let mut level_2: Vec<Keyword> = Vec::new();
    let mut level_3: Vec<Keyword> = Vec::new();
    let mut i: usize = 0;
    assert(orig.take(0) =~= Seq::<Keyword>::empty());
    assert(rest@ =~= orig.skip(0));
    while i < n
        invariant
            i <= n,
            n == orig.len(),
            rest@ == orig.skip(i as int),
            level_1@ == group_spec(orig.take(i as int), 1),
            level_2@ == group_spec(orig.take(i as int), 2),
            level_3@ == group_spec(orig.take(i as int), 3),
        decreases n - i,
    {
        let kw = rest.remove(0);
        proof {
            assert(kw == orig[i as int]);
            assert(rest@ =~= orig.skip(i + 1));
            assert(orig.take(i + 1).drop_last() =~= orig.take(i as int));
            assert(orig.take(i + 1).last() == kw);
        }
        if kw.level == 1 {
            level_1.push(kw);
        } else if kw.level == 2 {
            level_2.push(kw);
        } else {
            level_3.push(kw);
        }
        i += 1;
    }
    assert(orig.take(n as int) =~= orig);
    KeywordTree { level_1, level_2, level_3 }
}

/// Every keyword lands in exactly one group.
pub proof fn lemma_groups_cover(ks: Seq<Keyword>)
    ensures
        group_spec(ks, 1).len() + group_spec(ks, 2).len() + group_spec(ks, 3).len() == ks.len(),
    decreases ks.len(),
{
    if ks.len() > 0 {
        lemma_groups_cover(ks.drop_last());
    }
}

} // verus!
