//! Text-keyed lookup tables and sorted lists of names.
use vstd::prelude::*;
use crate::text::{chars_eq, chars_of, seqs_of, slice_of, strs_of};

verus! {

// ---------------------------------------------------------------------------
// Maps keyed by text
// ---------------------------------------------------------------------------

/// A map from text keys to values; inserting an existing key replaces its
/// value.
pub struct StrMap<V> {
    entries: Vec<(Vec<char>, V)>,
}

/// The map a list of entries stands for; later entries win.
pub open spec fn entries_map<V>(es: Seq<(Vec<char>, V)>) -> Map<Seq<char>, V>
    decreases es.len(),
{
    if es.len() == 0 {
        Map::empty()
    } else {
        entries_map(es.drop_last()).insert(es.last().0@, es.last().1)
    }
}

impl<V> View for StrMap<V> {
    type V = Map<Seq<char>, V>;

    closed spec fn view(&self) -> Map<Seq<char>, V> {
        entries_map(self.entries@)
    }
}

impl<V> StrMap<V> {
    /// An empty map.
    pub fn new() -> (m: Self)
        ensures
            m@ == Map::<Seq<char>, V>::empty(),
    {
        StrMap { entries: Vec::new() }
    }

    /// Sets the value of `key`.
    pub fn insert(&mut self, key: &str, value: V)
        ensures
            final(self)@ == old(self)@.insert(key@, value),
    {
        let k = chars_of(key);
        self.entries.push((k, value));
        assert(self.entries@.drop_last() =~= old(self).entries@);
    }

    /// Sets the value of a key given as characters.
    pub fn insert_chars(&mut self, key: Vec<char>, value: V)
        ensures
            final(self)@ == old(self)@.insert(key@, value),
    {
        let ghost k = key@;
        self.entries.push((key, value));
        assert(self.entries@.drop_last() =~= old(self).entries@);
    }

    /// The value of `key`, if any.
    pub fn get(&self, key: &Vec<char>) -> (r: Option<&V>)
        ensures
            match r {
                Some(v) => self@.contains_key(key@) && self@[key@] == *v,
                None => !self@.contains_key(key@),
            },
    {
        let ghost es = self.entries@;
        let mut i = self.entries.len();
        assert(es.take(i as int) =~= es);
        while i > 0
            invariant
                i <= es.len(),
                es == self.entries@,
                entries_map(es.take(i as int)).contains_key(key@) == entries_map(es).contains_key(
                    key@,
                ),
                entries_map(es).contains_key(key@) ==> entries_map(es.take(i as int))[key@]
                    == entries_map(es)[key@],
            decreases i,
        {
            assert(es.take(i as int).drop_last() =~= es.take(i - 1));
            if chars_eq(&self.entries[i - 1].0, key) {
                return Some(&self.entries[i - 1].1);
            }
            i -= 1;
        }
        None
    }

    /// The value of a key given as a string slice.
    pub fn get_str(&self, key: &str) -> (r: Option<&V>)
        ensures
            match r {
                Some(v) => self@.contains_key(key@) && self@[key@] == *v,
                None => !self@.contains_key(key@),
            },
    {
        let k = chars_of(key);
        self.get(&k)
    }

    /// Whether `key` has a value.
    pub fn contains_key(&self, key: &Vec<char>) -> (r: bool)
        ensures
            r == self@.contains_key(key@),
    {
        self.get(key).is_some()
    }
}

/// The entries of `m` whose value is a one-element list, mapped to that
/// element.
pub open spec fn singles<V>(m: Map<Seq<char>, Vec<V>>) -> Map<Seq<char>, V> {
    Map::new(|k: Seq<char>| m.contains_key(k) && m[k]@.len() == 1, |k: Seq<char>| m[k]@[0])
}

/// A key has a value exactly when some entry is for it.
proof fn lemma_entries_dom<V>(es: Seq<(Vec<char>, V)>, k: Seq<char>)
    ensures
        entries_map(es).contains_key(k) <==> exists|j: int| 0 <= j < es.len() && es[j].0@ == k,
    decreases es.len(),
{
    if es.len() > 0 {
        lemma_entries_dom(es.drop_last(), k);
        if exists|j: int| 0 <= j < es.len() && es[j].0@ == k {
            let j = choose|j: int| 0 <= j < es.len() && es[j].0@ == k;
            if j < es.len() - 1 {
                assert(es.drop_last()[j].0@ == k);
            }
        }
        if exists|j: int| 0 <= j < es.len() - 1 && es.drop_last()[j].0@ == k {
            let j = choose|j: int| 0 <= j < es.len() - 1 && es.drop_last()[j].0@ == k;
            assert(es[j].0@ == k);
        }
    }
}

impl StrMap<Vec<i64>> {
    /// The entries whose value is a one-element list, mapped to that
    /// element; keys with no or several values are left out.
    pub fn single_values(&self) -> (r: StrMap<i64>)
        ensures
            r@ == singles(self@),
    {
        let ghost es = self.entries@;
        let mut r: StrMap<i64> = StrMap::new();
        let mut j: usize = 0;
        while j < self.entries.len()
            invariant
                j <= self.entries.len(),
                es == self.entries@,
                forall|k: Seq<char>| #[trigger] r@.contains_key(k) <==> ((exists|i: int| 0 <= i < j && es[i].0@ == k) && self@.contains_key(k) && self@[k]@.len() == 1),
                forall|k: Seq<char>| #[trigger] r@.contains_key(k) ==> r@[k] == self@[k]@[0],
            decreases self.entries.len() - j,
        {
            let key = &self.entries[j].0;
            proof {
                lemma_entries_dom(es, key@);
            }
            let v = self.get(key).unwrap();
            if v.len() == 1 {
                let x = v[0];
                r.insert_chars(key.clone(), x);
            }
            proof {
                assert forall|k: Seq<char>| #[trigger] r@.contains_key(k) <==> ((exists|i: int| 0 <= i < j + 1 && es[i].0@ == k) && self@.contains_key(k) && self@[k]@.len() == 1) by {
                    if exists|i: int| 0 <= i < j + 1 && es[i].0@ == k {
                        let i = choose|i: int| 0 <= i < j + 1 && es[i].0@ == k;
                        if i < j {
                        } else {
                            assert(k == key@);
                        }
                    }
                    if k == key@ {
                        assert(es[j as int].0@ == k);
                    }
                }
            }
            j += 1;
        }
        proof {
            assert forall|k: Seq<char>| #[trigger] r@.contains_key(k) <==> singles(self@).contains_key(k) by {
                lemma_entries_dom(es, k);
            }
        }
        assert(r@ =~= singles(self@));
        r
    }
}

impl StrMap<Vec<String>> {
    /// The entries whose value is a one-element list, mapped to that
    /// element; keys with no or several values are left out.
    pub fn single_strings(&self) -> (r: StrMap<String>)
        ensures
            r@ == singles(self@),
    {
        let ghost es = self.entries@;
        let mut r: StrMap<String> = StrMap::new();
        let mut j: usize = 0;
        while j < self.entries.len()
            invariant
                j <= self.entries.len(),
                es == self.entries@,
                forall|k: Seq<char>| #[trigger] r@.contains_key(k) <==> ((exists|i: int| 0 <= i < j && es[i].0@ == k) && self@.contains_key(k) && self@[k]@.len() == 1),
                forall|k: Seq<char>| #[trigger] r@.contains_key(k) ==> r@[k] == self@[k]@[0],
            decreases self.entries.len() - j,
        {
            let key = &self.entries[j].0;
            proof {
                lemma_entries_dom(es, key@);
            }
            let v = self.get(key).unwrap();
            if v.len() == 1 {
                let x = v[0].clone();
                r.insert_chars(key.clone(), x);
            }
            proof {
                assert forall|k: Seq<char>| #[trigger] r@.contains_key(k) <==> ((exists|i: int| 0 <= i < j + 1 && es[i].0@ == k) && self@.contains_key(k) && self@[k]@.len() == 1) by {
                    if exists|i: int| 0 <= i < j + 1 && es[i].0@ == k {
                        let i = choose|i: int| 0 <= i < j + 1 && es[i].0@ == k;
                        if i < j {
                        } else {
                            assert(k == key@);
                        }
                    }
                    if k == key@ {
                        assert(es[j as int].0@ == k);
                    }
                }
            }
            j += 1;
        }
        proof {
            assert forall|k: Seq<char>| #[trigger] r@.contains_key(k) <==> singles(self@).contains_key(k) by {
                lemma_entries_dom(es, k);
            }
        }
        assert(r@ =~= singles(self@));
        r
    }
}

// ---------------------------------------------------------------------------
// Lexicographic order
// ---------------------------------------------------------------------------

/// `a` comes strictly before `b` in the order of `String`'s `Ord` (code
/// point by code point, a proper prefix first).
pub open spec fn lex_lt(a: Seq<char>, b: Seq<char>) -> bool
    decreases a.len(),
{
    if a.len() == 0 {
        b.len() > 0
    } else if b.len() == 0 {
        false
    } else if a[0] != b[0] {
        a[0] < b[0]
    } else {
        lex_lt(a.drop_first(), b.drop_first())
    }
}

pub proof fn lemma_lex_irrefl(a: Seq<char>)
    ensures
        !lex_lt(a, a),
    decreases a.len(),
{
    if a.len() > 0 {
        lemma_lex_irrefl(a.drop_first());
    }
}

pub proof fn lemma_lex_trans(a: Seq<char>, b: Seq<char>, c: Seq<char>)
    requires
        lex_lt(a, b),
        lex_lt(b, c),
    ensures
        lex_lt(a, c),
    decreases a.len(),
{
    if a.len() > 0 && b.len() > 0 && c.len() > 0 && a[0] == b[0] && b[0] == c[0] {
        lemma_lex_trans(a.drop_first(), b.drop_first(), c.drop_first());
    }
}

pub proof fn lemma_lex_total(a: Seq<char>, b: Seq<char>)
    ensures
        lex_lt(a, b) || lex_lt(b, a) || a == b,
    decreases a.len(),
{
    if a.len() > 0 && b.len() > 0 && a[0] == b[0] {
        lemma_lex_total(a.drop_first(), b.drop_first());
        if a.drop_first() == b.drop_first() {
            assert(a =~= seq![a[0]] + a.drop_first());
            assert(b =~= seq![b[0]] + b.drop_first());
        }
    } else if a.len() == 0 && b.len() == 0 {
        assert(a =~= b);
    }
}

/// Exec `lex_lt`.
pub fn lex_less(a: &Vec<char>, b: &Vec<char>) -> (r: bool)
    ensures
        r == lex_lt(a@, b@),
{
    let mut i: usize = 0;
    assert(a@.skip(0) =~= a@);
    assert(b@.skip(0) =~= b@);
    while i < a.len() && i < b.len() && a[i] == b[i]
        invariant
            i <= a.len(),
            i <= b.len(),
            lex_lt(a@, b@) == lex_lt(a@.skip(i as int), b@.skip(i as int)),
        decreases a.len() - i,
    {
        assert(a@.skip(i as int).drop_first() =~= a@.skip(i + 1));
        assert(b@.skip(i as int).drop_first() =~= b@.skip(i + 1));
        i += 1;
    }
    if i == a.len() {
        i < b.len()
    } else if i == b.len() {
        false
    } else {
        a[i] < b[i]
    }
}

/// Strictly increasing, hence without repeats.
pub open spec fn sorted_strict(s: Seq<Seq<char>>) -> bool {
    forall|i: int, j: int| 0 <= i < j < s.len() ==> lex_lt(#[trigger] s[i], #[trigger] s[j])
}

/// Inserts `x` into a strictly increasing list, unless it is already there.
pub fn insert_sorted(v: &mut Vec<Vec<char>>, x: Vec<char>)
    requires
        sorted_strict(seqs_of(old(v)@)),
    ensures
        sorted_strict(seqs_of(final(v)@)),
        forall|y: Seq<char>| #[trigger] seqs_of(final(v)@).contains(y) <==> (seqs_of(old(v)@).contains(y) || y == x@),
{
    let ghost s0 = seqs_of(v@);
    let n = v.len();
    let mut i: usize = 0;
    while i < n && lex_less(&v[i], &x)
        invariant
            i <= n,
            n == v.len(),
            s0 == seqs_of(v@),
            forall|j: int| 0 <= j < i ==> lex_lt(#[trigger] s0[j], x@),
        decreases n - i,
    {
        i += 1;
    }
    if i < n && chars_eq(&v[i], &x) {
        assert forall|y: Seq<char>| #[trigger] seqs_of(v@).contains(y) <==> (s0.contains(y) || y == x@) by {
            if y == x@ {
                assert(s0[i as int] == y);
            }
        }
        return ;
    }
    proof {
        if i < n {
            lemma_lex_total(s0[i as int], x@);
        }
    }
    v.insert(i, x);
    let ghost s1 = seqs_of(v@);
    assert(s1 =~= s0.insert(i as int, x@));
    assert forall|a: int, b: int| 0 <= a < b < s1.len() implies lex_lt(#[trigger] s1[a], #[trigger] s1[b]) by {
        if b < i {
        } else if b == i {
        } else if a < i {
            assert(s1[b] == s0[b - 1]);
            if a < i {
                assert(lex_lt(s0[a], x@));
                if b - 1 == i {
                } else {
                    assert(lex_lt(s0[i as int], s0[b - 1]));
                    lemma_lex_trans(x@, s0[i as int], s0[b - 1]);
                }
                lemma_lex_trans(s0[a], x@, s0[b - 1]);
            }
        } else if a == i {
            if b - 1 > i {
                assert(lex_lt(s0[i as int], s0[b - 1]));
                lemma_lex_trans(x@, s0[i as int], s0[b - 1]);
            }
        } else {
            assert(s1[a] == s0[a - 1]);
            assert(s1[b] == s0[b - 1]);
        }
    }
    assert forall|y: Seq<char>| #[trigger] s1.contains(y) <==> (s0.contains(y) || y == x@) by {
        if s1.contains(y) {
            let k = choose|k: int| 0 <= k < s1.len() && s1[k] == y;
            if k < i {
                assert(s0[k] == y);
            } else if k > i {
                assert(s0[k - 1] == y);
            }
        }
        if s0.contains(y) {
            let k = choose|k: int| 0 <= k < s0.len() && s0[k] == y;
            if k < i {
                assert(s1[k] == y);
            } else {
                assert(s1[k + 1] == y);
            }
        }
        if y == x@ {
            assert(s1[i as int] == y);
        }
    }
}


/// Non-decreasing: no element comes after a greater one.
pub open spec fn sorted_le(s: Seq<Seq<char>>) -> bool {
    forall|i: int, j: int| 0 <= i < j < s.len() ==> (#[trigger] s[i] == #[trigger] s[j] || lex_lt(s[i], s[j]))
}

/// Inserts `x` after every element that is not greater than it.
fn insert_le(v: &mut Vec<String>, x: String)
    requires
        sorted_le(strs_of(old(v)@)),
    ensures
        sorted_le(strs_of(final(v)@)),
        strs_of(final(v)@).to_multiset() == strs_of(old(v)@).to_multiset().insert(x@),
{
    let ghost s0 = strs_of(v@);
    let xc = chars_of(x.as_str());
    let n = v.len();
    let mut i: usize = 0;
    while i < n && !lex_less(&xc, &chars_of(v[i].as_str()))
        invariant
            i <= n,
            n == v.len(),
            s0 == strs_of(v@),
            xc@ == x@,
            forall|j: int| 0 <= j < i ==> !lex_lt(x@, #[trigger] s0[j]),
        decreases n - i,
    {
        i += 1;
    }
    let ghost xv = x@;
    v.insert(i, x);
    let ghost s1 = strs_of(v@);
    assert(s1 =~= s0.insert(i as int, xv));
    assert forall|a: int, b: int| 0 <= a < b < s1.len() implies (#[trigger] s1[a] == #[trigger] s1[b] || lex_lt(s1[a], s1[b])) by {
        if b < i {
        } else if b == i {
            lemma_lex_total(xv, s0[a]);
        } else if a == i {
            assert(s1[b] == s0[b - 1]);
            assert(lex_lt(xv, s0[i as int]));
            if b - 1 > i {
                if s0[i as int] != s0[b - 1] {
                    lemma_lex_trans(xv, s0[i as int], s0[b - 1]);
                }
            }
        } else if a < i {
            assert(s1[b] == s0[b - 1]);
        } else {
            assert(s1[a] == s0[a - 1]);
            assert(s1[b] == s0[b - 1]);
        }
    }
    proof {
        vstd::seq_lib::to_multiset_insert(s0, i as int, xv);
    }
}

/// The strings of `xs` in increasing order, repeats kept (`sort`).
pub fn sort_strings(xs: Vec<String>) -> (r: Vec<String>)
    ensures
        sorted_le(strs_of(r@)),
        strs_of(r@).to_multiset() == strs_of(xs@).to_multiset(),
{
    let mut out: Vec<String> = Vec::new();
    let mut i: usize = 0;
    assert(strs_of(out@) =~= strs_of(xs@).take(0));
    while i < xs.len()
        invariant
            i <= xs.len(),
            sorted_le(strs_of(out@)),
            strs_of(out@).to_multiset() == strs_of(xs@).take(i as int).to_multiset(),
        decreases xs.len() - i,
    {
        let ghost before = strs_of(xs@).take(i as int);
        insert_le(&mut out, xs[i].clone());
        proof {
            assert(strs_of(xs@).take(i + 1) =~= before.push(xs@[i as int]@));
            vstd::seq_lib::to_multiset_build(before, xs@[i as int]@);
        }
        i += 1;
    }
    assert(strs_of(xs@).take(xs.len() as int) =~= strs_of(xs@));
    out
}

// ---------------------------------------------------------------------------
// Sets of text, kept in order
// ---------------------------------------------------------------------------

/// A set of texts, held in increasing order.
pub struct StrSet {
    items: Vec<Vec<char>>,
}

impl StrSet {
    #[verifier::type_invariant]
    spec fn inv(&self) -> bool {
        sorted_strict(seqs_of(self.items@))
    }

    /// The elements in increasing order.
    pub closed spec fn elems(&self) -> Seq<Seq<char>> {
        seqs_of(self.items@)
    }

    /// An empty set.
    pub fn new() -> (s: Self)
        ensures
            s@ == Set::<Seq<char>>::empty(),
            s.elems() == Seq::<Seq<char>>::empty(),
    {
        let s = StrSet { items: Vec::new() };
        assert(s.elems() =~= Seq::<Seq<char>>::empty());
        assert(s@ =~= Set::<Seq<char>>::empty());
        s
    }

    /// Adds a text given as characters.
    pub fn insert_chars(&mut self, x: Vec<char>)
        ensures
            final(self)@ == old(self)@.insert(x@),
    {
        proof {
            use_type_invariant(&*self);
        }
        let ghost x0 = x@;
        let mut items: Vec<Vec<char>> = Vec::new();
        std::mem::swap(&mut items, &mut self.items);
        insert_sorted(&mut items, x);
        self.items = items;
        assert(self@ =~= old(self)@.insert(x0));
    }

    /// Adds a text.
    pub fn insert(&mut self, x: &str)
        ensures
            final(self)@ == old(self)@.insert(x@),
    {
        self.insert_chars(chars_of(x));
    }

    /// Whether the set holds `x`.
    pub fn contains(&self, x: &Vec<char>) -> (r: bool)
        ensures
            r == self@.contains(x@),
    {
        let mut i: usize = 0;
        while i < self.items.len()
            invariant
                i <= self.items.len(),
                forall|j: int| 0 <= j < i ==> seqs_of(self.items@)[j] != x@,
            decreases self.items.len() - i,
        {
            if chars_eq(&self.items[i], x) {
                assert(seqs_of(self.items@)[i as int] == x@);
                return true;
            }
            i += 1;
        }
        false
    }

    /// The number of elements.
    pub fn len(&self) -> (n: usize)
        ensures
            n == self.elems().len(),
            sorted_strict(self.elems()),
    {
        proof {
            use_type_invariant(self);
        }
        self.items.len()
    }

    /// The element at index `i` in increasing order.
    pub fn at(&self, i: usize) -> (r: &Vec<char>)
        requires
            i < self.elems().len(),
        ensures
            r@ == self.elems()[i as int],
    {
        &self.items[i]
    }

    /// Whether the set is empty.
    pub fn is_empty(&self) -> (r: bool)
        ensures
            r == (self@ == Set::<Seq<char>>::empty()),
    {
        if self.items.len() == 0 {
            assert(self@ =~= Set::<Seq<char>>::empty());
            true
        } else {
            assert(self@.contains(seqs_of(self.items@)[0]));
            false
        }
    }
}

impl View for StrSet {
    type V = Set<Seq<char>>;

    closed spec fn view(&self) -> Set<Seq<char>> {
        seqs_of(self.items@).to_set()
    }
}

impl StrSet {
    /// The view is the set of the ordered elements.
    pub proof fn lemma_view(&self)
        ensures
            forall|x: Seq<char>| #[trigger] self@.contains(x) <==> self.elems().contains(x),
    {
    }
}


impl StrSet {
    /// Adds every string of `xs`.
    pub fn extend_strs(&mut self, xs: &Vec<String>)
        ensures
            final(self)@ == old(self)@.union(strs_of(xs@).to_set()),
    {
        let ghost s0 = self@;
        let mut i: usize = 0;
        while i < xs.len()
            invariant
                i <= xs.len(),
                self@ == s0.union(strs_of(xs@).take(i as int).to_set()),
            decreases xs.len() - i,
        {
            let ghost before = strs_of(xs@).take(i as int);
            let ghost after = strs_of(xs@).take(i + 1);
            self.insert(xs[i].as_str());
            assert(after =~= before.push(xs@[i as int]@));
            assert(after.to_set() =~= before.to_set().insert(xs@[i as int]@)) by {
                assert forall|x: Seq<char>| after.to_set().contains(x) implies before.to_set().insert(xs@[i as int]@).contains(x) by {
                    let j = choose|j: int| 0 <= j < after.len() && after[j] == x;
                    if j < before.len() {
                        assert(before[j] == x);
                    }
                }
                assert forall|x: Seq<char>| before.to_set().insert(xs@[i as int]@).contains(x) implies after.to_set().contains(x) by {
                    if x == xs@[i as int]@ {
                        assert(after[i as int] == x);
                    } else {
                        let j = choose|j: int| 0 <= j < before.len() && before[j] == x;
                        assert(after[j] == x);
                    }
                }
            }
            assert(self@ =~= s0.union(after.to_set()));
            i += 1;
        }
        assert(strs_of(xs@).take(xs.len() as int) =~= strs_of(xs@));
    }

    /// The set of the texts of `self` and of `other`.
    pub fn union(&self, other: &StrSet) -> (r: StrSet)
        ensures
            r@ == self@.union(other@),
    {
        let mut r = StrSet::new();
        let mut i: usize = 0;
        while i < self.items.len()
            invariant
                i <= self.items.len(),
                r@ == seqs_of(self.items@).take(i as int).to_set(),
            decreases self.items.len() - i,
        {
            let ghost before = seqs_of(self.items@).take(i as int);
            let ghost after = seqs_of(self.items@).take(i + 1);
            r.insert_chars(self.items[i].clone());
            assert(after =~= before.push(self.items@[i as int]@));
            assert(r@ =~= after.to_set()) by {
                assert forall|x: Seq<char>| after.to_set().contains(x) implies r@.contains(x) by {
                    let j = choose|j: int| 0 <= j < after.len() && after[j] == x;
                    if j < before.len() {
                        assert(before[j] == x);
                    }
                }
                assert forall|x: Seq<char>| r@.contains(x) implies after.to_set().contains(x) by {
                    if x == self.items@[i as int]@ {
                        assert(after[i as int] == x);
                    } else {
                        let j = choose|j: int| 0 <= j < before.len() && before[j] == x;
                        assert(after[j] == x);
                    }
                }
            }
            i += 1;
        }
        assert(seqs_of(self.items@).take(self.items.len() as int) =~= seqs_of(self.items@));
        let ghost mid = r@;
        let mut k: usize = 0;
        while k < other.items.len()
            invariant
                k <= other.items.len(),
                mid == self@,
                r@ == mid.union(seqs_of(other.items@).take(k as int).to_set()),
            decreases other.items.len() - k,
        {
            let ghost before = seqs_of(other.items@).take(k as int);
            let ghost after = seqs_of(other.items@).take(k + 1);
            r.insert_chars(other.items[k].clone());
            assert(after =~= before.push(other.items@[k as int]@));
            assert(r@ =~= mid.union(after.to_set())) by {
                assert forall|x: Seq<char>| mid.union(after.to_set()).contains(x) implies r@.contains(x) by {
                    if after.to_set().contains(x) {
                        let j = choose|j: int| 0 <= j < after.len() && after[j] == x;
                        if j < before.len() {
                            assert(before[j] == x);
                        }
                    }
                }
                assert forall|x: Seq<char>| r@.contains(x) implies mid.union(after.to_set()).contains(x) by {
                    if x == other.items@[k as int]@ {
                        assert(after[k as int] == x);
                    } else if !mid.contains(x) {
                        let j = choose|j: int| 0 <= j < before.len() && before[j] == x;
                        assert(after[j] == x);
                    }
                }
            }
            k += 1;
        }
        assert(seqs_of(other.items@).take(other.items.len() as int) =~= seqs_of(other.items@));
        r
    }
}

} // verus!
