//! The soonest-due cache ("first five"): at most five tasks, ordered by
//! execution time, earliest first, and by priority, highest first, among
//! equal times. Ties on both keep their arrival order.

use vstd::prelude::*;

verus! {

/// Most entries the cache holds.
pub const FF_LEN: usize = 5;

/// One cached task: its slot address, execution time, priority and the
/// number of frames of its message.
#[derive(Clone, Copy, Debug, PartialEq, Eq, Structural)]
pub struct FFArray {
    pub id: u32,
    pub execution_time: i32,
    pub priority: u8,
    pub dlc: u8,
}

/// `a` must run before `b`.
pub open spec fn before(a: FFArray, b: FFArray) -> bool {
    a.execution_time < b.execution_time || (a.execution_time == b.execution_time && a.priority
        > b.priority)
}

pub open spec fn sorted(s: Seq<FFArray>) -> bool {
    forall|i: int, j: int| 0 <= i < j < s.len() ==> !before(#[trigger] s[j], #[trigger] s[i])
}

/// Where `x` goes in `s`, searching from `j`: before the first entry it must
/// precede, else at the end.
pub open spec fn insert_pos_from(s: Seq<FFArray>, x: FFArray, j: int) -> int
    decreases s.len() - j,
{
    if j < 0 || j >= s.len() {
        s.len() as int
    } else if before(x, s[j]) {
        j
    } else {
        insert_pos_from(s, x, j + 1)
    }
}

pub open spec fn insert_sorted(s: Seq<FFArray>, x: FFArray) -> Seq<FFArray> {
    s.insert(insert_pos_from(s, x, 0), x)
}

/// The stable order of `s`: each entry in turn inserted after every entry
/// it need not precede.
pub open spec fn sort_spec(s: Seq<FFArray>) -> Seq<FFArray>
    decreases s.len(),
{
    if s.len() == 0 {
        s
    } else {
        insert_sorted(sort_spec(s.drop_last()), s.last())
    }
}

/// The first five of the stable order of `s`.
pub open spec fn first_five_spec(s: Seq<FFArray>) -> Seq<FFArray> {
    let t = sort_spec(s);
    if t.len() <= FF_LEN {
        t
    } else {
        t.take(FF_LEN as int)
    }
}

proof fn lemma_insert_pos(s: Seq<FFArray>, x: FFArray, j: int)
    requires
        0 <= j <= s.len(),
    ensures
        j <= insert_pos_from(s, x, j) <= s.len(),
        forall|i: int| j <= i < insert_pos_from(s, x, j) ==> !before(x, #[trigger] s[i]),
        insert_pos_from(s, x, j) < s.len() ==> before(x, s[insert_pos_from(s, x, j)]),
    decreases s.len() - j,
{
    if j < s.len() && !before(x, s[j]) {
        lemma_insert_pos(s, x, j + 1);
    }
}

proof fn lemma_insert_sorted(s: Seq<FFArray>, x: FFArray)
    requires
        sorted(s),
    ensures
        sorted(insert_sorted(s, x)),
        insert_sorted(s, x).to_multiset() == s.to_multiset().insert(x),
        insert_sorted(s, x).len() == s.len() + 1,
{
    let p = insert_pos_from(s, x, 0);
    lemma_insert_pos(s, x, 0);
    let t = s.insert(p, x);
    assert forall|i: int| p <= i < s.len() implies before(x, #[trigger] s[i]) by {
        assert(!before(s[i], s[p]) || i == p);
    }
    assert forall|i: int, j: int| 0 <= i < j < t.len() implies !before(
        #[trigger] t[j],
        #[trigger] t[i],
    ) by {
        if j < p {
            assert(t[i] == s[i] && t[j] == s[j]);
        } else if j == p {
            assert(t[i] == s[i]);
        } else if i == p {
            assert(t[j] == s[j - 1]);
        } else if i < p {
            assert(t[i] == s[i] && t[j] == s[j - 1]);
        } else {
            assert(t[i] == s[i - 1] && t[j] == s[j - 1]);
        }
    }
    t.to_multiset_ensures();
    assert(t.remove(p) =~= s);
    assert(t.to_multiset().count(x) > 0) by {
        assert(t[p] == x);
        assert(t.contains(x));
    }
    assert(t.to_multiset() =~= s.to_multiset().insert(x));
}

/// The stable order is sorted and holds the same entries.
pub proof fn lemma_sort_spec(s: Seq<FFArray>)
    ensures
        sorted(sort_spec(s)),
        sort_spec(s).to_multiset() == s.to_multiset(),
        sort_spec(s).len() == s.len(),
    decreases s.len(),
{
    if s.len() == 0 {
        s.to_multiset_ensures();
    } else {
        lemma_sort_spec(s.drop_last());
        lemma_insert_sorted(sort_spec(s.drop_last()), s.last());
        s.drop_last().to_multiset_ensures();
        assert(s.drop_last().push(s.last()) == s);
    }
}

/// An already sorted sequence is its own stable order.
pub proof fn lemma_sort_sorted(s: Seq<FFArray>)
    requires
        sorted(s),
    ensures
        sort_spec(s) == s,
    decreases s.len(),
{
    if s.len() > 0 {
        let d = s.drop_last();
        assert(sorted(d));
        lemma_sort_sorted(d);
        lemma_insert_pos(d, s.last(), 0);
        if insert_pos_from(d, s.last(), 0) < d.len() {
            let p = insert_pos_from(d, s.last(), 0);
            assert(s[p] == d[p]);
        }
        assert(d.insert(d.len() as int, s.last()) == s);
    }
}

/// The entries a cache vector holds, in order.
pub uninterp spec fn entries_of(v: heapless::Vec<FFArray, 5>) -> Seq<FFArray>;

/// Relies on `heapless::Vec::new`: an empty vector.
#[verifier::external_body]
fn entries_new() -> (r: heapless::Vec<FFArray, 5>)
    ensures
        entries_of(r) == Seq::<FFArray>::empty(),
{
    heapless::Vec::new()
}

/// Relies on `heapless::Vec::as_slice`: the stored items in order, never more
/// than the capacity.
#[verifier::external_body]
fn entries_view(v: &heapless::Vec<FFArray, 5>) -> (r: &[FFArray])
    ensures
        r@ == entries_of(*v),
        r@.len() <= FF_LEN,
{
    v.as_slice()
}

/// Relies on `heapless::Vec::from_slice`: fails when the slice exceeds the
/// capacity; else a vector holding copies of the slice's items.
#[verifier::external_body]
fn entries_from_slice(s: &[FFArray]) -> (r: Result<heapless::Vec<FFArray, 5>, ()>)
    ensures
        r is Ok <==> s@.len() <= FF_LEN,
        r matches Ok(v) ==> entries_of(v) == s@,
{
    heapless::Vec::from_slice(s)
}

/// Whether `a` must run before `b`.
pub fn runs_before(a: &FFArray, b: &FFArray) -> (r: bool)
    ensures
        r == before(*a, *b),
{
    a.execution_time < b.execution_time || (a.execution_time == b.execution_time && a.priority
        > b.priority)
}

/// Orders tasks by execution time, earliest first, then by priority,
/// highest first; entries equal on both keep their order.
pub fn sort_full_list(inserted_list: &[FFArray]) -> (r: Vec<FFArray>)
    ensures
        r@ == sort_spec(inserted_list@),
{
    let n = inserted_list.len();
    let mut list: Vec<FFArray> = Vec::new();
    let mut i: usize = 0;
    while i < n
        invariant
            n == inserted_list@.len(),
            i <= n,
            list@ == sort_spec(inserted_list@.subrange(0, i as int)),
        decreases n - i,
    {
        let x = inserted_list[i];
        let mut j: usize = 0;
        while j < list.len() && !runs_before(&x, &list[j])
            invariant
                j <= list@.len(),
                insert_pos_from(list@, x, 0) == insert_pos_from(list@, x, j as int),
            decreases list@.len() - j,
        {
            j = j + 1;
        }
        proof {
            let pre = inserted_list@.subrange(0, i as int + 1);
            assert(pre.drop_last() =~= inserted_list@.subrange(0, i as int));
            assert(pre.last() == x);
        }
        list.insert(j, x);
        i = i + 1;
    }
    assert(inserted_list@.subrange(0, n as int) =~= inserted_list@);
    list
}

/// The five soonest-due tasks of a list, in cache order.
pub fn sort_to_ff(inserted_list: &[FFArray]) -> (r: heapless::Vec<FFArray, 5>)
    ensures
        entries_of(r) == first_five_spec(inserted_list@),
{
    let list = sort_full_list(inserted_list);
    let mut head: Vec<FFArray> = Vec::new();
    let mut i: usize = 0;
    while i < list.len() && i < FF_LEN
        invariant
            i <= list@.len(),
            i <= FF_LEN,
            head@ == list@.take(i as int),
        decreases FF_LEN - i,
    {
        head.push(list[i]);
        assert(head@ =~= list@.take(i as int + 1));
        i = i + 1;
    }
    assert(head@ =~= first_five_spec(inserted_list@));
    match entries_from_slice(head.as_slice()) {
        Ok(v) => v,
        Err(_) => entries_new(),
    }
}

/// The cache of the soonest-due tasks.
pub struct FirstFive {
    content: heapless::Vec<FFArray, 5>,
}

impl FirstFive {
    /// The cached entries, soonest first.
    pub closed spec fn view(&self) -> Seq<FFArray> {
        entries_of(self.content)
    }

    /// At most five entries, in cache order.
    pub open spec fn wf(&self) -> bool {
        self.view().len() <= FF_LEN && sorted(self.view())
    }

    /// An empty cache.
    pub fn new() -> (r: FirstFive)
        ensures
            r.view() == Seq::<FFArray>::empty(),
            r.wf(),
    {
        FirstFive { content: entries_new() }
    }

    /// The cached entries, soonest first.
    pub fn content(&self) -> (r: &[FFArray])
        ensures
            r@ == self.view(),
    {
        entries_view(&self.content)
    }

    /// Inserts one task: the cache becomes the first five, in cache order, of
    /// its entries and the new one. Equal entries keep the cached ones first.
    pub fn add(&mut self, id: u32, execution_time: i32, priority: u8, dlc: u8)
        requires
            old(self).wf(),
        ensures
            final(self).wf(),
            final(self).view() == first_five_spec(
                old(self).view().push(FFArray { id, execution_time, priority, dlc }),
            ),
    {
        let current = entries_view(&self.content);
        let mut all: Vec<FFArray> = Vec::new();
        let mut i: usize = 0;
        while i < current.len()
            invariant
                i <= current@.len(),
                all@ == current@.take(i as int),
            decreases current@.len() - i,
        {
            all.push(current[i]);
            assert(all@ =~= current@.take(i as int + 1));
            i = i + 1;
        }
        all.push(FFArray { id, execution_time, priority, dlc });
        assert(all@ =~= old(self).view().push(FFArray { id, execution_time, priority, dlc }));
        self.content = sort_to_ff(all.as_slice());
        proof {
            lemma_first_five(all@);
        }
    }

    /// Replaces the whole cache.
    pub fn update(&mut self, ff: heapless::Vec<FFArray, 5>)
        requires
            sorted(entries_of(ff)),
        ensures
            final(self).view() == entries_of(ff),
            final(self).wf(),
    {
        let _ = entries_view(&ff);
        self.content = ff;
    }

    /// Rebuilds the cache from every Scheduled task in the store.
    pub fn rebuild(&mut self, tasks: &[FFArray])
        ensures
            final(self).view() == first_five_spec(tasks@),
            final(self).wf(),
    {
        let ff = sort_to_ff(tasks);
        proof {
            lemma_first_five(tasks@);
        }
        self.update(ff);
    }

    /// Time the alarm should be set to: the execution time of the first
    /// entry, or -1 (no alarm) for an empty cache.
    pub fn alarm_time(&self) -> (r: i32)
        ensures
            self.view().len() == 0 ==> r == -1,
            self.view().len() > 0 ==> r == self.view()[0].execution_time,
    {
        let c = entries_view(&self.content);
        if c.len() == 0 {
            -1
        } else {
            c[0].execution_time
        }
    }
}

/// The first five of any list are at most five, in cache order.
pub proof fn lemma_first_five(s: Seq<FFArray>)
    ensures
        first_five_spec(s).len() <= FF_LEN,
        sorted(first_five_spec(s)),
{
    lemma_sort_spec(s);
}

/// Inserting into a full cache a task due later than every cached one leaves
/// the cache as it was.
pub proof fn lemma_add_later_keeps(c: Seq<FFArray>, x: FFArray)
    requires
        c.len() == FF_LEN,
        sorted(c),
        forall|i: int| 0 <= i < c.len() ==> (#[trigger] c[i]).execution_time < x.execution_time,
    ensures
        first_five_spec(c.push(x)) == c,
{
    let s = c.push(x);
    assert(s.drop_last() == c);
    lemma_sort_sorted(c);
    lemma_insert_pos(c, x, 0);
    if insert_pos_from(c, x, 0) < c.len() {
        let p = insert_pos_from(c, x, 0);
        assert(c[p].execution_time < x.execution_time);
    }
    assert(c.insert(c.len() as int, x) == s);
    assert(s.take(FF_LEN as int) =~= c);
}

proof fn lemma_insert_pos_prefix(t: Seq<FFArray>, x: FFArray, k: int, j: int)
    requires
        0 <= j <= k <= t.len(),
    ensures
        insert_pos_from(t.take(k), x, j) == if insert_pos_from(t, x, j) < k {
            insert_pos_from(t, x, j)
        } else {
            k
        },
    decreases k - j,
{
    if j < k {
        assert(t.take(k)[j] == t[j]);
        lemma_insert_pos_prefix(t, x, k, j + 1);
    } else {
        lemma_insert_pos(t, x, j);
    }
}

/// Inserting a task into the cached first five of a list gives the first
/// five of the list with that task appended: the cache need not see the
/// rest of the list.
pub proof fn lemma_add_matches_rebuild(s: Seq<FFArray>, x: FFArray)
    ensures
        first_five_spec(first_five_spec(s).push(x)) == first_five_spec(s.push(x)),
{
    let t = sort_spec(s);
    lemma_sort_spec(s);
    let c = first_five_spec(s);
    let k = c.len() as int;
    assert(c == t.take(k));
    assert(sorted(c));
    lemma_sort_sorted(c);
    assert(c.push(x).drop_last() == c);
    assert(s.push(x).drop_last() == s);
    lemma_insert_pos(t, x, 0);
    lemma_insert_pos_prefix(t, x, k, 0);
    let p = insert_pos_from(t, x, 0);
    let lhs = insert_sorted(c, x);
    let rhs = insert_sorted(t, x);
    lemma_insert_sorted(c, x);
    lemma_insert_sorted(t, x);
    if k < FF_LEN {
        assert(k == t.len());
        assert(c =~= t);
    } else {
        assert(lhs.take(FF_LEN as int) =~= rhs.take(FF_LEN as int));
    }
}

/// `a` and `b` are equal on both ordering keys.
pub open spec fn same_key(a: FFArray, b: FFArray) -> bool {
    a.execution_time == b.execution_time && a.priority == b.priority
}

/// The stable order keeps the order of entries that are equal on both
/// keys: for every key, the entries with that key come out in the order
/// they went in.
pub proof fn lemma_sort_stable(s: Seq<FFArray>, k: FFArray)
    ensures
        sort_spec(s).filter(|e: FFArray| same_key(e, k)) == s.filter(|e: FFArray| same_key(e, k)),
    decreases s.len(),
{
    let pred = |e: FFArray| same_key(e, k);
    reveal(Seq::filter);
    if s.len() > 0 {
        let d = s.drop_last();
        let x = s.last();
        lemma_sort_stable(d, k);
        let t = sort_spec(d);
        lemma_sort_spec(d);
        lemma_insert_pos(t, x, 0);
        let p = insert_pos_from(t, x, 0);
        assert forall|i: int| p <= i < t.len() implies before(x, #[trigger] t[i]) by {
            assert(!before(t[i], t[p]) || i == p);
        }
        let a = t.take(p);
        let b = t.skip(p);
        assert(t.insert(p, x) =~= a + (seq![x] + b));
        assert(t =~= a + b);
        Seq::filter_distributes_over_add(a, seq![x] + b, pred);
        Seq::filter_distributes_over_add(seq![x], b, pred);
        Seq::filter_distributes_over_add(a, b, pred);
        assert(seq![x].drop_last() =~= Seq::<FFArray>::empty());
        assert(s.filter(pred) == if pred(x) {
            d.filter(pred).push(x)
        } else {
            d.filter(pred)
        });
        if pred(x) {
            assert(b.all(|y: FFArray| !pred(y))) by {
                assert forall|i: int| 0 <= i < b.len() implies !pred(#[trigger] b[i]) by {
                    assert(b[i] == t[p + i]);
                    assert(before(x, t[p + i]));
                }
            }
            b.lemma_all_neg_filter_empty(pred);
            assert(b.filter(pred) =~= Seq::<FFArray>::empty());
            assert(seq![x].filter(pred) =~= seq![x]);
            assert(a.filter(pred) + (seq![x] + Seq::<FFArray>::empty()) =~= (a.filter(pred)
                + Seq::<FFArray>::empty()).push(x));
        } else {
            let one = seq![x];
            assert(one.last() == x);
            assert(one.drop_last().len() == 0);
            assert(one.drop_last().filter(pred) == one.drop_last());
            assert(one.filter(pred) == one.drop_last().filter(pred));
            assert(one.filter(pred) =~= Seq::<FFArray>::empty());
            assert(a.filter(pred) + (Seq::<FFArray>::empty() + b.filter(pred)) =~= a.filter(pred)
                + b.filter(pred));
        }
    }
}

} // verus!
