use vstd::prelude::*;

verus! {

/// Lexicographic order on character sequences, comparing code points
/// (the order of `String`'s `Ord`).
pub open spec fn lex_lt(a: Seq<char>, b: Seq<char>) -> bool
    decreases a.len(),
{
    if a.len() == 0 {
        b.len() > 0
    } else if b.len() == 0 {
        false
    } else if a[0] != b[0] {
        a[0] < b[0]
    } else {
        lex_lt(a.drop_first(), b.drop_first())
    }
}

pub proof fn lemma_lex_irreflexive(a: Seq<char>)
    ensures
        !lex_lt(a, a),
    decreases a.len(),
{
    if a.len() > 0 {
        lemma_lex_irreflexive(a.drop_first());
    }
}

pub proof fn lemma_lex_transitive(a: Seq<char>, b: Seq<char>, c: Seq<char>)
    requires
        lex_lt(a, b),
        lex_lt(b, c),
    ensures
        lex_lt(a, c),
    decreases a.len(),
{
    if a.len() > 0 && b.len() > 0 && c.len() > 0 {
        if a[0] == b[0] && b[0] == c[0] {
            lemma_lex_transitive(a.drop_first(), b.drop_first(), c.drop_first());
        }
    }
}

pub proof fn lemma_lex_total(a: Seq<char>, b: Seq<char>)
    ensures
        a == b || lex_lt(a, b) || lex_lt(b, a),
    decreases a.len(),
{
    if a.len() > 0 && b.len() > 0 {
        if a[0] == b[0] {
            lemma_lex_total(a.drop_first(), b.drop_first());
            if a.drop_first() == b.drop_first() {
                assert(a =~= seq![a[0]] + a.drop_first());
                assert(b =~= seq![b[0]] + b.drop_first());
            }
        }
    } else if a.len() == 0 && b.len() == 0 {
        assert(a =~= b);
    }
}

/// `a < b` lexicographically.
pub fn chars_lt(a: &[char], b: &[char]) -> (r: bool)
    ensures
        r == lex_lt(a@, b@),
{
    let mut i: usize = 0;
    assert(a@.skip(0) =~= a@);
    assert(b@.skip(0) =~= b@);
    while i < a.len() && i < b.len() && a[i] == b[i]
        invariant
            i <= a@.len(),
            i <= b@.len(),
            lex_lt(a@, b@) == lex_lt(a@.skip(i as int), b@.skip(i as int)),
        decreases a@.len() - i,
    {
        proof {
            assert(a@.skip(i as int).drop_first() =~= a@.skip(i + 1));
            assert(b@.skip(i as int).drop_first() =~= b@.skip(i + 1));
        }
        i += 1;
    }
    if i == a.len() {
        i < b.len()
    } else if i == b.len() {
        false
    } else {
        a[i] < b[i]
    }
}

/// The keys by which items are put in order: names ascending, or scores descending.
pub ghost enum KeyView {
    Names(Seq<Seq<char>>),
    ScoresDesc(Seq<i64>),
}

impl KeyView {
    pub open spec fn len(&self) -> nat {
        match self {
            KeyView::Names(v) => v.len(),
            KeyView::ScoresDesc(v) => v.len(),
        }
    }

    /// Item `i` comes strictly before item `j`: by key, then by position.
    pub open spec fn before(&self, i: int, j: int) -> bool {
        match self {
            KeyView::Names(v) => lex_lt(v[i], v[j]) || (v[i] == v[j] && i < j),
            KeyView::ScoresDesc(v) => v[i] > v[j] || (v[i] == v[j] && i < j),
        }
    }

    pub proof fn lemma_strict_total(&self, i: int, j: int, k: int)
        requires
            0 <= i < self.len(),
            0 <= j < self.len(),
            0 <= k < self.len(),
        ensures
            !self.before(i, i),
            i != j ==> (self.before(i, j) || self.before(j, i)),
            self.before(i, j) ==> !self.before(j, i),
            self.before(i, j) && self.before(j, k) ==> self.before(i, k),
    {
        match self {
            KeyView::Names(v) => {
                lemma_lex_irreflexive(v[i]);
                lemma_lex_total(v[i], v[j]);
                if lex_lt(v[i], v[j]) && lex_lt(v[j], v[i]) {
                    lemma_lex_transitive(v[i], v[j], v[i]);
                }
                if lex_lt(v[i], v[j]) && v[j] == v[i] {
                    lemma_lex_irreflexive(v[i]);
                }
                if self.before(i, j) && self.before(j, k) {
                    if lex_lt(v[i], v[j]) && lex_lt(v[j], v[k]) {
                        lemma_lex_transitive(v[i], v[j], v[k]);
                    }
                }
            },
            KeyView::ScoresDesc(v) => {},
        }
    }
}

/// Executable keys for `sorted_order`.
pub enum OrderKeys {
    Names(Vec<Vec<char>>),
    ScoresDesc(Vec<i64>),
}

impl View for OrderKeys {
    type V = KeyView;

    open spec fn view(&self) -> KeyView {
        match self {
            OrderKeys::Names(v) => KeyView::Names(crate::text::views(v@)),
            OrderKeys::ScoresDesc(v) => KeyView::ScoresDesc(v@),
        }
    }
}

impl OrderKeys {

    fn before_exec(&self, i: usize, j: usize) -> (r: bool)
        requires
            i < self@.len(),
            j < self@.len(),
        ensures
            r == self@.before(i as int, j as int),
    {
        match self {
            OrderKeys::Names(v) => {
                proof {
                    assert(crate::text::views(v@)[i as int] == v@[i as int]@);
                    assert(crate::text::views(v@)[j as int] == v@[j as int]@);
                }
                if chars_lt(&v[i], &v[j]) {
                    true
                } else {
                    crate::text::chars_eq(&v[i], &v[j]) && i < j
                }
            },
            OrderKeys::ScoresDesc(v) => v[i] > v[j] || (v[i] == v[j] && i < j),
        }
    }

}

/// `ord` lists each index below `n` exactly once.
pub open spec fn is_permutation(ord: Seq<usize>, n: nat) -> bool {
    &&& ord.len() == n
    &&& forall|k: int| 0 <= k < ord.len() ==> ord[k] < n
    &&& forall|k: int, l: int| 0 <= k < l < ord.len() ==> ord[k] != ord[l]
}

/// `ord` is the arrangement of all item indices in the order of `keys`.
pub open spec fn is_sorted_order(keys: KeyView, ord: Seq<usize>) -> bool {
    &&& is_permutation(ord, keys.len())
    &&& forall|k: int, l: int|
        0 <= k < l < ord.len() ==> keys.before(#[trigger] ord[k] as int, #[trigger] ord[l] as int)
}

/// The indices of all items, arranged by `keys` (ties keep their positions,
/// so the arrangement is that of a stable sort).
pub fn sorted_order(keys: &OrderKeys) -> (ord: Vec<usize>)
    ensures
        is_sorted_order(keys@, ord@),
{
    let n: usize = match keys {
        OrderKeys::Names(v) => v.len(),
        OrderKeys::ScoresDesc(v) => v.len(),
    };
    assert(n == keys@.len());
    let mut ord: Vec<usize> = Vec::new();
    let mut j: usize = 0;
    while j < n
        invariant
            n == keys@.len(),
            j <= n,
            ord@.len() == j,
            forall|k: int| 0 <= k < ord@.len() ==> ord@[k] < j,
            forall|k: int, l: int| 0 <= k < l < ord@.len() ==> ord@[k] != ord@[l],
            forall|k: int, l: int|
                0 <= k < l < ord@.len() ==> keys@.before(#[trigger] ord@[k] as int, #[trigger] ord@[l] as int),
        decreases n - j,
    {
        // find the insertion point: after every element that comes before j
        let mut p: usize = ord.len();
        while p > 0 && keys.before_exec(j, ord[p - 1])
            invariant
                n == keys@.len(),
                j < n,
                p <= ord@.len(),
                ord@.len() == j,
                forall|k: int| 0 <= k < ord@.len() ==> ord@[k] < j,
                forall|k: int| p <= k < ord@.len() ==> keys@.before(j as int, #[trigger] ord@[k] as int),
            decreases p,
        {
            p -= 1;
        }
        let ghost old_ord = ord@;
        proof {
            if p > 0 {
                // ord[p-1] comes before j, and so does everything before it
                let q = old_ord[p - 1] as int;
                keys@.lemma_strict_total(j as int, q, q);
                assert forall|k: int| 0 <= k < p implies keys@.before(#[trigger] old_ord[k] as int, j as int) by {
                    if k < p - 1 {
                        keys@.lemma_strict_total(old_ord[k] as int, q, j as int);
                    }
                }
            }
        }
        ord.insert(p, j);
        proof {
            assert(ord@ =~= old_ord.insert(p as int, j));
            assert forall|k: int, l: int|
                0 <= k < l < ord@.len() implies keys@.before(#[trigger] ord@[k] as int, #[trigger] ord@[l] as int) by {
                if k < p as int && l == p as int {
                } else if k < p as int && l > p as int {
                    assert(ord@[l] == old_ord[l - 1]);
                } else if k == p as int {
                    assert(ord@[l] == old_ord[l - 1]);
                } else if k > p as int {
                    assert(ord@[k] == old_ord[k - 1]);
                    assert(ord@[l] == old_ord[l - 1]);
                } else {
                    assert(ord@[k] == old_ord[k]);
                    assert(ord@[l] == old_ord[l]);
                }
            }
            assert forall|k: int, l: int| 0 <= k < l < ord@.len() implies ord@[k] != ord@[l] by {
                if k < p as int && l == p as int {
                } else if l < p as int {
                } else if k == p as int {
                } else if k < p as int {
                    assert(ord@[l] == old_ord[l - 1]);
                } else {
                    assert(ord@[k] == old_ord[k - 1]);
                    assert(ord@[l] == old_ord[l - 1]);
                }
            }
        }
        j += 1;
    }
    ord
}

/// Two arrangements of the same items by the same keys are equal: the order
/// a stable sort produces is determined by the keys alone.
pub proof fn law_sorted_order_unique(keys: KeyView, a: Seq<usize>, b: Seq<usize>)
    requires
        keys.len() <= usize::MAX,
        is_sorted_order(keys, a),
        is_sorted_order(keys, b),
    ensures
        a == b,
    decreases a.len(),
{
    // The item placed first in `a` comes before every other item, so it is also first in `b`.
    if a.len() > 0 {
        let n = keys.len();
        lemma_permutation_covers(a, n, b[0]);
        lemma_permutation_covers(b, n, a[0]);
        let ia = choose|k: int| 0 <= k < a.len() && a[k] == b[0];
        let ib = choose|k: int| 0 <= k < b.len() && b[k] == a[0];
        if ia > 0 {
            // a[0] before b[0] (in a) and b[0] before a[0] (in b)
            assert(keys.before(a[0] as int, a[ia] as int));
            if ib > 0 {
                assert(keys.before(b[0] as int, b[ib] as int));
                keys.lemma_strict_total(a[0] as int, b[0] as int, b[0] as int);
            }
        }
        assert(a[0] == b[0]);
        lemma_sorted_order_tail(keys, a, b);
        assert forall|k: int| 0 <= k < a.len() implies a[k] == b[k] by {
            if k > 0 {
                assert(a[k] == a.drop_first()[k - 1]);
                assert(b[k] == b.drop_first()[k - 1]);
            }
        }
        assert(a =~= b);
    }
}

pub proof fn lemma_permutation_covers(a: Seq<usize>, n: nat, x: usize)
    requires
        is_permutation(a, n),
        n <= usize::MAX,
        x < n,
    ensures
        exists|k: int| 0 <= k < a.len() && a[k] == x,
{
    // pigeonhole: a lists n distinct values below n
    if !(exists|k: int| 0 <= k < a.len() && a[k] == x) {
        let s = a.to_set();
        a.unique_seq_to_set();
        assert(s.subset_of(Set::new(|v: usize| v < n && v != x)));
        lemma_bounded_set_len(n, x);
        vstd::set_lib::lemma_len_subset(s, Set::new(|v: usize| v < n && v != x));
    }
}

proof fn lemma_bounded_set_len(n: nat, x: usize)
    requires
        x < n,
        n <= usize::MAX + 1,
    ensures
        Set::new(|v: usize| v < n && v != x).finite(),
        Set::new(|v: usize| v < n && v != x).len() == n - 1,
    decreases n,
{
    let s = Set::new(|v: usize| v < n && v != x);
    if n == x + 1 {
        let t = Set::new(|v: usize| v < x);
        assert(s =~= t);
        lemma_below_len(x as nat);
    } else {
        lemma_bounded_set_len((n - 1) as nat, x);
        let prev = Set::new(|v: usize| v < (n - 1) as nat && v != x);
        assert(s =~= prev.insert((n - 1) as usize));
    }
}

proof fn lemma_below_len(n: nat)
    requires
        n <= usize::MAX + 1,
    ensures
        Set::new(|v: usize| v < n).finite(),
        Set::new(|v: usize| v < n).len() == n,
    decreases n,
{
    let s = Set::new(|v: usize| v < n);
    if n == 0 {
        assert(s =~= Set::empty());
    } else {
        lemma_below_len((n - 1) as nat);
        let prev = Set::new(|v: usize| v < (n - 1) as nat);
        assert(s =~= prev.insert((n - 1) as usize));
    }
}

proof fn lemma_sorted_order_tail(keys: KeyView, a: Seq<usize>, b: Seq<usize>)
    requires
        keys.len() <= usize::MAX,
        is_sorted_order(keys, a),
        is_sorted_order(keys, b),
        a.len() > 0,
        a[0] == b[0],
    ensures
        a.drop_first() == b.drop_first(),
    decreases a.len(),
{
    // Both tails are sorted arrangements of the same remaining items; compare them
    // position by position.
    let ta = a.drop_first();
    let tb = b.drop_first();
    assert forall|k: int| 0 <= k < ta.len() implies ta[k] == tb[k] by {
        lemma_same_rank(keys, a, b, k + 1);
    }
    assert(ta =~= tb);
}

/// The item at position `k` in a sorted arrangement is the one with exactly
/// `k` items before it, so both arrangements agree there.
proof fn lemma_same_rank(keys: KeyView, a: Seq<usize>, b: Seq<usize>, k: int)
    requires
        keys.len() <= usize::MAX,
        is_sorted_order(keys, a),
        is_sorted_order(keys, b),
        0 <= k < a.len(),
    ensures
        a[k] == b[k],
    decreases k,
{
    let n = keys.len();
    let x = a[k];
    lemma_permutation_covers(b, n, x);
    let j = choose|j: int| 0 <= j < b.len() && b[j] == x;
    if j != k {
        // wlog compare the items that a and b place before position max(j,k)
        if j < k {
            // b[j..] are all after x in b; a[0..k] are before x in a.
            // the k items a[0..k] must be among b[0..j], which has only j < k slots.
            lemma_rank_count(keys, a, b, k, j);
        } else {
            lemma_rank_count(keys, b, a, j, k);
        }
    }
}

/// An item cannot sit earlier in one sorted arrangement than in another.
proof fn lemma_rank_count(keys: KeyView, a: Seq<usize>, b: Seq<usize>, k: int, j: int)
    requires
        keys.len() <= usize::MAX,
        is_sorted_order(keys, a),
        is_sorted_order(keys, b),
        0 <= j < k < a.len(),
    ensures
        b[j] != a[k],
{
  if b[j] == a[k] {
    let n = keys.len();
    let x = a[k];
    // every a[i] with i < k comes before x, so in b it sits before position j
    let sa = a.subrange(0, k).to_set();
    let sb = b.subrange(0, j).to_set();
    assert forall|v: usize| sa.contains(v) implies sb.contains(v) by {
        let i = choose|i: int| 0 <= i < k && a.subrange(0, k)[i] == v;
        assert(a[i] == v);
        assert(keys.before(v as int, x as int));
        lemma_permutation_covers(b, n, v);
        let m = choose|m: int| 0 <= m < b.len() && b[m] == v;
        if m >= j {
            if m == j {
                keys.lemma_strict_total(v as int, v as int, v as int);
            } else {
                assert(keys.before(b[j] as int, b[m] as int));
                keys.lemma_strict_total(v as int, x as int, v as int);
            }
        }
        assert(b.subrange(0, j)[m] == v);
    }
    a.subrange(0, k).unique_seq_to_set();
    b.subrange(0, j).unique_seq_to_set();
    vstd::set_lib::lemma_len_subset(sa, sb);
  }
}

} // verus!
