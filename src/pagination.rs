//! Cursor pagination: bounded, ascending listings that resume after the last
//! key a caller has seen.
use vstd::prelude::*;
use crate::order::{
    key_less, key_lt, lemma_key_lt_irreflexive, lemma_key_lt_total, lemma_key_lt_transitive,
};

verus! {

/// Page size used when the caller gives none.
pub const DEFAULT_LIMIT: u32 = 10;

/// Largest page size a caller can ask for.
pub const MAX_LIMIT: u32 = 30;

/// The page size that a requested limit stands for: absent means the
/// default, and anything else is clamped into `[1, MAX_LIMIT]`.
pub open spec fn limit_of(limit: Option<u32>) -> nat {
    match limit {
        None => DEFAULT_LIMIT as nat,
        Some(l) => if l < 1 {
            1
        } else if l > MAX_LIMIT {
            MAX_LIMIT as nat
        } else {
            l as nat
        },
    }
}

pub open spec fn opt_view(o: Option<String>) -> Option<Seq<char>> {
    match o {
        None => None,
        Some(s) => Some(s@),
    }
}

/// The identifiers held in a vector of strings.
pub open spec fn views(s: Seq<String>) -> Seq<Seq<char>> {
    s.map_values(|x: String| x@)
}

/// The set of identifiers held in a vector of strings.
pub open spec fn key_set(s: Seq<String>) -> Set<Seq<char>> {
    views(s).to_set()
}

/// `k` lies strictly after the cursor (every key does when there is none).
pub open spec fn after(start: Option<Seq<char>>, k: Seq<char>) -> bool {
    match start {
        None => true,
        Some(s) => key_lt(s, k),
    }
}

/// `r` is the page of at most `n` keys of `keys` that follow `start`: the
/// least such keys, in strictly ascending order, with none skipped.
pub open spec fn is_page(
    keys: Set<Seq<char>>,
    start: Option<Seq<char>>,
    n: nat,
    r: Seq<Seq<char>>,
) -> bool {
    &&& r.len() <= n
    &&& forall|i: int, j: int| 0 <= i < j < r.len() ==> key_lt(#[trigger] r[i], #[trigger] r[j])
    &&& forall|i: int| 0 <= i < r.len() ==> keys.contains(#[trigger] r[i]) && after(start, r[i])
    &&& forall|k: Seq<char>|
        keys.contains(k) && after(start, k) ==> r.contains(k) || (r.len() == n && (n == 0
            || key_lt(r.last(), k)))
}

/// A page that came back short holds every remaining key.
pub proof fn lemma_short_page_is_last(
    keys: Set<Seq<char>>,
    start: Option<Seq<char>>,
    n: nat,
    r: Seq<Seq<char>>,
)
    requires
        is_page(keys, start, n, r),
        r.len() < n,
    ensures
        forall|k: Seq<char>| keys.contains(k) && after(start, k) ==> r.contains(k),
{
}

/// Pages chain: a full page followed by the page that starts after its last
/// key is the page of both sizes together, so resuming from the last key
/// neither repeats nor skips a key.
pub proof fn lemma_pages_chain(
    keys: Set<Seq<char>>,
    start: Option<Seq<char>>,
    n1: nat,
    n2: nat,
    r1: Seq<Seq<char>>,
    r2: Seq<Seq<char>>,
)
    requires
        n1 >= 1,
        is_page(keys, start, n1, r1),
        r1.len() == n1,
        is_page(keys, Some(r1.last()), n2, r2),
    ensures
        is_page(keys, start, n1 + n2, r1 + r2),
{
    let r = r1 + r2;
    let last = r1.last();
    assert forall|i: int, j: int| 0 <= i < j < r.len() implies key_lt(
        #[trigger] r[i],
        #[trigger] r[j],
    ) by {
        if i < r1.len() && j >= r1.len() {
            assert(r[j] == r2[j - r1.len()]);
            if i < r1.len() - 1 {
                assert(key_lt(r1[i], r1[r1.len() - 1]));
                lemma_key_lt_transitive(r1[i], last, r[j]);
            }
        } else if i >= r1.len() {
            assert(r[i] == r2[i - r1.len()]);
            assert(r[j] == r2[j - r1.len()]);
        }
    }
    assert forall|i: int| 0 <= i < r.len() implies keys.contains(#[trigger] r[i]) && after(
        start,
        r[i],
    ) by {
        if i >= r1.len() {
            assert(r[i] == r2[i - r1.len()]);
            assert(keys.contains(r2[i - r1.len()]));
            assert(after(start, last));
            if let Some(s) = start {
                lemma_key_lt_transitive(s, last, r[i]);
            }
        }
    }
    assert forall|k: Seq<char>| keys.contains(k) && after(start, k) implies r.contains(k) || (
    r.len() == n1 + n2 && (n1 + n2 == 0 || key_lt(r.last(), k))) by {
        if r1.contains(k) {
            let i = choose|i: int| 0 <= i < r1.len() && r1[i] == k;
            assert(r[i] == k);
        } else {
            assert(key_lt(last, k));
            if r2.contains(k) {
                let i = choose|i: int| 0 <= i < r2.len() && r2[i] == k;
                assert(r[r1.len() + i] == k);
            } else {
                if n2 > 0 {
                    assert(r.last() == r2.last());
                } else {
                    assert(r.last() == last);
                }
            }
        }
    }
}

proof fn lemma_page_no_smaller(
    keys: Set<Seq<char>>,
    start: Option<Seq<char>>,
    n: nat,
    r1: Seq<Seq<char>>,
    r2: Seq<Seq<char>>,
    i: int,
)
    requires
        is_page(keys, start, n, r1),
        is_page(keys, start, n, r2),
        0 <= i < r1.len(),
        i < r2.len(),
        forall|j: int| 0 <= j < i ==> r1[j] == r2[j],
    ensures
        !key_lt(r1[i], r2[i]),
{
    let a = r1[i];
    let b = r2[i];
    if key_lt(a, b) {
        assert(keys.contains(a) && after(start, a));
        if r2.contains(a) {
            let j = choose|j: int| 0 <= j < r2.len() && r2[j] == a;
            if j < i {
                assert(r1[j] == a);
                assert(key_lt(r1[j], r1[i]));
                lemma_key_lt_irreflexive(a);
            } else if j == i {
                lemma_key_lt_irreflexive(a);
            } else {
                assert(key_lt(r2[i], r2[j]));
                lemma_key_lt_transitive(a, b, a);
                lemma_key_lt_irreflexive(a);
            }
        } else {
            let last = r2.len() - 1;
            if last == i {
                lemma_key_lt_transitive(a, b, a);
            } else {
                assert(key_lt(r2[i], r2[last]));
                lemma_key_lt_transitive(b, r2.last(), a);
                lemma_key_lt_transitive(a, b, a);
            }
            lemma_key_lt_irreflexive(a);
        }
    }
}

proof fn lemma_page_prefix(
    keys: Set<Seq<char>>,
    start: Option<Seq<char>>,
    n: nat,
    r1: Seq<Seq<char>>,
    r2: Seq<Seq<char>>,
    i: int,
)
    requires
        is_page(keys, start, n, r1),
        is_page(keys, start, n, r2),
        0 <= i <= r1.len(),
        i <= r2.len(),
    ensures
        forall|j: int| 0 <= j < i ==> r1[j] == r2[j],
    decreases i,
{
    if i > 0 {
        lemma_page_prefix(keys, start, n, r1, r2, i - 1);
        if r1[i - 1] != r2[i - 1] {
            lemma_key_lt_total(r1[i - 1], r2[i - 1]);
            lemma_page_no_smaller(keys, start, n, r1, r2, i - 1);
            lemma_page_no_smaller(keys, start, n, r2, r1, i - 1);
        }
    }
}

proof fn lemma_page_not_shorter(
    keys: Set<Seq<char>>,
    start: Option<Seq<char>>,
    n: nat,
    r1: Seq<Seq<char>>,
    r2: Seq<Seq<char>>,
)
    requires
        is_page(keys, start, n, r1),
        is_page(keys, start, n, r2),
        forall|j: int| 0 <= j < r1.len() && j < r2.len() ==> r1[j] == r2[j],
    ensures
        r1.len() >= r2.len(),
{
    if r1.len() < r2.len() {
        let m = r1.len() as int;
        let b = r2[m];
        assert(keys.contains(b) && after(start, b));
        if r1.contains(b) {
            let j = choose|j: int| 0 <= j < r1.len() && r1[j] == b;
            assert(r2[j] == b);
            assert(key_lt(r2[j], r2[m]));
            lemma_key_lt_irreflexive(b);
        }
    }
}

/// A page is determined by the keys, the cursor and the size: two lists
/// that both meet `is_page` for them are the same list.
pub proof fn lemma_page_unique(
    keys: Set<Seq<char>>,
    start: Option<Seq<char>>,
    n: nat,
    r1: Seq<Seq<char>>,
    r2: Seq<Seq<char>>,
)
    requires
        is_page(keys, start, n, r1),
        is_page(keys, start, n, r2),
    ensures
        r1 == r2,
{
    let m = if r1.len() < r2.len() { r1.len() as int } else { r2.len() as int };
    lemma_page_prefix(keys, start, n, r1, r2, m);
    lemma_page_not_shorter(keys, start, n, r1, r2);
    lemma_page_not_shorter(keys, start, n, r2, r1);
    assert(r1 =~= r2);
}

/// The number of entries that a page request may return.
pub fn effective_limit(limit: Option<u32>) -> (r: usize)
    ensures
        r == limit_of(limit),
        1 <= r <= MAX_LIMIT,
{
    match limit {
        None => DEFAULT_LIMIT as usize,
        Some(l) => if l < 1 {
            1
        } else if l > MAX_LIMIT {
            MAX_LIMIT as usize
        } else {
            l as usize
        },
    }
}

/// Whether `k` lies strictly after the cursor.
pub fn is_after(cursor: &Option<String>, k: &String) -> (r: bool)
    ensures
        r == after(opt_view(*cursor), k@),
{
    match cursor {
        None => true,
        Some(s) => key_less(s, k),
    }
}

/// The position of the least candidate that lies strictly after the cursor.
pub fn least_after(cands: &Vec<String>, cursor: &Option<String>) -> (r: Option<usize>)
    ensures
        match r {
            None => forall|i: int| 0 <= i < cands@.len() ==> !after(opt_view(*cursor), #[trigger] cands@[i]@),
            Some(j) => j < cands@.len() && after(opt_view(*cursor), cands@[j as int]@) && forall|i: int|
                0 <= i < cands@.len() && after(opt_view(*cursor), #[trigger] cands@[i]@) ==> cands@[i]@
                    == cands@[j as int]@ || key_lt(cands@[j as int]@, cands@[i]@),
        },
{
    let ghost c = opt_view(*cursor);
    let mut best: Option<usize> = None;
    let mut i: usize = 0;
    while i < cands.len()
        invariant
            c == opt_view(*cursor),
            i <= cands@.len(),
            match best {
                None => forall|x: int| 0 <= x < i ==> !after(c, #[trigger] cands@[x]@),
                Some(j) => j < i && after(c, cands@[j as int]@) && forall|x: int|
                    0 <= x < i && after(c, #[trigger] cands@[x]@) ==> cands@[x]@ == cands@[j as int]@
                        || key_lt(cands@[j as int]@, cands@[x]@),
            },
        decreases cands@.len() - i,
    {
        if is_after(cursor, &cands[i]) {
            match best {
                None => {
                    best = Some(i);
                },
                Some(j) => {
                    if key_less(&cands[i], &cands[j]) {
                        proof {
                            assert forall|x: int|
                                0 <= x < i + 1 && after(c, #[trigger] cands@[x]@) implies cands@[x]@
                                == cands@[i as int]@ || key_lt(cands@[i as int]@, cands@[x]@) by {
                                if x < i && cands@[x]@ != cands@[j as int]@ {
                                    lemma_key_lt_transitive(
                                        cands@[i as int]@,
                                        cands@[j as int]@,
                                        cands@[x]@,
                                    );
                                }
                            }
                        }
                        best = Some(i);
                    } else {
                        proof {
                            if cands@[i as int]@ != cands@[j as int]@ {
                                lemma_key_lt_total(cands@[i as int]@, cands@[j as int]@);
                            }
                        }
                    }
                },
            }
        }
        i = i + 1;
    }
    best
}

/// The page of at most `n` candidates that follow `start_after`, ascending.
pub fn page_keys(cands: &Vec<String>, start_after: &Option<String>, n: usize) -> (r: Vec<String>)
    ensures
        is_page(key_set(cands@), opt_view(*start_after), n as nat, views(r@)),
{
    let ghost keys = key_set(cands@);
    let ghost start = opt_view(*start_after);
    let mut r: Vec<String> = Vec::new();
    let mut cursor: Option<String> = start_after.clone();
    while r.len() < n
        invariant
            keys == key_set(cands@),
            start == opt_view(*start_after),
            r@.len() <= n,
            is_page(keys, start, r@.len() as nat, views(r@)),
            r@.len() == 0 ==> opt_view(cursor) == start,
            r@.len() > 0 ==> opt_view(cursor) == Some(views(r@).last()),
        decreases n - r@.len(),
    {
        let ghost old_r = views(r@);
        match least_after(cands, &cursor) {
            None => {
                proof {
                    assert forall|k: Seq<char>| keys.contains(k) && after(start, k) implies old_r.contains(k) by {
                        let x = choose|x: int| 0 <= x < views(cands@).len() && views(cands@)[x] == k;
                        assert(cands@[x]@ == k);
                        if !old_r.contains(k) {
                            assert(after(opt_view(cursor), cands@[x]@));
                        }
                    }
                }
                return r;
            },
            Some(j) => {
                let ghost cj = cands@[j as int]@;
                proof {
                    assert(views(cands@)[j as int] == cj);
                }
                r.push(cands[j].clone());
                cursor = Some(cands[j].clone());
                proof {
                    let nr = views(r@);
                    assert(nr =~= old_r.push(cj));
                    assert(keys.contains(cj));
                    if old_r.len() > 0 {
                        assert(after(start, old_r.last()));
                        if let Some(s) = start {
                            lemma_key_lt_transitive(s, old_r.last(), cj);
                        }
                    }
                    assert forall|a: int, b: int| 0 <= a < b < nr.len() implies key_lt(
                        #[trigger] nr[a],
                        #[trigger] nr[b],
                    ) by {
                        if b == nr.len() - 1 && a < old_r.len() - 1 {
                            assert(key_lt(old_r[a], old_r[old_r.len() - 1]));
                            lemma_key_lt_transitive(nr[a], old_r.last(), cj);
                        }
                    }
                    assert forall|k: Seq<char>| keys.contains(k) && after(start, k) implies nr.contains(k)
                        || (nr.len() == nr.len() && (nr.len() == 0 || key_lt(nr.last(), k))) by {
                        if old_r.contains(k) {
                            let y = choose|y: int| 0 <= y < old_r.len() && old_r[y] == k;
                            assert(nr[y] == k);
                        } else {
                            let x = choose|x: int| 0 <= x < views(cands@).len() && views(cands@)[x] == k;
                            assert(cands@[x]@ == k);
                            assert(after(opt_view(cursor), cands@[x]@) || k == cj);
                            if k == cj {
                                assert(nr[nr.len() - 1] == k);
                            }
                        }
                    }
                }
            },
        }
    }
    r
}

} // verus!
