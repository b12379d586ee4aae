//! The order in which the lists of the GUI are shown: newest first, and
//! among items created at the same time, by id.
use vstd::prelude::*;

verus! {

/// What a list entry is ordered by: the time it was created (seconds since the
/// Unix epoch and nanoseconds within the second) and its id.
#[derive(Debug)]
pub struct ListKey {
    pub created_secs: i64,
    pub created_nanos: u32,
    pub id: String,
}

/// A key as a mathematical value.
pub open spec fn key_view(k: ListKey) -> (i64, u32, Seq<char>) {
    (k.created_secs, k.created_nanos, k.id@)
}

/// `a` comes before `b` in the lexicographic order of characters (which is
/// the byte order of their UTF-8 encodings, that `String` compares by).
pub open spec fn text_less(a: Seq<char>, b: Seq<char>) -> bool
    decreases a.len(),
{
    if a.len() == 0 {
        b.len() > 0
    } else if b.len() == 0 {
        false
    } else if (a[0] as u32) < (b[0] as u32) {
        true
    } else if a[0] == b[0] {
        text_less(a.drop_first(), b.drop_first())
    } else {
        false
    }
}

/// `a` is shown before `b`: it was created later, or at the same time with a
/// smaller id.
pub open spec fn shown_before(a: (i64, u32, Seq<char>), b: (i64, u32, Seq<char>)) -> bool {
    a.0 > b.0 || (a.0 == b.0 && (a.1 > b.1 || (a.1 == b.1 && text_less(a.2, b.2))))
}

proof fn lemma_text_less_total(a: Seq<char>, b: Seq<char>)
    ensures
        text_less(a, b) || text_less(b, a) || a == b,
        !(text_less(a, b) && text_less(b, a)),
    decreases a.len(),
{
    if a.len() > 0 && b.len() > 0 {
        if a[0] == b[0] {
            lemma_text_less_total(a.drop_first(), b.drop_first());
            if a.drop_first() == b.drop_first() {
                assert(a =~= seq![a[0]] + a.drop_first());
                assert(b =~= seq![b[0]] + b.drop_first());
            }
        } else {
            vstd::utf8::char_u32_cast(a[0], a[0] as u32);
            vstd::utf8::char_u32_cast(b[0], b[0] as u32);
        }
    } else if a.len() == 0 && b.len() == 0 {
        assert(a =~= b);
    }
}

proof fn lemma_text_less_transitive(a: Seq<char>, b: Seq<char>, c: Seq<char>)
    requires
        text_less(a, b),
        text_less(b, c),
    ensures
        text_less(a, c),
    decreases a.len(),
{
    if a.len() > 0 && b.len() > 0 && c.len() > 0 && a[0] == b[0] && b[0] == c[0] {
        lemma_text_less_transitive(a.drop_first(), b.drop_first(), c.drop_first());
    }
}

proof fn lemma_order(a: (i64, u32, Seq<char>), b: (i64, u32, Seq<char>), c: (i64, u32, Seq<char>))
    ensures
        shown_before(a, b) || shown_before(b, a) || a == b,
        !(shown_before(a, b) && shown_before(b, a)),
        shown_before(a, b) && shown_before(b, c) ==> shown_before(a, c),
{
    lemma_text_less_total(a.2, b.2);
    if shown_before(a, b) && shown_before(b, c) && a.0 == b.0 && b.0 == c.0 && a.1 == b.1 && b.1
        == c.1 {
        lemma_text_less_transitive(a.2, b.2, c.2);
    }
}

/// Whether `a` comes before `b` in the order of characters.
fn text_less_exec(a: &str, b: &str) -> (r: bool)
    ensures
        r == text_less(a@, b@),
{
    let n = a.unicode_len();
    let m = b.unicode_len();
    let mut i: usize = 0;
    assert(a@.skip(0) =~= a@);
    assert(b@.skip(0) =~= b@);
    while i < n && i < m && a.get_char(i) == b.get_char(i)
        invariant
            i <= n,
            i <= m,
            n == a@.len(),
            m == b@.len(),
            text_less(a@, b@) == text_less(a@.skip(i as int), b@.skip(i as int)),
        decreases n - i,
    {
        assert(a@.skip(i as int).drop_first() =~= a@.skip(i as int + 1));
        assert(b@.skip(i as int).drop_first() =~= b@.skip(i as int + 1));
        i = i + 1;
    }
    if i == n {
        i < m
    } else if i == m {
        false
    } else {
        (a.get_char(i) as u32) < (b.get_char(i) as u32)
    }
}

/// Whether the entry with key `a` is shown before the one with key `b`.
pub fn is_shown_before(a: &ListKey, b: &ListKey) -> (r: bool)
    ensures
        r == shown_before(key_view(*a), key_view(*b)),
{
    if a.created_secs != b.created_secs {
        a.created_secs > b.created_secs
    } else if a.created_nanos != b.created_nanos {
        a.created_nanos > b.created_nanos
    } else {
        text_less_exec(a.id.as_str(), b.id.as_str())
    }
}

/// `p` lists the indices `0..n`, each once.
pub open spec fn is_permutation(p: Seq<usize>, n: nat) -> bool {
    &&& p.len() == n
    &&& forall|i: int| 0 <= i < p.len() ==> #[trigger] p[i] < n
    &&& forall|i: int, j: int| 0 <= i < j < p.len() ==> p[i] != p[j]
}

/// Listing `keys` in the order `p` shows no entry before one that is shown
/// before it, and keeps entries with equal keys in the order they came in.
pub open spec fn is_display_order(keys: Seq<ListKey>, p: Seq<usize>) -> bool {
    &&& forall|i: int, j: int|
        0 <= i < j < p.len() ==> !shown_before(
            key_view(#[trigger] keys[p[j] as int]),
            key_view(#[trigger] keys[p[i] as int]),
        )
    &&& forall|i: int, j: int|
        0 <= i < j < p.len() && key_view(#[trigger] keys[p[i] as int]) == key_view(
            #[trigger] keys[p[j] as int],
        ) ==> p[i] < p[j]
}

/// The order in which a list is shown: newest first, ties broken by id, and
/// entries with equal keys in the order the engine gave them (a stable sort,
/// as `sort_by` is). The result gives, for each place in the list shown, the
/// index of the entry in `keys`.
pub fn newest_first(keys: &Vec<ListKey>) -> (p: Vec<usize>)
    ensures
        is_permutation(p@, keys@.len()),
        is_display_order(keys@, p@),
{
    let n = keys.len();
    let mut p: Vec<usize> = Vec::new();
    let mut k: usize = 0;
    while k < n
        invariant
            k <= n,
            n == keys@.len(),
            is_permutation(p@, k as nat),
            is_display_order(keys@, p@),
        decreases n - k,
    {
        let mut pos: usize = 0;
        while pos < p.len() && !is_shown_before(&keys[k], &keys[p[pos]])
            invariant
                pos <= p@.len(),
                k < n,
                n == keys@.len(),
                is_permutation(p@, k as nat),
                forall|j: int|
                    0 <= j < pos ==> !shown_before(
                        key_view(keys@[k as int]),
                        key_view(#[trigger] keys@[p@[j] as int]),
                    ),
            decreases p@.len() - pos,
        {
            pos = pos + 1;
        }
        let ghost old_p = p@;
        proof {
            assert forall|j: int| pos <= j < old_p.len() implies !shown_before(
                key_view(#[trigger] keys@[old_p[j] as int]),
                key_view(keys@[k as int]),
            ) && key_view(keys@[old_p[j] as int]) != key_view(keys@[k as int]) by {
                let a = key_view(keys@[k as int]);
                let b = key_view(keys@[old_p[pos as int] as int]);
                let c = key_view(keys@[old_p[j] as int]);
                lemma_order(c, a, b);
                lemma_order(a, b, c);
                if j > pos {
                    assert(!shown_before(c, b));
                }
            }
        }
        p.insert(pos, k);
        proof {
            assert forall|i: int| 0 <= i < p@.len() implies #[trigger] p@[i] < k + 1 by {
                if i < pos {
                    assert(p@[i] == old_p[i]);
                } else if i > pos {
                    assert(p@[i] == old_p[i - 1]);
                }
            }
            assert forall|i: int, j: int| 0 <= i < j < p@.len() implies p@[i] != p@[j] by {
                if i < pos && j < pos {
                    assert(p@[i] == old_p[i] && p@[j] == old_p[j]);
                } else if i < pos && j == pos {
                    assert(p@[i] == old_p[i]);
                } else if i < pos && j > pos {
                    assert(p@[i] == old_p[i] && p@[j] == old_p[j - 1]);
                } else if i == pos {
                    assert(p@[j] == old_p[j - 1]);
                } else {
                    assert(p@[i] == old_p[i - 1] && p@[j] == old_p[j - 1]);
                }
            }
            assert forall|i: int, j: int| 0 <= i < j < p@.len() implies !shown_before(
                key_view(#[trigger] keys@[p@[j] as int]),
                key_view(#[trigger] keys@[p@[i] as int]),
            ) by {
                let a = key_view(keys@[k as int]);
                if i < pos && j < pos {
                    assert(p@[i] == old_p[i] && p@[j] == old_p[j]);
                } else if i < pos && j == pos {
                    assert(p@[i] == old_p[i]);
                    let c = key_view(keys@[old_p[i] as int]);
                    lemma_order(a, c, a);
                } else if i < pos && j > pos {
                    assert(p@[i] == old_p[i] && p@[j] == old_p[j - 1]);
                } else if i == pos {
                    assert(p@[j] == old_p[j - 1]);
                } else {
                    assert(p@[i] == old_p[i - 1] && p@[j] == old_p[j - 1]);
                }
            }
            assert forall|i: int, j: int|
                0 <= i < j < p@.len() && key_view(#[trigger] keys@[p@[i] as int]) == key_view(
                    #[trigger] keys@[p@[j] as int],
                ) implies p@[i] < p@[j] by {
                if i < pos && j < pos {
                    assert(p@[i] == old_p[i] && p@[j] == old_p[j]);
                } else if i < pos && j == pos {
                    assert(p@[i] == old_p[i]);
                } else if i < pos && j > pos {
                    assert(p@[i] == old_p[i] && p@[j] == old_p[j - 1]);
                } else if i == pos {
                    assert(p@[j] == old_p[j - 1]);
                } else {
                    assert(p@[i] == old_p[i - 1] && p@[j] == old_p[j - 1]);
                }
            }
        }
        k = k + 1;
    }
    p
}


/// `items` listed in the order `p` gives: the entry at place `k` is item `p[k]`.
pub open spec fn arranged<T>(items: Seq<T>, p: Seq<usize>) -> Seq<T> {
    p.map_values(|i: usize| items[i as int])
}

/// `items` in the order in which the list shows them, `keys` holding the key
/// of each item: newest first, ties broken by id, entries with equal keys in
/// the order they came in (see `newest_first`).
pub fn in_display_order<T>(items: Vec<T>, keys: &Vec<ListKey>) -> (r: Vec<T>)
    requires
        items@.len() == keys@.len(),
    ensures
        exists|p: Seq<usize>|
            is_permutation(p, keys@.len()) && is_display_order(keys@, p) && r@ == arranged(
                items@,
                p,
            ),
{
    let ghost orig = items@;
    let n = items.len();
    let p = newest_first(keys);
    let mut slots: Vec<Option<T>> = Vec::new();
    let mut k: usize = 0;
    while k < n
        invariant
            k <= n,
            slots@.len() == k,
        decreases n - k,
    {
        slots.push(None);
        k = k + 1;
    }
    let mut items = items;
    let mut i: usize = n;
    while i > 0
        invariant
            i <= n,
            n == orig.len(),
            items@ == orig.take(i as int),
            slots@.len() == n,
            forall|j: int| i <= j < n ==> slots@[j] == Some(orig[j]),
        decreases i,
    {
        i = i - 1;
        assert(orig.take(i as int + 1).drop_last() =~= orig.take(i as int));
        assert(items@.last() == orig[i as int]);
        let x = items.pop().unwrap();
        slots.set(i, Some(x));
    }
    let mut r: Vec<T> = Vec::new();
    let mut k: usize = 0;
    while k < n
        invariant
            k <= n,
            n == orig.len(),
            is_permutation(p@, n as nat),
            slots@.len() == n,
            r@ == arranged(orig, p@.take(k as int)),
            forall|j: int|
                0 <= j < n && !(exists|m: int| 0 <= m < k && #[trigger] p@[m] as int == j)
                    ==> slots@[j] == Some(orig[j]),
        decreases n - k,
    {
        let at = p[k];
        assert(!(exists|m: int| 0 <= m < k && #[trigger] p@[m] as int == at as int)) by {
            assert forall|m: int| 0 <= m < k implies #[trigger] p@[m] as int != at as int by {
                assert(p@[m] != p@[k as int]);
            }
        }
        let mut taken: Option<T> = None;
        slots.set_and_swap(at, &mut taken);
        let ghost r0 = r@;
        r.push(taken.unwrap());
        assert(p@.take(k as int + 1) =~= p@.take(k as int).push(at));
        assert(r@ =~= arranged(orig, p@.take(k as int + 1)));
        assert forall|j: int|
            0 <= j < n && !(exists|m: int| 0 <= m < k + 1 && #[trigger] p@[m] as int == j)
                implies slots@[j] == Some(orig[j]) by {
            if j == at as int {
                assert(p@[k as int] as int == j);
            } else {
                if exists|m: int| 0 <= m < k && #[trigger] p@[m] as int == j {
                    let m = choose|m: int| 0 <= m < k && #[trigger] p@[m] as int == j;
                    assert(0 <= m < k + 1 && p@[m] as int == j);
                }
            }
        }
        k = k + 1;
    }
    assert(p@.take(n as int) =~= p@);
    r
}


/// Law: a list shown in display order runs from the newest entry to the
/// oldest: along it, the creation times never grow, and among entries created
/// in the same second the nanoseconds never grow.
pub proof fn lemma_display_order_is_newest_first(keys: Seq<ListKey>, p: Seq<usize>)
    requires
        is_permutation(p, keys.len()),
        is_display_order(keys, p),
    ensures
        forall|i: int, j: int|
            0 <= i < j < p.len() ==> (#[trigger] keys[p[i] as int]).created_secs >= (
            #[trigger] keys[p[j] as int]).created_secs,
        forall|i: int, j: int|
            0 <= i < j < p.len() && (#[trigger] keys[p[i] as int]).created_secs == (
            #[trigger] keys[p[j] as int]).created_secs ==> keys[p[i] as int].created_nanos
                >= keys[p[j] as int].created_nanos,
{
    assert forall|i: int, j: int| 0 <= i < j < p.len() implies (#[trigger] keys[p[i] as int]).created_secs
        >= (#[trigger] keys[p[j] as int]).created_secs by {
        assert(!shown_before(key_view(keys[p[j] as int]), key_view(keys[p[i] as int])));
    }
    assert forall|i: int, j: int|
        0 <= i < j < p.len() && (#[trigger] keys[p[i] as int]).created_secs == (
        #[trigger] keys[p[j] as int]).created_secs implies keys[p[i] as int].created_nanos
        >= keys[p[j] as int].created_nanos by {
        assert(!shown_before(key_view(keys[p[j] as int]), key_view(keys[p[i] as int])));
    }
}

/// Law: among entries created at the same time, ids are ordered by their
/// characters: an id that is a proper prefix of another comes first, and at
/// the first character where two ids differ, the smaller character comes
/// first.
pub proof fn lemma_ids_in_character_order(p: Seq<char>, q: Seq<char>, c: char, d: char, x: Seq<char>, y: Seq<char>)
    ensures
        q.len() > 0 ==> text_less(p, p + q),
        (c as u32) < (d as u32) ==> text_less(p + seq![c] + x, p + seq![d] + y),
    decreases p.len(),
{
    if p.len() > 0 {
        lemma_ids_in_character_order(p.drop_first(), q, c, d, x, y);
        assert((p + q).drop_first() =~= p.drop_first() + q);
        assert((p + seq![c] + x).drop_first() =~= p.drop_first() + seq![c] + x);
        assert((p + seq![d] + y).drop_first() =~= p.drop_first() + seq![d] + y);
        assert((p + q)[0] == p[0]);
        assert((p + seq![c] + x)[0] == p[0]);
        assert((p + seq![d] + y)[0] == p[0]);
    } else {
        assert(p + q =~= q);
        assert(p + seq![c] + x =~= seq![c] + x);
        assert(p + seq![d] + y =~= seq![d] + y);
    }
}

} // verus!
