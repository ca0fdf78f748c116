//! Key order of the model's mappings: the lexicographic order of text, and an
//! insertion that keeps a list of entries strictly increasing by key.
use vstd::prelude::*;
use vstd::string::*;
use crate::text::same_text;

verus! {

/// `a` sorts strictly before `b`, comparing characters by code point (the
/// order of their UTF-8 bytes).
pub open spec fn text_less(a: Seq<char>, b: Seq<char>) -> bool
    decreases a.len(),
{
    if b.len() == 0 {
        false
    } else if a.len() == 0 {
        true
    } else if a[0] != b[0] {
        a[0] < b[0]
    } else {
        text_less(a.drop_first(), b.drop_first())
    }
}

/// No text sorts before itself.
pub proof fn lemma_text_less_irreflexive(a: Seq<char>)
    ensures
        !text_less(a, a),
    decreases a.len(),
{
    if a.len() > 0 {
        lemma_text_less_irreflexive(a.drop_first());
    }
}

/// Of two different texts, one sorts before the other.
pub proof fn lemma_text_less_total(a: Seq<char>, b: Seq<char>)
    requires
        a != b,
    ensures
        text_less(a, b) || text_less(b, a),
    decreases a.len(),
{
    if a.len() > 0 && b.len() > 0 && a[0] == b[0] {
        if a.drop_first() == b.drop_first() {
            assert(a =~= seq![a[0]] + a.drop_first());
            assert(b =~= seq![b[0]] + b.drop_first());
        }
        lemma_text_less_total(a.drop_first(), b.drop_first());
    } else if a.len() == 0 && b.len() == 0 {
        assert(a =~= b);
    }
}

/// The order is transitive.
pub proof fn lemma_text_less_transitive(a: Seq<char>, b: Seq<char>, c: Seq<char>)
    requires
        text_less(a, b),
        text_less(b, c),
    ensures
        text_less(a, c),
    decreases a.len(),
{
    if a.len() > 0 && a[0] == b[0] && b[0] == c[0] {
        lemma_text_less_transitive(a.drop_first(), b.drop_first(), c.drop_first());
    }
}

/// Whether `a` sorts strictly before `b`.
pub fn is_text_less(a: &str, b: &str) -> (r: bool)
    ensures
        r == text_less(a@, b@),
{
    let n = a.unicode_len();
    let m = b.unicode_len();
    let mut i: usize = 0;
    assert(a@.subrange(0, n as int) =~= a@);
    assert(b@.subrange(0, m as int) =~= b@);
    while i < n && i < m
        invariant
            n == a@.len(),
            m == b@.len(),
            i <= n,
            i <= m,
            text_less(a@, b@) == text_less(
                a@.subrange(i as int, n as int),
                b@.subrange(i as int, m as int),
            ),
        decreases n - i,
    {
        let x = a.get_char(i);
        let y = b.get_char(i);
        let ghost sa = a@.subrange(i as int, n as int);
        let ghost sb = b@.subrange(i as int, m as int);
        assert(sa[0] == x && sb[0] == y);
        if x != y {
            return x < y;
        }
        assert(sa.drop_first() =~= a@.subrange(i + 1, n as int));
        assert(sb.drop_first() =~= b@.subrange(i + 1, m as int));
        i += 1;
    }
    i < m
}

/// An entry of a mapping, found by its key.
pub trait Keyed {
    spec fn key_view(&self) -> Seq<char>;

    fn key(&self) -> (r: &String)
        ensures
            r@ == self.key_view(),
    ;
}

/// The keys of `s` strictly increase: they are distinct and in order.
pub open spec fn keys_increasing<T: Keyed>(s: Seq<T>) -> bool {
    forall|i: int, j: int|
        0 <= i < j < s.len() ==> text_less(#[trigger] s[i].key_view(), #[trigger] s[j].key_view())
}

/// `after` is `before` with `item` put in at `p`, where every key below `p`
/// sorts before the item's: in place of the entry at `p` when that one has the
/// same key, else inserted before it.
pub open spec fn put_at<T: Keyed>(before: Seq<T>, item: T, after: Seq<T>, p: int) -> bool {
    &&& 0 <= p <= before.len()
    &&& forall|i: int| 0 <= i < p ==> text_less(#[trigger] before[i].key_view(), item.key_view())
    &&& if p < before.len() && before[p].key_view() == item.key_view() {
        after == before.update(p, item)
    } else {
        &&& p == before.len() || text_less(item.key_view(), before[p].key_view())
        &&& after == before.insert(p, item)
    }
}

/// Puts `item` into `entries` by its key, replacing the entry with the same
/// key if there is one, and keeps the keys strictly increasing.
pub fn insert_by_key<T: Keyed>(entries: &mut Vec<T>, item: T)
    requires
        keys_increasing(old(entries)@),
    ensures
        keys_increasing(final(entries)@),
        exists|p: int| put_at(old(entries)@, item, final(entries)@, p),
{
    let n = entries.len();
    let mut p: usize = 0;
    let mut scanning = true;
    while scanning && p < n
        invariant
            n == entries@.len(),
            p <= n,
            forall|i: int|
                0 <= i < p ==> text_less(#[trigger] entries@[i].key_view(), item.key_view()),
            !scanning ==> p < n && !text_less(entries@[p as int].key_view(), item.key_view()),
        decreases n - p + if scanning { 1int } else { 0int },
    {
        if is_text_less(entries[p].key().as_str(), item.key().as_str()) {
            p += 1;
        } else {
            scanning = false;
        }
    }
    let ghost before = entries@;
    let ghost k = item.key_view();
    if p < n && same_text(entries[p].key().as_str(), item.key().as_str()) {
        entries.set(p, item);
        assert forall|i: int, j: int| 0 <= i < j < entries@.len() implies text_less(
            #[trigger] entries@[i].key_view(),
            #[trigger] entries@[j].key_view(),
        ) by {
            assert(entries@[i].key_view() == before[i].key_view());
            assert(entries@[j].key_view() == before[j].key_view());
        }
        assert(put_at(before, item, entries@, p as int));
    } else {
        proof {
            if p < n {
                lemma_text_less_total(before[p as int].key_view(), k);
            }
        }
        entries.insert(p, item);
        assert forall|i: int, j: int| 0 <= i < j < entries@.len() implies text_less(
            #[trigger] entries@[i].key_view(),
            #[trigger] entries@[j].key_view(),
        ) by {
            if j < p {
            } else if j == p {
                assert(entries@[j] == item);
            } else if i < p {
                assert(entries@[j] == before[j - 1]);
                if j - 1 == p as int {
                    lemma_text_less_transitive(
                        before[i].key_view(),
                        k,
                        before[j - 1].key_view(),
                    );
                } else {
                    lemma_text_less_transitive(
                        k,
                        before[p as int].key_view(),
                        before[j - 1].key_view(),
                    );
                    lemma_text_less_transitive(
                        before[i].key_view(),
                        k,
                        before[j - 1].key_view(),
                    );
                }
            } else if i == p {
                assert(entries@[i] == item);
                assert(entries@[j] == before[j - 1]);
                if j - 1 > p {
                    lemma_text_less_transitive(
                        k,
                        before[p as int].key_view(),
                        before[j - 1].key_view(),
                    );
                }
            } else {
                assert(entries@[i] == before[i - 1]);
                assert(entries@[j] == before[j - 1]);
            }
        }
        assert(put_at(before, item, entries@, p as int));
    }
}

/// Whether the keys of `entries` strictly increase.
pub fn keys_in_order<T: Keyed>(entries: &Vec<T>) -> (r: bool)
    ensures
        r == keys_increasing(entries@),
{
    let n = entries.len();
    let mut i: usize = 1;
    while i < n
        invariant
            n == entries@.len(),
            1 <= i,
            keys_increasing(entries@.subrange(0, if i <= n { i as int } else { n as int })),
        decreases n - i,
    {
        if !is_text_less(entries[i - 1].key().as_str(), entries[i].key().as_str()) {
            return false;
        }
        let ghost pre = entries@.subrange(0, i as int);
        let ghost next = entries@.subrange(0, i + 1);
        assert forall|a: int, b: int| 0 <= a < b < next.len() implies text_less(
            #[trigger] next[a].key_view(),
            #[trigger] next[b].key_view(),
        ) by {
            if b < i {
                assert(next[a] == pre[a] && next[b] == pre[b]);
            } else if a < i - 1 {
                assert(next[a] == pre[a] && pre[i - 1] == next[i - 1]);
                lemma_text_less_transitive(
                    next[a].key_view(),
                    next[i - 1].key_view(),
                    next[b].key_view(),
                );
            }
        }
        i += 1;
    }
    if n > 0 {
        assert(entries@.subrange(0, n as int) =~= entries@);
    }
    true
}

} // verus!
