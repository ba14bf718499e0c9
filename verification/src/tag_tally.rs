//! Tag lists as sources report them: one tag per name, counting how many reports named it,
//! and the name order in which a source hands its tags over.
use crate::sdk::{Tag, TagView};
use crate::text::{chars_of, compare_chars, lemma_seq_lt_total, lemma_seq_lt_transitive, seq_le, seq_lt, str_eq};
use vstd::prelude::*;

verus! {

/// The views of a list of tags.
pub open spec fn tags_view(ts: Seq<Tag>) -> Seq<TagView> {
    Seq::new(ts.len(), |i: int| ts[i]@)
}

// ---------------------------------------------------------------------------------------------
// Tallies
// ---------------------------------------------------------------------------------------------
/// The index of the last tag named `n`, or -1.
pub open spec fn find_name(t: Seq<TagView>, n: Seq<char>) -> int
    decreases t.len(),
{
    if t.len() == 0 {
        -1
    } else if t.last().name == n {
        t.len() - 1
    } else {
        find_name(t.drop_last(), n)
    }
}

/// A tallied tag counted once more.
pub open spec fn bumped(v: TagView) -> TagView {
    TagView {
        presumed_work_count: Some(
            match v.presumed_work_count {
                Some(c) => (c + 1) as u64,
                None => 1,
            },
        ),
        ..v
    }
}

/// One tag per name, in the order the names first occur: the first tag of each name, with
/// the number of tags of that name as its work count.
pub open spec fn tally(s: Seq<TagView>) -> Seq<TagView>
    decreases s.len(),
{
    if s.len() == 0 {
        Seq::empty()
    } else {
        let t = tally(s.drop_last());
        let x = s.last();
        let k = find_name(t, x.name);
        if k >= 0 {
            t.update(k, bumped(t[k]))
        } else {
            t.push(TagView { presumed_work_count: Some(1), ..x })
        }
    }
}

/// How many tags are named `n`.
pub open spec fn name_count(s: Seq<TagView>, n: Seq<char>) -> nat
    decreases s.len(),
{
    if s.len() == 0 {
        0
    } else {
        name_count(s.drop_last(), n) + if s.last().name == n {
            1nat
        } else {
            0nat
        }
    }
}

/// No two tags share a name.
pub open spec fn distinct_names(t: Seq<TagView>) -> bool {
    forall|a: int, b: int| 0 <= a < b < t.len() ==> t[a].name != t[b].name
}

/// Among tags with distinct names, `find_name` finds the one tag of a name, and -1 when
/// there is none.
proof fn lemma_find_name(t: Seq<TagView>, n: Seq<char>)
    requires
        distinct_names(t),
    ensures
        -1 <= find_name(t, n) < t.len(),
        find_name(t, n) >= 0 ==> t[find_name(t, n)].name == n,
        find_name(t, n) < 0 ==> forall|k: int| 0 <= k < t.len() ==> t[k].name != n,
        forall|k: int| 0 <= k < t.len() && t[k].name == n ==> find_name(t, n) == k,
    decreases t.len(),
{
    if t.len() > 0 {
        lemma_find_name(t.drop_last(), n);
        assert forall|k: int| 0 <= k < t.len() - 1 implies t.drop_last()[k] == t[k] by {}
    }
}

/// A tally has distinct names, no more tags than the list, and counts from one to the
/// list's length.
proof fn lemma_tally_wf(s: Seq<TagView>)
    requires
        s.len() <= u64::MAX,
    ensures
        distinct_names(tally(s)),
        tally(s).len() <= s.len(),
        forall|k: int|
            #![trigger tally(s)[k]]
            0 <= k < tally(s).len() ==> tally(s)[k].presumed_work_count is Some && 1
                <= tally(s)[k].presumed_work_count->0 <= s.len(),
    decreases s.len(),
{
    if s.len() > 0 {
        let p = s.drop_last();
        let t = tally(p);
        let x = s.last();
        lemma_tally_wf(p);
        lemma_find_name(t, x.name);
        let k = find_name(t, x.name);
        let r = tally(s);
        if k >= 0 {
            assert(r == t.update(k, bumped(t[k])));
            assert forall|a: int, b: int| 0 <= a < b < r.len() implies r[a].name != r[b].name by {
                assert(t[a].name != t[b].name);
            }
            assert forall|m: int| #![trigger r[m]] 0 <= m < r.len() implies r[m].presumed_work_count is Some && 1
                <= r[m].presumed_work_count->0 <= s.len() by {
                assert(t[m].presumed_work_count is Some && 1 <= t[m].presumed_work_count->0 <= p.len());
            }
        } else {
            assert(r == t.push(TagView { presumed_work_count: Some(1), ..x }));
            assert forall|a: int, b: int| 0 <= a < b < r.len() implies r[a].name != r[b].name by {
                if b < t.len() {
                    assert(t[a].name != t[b].name);
                }
            }
            assert forall|m: int| #![trigger r[m]] 0 <= m < r.len() implies r[m].presumed_work_count is Some && 1
                <= r[m].presumed_work_count->0 <= s.len() by {
                if m < t.len() {
                    assert(t[m].presumed_work_count is Some && 1 <= t[m].presumed_work_count->0 <= p.len());
                }
            }
        }
    }
}

/// Every tag of the list has its name in the tally.
pub proof fn lemma_tally_covers(s: Seq<TagView>)
    requires
        s.len() <= u64::MAX,
    ensures
        forall|j: int|
            #![trigger s[j]]
            0 <= j < s.len() ==> exists|k: int|
                #![trigger tally(s)[k]]
                0 <= k < tally(s).len() && tally(s)[k].name == s[j].name,
    decreases s.len(),
{
    if s.len() > 0 {
        let p = s.drop_last();
        let t = tally(p);
        let x = s.last();
        lemma_tally_covers(p);
        lemma_tally_wf(p);
        lemma_find_name(t, x.name);
        let k = find_name(t, x.name);
        let r = tally(s);
        assert forall|j: int| #![trigger s[j]] 0 <= j < s.len() implies exists|m: int|
            #![trigger r[m]]
            0 <= m < r.len() && r[m].name == s[j].name by {
            if j < p.len() {
                assert(s[j] == p[j]);
                let m = choose|m: int| #![trigger t[m]] 0 <= m < t.len() && t[m].name == p[j].name;
                assert(r[m].name == t[m].name);
            } else if k >= 0 {
                assert(r[k].name == s[j].name);
            } else {
                assert(r[t.len() as int].name == s[j].name);
            }
        }
    }
}

/// Each tallied tag counts the tags of its name in the list.
pub proof fn lemma_tally_counts(s: Seq<TagView>)
    requires
        s.len() <= u64::MAX,
    ensures
        forall|k: int|
            #![trigger tally(s)[k]]
            0 <= k < tally(s).len() ==> tally(s)[k].presumed_work_count == Some(
                name_count(s, tally(s)[k].name) as u64,
            ),
    decreases s.len(),
{
    if s.len() > 0 {
        let p = s.drop_last();
        let t = tally(p);
        let x = s.last();
        lemma_tally_counts(p);
        lemma_tally_wf(p);
        lemma_tally_covers(p);
        lemma_find_name(t, x.name);
        let k = find_name(t, x.name);
        let r = tally(s);
        assert forall|m: int| #![trigger r[m]] 0 <= m < r.len() implies r[m].presumed_work_count == Some(
            name_count(s, r[m].name) as u64,
        ) by {
            assert(name_count(s, r[m].name) == name_count(p, r[m].name) + if x.name == r[m].name {
                1nat
            } else {
                0nat
            });
            if k >= 0 {
                assert(r == t.update(k, bumped(t[k])));
                assert(t[m].presumed_work_count == Some(name_count(p, t[m].name) as u64));
                assert(name_count(p, t[m].name) <= p.len()) by {
                    lemma_name_count_le(p, t[m].name);
                }
                if m != k {
                    assert(t[m].name != t[k].name);
                    assert(r[m] == t[m]);
                } else {
                    assert(r[m] == bumped(t[k]));
                }
            } else {
                assert(r == t.push(TagView { presumed_work_count: Some(1), ..x }));
                if m == t.len() {
                    lemma_name_count_absent(p, x.name, t);
                } else {
                    assert(r[m] == t[m]);
                    assert(t[m].presumed_work_count == Some(name_count(p, t[m].name) as u64));
                    assert(t[m].name != x.name);
                }
            }
        }
    }
}

/// Two tags agree but for their work counts.
pub open spec fn same_but_count(a: TagView, b: TagView) -> bool {
    a.name == b.name && a.kind == b.kind && a.wiki_url == b.wiki_url
}

/// The `j`th tag is the first of its name.
pub open spec fn first_of_name(s: Seq<TagView>, j: int) -> bool {
    forall|i: int| 0 <= i < j ==> s[i].name != s[j].name
}

/// Each tallied tag, the `m`th, is the first tag of its name in the list, but for its count.
pub proof fn lemma_tally_keeps_first(s: Seq<TagView>, m: int)
    requires
        s.len() <= u64::MAX,
        0 <= m < tally(s).len(),
    ensures
        exists|j: int| 0 <= j < s.len() && first_of_name(s, j) && #[trigger] same_but_count(tally(s)[m], s[j]),
    decreases s.len(),
{
    let p = s.drop_last();
    let t = tally(p);
    let x = s.last();
    lemma_tally_wf(p);
    lemma_find_name(t, x.name);
    let k = find_name(t, x.name);
    let r = tally(s);
    if k >= 0 {
        assert(r == t.update(k, bumped(t[k])));
    } else {
        assert(r == t.push(TagView { presumed_work_count: Some(1), ..x }));
    }
    if m < t.len() {
        lemma_tally_keeps_first(p, m);
        let j = choose|j: int| 0 <= j < p.len() && first_of_name(p, j) && #[trigger] same_but_count(t[m], p[j]);
        assert(s[j] == p[j]);
        assert forall|i: int| 0 <= i < j implies s[i].name != s[j].name by {
            assert(s[i] == p[i]);
            assert(p[i].name != p[j].name);
        }
        assert(same_but_count(r[m], s[j]));
    } else {
        lemma_tally_covers(p);
        let j = s.len() - 1;
        assert(s[j] == x);
        assert forall|i: int| 0 <= i < j implies s[i].name != s[j].name by {
            assert(s[i] == p[i]);
            let mm = choose|mm: int| #![trigger t[mm]] 0 <= mm < t.len() && t[mm].name == p[i].name;
        }
        assert(same_but_count(r[m], s[j]));
    }
}

/// No name occurs more often than the list is long.
proof fn lemma_name_count_le(s: Seq<TagView>, n: Seq<char>)
    ensures
        name_count(s, n) <= s.len(),
    decreases s.len(),
{
    if s.len() > 0 {
        lemma_name_count_le(s.drop_last(), n);
    }
}

/// A name that no tallied tag has occurs in no tag of the list.
proof fn lemma_name_count_absent(s: Seq<TagView>, n: Seq<char>, t: Seq<TagView>)
    requires
        forall|j: int| #![trigger s[j]] 0 <= j < s.len() ==> exists|k: int| #![trigger t[k]] 0 <= k < t.len() && t[k].name == s[j].name,
        forall|k: int| 0 <= k < t.len() ==> t[k].name != n,
    ensures
        name_count(s, n) == 0,
    decreases s.len(),
{
    if s.len() > 0 {
        let p = s.drop_last();
        assert forall|j: int| #![trigger p[j]] 0 <= j < p.len() implies exists|k: int| #![trigger t[k]] 0 <= k < t.len() && t[k].name == p[j].name by {
            assert(p[j] == s[j]);
        }
        lemma_name_count_absent(p, n, t);
        let j = s.len() - 1;
        let k = choose|k: int| 0 <= k < t.len() && t[k].name == s[j].name;
    }
}

/// A copy of a tag, with another work count.
fn with_count(t: &Tag, count: Option<u64>) -> (r: Tag)
    ensures
        r@ == (TagView { presumed_work_count: count, ..t@ }),
{
    Tag::new(t.name(), count, t.wiki_url()).with_kind(t.kind())
}

/// One tag per name, in the order the names first occur, each counting the tags of its
/// name, as `tally` says.
pub fn tally_tags(tags: &[Tag]) -> (r: Vec<Tag>)
    ensures
        tags_view(r@) == tally(tags_view(tags@)),
{
    let ghost s = tags_view(tags@);
    let mut r: Vec<Tag> = Vec::new();
    let mut i: usize = 0;
    while i < tags.len()
        invariant
            0 <= i <= tags@.len(),
            s == tags_view(tags@),
            tags_view(r@) == tally(s.take(i as int)),
        decreases tags@.len() - i,
    {
        let ghost p = s.take(i as int);
        let ghost t = tags_view(r@);
        assert(s.take(i + 1).drop_last() =~= p);
        assert(s.take(i + 1).last() == tags@[i as int]@);
        proof {
            lemma_tally_wf(p);
            lemma_find_name(t, tags@[i as int]@.name);
        }
        let name = tags[i].name();
        let mut k: usize = 0;
        let mut found = false;
        while k < r.len()
            invariant_except_break
                0 <= k <= r@.len(),
                !found,
                forall|a: int| 0 <= a < k ==> r@[a]@.name != name@,
            invariant
                t == tags_view(r@),
            ensures
                found ==> k < r@.len() && r@[k as int]@.name == name@,
                !found ==> forall|a: int| 0 <= a < r@.len() ==> r@[a]@.name != name@,
            decreases r@.len() - k,
        {
            if str_eq(r[k].name(), name) {
                found = true;
                break;
            }
            k = k + 1;
        }
        if found {
            assert(t[k as int].name == name@);
            assert(find_name(t, name@) == k);
            let c = r[k].presumed_work_count();
            assert(t[k as int] == r@[k as int]@);
            let bumped_tag = with_count(&r[k], Some(c + 1));
            r.set(k, bumped_tag);
            assert(tags_view(r@) =~= t.update(k as int, bumped(t[k as int])));
        } else {
            assert(find_name(t, name@) < 0) by {
                if find_name(t, name@) >= 0 {
                    assert(t[find_name(t, name@)].name == name@);
                }
            }
            let first = with_count(&tags[i], Some(1));
            r.push(first);
            assert(tags_view(r@) =~= t.push(TagView { presumed_work_count: Some(1), ..tags@[i as int]@ }));
        }
        i = i + 1;
    }
    assert(s.take(tags@.len() as int) =~= s);
    r
}

// ---------------------------------------------------------------------------------------------
// Name order
// ---------------------------------------------------------------------------------------------
/// The place where `x` goes in a name-ordered list: after every tag whose name is not
/// greater than its name.
pub open spec fn insert_place(t: Seq<TagView>, x: TagView) -> int
    decreases t.len(),
{
    if t.len() == 0 {
        0
    } else if seq_lt(x.name, t.last().name) {
        insert_place(t.drop_last(), x)
    } else {
        t.len() as int
    }
}

/// The tags ordered by name; tags of equal names keep their order.
pub open spec fn sort_by_name(s: Seq<TagView>) -> Seq<TagView>
    decreases s.len(),
{
    if s.len() == 0 {
        Seq::empty()
    } else {
        let t = sort_by_name(s.drop_last());
        t.insert(insert_place(t, s.last()), s.last())
    }
}

/// The names never decrease along the list.
pub open spec fn names_sorted(t: Seq<TagView>) -> bool {
    forall|a: int, b: int| 0 <= a < b < t.len() ==> seq_le(t[a].name, t[b].name)
}

/// In a name-ordered list, the insertion place has every earlier name not greater than the
/// new one and every later name greater.
proof fn lemma_insert_place(t: Seq<TagView>, x: TagView)
    requires
        names_sorted(t),
    ensures
        0 <= insert_place(t, x) <= t.len(),
        forall|a: int| 0 <= a < insert_place(t, x) ==> seq_le(t[a].name, x.name),
        forall|a: int| insert_place(t, x) <= a < t.len() ==> seq_lt(x.name, t[a].name),
    decreases t.len(),
{
    if t.len() > 0 {
        let p = t.drop_last();
        assert forall|a: int, b: int| 0 <= a < b < p.len() implies seq_le(p[a].name, p[b].name) by {
            assert(p[a] == t[a] && p[b] == t[b]);
        }
        lemma_insert_place(p, x);
        let l = t.last();
        if seq_lt(x.name, l.name) {
            assert forall|a: int| 0 <= a < insert_place(t, x) implies seq_le(t[a].name, x.name) by {
                assert(p[a] == t[a]);
            }
            assert forall|a: int| insert_place(t, x) <= a < t.len() implies seq_lt(x.name, t[a].name) by {
                if a < p.len() {
                    assert(p[a] == t[a]);
                }
            }
        } else {
            lemma_seq_lt_total(x.name, l.name);
            assert forall|a: int| 0 <= a < t.len() implies seq_le(t[a].name, x.name) by {
                if a < t.len() - 1 {
                    assert(seq_le(t[a].name, l.name));
                    if seq_lt(t[a].name, l.name) && seq_lt(l.name, x.name) {
                        lemma_seq_lt_transitive(t[a].name, l.name, x.name);
                    }
                }
            }
        }
    }
}

/// Ordering by name gives a name-ordered permutation of the tags.
pub proof fn lemma_sort_by_name(s: Seq<TagView>)
    ensures
        names_sorted(sort_by_name(s)),
        sort_by_name(s).to_multiset() == s.to_multiset(),
        sort_by_name(s).len() == s.len(),
    decreases s.len(),
{
    broadcast use vstd::seq_lib::group_to_multiset_ensures, vstd::multiset::group_multiset_axioms;

    if s.len() > 0 {
        let p = s.drop_last();
        let x = s.last();
        lemma_sort_by_name(p);
        let t = sort_by_name(p);
        lemma_insert_place(t, x);
        let q = insert_place(t, x);
        let u = t.insert(q, x);
        assert(u == sort_by_name(s));
        assert forall|a: int, b: int| 0 <= a < b < u.len() implies seq_le(u[a].name, u[b].name) by {
            if b < q {
                assert(u[a] == t[a] && u[b] == t[b]);
            } else if b == q {
                assert(u[a] == t[a]);
            } else if a < q {
                assert(u[a] == t[a] && u[b] == t[b - 1]);
                assert(seq_le(t[a].name, x.name));
                assert(seq_lt(x.name, t[b - 1].name));
                if seq_lt(t[a].name, x.name) {
                    lemma_seq_lt_transitive(t[a].name, x.name, t[b - 1].name);
                }
            } else if a == q {
                assert(u[b] == t[b - 1]);
            } else {
                assert(u[a] == t[a - 1] && u[b] == t[b - 1]);
            }
        }
        assert(u.remove(q) =~= t);
        assert(p.push(x) =~= s);
        assert(u.to_multiset() =~= t.to_multiset().insert(x)) by {
            assert(u.remove(q).to_multiset() == u.to_multiset().remove(u[q]));
            assert(u.to_multiset().count(x) > 0) by {
                assert(u.contains(x)) by {
                    assert(u[q] == x);
                }
            }
        }
    }
}

/// The tags ordered by name, equal names keeping their order, as `sort_by_name` says.
pub fn sort_tags_by_name(tags: Vec<Tag>) -> (r: Vec<Tag>)
    ensures
        tags_view(r@) == sort_by_name(tags_view(tags@)),
{
    let ghost s = tags_view(tags@);
    let mut out: Vec<Tag> = Vec::new();
    let mut rest = tags;
    let n = rest.len();
    let mut i: usize = 0;
    assert(rest@ =~= tags@.skip(0));
    while i < n
        invariant
            0 <= i <= n,
            n == tags@.len(),
            s == tags_view(tags@),
            rest@ == tags@.skip(i as int),
            tags_view(out@) == sort_by_name(s.take(i as int)),
        decreases n - i,
    {
        let ghost t = tags_view(out@);
        let x = rest.remove(0);
        assert(x == tags@[i as int]);
        assert(rest@ =~= tags@.skip(i + 1));
        assert(s.take(i + 1).drop_last() =~= s.take(i as int));
        assert(s.take(i + 1).last() == x@);
        let xn = chars_of(x.name());
        let mut q: usize = out.len();
        assert(t.take(q as int) =~= t);
        while q > 0
            invariant
                0 <= q <= out@.len(),
                t == tags_view(out@),
                xn@ == x@.name,
                insert_place(t, x@) == insert_place(t.take(q as int), x@),
            ensures
                0 <= q <= out@.len(),
                t == tags_view(out@),
                insert_place(t, x@) == insert_place(t.take(q as int), x@),
                q > 0 ==> !seq_lt(x@.name, t[q - 1].name),
            decreases q,
        {
            let ln = chars_of(out[q - 1].name());
            assert(t[q - 1] == out@[q - 1]@);
            assert(t.take(q as int).last() == t[q - 1]);
            assert(t.take(q as int).drop_last() =~= t.take(q - 1));
            if compare_chars(xn.as_slice(), ln.as_slice()) == -1 {
                q = q - 1;
            } else {
                break;
            }
        }
        assert(insert_place(t, x@) == q) by {
            if q > 0 {
                assert(t.take(q as int).last() == t[q - 1]);
            } else {
                assert(t.take(0) =~= Seq::<TagView>::empty());
            }
        }
        out.insert(q, x);
        assert(tags_view(out@) =~= t.insert(q as int, tags@[i as int]@));
        i = i + 1;
    }
    assert(s.take(n as int) =~= s);
    out
}

} // verus!
