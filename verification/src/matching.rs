//! The match engine: given the current query and a fixed output capacity,
//! filters the application index down to the entries whose names contain
//! the query, orders them lexicographically by name, and truncates or pads
//! the result to exactly `capacity` entries.

use vstd::prelude::*;
use vstd::math::min;
use vstd::multiset::Multiset;
use vstd::relations::{sorted_by, total_ordering};
use vstd::seq_lib::lemma_sorted_unique;

use crate::index::{evs, AppEntry, AppIndex, EntryV, copy_entry};
use crate::text::{
    contains_seq, lemma_lex_le_antisym, lemma_lex_le_refl, lemma_lex_le_total, lemma_lex_le_trans,
    lex_le, str_contains, str_le,
};

verus! {

/// Order on entries: by name, with the path as a tie-break so that the
/// order is total.
pub open spec fn entry_le(a: EntryV, b: EntryV) -> bool {
    if a.name != b.name {
        lex_le(a.name, b.name)
    } else {
        lex_le(a.path, b.path)
    }
}

pub open spec fn entry_le_fn() -> spec_fn(EntryV, EntryV) -> bool {
    |a: EntryV, b: EntryV| entry_le(a, b)
}

/// An entry matches the query when its name contains it contiguously.
pub open spec fn match_pred(q: Seq<char>) -> spec_fn(EntryV) -> bool {
    |e: EntryV| contains_seq(e.name, q)
}

/// The empty entry used to pad a match list up to its capacity.
pub open spec fn placeholder() -> EntryV {
    EntryV { name: Seq::empty(), path: Seq::empty() }
}

/// The match list itself: matching entries of the index, sorted, cut to
/// `cap` when more match, padded with placeholders when fewer do.
pub open spec fn match_list(entries: Seq<EntryV>, q: Seq<char>, cap: nat) -> Seq<EntryV> {
    let m = entries.filter(match_pred(q)).sort_by(entry_le_fn());
    let t = if m.len() > cap {
        m.take(cap as int)
    } else {
        m
    };
    t + Seq::new((cap - t.len()) as nat, |i: int| placeholder())
}

pub proof fn lemma_entry_le_total_ordering()
    ensures
        total_ordering(entry_le_fn()),
{
    let leq = entry_le_fn();
    assert forall|a: EntryV| #[trigger] leq(a, a) by {
        lemma_lex_le_refl(a.name);
        lemma_lex_le_refl(a.path);
    }
    assert forall|a: EntryV, b: EntryV| #[trigger] leq(a, b) && #[trigger] leq(b, a) implies a
        == b by {
        if a.name != b.name {
            lemma_lex_le_antisym(a.name, b.name);
        } else {
            lemma_lex_le_antisym(a.path, b.path);
            assert(a =~= b);
        }
    }
    assert forall|a: EntryV, b: EntryV, c: EntryV|
        #[trigger] leq(a, b) && #[trigger] leq(b, c) implies leq(a, c) by {
        if a.name != b.name && b.name != c.name {
            lemma_lex_le_trans(a.name, b.name, c.name);
            if a.name == c.name {
                lemma_lex_le_antisym(a.name, b.name);
            }
        } else if a.name != b.name && b.name == c.name {
            assert(a.name != c.name);
        } else if a.name == b.name && b.name != c.name {
            assert(a.name != c.name);
        } else {
            lemma_lex_le_trans(a.path, b.path, c.path);
        }
    }
    assert forall|a: EntryV, b: EntryV| #[trigger] leq(a, b) || #[trigger] leq(b, a) by {
        if a.name != b.name {
            lemma_lex_le_total(a.name, b.name);
        } else {
            lemma_lex_le_total(a.path, b.path);
        }
    }
}

/// Executable counterpart of `entry_le`.
fn entry_le_exec(a: &AppEntry, b: &AppEntry) -> (r: bool)
    ensures
        r == entry_le(a@, b@),
{
    if a.name == b.name {
        str_le(a.path.as_str(), b.path.as_str())
    } else {
        str_le(a.name.as_str(), b.name.as_str())
    }
}

/// Keeps exactly the entries whose names contain the query.
fn filter_matches(entries: &Vec<AppEntry>, query: &str) -> (r: Vec<AppEntry>)
    ensures
        evs(r@) == evs(entries@).filter(match_pred(query@)),
{
    let ghost pred = match_pred(query@);
    let mut out: Vec<AppEntry> = Vec::new();
    proof {
        reveal(Seq::filter);
        assert(evs(out@) =~= evs(entries@.take(0)).filter(pred));
    }
    let mut i: usize = 0;
    while i < entries.len()
        invariant
            i <= entries.len(),
            pred == match_pred(query@),
            evs(out@) == evs(entries@.take(i as int)).filter(pred),
        decreases entries.len() - i,
    {
        let ghost pre = evs(entries@.take(i as int));
        let ghost preout = evs(out@);
        let e = &entries[i];
        let m = str_contains(e.name.as_str(), query);
        proof {
            reveal(Seq::filter);
            assert(evs(entries@.take(i + 1)).drop_last() =~= pre);
            assert(evs(entries@.take(i + 1)).last() == entries@[i as int]@);
            assert(m == pred(entries@[i as int]@));
        }
        if m {
            out.push(copy_entry(e));
            proof {
                assert(evs(out@) =~= preout.push(entries@[i as int]@));
            }
        }
        i = i + 1;
    }
    proof {
        assert(entries@.take(entries@.len() as int) =~= entries@);
    }
    out
}

/// Selection sort by `entry_le`: returns the same entries, ordered.
fn sort_entries(v: Vec<AppEntry>) -> (r: Vec<AppEntry>)
    ensures
        sorted_by(evs(r@), entry_le_fn()),
        evs(r@).to_multiset() == evs(v@).to_multiset(),
{
    let ghost leq = entry_le_fn();
    let ghost orig = evs(v@);
    let mut src = v;
    let mut out: Vec<AppEntry> = Vec::new();
    proof {
        broadcast use vstd::seq_lib::group_to_multiset_ensures;

        lemma_entry_le_total_ordering();
        assert(evs(out@).to_multiset().add(evs(src@).to_multiset()) =~= orig.to_multiset());
    }
    while src.len() > 0
        invariant
            leq == entry_le_fn(),
            total_ordering(leq),
            evs(out@).to_multiset().add(evs(src@).to_multiset()) == orig.to_multiset(),
            sorted_by(evs(out@), leq),
            forall|i: int, j: int|
                0 <= i < evs(out@).len() && 0 <= j < evs(src@).len() ==> entry_le(
                    #[trigger] evs(out@)[i],
                    #[trigger] evs(src@)[j],
                ),
        decreases src.len(),
    {
        let mut min: usize = 0;
        let mut k: usize = 1;
        proof {
            assert(leq(evs(src@)[0], evs(src@)[0]));
        }
        while k < src.len()
            invariant
                src.len() > 0,
                min < k,
                k <= src.len(),
                forall|j: int| 0 <= j < k ==> entry_le(evs(src@)[min as int], #[trigger] evs(src@)[j]),
            decreases src.len() - k,
        {
            proof {
                lemma_entry_le_total_ordering();
            }
            if entry_le_exec(&src[k], &src[min]) {
                proof {
                    let leq0 = entry_le_fn();
                    assert forall|j: int| 0 <= j < k + 1 implies entry_le(
                        evs(src@)[k as int],
                        #[trigger] evs(src@)[j],
                    ) by {
                        if j < k {
                            assert(leq0(evs(src@)[k as int], evs(src@)[min as int]));
                            assert(leq0(evs(src@)[min as int], evs(src@)[j]));
                        } else {
                            assert(leq0(evs(src@)[k as int], evs(src@)[k as int]));
                        }
                    }
                }
                min = k;
            } else {
                proof {
                    let leq0 = entry_le_fn();
                    assert(leq0(evs(src@)[min as int], evs(src@)[k as int]) || leq0(
                        evs(src@)[k as int],
                        evs(src@)[min as int],
                    ));
                }
            }
            k = k + 1;
        }
        let ghost pre_src = evs(src@);
        let ghost pre_out = evs(out@);
        let e = src.remove(min);
        out.push(e);
        proof {
            broadcast use vstd::seq_lib::group_to_multiset_ensures;

            assert(evs(src@) =~= pre_src.remove(min as int));
            assert(evs(out@) =~= pre_out.push(pre_src[min as int]));
            assert(pre_src.to_multiset().count(pre_src[min as int]) > 0) by {
                assert(pre_src.contains(pre_src[min as int]));
            }
            assert(evs(out@).to_multiset().add(evs(src@).to_multiset()) =~= pre_out.to_multiset().add(
                pre_src.to_multiset(),
            ));
            // the pushed minimum keeps `out` sorted and below everything left
            assert forall|i: int, j: int|
                0 <= i < evs(out@).len() && 0 <= j < evs(src@).len() implies entry_le(
                #[trigger] evs(out@)[i],
                #[trigger] evs(src@)[j],
            ) by {
                if j < min {
                    assert(evs(src@)[j] == pre_src[j]);
                } else {
                    assert(evs(src@)[j] == pre_src[j + 1]);
                }
                if i < pre_out.len() {
                    assert(evs(out@)[i] == pre_out[i]);
                } else {
                    assert(evs(out@)[i] == pre_src[min as int]);
                }
            }
            assert(sorted_by(evs(out@), leq));
        }
    }
    proof {
        broadcast use vstd::seq_lib::group_to_multiset_ensures;

        assert(evs(src@).to_multiset() =~= Multiset::<EntryV>::empty()) by {
            assert(evs(src@) =~= Seq::<EntryV>::empty());
            Seq::<EntryV>::empty().to_multiset_ensures();
        }
        assert(evs(out@).to_multiset() =~= orig.to_multiset());
    }
    out
}

/// How many entries match the query.
pub open spec fn match_count(entries: Seq<EntryV>, q: Seq<char>) -> nat {
    entries.filter(match_pred(q)).len()
}

/// How many entries of a match list are real, that is, not placeholder
/// padding; the padding always sits at the end.
pub open spec fn nonempty_count(s: Seq<EntryV>) -> nat
    decreases s.len(),
{
    if s.len() == 0 {
        0
    } else {
        nonempty_count(s.drop_last()) + (if s.last().name.len() > 0 {
            1nat
        } else {
            0nat
        })
    }
}

/// Counts the real entries of the current match list.
pub fn count_nonempty(ms: &Vec<AppEntry>) -> (r: usize)
    ensures
        r == nonempty_count(evs(ms@)),
        r <= ms@.len(),
{
    let mut count: usize = 0;
    let mut i: usize = 0;
    while i < ms.len()
        invariant
            i <= ms@.len(),
            count == nonempty_count(evs(ms@.take(i as int))),
            count <= i,
        decreases ms@.len() - i,
    {
        proof {
            assert(evs(ms@.take(i + 1)).drop_last() =~= evs(ms@.take(i as int)));
            assert(evs(ms@.take(i + 1)).last() == ms@[i as int]@);
        }
        if !ms[i].name.as_str().is_empty() {
            count = count + 1;
        }
        i = i + 1;
    }
    proof {
        assert(ms@.take(ms@.len() as int) =~= ms@);
    }
    count
}

proof fn lemma_nonempty_count_concat(a: Seq<EntryV>, b: Seq<EntryV>)
    ensures
        nonempty_count(a + b) == nonempty_count(a) + nonempty_count(b),
    decreases b.len(),
{
    if b.len() == 0 {
        assert(a + b =~= a);
    } else {
        assert((a + b).drop_last() =~= a + b.drop_last());
        assert((a + b).last() == b.last());
        lemma_nonempty_count_concat(a, b.drop_last());
    }
}

proof fn lemma_nonempty_count_all_real(s: Seq<EntryV>)
    requires
        forall|i: int| 0 <= i < s.len() ==> (#[trigger] s[i]).name.len() > 0,
    ensures
        nonempty_count(s) == s.len(),
    decreases s.len(),
{
    if s.len() > 0 {
        lemma_nonempty_count_all_real(s.drop_last());
    }
}

proof fn lemma_nonempty_count_all_pad(s: Seq<EntryV>)
    requires
        forall|i: int| 0 <= i < s.len() ==> (#[trigger] s[i]).name.len() == 0,
    ensures
        nonempty_count(s) == 0,
    decreases s.len(),
{
    if s.len() > 0 {
        lemma_nonempty_count_all_pad(s.drop_last());
    }
}

/// Everything a filtered sequence holds was in the source and satisfies
/// the predicate.
proof fn lemma_filter_sub(s: Seq<EntryV>, pred: spec_fn(EntryV) -> bool)
    ensures
        forall|x: EntryV| #[trigger] s.filter(pred).contains(x) ==> s.contains(x) && pred(x),
    decreases s.len(),
{
    reveal(Seq::filter);
    if s.len() > 0 {
        lemma_filter_sub(s.drop_last(), pred);
        assert forall|x: EntryV| #[trigger] s.filter(pred).contains(x) implies s.contains(x)
            && pred(x) by {
            if s.drop_last().filter(pred).contains(x) {
                assert(s.drop_last().contains(x));
                let i = choose|i: int|
                    0 <= i < s.drop_last().len() && s.drop_last()[i] == x;
                assert(s[i] == x);
            } else {
                assert(x == s.last());
                assert(s[s.len() - 1] == x);
            }
        }
    }
}

/// The law of the match engine: a match list is exactly `cap` long; its
/// leading entries all match the query, come from the index, and stand in
/// ascending order; everything after them is placeholder padding. The
/// number of leading entries is the match count, bounded by the capacity.
pub proof fn lemma_match_list_sound(entries: Seq<EntryV>, q: Seq<char>, cap: nat)
    ensures
        match_list(entries, q, cap).len() == cap,
        forall|i: int|
            0 <= i < min(match_count(entries, q) as int, cap as int) ==> contains_seq(
                (#[trigger] match_list(entries, q, cap)[i]).name,
                q,
            ) && entries.contains(match_list(entries, q, cap)[i]),
        forall|i: int, j: int|
            0 <= i < j < min(match_count(entries, q) as int, cap as int) ==> entry_le(
                #[trigger] match_list(entries, q, cap)[i],
                #[trigger] match_list(entries, q, cap)[j],
            ),
        forall|i: int|
            min(match_count(entries, q) as int, cap as int) <= i < cap ==> match_list(
                entries,
                q,
                cap,
            )[i] == placeholder(),
{
    broadcast use vstd::seq_lib::group_to_multiset_ensures;

    let leq = entry_le_fn();
    let pred = match_pred(q);
    let m0 = entries.filter(pred);
    let m = m0.sort_by(leq);
    let k = min(match_count(entries, q) as int, cap as int);
    lemma_entry_le_total_ordering();
    m0.lemma_sort_by_ensures(leq);
    lemma_filter_sub(entries, pred);
    assert(m.len() == m0.len()) by {
        assert(m.to_multiset().len() == m.len());
        assert(m0.to_multiset().len() == m0.len());
    }
    let ml = match_list(entries, q, cap);
    assert forall|i: int| 0 <= i < k implies contains_seq((#[trigger] ml[i]).name, q)
        && entries.contains(ml[i]) by {
        assert(ml[i] == m[i]);
        assert(m.contains(m[i]));
        assert(m.to_multiset().count(m[i]) > 0);
        assert(m0.contains(m[i]));
        assert(pred(m[i]));
    }
    assert forall|i: int, j: int| 0 <= i < j < k implies entry_le(
        #[trigger] ml[i],
        #[trigger] ml[j],
    ) by {
        assert(ml[i] == m[i]);
        assert(ml[j] == m[j]);
        assert(leq(m[i], m[j]));
    }
    assert forall|i: int| k <= i < cap implies ml[i] == placeholder() by {
        if m.len() > cap {
        } else {
            assert(ml[i] == Seq::new((cap - m.len()) as nat, |x: int| placeholder())[i - m.len()]);
        }
    }
}

/// The law of the cursor's bound, and of padding standing only as the
/// tail: when every index entry carries a real name, a match list has
/// exactly `min(match count, capacity)` real entries, they are exactly
/// its leading entries, and everything after them is the placeholder.
pub proof fn lemma_match_list_real_count(entries: Seq<EntryV>, q: Seq<char>, cap: nat)
    requires
        forall|i: int| 0 <= i < entries.len() ==> (#[trigger] entries[i]).name.len() > 0,
    ensures
        nonempty_count(match_list(entries, q, cap)) == min(
            match_count(entries, q) as int,
            cap as int,
        ),
        forall|i: int|
            0 <= i < min(match_count(entries, q) as int, cap as int) ==> (#[trigger] match_list(
                entries,
                q,
                cap,
            )[i]).name.len() > 0,
        forall|i: int|
            min(match_count(entries, q) as int, cap as int) <= i < cap ==> match_list(
                entries,
                q,
                cap,
            )[i] == placeholder(),
{
    broadcast use vstd::seq_lib::group_to_multiset_ensures;

    let leq = entry_le_fn();
    let pred = match_pred(q);
    let m0 = entries.filter(pred);
    let m = m0.sort_by(leq);
    lemma_entry_le_total_ordering();
    m0.lemma_sort_by_ensures(leq);
    lemma_filter_sub(entries, pred);
    assert(m.len() == m0.len()) by {
        assert(m.to_multiset().len() == m.len());
        assert(m0.to_multiset().len() == m0.len());
    }
    let t = if m.len() > cap {
        m.take(cap as int)
    } else {
        m
    };
    let pad = Seq::new((cap - t.len()) as nat, |i: int| placeholder());
    assert forall|i: int| 0 <= i < t.len() implies (#[trigger] t[i]).name.len() > 0 by {
        assert(t[i] == m[i]);
        assert(m.contains(m[i]));
        assert(m.to_multiset().count(m[i]) > 0);
        assert(m0.contains(m[i]));
        let j = choose|j: int| 0 <= j < entries.len() && entries[j] == m[i];
        assert(entries[j].name.len() > 0);
    }
    lemma_nonempty_count_concat(t, pad);
    lemma_nonempty_count_all_real(t);
    lemma_nonempty_count_all_pad(pad);
    let ml = match_list(entries, q, cap);
    let k = min(match_count(entries, q) as int, cap as int);
    assert forall|i: int| 0 <= i < k implies (#[trigger] ml[i]).name.len() > 0 by {
        assert(ml[i] == t[i]);
    }
    assert forall|i: int| k <= i < cap implies ml[i] == placeholder() by {
        assert(ml[i] == pad[i - t.len()]);
    }
}

/// The match engine's entry point: select, order, bound.
pub fn search(index: &AppIndex, query: &str, capacity: usize) -> (r: Vec<AppEntry>)
    ensures
        r@.len() == capacity,
        evs(r@) == match_list(index@, query@, capacity as nat),
{
    let ghost leq = entry_le_fn();
    let ghost m = index@.filter(match_pred(query@)).sort_by(leq);
    let filtered = filter_matches(index.entries(), query);
    let mut out = sort_entries(filtered);
    proof {
        lemma_entry_le_total_ordering();
        index@.filter(match_pred(query@)).lemma_sort_by_ensures(leq);
        lemma_sorted_unique(evs(out@), m, leq);
        assert(evs(out@) == m);
    }
    let ghost t = if m.len() > capacity as nat {
        m.take(capacity as int)
    } else {
        m
    };
    if out.len() > capacity {
        out.truncate(capacity);
        proof {
            assert(evs(out@) =~= t);
        }
    }
    proof {
        assert(evs(out@) =~= t + Seq::new((out@.len() - t.len()) as nat, |i: int| placeholder()));
    }
    while out.len() < capacity
        invariant
            out@.len() <= capacity,
            t.len() <= out@.len(),
            evs(out@) == t + Seq::new((out@.len() - t.len()) as nat, |i: int| placeholder()),
        decreases capacity - out@.len(),
    {
        let ghost pre = evs(out@);
        out.push(AppEntry { name: String::new(), path: String::new() });
        proof {
            assert(evs(out@) =~= pre.push(placeholder()));
            assert(evs(out@) =~= t + Seq::new((out@.len() - t.len()) as nat, |i: int| placeholder()));
        }
    }
    proof {
        assert(evs(out@) =~= match_list(index@, query@, capacity as nat));
    }
    out
}

} // verus!
