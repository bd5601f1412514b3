//! Ordering of command history for the up-arrow menu, autosuggestions and
//! last-word insertion.
use vstd::prelude::*;

use crate::execution::SessionId;
use crate::text::{chars_of, spec_trim, starts_with, string_from_chars, trim};
use vstd::string::StringSliceAdditionalSpecFns;

verus! {

broadcast use vstd::string::group_string_axioms;

/// A history command offered by the up-arrow menu.
pub struct HistorySuggestion {
    /// The normalized command text.
    pub text: String,
    /// Whether the command ran in the session the menu is opened for.
    pub in_current_session: bool,
    /// When the command ran.
    pub timestamp: i64,
}

/// The menu order: commands of other sessions first, then the current
/// session's; within each group, oldest first.
pub open spec fn comes_before_or_with(a: HistorySuggestion, b: HistorySuggestion) -> bool {
    (!a.in_current_session && b.in_current_session) || (a.in_current_session
        == b.in_current_session && a.timestamp <= b.timestamp)
}

fn le(a: &HistorySuggestion, b: &HistorySuggestion) -> (res: bool)
    ensures
        res == comes_before_or_with(*a, *b),
{
    (!a.in_current_session && b.in_current_session) || (a.in_current_session
        == b.in_current_session && a.timestamp <= b.timestamp)
}

/// Where `x` goes in the ordered `s`: after every entry that does not come
/// after it, so that entries in the same place keep their order.
pub open spec fn insert_position(s: Seq<HistorySuggestion>, x: HistorySuggestion) -> int
    decreases s.len(),
{
    if s.len() == 0 || !comes_before_or_with(s[0], x) {
        0
    } else {
        1 + insert_position(s.drop_first(), x)
    }
}

/// Stable sort in the menu order.
pub open spec fn sorted_suggestions(s: Seq<HistorySuggestion>) -> Seq<HistorySuggestion>
    decreases s.len(),
{
    if s.len() == 0 {
        s
    } else {
        let rest = sorted_suggestions(s.drop_last());
        rest.insert(insert_position(rest, s.last()), s.last())
    }
}

/// Some later entry has the same text as entry `i`.
pub open spec fn has_later_duplicate(s: Seq<HistorySuggestion>, i: int) -> bool {
    exists|j: int| i < j < s.len() && (#[trigger] s[j]).text@ == s[i].text@
}

/// Entry `i` is kept: it is not empty and it is the latest with its text.
pub open spec fn is_kept(s: Seq<HistorySuggestion>, i: int) -> bool {
    s[i].text@.len() > 0 && !has_later_duplicate(s, i)
}

/// The kept entries among the first `n`, in order.
pub open spec fn kept_prefix(s: Seq<HistorySuggestion>, n: int) -> Seq<HistorySuggestion>
    decreases n,
{
    if n <= 0 {
        Seq::empty()
    } else if is_kept(s, n - 1) {
        kept_prefix(s, n - 1).push(s[n - 1])
    } else {
        kept_prefix(s, n - 1)
    }
}

pub open spec fn spec_sort_and_dedupe(s: Seq<HistorySuggestion>) -> Seq<HistorySuggestion> {
    let sorted = sorted_suggestions(s);
    kept_prefix(sorted, sorted.len() as int)
}

proof fn lemma_insert_position(s: Seq<HistorySuggestion>, x: HistorySuggestion, p: int)
    requires
        0 <= p <= s.len(),
        forall|k: int| 0 <= k < p ==> comes_before_or_with(#[trigger] s[k], x),
        p == s.len() || !comes_before_or_with(s[p], x),
    ensures
        insert_position(s, x) == p,
    decreases p,
{
    if p > 0 {
        let r = s.drop_first();
        assert(comes_before_or_with(s[0], x));
        assert forall|k: int| 0 <= k < p - 1 implies comes_before_or_with(#[trigger] r[k], x) by {
            assert(r[k] == s[k + 1]);
        }
        if p < s.len() {
            assert(r[p - 1] == s[p]);
        }
        lemma_insert_position(r, x, p - 1);
    }
}

/// Sorts the suggestions in the menu order, keeping the order of entries
/// that compare equal.
fn sort_suggestions(suggestions: Vec<HistorySuggestion>) -> (res: Vec<HistorySuggestion>)
    ensures
        res@ == sorted_suggestions(suggestions@),
{
    let ghost input = suggestions@;
    let mut rest = suggestions;
    let mut res: Vec<HistorySuggestion> = Vec::new();
    let n = rest.len();
    for i in 0..n
        invariant
            n == input.len(),
            rest@ == input.skip(i as int),
            res@ == sorted_suggestions(input.take(i as int)),
    {
        let x = rest.remove(0);
        let mut pos: usize = 0;
        while pos < res.len() && le(&res[pos], &x)
            invariant
                pos <= res@.len(),
                forall|k: int| 0 <= k < pos ==> comes_before_or_with(#[trigger] res@[k], x),
            decreases res@.len() - pos,
        {
            pos = pos + 1;
        }
        proof {
            lemma_insert_position(res@, x, pos as int);
            assert(x == input[i as int]);
            assert(input.take(i + 1).drop_last() =~= input.take(i as int));
            assert(rest@ =~= input.skip(i + 1));
        }
        res.insert(pos, x);
    }
    proof {
        assert(input.take(n as int) =~= input);
    }
    res
}

/// Sorts the up-arrow history in the menu order and drops empty commands and
/// every occurrence of a command but the latest.
pub fn sort_and_dedupe_suggestions(suggestions: Vec<HistorySuggestion>) -> (res: Vec<
    HistorySuggestion,
>)
    ensures
        res@ == spec_sort_and_dedupe(suggestions@),
{
    let sorted = sort_suggestions(suggestions);
    let n = sorted.len();
    let mut keep: Vec<bool> = Vec::new();
    for i in 0..n
        invariant
            n == sorted@.len(),
            keep@.len() == i,
            forall|k: int| 0 <= k < i ==> keep@[k] == is_kept(sorted@, k),
    {
        let mut kept = !sorted[i].text.as_str().is_empty();
        let mut j = i + 1;
        while j < n
            invariant
                n == sorted@.len(),
                i < j <= n,
                kept == (sorted@[i as int].text@.len() > 0 && forall|k: int|
                    i < k < j ==> (#[trigger] sorted@[k]).text@ != sorted@[i as int].text@),
            decreases n - j,
        {
            if sorted[j].text == sorted[i].text {
                kept = false;
            }
            j = j + 1;
        }
        keep.push(kept);
    }
    let ghost s = sorted@;
    let mut rest = sorted;
    let mut res: Vec<HistorySuggestion> = Vec::new();
    for i in 0..n
        invariant
            n == s.len(),
            keep@.len() == n,
            forall|k: int| 0 <= k < n ==> keep@[k] == is_kept(s, k),
            rest@ == s.skip(i as int),
            res@ == kept_prefix(s, i as int),
    {
        let x = rest.remove(0);
        proof {
            assert(x == s[i as int]);
            assert(rest@ =~= s.skip(i + 1));
        }
        if keep[i] {
            res.push(x);
        }
    }
    res
}

pub open spec fn in_menu_order(s: Seq<HistorySuggestion>) -> bool {
    forall|i: int, j: int|
        0 <= i < j < s.len() ==> comes_before_or_with(#[trigger] s[i], #[trigger] s[j])
}

proof fn lemma_insert_position_props(s: Seq<HistorySuggestion>, x: HistorySuggestion)
    ensures
        0 <= insert_position(s, x) <= s.len(),
        forall|k: int| 0 <= k < insert_position(s, x) ==> comes_before_or_with(#[trigger] s[k], x),
        insert_position(s, x) < s.len() ==> !comes_before_or_with(s[insert_position(s, x)], x),
    decreases s.len(),
{
    if s.len() > 0 && comes_before_or_with(s[0], x) {
        let r = s.drop_first();
        lemma_insert_position_props(r, x);
        assert forall|k: int| 0 <= k < insert_position(s, x) implies comes_before_or_with(
            #[trigger] s[k],
            x,
        ) by {
            if k > 0 {
                assert(s[k] == r[k - 1]);
            }
        }
        if insert_position(s, x) < s.len() {
            assert(s[insert_position(s, x)] == r[insert_position(r, x)]);
        }
    }
}

proof fn lemma_sorted_in_order_and_same_elements(s: Seq<HistorySuggestion>)
    ensures
        in_menu_order(sorted_suggestions(s)),
        sorted_suggestions(s).to_multiset() == s.to_multiset(),
        sorted_suggestions(s).len() == s.len(),
    decreases s.len(),
{
    broadcast use vstd::seq_lib::group_to_multiset_ensures;

    if s.len() > 0 {
        let front = s.drop_last();
        let x = s.last();
        let rest = sorted_suggestions(front);
        lemma_sorted_in_order_and_same_elements(front);
        lemma_insert_position_props(rest, x);
        let p = insert_position(rest, x);
        let r = rest.insert(p, x);
        assert(r == sorted_suggestions(s));
        assert forall|i: int, j: int| 0 <= i < j < r.len() implies comes_before_or_with(
            #[trigger] r[i],
            #[trigger] r[j],
        ) by {
            if j < p {
                assert(r[i] == rest[i] && r[j] == rest[j]);
            } else if j == p {
                assert(r[i] == rest[i]);
            } else if i < p {
                assert(r[i] == rest[i] && r[j] == rest[j - 1]);
            } else if i == p {
                assert(r[j] == rest[j - 1]);
                assert(comes_before_or_with(rest[p], rest[j - 1]));
            } else {
                assert(r[i] == rest[i - 1] && r[j] == rest[j - 1]);
            }
        }
        assert(r.remove(p) =~= rest);
        assert(s =~= front.push(x));
    }
}

/// The index in `s` of entry `a` of `kept_prefix(s, m)`.
pub open spec fn kept_index(s: Seq<HistorySuggestion>, m: int, a: int) -> int
    decreases m,
{
    if m <= 0 {
        0
    } else if is_kept(s, m - 1) && a == kept_prefix(s, m - 1).len() {
        m - 1
    } else {
        kept_index(s, m - 1, a)
    }
}

proof fn lemma_kept_member(s: Seq<HistorySuggestion>, m: int, a: int)
    requires
        0 <= m <= s.len(),
        0 <= a < kept_prefix(s, m).len(),
    ensures
        0 <= kept_index(s, m, a) < m,
        is_kept(s, kept_index(s, m, a)),
        kept_prefix(s, m)[a] == s[kept_index(s, m, a)],
    decreases m,
{
    if m > 0 {
        let prev = kept_prefix(s, m - 1);
        if a < prev.len() {
            lemma_kept_member(s, m - 1, a);
        }
    }
}

proof fn lemma_kept_prefix_members(s: Seq<HistorySuggestion>, m: int)
    requires
        0 <= m <= s.len(),
    ensures
        forall|k: int|
            0 <= k < m && is_kept(s, k) ==> exists|a: int|
                0 <= a < kept_prefix(s, m).len() && kept_prefix(s, m)[a] == #[trigger] s[k],
    decreases m,
{
    if m > 0 {
        lemma_kept_prefix_members(s, m - 1);
        let prev = kept_prefix(s, m - 1);
        let cur = kept_prefix(s, m);
        assert forall|k: int| 0 <= k < m && is_kept(s, k) implies exists|a: int|
            0 <= a < cur.len() && cur[a] == #[trigger] s[k] by {
            if k < m - 1 {
                let a = choose|a: int| 0 <= a < prev.len() && prev[a] == #[trigger] s[k];
                assert(cur[a] == prev[a]);
            } else {
                assert(cur[prev.len() as int] == s[k]);
            }
        }
    }
}

proof fn lemma_kept_prefix_distinct_ordered(s: Seq<HistorySuggestion>, m: int)
    requires
        0 <= m <= s.len(),
        in_menu_order(s),
    ensures
        in_menu_order(kept_prefix(s, m)),
        forall|a: int, b: int|
            0 <= a < b < kept_prefix(s, m).len() ==> (#[trigger] kept_prefix(s, m)[a]).text@
                != (#[trigger] kept_prefix(s, m)[b]).text@,
        forall|a: int|
            0 <= a < kept_prefix(s, m).len() ==> (#[trigger] kept_prefix(s, m)[a]).text@.len()
                > 0,
    decreases m,
{
    if m > 0 {
        lemma_kept_prefix_distinct_ordered(s, m - 1);
        lemma_kept_prefix_members(s, m - 1);
        lemma_kept_prefix_members(s, m);
        let prev = kept_prefix(s, m - 1);
        let cur = kept_prefix(s, m);
        if is_kept(s, m - 1) {
            assert forall|a: int| 0 <= a < prev.len() implies comes_before_or_with(
                #[trigger] prev[a],
                s[m - 1],
            ) && prev[a].text@ != s[m - 1].text@ by {
                lemma_kept_member(s, m - 1, a);
                let k = kept_index(s, m - 1, a);
                assert(prev[a] == s[k]);
                assert(!has_later_duplicate(s, k));
                assert(comes_before_or_with(s[k], s[m - 1]));
            }
            assert forall|a: int, b: int| 0 <= a < b < cur.len() implies comes_before_or_with(
                #[trigger] cur[a],
                #[trigger] cur[b],
            ) by {
                assert(cur[a] == prev[a]);
                if b < prev.len() {
                    assert(cur[b] == prev[b]);
                }
            }
            assert forall|a: int, b: int| 0 <= a < b < cur.len() implies (#[trigger] cur[a]).text@
                != (#[trigger] cur[b]).text@ by {
                assert(cur[a] == prev[a]);
                if b < prev.len() {
                    assert(cur[b] == prev[b]);
                }
            }
            assert forall|a: int| 0 <= a < cur.len() implies (#[trigger] cur[a]).text@.len()
                > 0 by {
                if a < prev.len() {
                    assert(cur[a] == prev[a]);
                }
            }
        }
    }
}

proof fn lemma_latest_occurrence(s: Seq<HistorySuggestion>, i: int)
    requires
        0 <= i < s.len(),
    ensures
        exists|j: int|
            i <= j < s.len() && (#[trigger] s[j]).text@ == s[i].text@ && !has_later_duplicate(
                s,
                j,
            ),
    decreases s.len() - i,
{
    if has_later_duplicate(s, i) {
        let j = choose|j: int| i < j < s.len() && (#[trigger] s[j]).text@ == s[i].text@;
        lemma_latest_occurrence(s, j);
        let k = choose|k: int|
            j <= k < s.len() && (#[trigger] s[k]).text@ == s[j].text@ && !has_later_duplicate(s, k);
        assert(s[k].text@ == s[i].text@);
    } else {
        assert(s[i].text@ == s[i].text@);
    }
}

/// The up-arrow history is in menu order (other sessions first, then oldest
/// first), holds no empty command and no command twice, holds only entries
/// of the input, and holds every non-empty command of the input.
pub proof fn lemma_up_arrow_history_laws(s: Seq<HistorySuggestion>)
    ensures
        in_menu_order(spec_sort_and_dedupe(s)),
        forall|a: int, b: int|
            0 <= a < b < spec_sort_and_dedupe(s).len() ==> (#[trigger] spec_sort_and_dedupe(
                s,
            )[a]).text@ != (#[trigger] spec_sort_and_dedupe(s)[b]).text@,
        forall|a: int|
            0 <= a < spec_sort_and_dedupe(s).len() ==> (#[trigger] spec_sort_and_dedupe(
                s,
            )[a]).text@.len() > 0,
        forall|a: int|
            0 <= a < spec_sort_and_dedupe(s).len() ==> s.contains(
                #[trigger] spec_sort_and_dedupe(s)[a],
            ),
        forall|i: int|
            0 <= i < s.len() && (#[trigger] s[i]).text@.len() > 0 ==> exists|a: int|
                0 <= a < spec_sort_and_dedupe(s).len() && (#[trigger] spec_sort_and_dedupe(
                    s,
                )[a]).text@ == s[i].text@,
{
    broadcast use vstd::seq_lib::group_to_multiset_ensures;

    let sorted = sorted_suggestions(s);
    let r = spec_sort_and_dedupe(s);
    lemma_sorted_in_order_and_same_elements(s);
    lemma_kept_prefix_distinct_ordered(sorted, sorted.len() as int);
    lemma_kept_prefix_members(sorted, sorted.len() as int);
    assert forall|a: int| 0 <= a < r.len() implies s.contains(#[trigger] r[a]) by {
        lemma_kept_member(sorted, sorted.len() as int, a);
        let k = kept_index(sorted, sorted.len() as int, a);
        assert(r[a] == sorted[k]);
        assert(sorted.contains(sorted[k]));
        assert(sorted.to_multiset().count(sorted[k]) > 0);
    }
    assert forall|i: int| 0 <= i < s.len() && (#[trigger] s[i]).text@.len() > 0 implies exists|
        a: int,
    | 0 <= a < r.len() && (#[trigger] r[a]).text@ == s[i].text@ by {
        assert(s.contains(s[i]));
        assert(s.to_multiset().count(s[i]) > 0);
        assert(sorted.contains(s[i]));
        let p = choose|p: int| 0 <= p < sorted.len() && sorted[p] == s[i];
        lemma_latest_occurrence(sorted, p);
        let j = choose|j: int|
            p <= j < sorted.len() && (#[trigger] sorted[j]).text@ == sorted[p].text@
                && !has_later_duplicate(sorted, j);
        assert(is_kept(sorted, j));
        let a = choose|a: int| 0 <= a < r.len() && r[a] == #[trigger] sorted[j];
        assert(r[a].text@ == s[i].text@);
    }
}

/// The up-arrow menu's order, by its own definition: every command of
/// another session comes before every command of the current session, and
/// within either group a command that ran earlier comes before one that ran
/// later (oldest first).
pub proof fn lemma_up_arrow_menu_order(s: Seq<HistorySuggestion>)
    ensures
        forall|a: int, b: int|
            0 <= a < spec_sort_and_dedupe(s).len() && 0 <= b < spec_sort_and_dedupe(s).len()
                && !(#[trigger] spec_sort_and_dedupe(s)[a]).in_current_session
                && (#[trigger] spec_sort_and_dedupe(s)[b]).in_current_session ==> a < b,
        forall|a: int, b: int|
            0 <= a < spec_sort_and_dedupe(s).len() && 0 <= b < spec_sort_and_dedupe(s).len()
                && (#[trigger] spec_sort_and_dedupe(s)[a]).in_current_session
                == (#[trigger] spec_sort_and_dedupe(s)[b]).in_current_session
                && spec_sort_and_dedupe(s)[a].timestamp < spec_sort_and_dedupe(s)[b].timestamp
                ==> a < b,
{
    lemma_up_arrow_history_laws(s);
    let r = spec_sort_and_dedupe(s);
    assert forall|a: int, b: int|
        0 <= a < r.len() && 0 <= b < r.len() && !(#[trigger] r[a]).in_current_session
            && (#[trigger] r[b]).in_current_session implies a < b by {
        if b < a {
            assert(comes_before_or_with(r[b], r[a]));
        }
    }
    assert forall|a: int, b: int|
        0 <= a < r.len() && 0 <= b < r.len() && (#[trigger] r[a]).in_current_session
            == (#[trigger] r[b]).in_current_session && r[a].timestamp < r[b].timestamp implies a
        < b by {
        if b < a {
            assert(comes_before_or_with(r[b], r[a]));
        }
    }
}

/// A command of the session history and the directory it ran in.
pub struct HistoryEntry {
    pub command: String,
    pub pwd: Option<String>,
}

pub open spec fn ran_in(entry: HistoryEntry, working_dir: Option<Seq<char>>) -> bool {
    match (entry.pwd, working_dir) {
        (Some(pwd), Some(dir)) => pwd@ == dir,
        _ => false,
    }
}

/// The entries from index `j` on whose command starts with `prefix` and
/// whose directory test gives `same_dir`, most recent first.
pub open spec fn recent_matching(
    entries: Seq<HistoryEntry>,
    prefix: Seq<char>,
    working_dir: Option<Seq<char>>,
    same_dir: bool,
    j: int,
) -> Seq<HistoryEntry>
    decreases entries.len() - j,
{
    if j < 0 || j >= entries.len() {
        Seq::empty()
    } else {
        let rest = recent_matching(entries, prefix, working_dir, same_dir, j + 1);
        let e = entries[j];
        if prefix.is_prefix_of(e.command@) && ran_in(e, working_dir) == same_dir {
            rest.push(e)
        } else {
            rest
        }
    }
}

/// Candidates for an autosuggestion: history commands starting with
/// `prefix`, most recent first, those run in `working_dir` before the rest.
pub open spec fn spec_potential_autosuggestions(
    entries: Seq<HistoryEntry>,
    prefix: Seq<char>,
    working_dir: Option<Seq<char>>,
) -> Seq<HistoryEntry> {
    recent_matching(entries, prefix, working_dir, true, 0) + recent_matching(
        entries,
        prefix,
        working_dir,
        false,
        0,
    )
}

/// Entry `e` starts with `prefix` and, as `same_dir` asks, ran or did not
/// run in `working_dir`.
pub open spec fn candidate_in_group(
    e: HistoryEntry,
    prefix: Seq<char>,
    working_dir: Option<Seq<char>>,
    same_dir: bool,
) -> bool {
    prefix.is_prefix_of(e.command@) && ran_in(e, working_dir) == same_dir
}

proof fn lemma_recent_matching_step(
    es: Seq<HistoryEntry>,
    prefix: Seq<char>,
    wd: Option<Seq<char>>,
    sd: bool,
    k: int,
)
    requires
        0 <= k < es.len(),
    ensures
        recent_matching(es, prefix, wd, sd, k) == if candidate_in_group(es[k], prefix, wd, sd) {
            recent_matching(es, prefix, wd, sd, k + 1).push(es[k])
        } else {
            recent_matching(es, prefix, wd, sd, k + 1)
        },
{
}

proof fn lemma_recent_matching_members(
    es: Seq<HistoryEntry>,
    prefix: Seq<char>,
    wd: Option<Seq<char>>,
    sd: bool,
    k: int,
    i: int,
)
    requires
        0 <= k <= i < es.len(),
        candidate_in_group(es[i], prefix, wd, sd),
    ensures
        exists|a: int|
            0 <= a < recent_matching(es, prefix, wd, sd, k).len() && (#[trigger] recent_matching(
                es,
                prefix,
                wd,
                sd,
                k,
            )[a]) == es[i],
    decreases es.len() - k,
{
    lemma_recent_matching_step(es, prefix, wd, sd, k);
    let r = recent_matching(es, prefix, wd, sd, k);
    let r1 = recent_matching(es, prefix, wd, sd, k + 1);
    if i == k {
        assert(r[r1.len() as int] == es[i]);
    } else {
        lemma_recent_matching_members(es, prefix, wd, sd, k + 1, i);
        let a = choose|a: int| 0 <= a < r1.len() && #[trigger] r1[a] == es[i];
        assert(r[a] == r1[a]);
    }
}

proof fn lemma_recent_matching_before(
    es: Seq<HistoryEntry>,
    prefix: Seq<char>,
    wd: Option<Seq<char>>,
    sd: bool,
    k: int,
    i: int,
    j: int,
)
    requires
        0 <= k <= i < j < es.len(),
        candidate_in_group(es[i], prefix, wd, sd),
        candidate_in_group(es[j], prefix, wd, sd),
    ensures
        exists|a: int, b: int|
            0 <= a < b < recent_matching(es, prefix, wd, sd, k).len() && (#[trigger] recent_matching(
                es,
                prefix,
                wd,
                sd,
                k,
            )[a]) == es[j] && (#[trigger] recent_matching(es, prefix, wd, sd, k)[b]) == es[i],
    decreases es.len() - k,
{
    lemma_recent_matching_step(es, prefix, wd, sd, k);
    let r = recent_matching(es, prefix, wd, sd, k);
    let r1 = recent_matching(es, prefix, wd, sd, k + 1);
    if i == k {
        lemma_recent_matching_members(es, prefix, wd, sd, k + 1, j);
        let a = choose|a: int| 0 <= a < r1.len() && #[trigger] r1[a] == es[j];
        assert(r[a] == r1[a]);
        assert(r[r1.len() as int] == es[i]);
    } else {
        lemma_recent_matching_before(es, prefix, wd, sd, k + 1, i, j);
        let (a, b) = choose|a: int, b: int|
            0 <= a < b < r1.len() && #[trigger] r1[a] == es[j] && #[trigger] r1[b] == es[i];
        assert(r[a] == r1[a] && r[b] == r1[b]);
    }
}

proof fn lemma_recent_matching_elements(
    es: Seq<HistoryEntry>,
    prefix: Seq<char>,
    wd: Option<Seq<char>>,
    sd: bool,
    k: int,
    a: int,
)
    requires
        0 <= k <= es.len(),
        0 <= a < recent_matching(es, prefix, wd, sd, k).len(),
    ensures
        exists|i: int|
            k <= i < es.len() && candidate_in_group(#[trigger] es[i], prefix, wd, sd)
                && recent_matching(es, prefix, wd, sd, k)[a] == es[i],
    decreases es.len() - k,
{
    if k < es.len() {
        lemma_recent_matching_step(es, prefix, wd, sd, k);
        let r = recent_matching(es, prefix, wd, sd, k);
        let r1 = recent_matching(es, prefix, wd, sd, k + 1);
        if a < r1.len() {
            assert(r[a] == r1[a]);
            lemma_recent_matching_elements(es, prefix, wd, sd, k + 1, a);
        } else {
            assert(r[a] == es[k]);
        }
    }
}

/// The autosuggestion candidates: every history entry whose command starts
/// with the prefix, and nothing else; those run in the working directory
/// before those run elsewhere; and within either group the more recent
/// entry (the later in the history) first.
pub proof fn lemma_autosuggestion_candidates_order(
    es: Seq<HistoryEntry>,
    prefix: Seq<char>,
    working_dir: Option<Seq<char>>,
)
    ensures
        forall|i: int|
            0 <= i < es.len() && prefix.is_prefix_of((#[trigger] es[i]).command@) ==> exists|a: int|
                0 <= a < spec_potential_autosuggestions(es, prefix, working_dir).len()
                    && spec_potential_autosuggestions(es, prefix, working_dir)[a] == es[i],
        forall|a: int|
            0 <= a < spec_potential_autosuggestions(es, prefix, working_dir).len() ==> exists|i: int|
                0 <= i < es.len() && prefix.is_prefix_of(es[i].command@) && (
                #[trigger] spec_potential_autosuggestions(es, prefix, working_dir)[a]) == es[i],
        forall|i: int, j: int|
            0 <= i < j < es.len() && prefix.is_prefix_of((#[trigger] es[i]).command@)
                && prefix.is_prefix_of((#[trigger] es[j]).command@) && ran_in(es[i], working_dir)
                == ran_in(es[j], working_dir) ==> exists|a: int, b: int|
                0 <= a < b < spec_potential_autosuggestions(es, prefix, working_dir).len()
                    && spec_potential_autosuggestions(es, prefix, working_dir)[a] == es[j]
                    && spec_potential_autosuggestions(es, prefix, working_dir)[b] == es[i],
        forall|i: int, j: int|
            0 <= i < es.len() && 0 <= j < es.len() && prefix.is_prefix_of(
                (#[trigger] es[i]).command@,
            ) && prefix.is_prefix_of((#[trigger] es[j]).command@) && ran_in(es[i], working_dir)
                && !ran_in(es[j], working_dir) ==> exists|a: int, b: int|
                0 <= a < b < spec_potential_autosuggestions(es, prefix, working_dir).len()
                    && spec_potential_autosuggestions(es, prefix, working_dir)[a] == es[i]
                    && spec_potential_autosuggestions(es, prefix, working_dir)[b] == es[j],
{
    let all = spec_potential_autosuggestions(es, prefix, working_dir);
    assert forall|i: int|
        0 <= i < es.len() && prefix.is_prefix_of((#[trigger] es[i]).command@) implies exists|a: int|
        0 <= a < all.len() && all[a] == es[i] by {
        lemma_candidate_listed(es, prefix, working_dir, i);
    }
    assert forall|a: int| 0 <= a < all.len() implies exists|i: int|
        0 <= i < es.len() && prefix.is_prefix_of(es[i].command@) && (#[trigger] all[a]) == es[i] by {
        lemma_listed_is_candidate(es, prefix, working_dir, a);
    }
    assert forall|i: int, j: int|
        0 <= i < j < es.len() && prefix.is_prefix_of((#[trigger] es[i]).command@) && prefix.is_prefix_of(
            (#[trigger] es[j]).command@,
        ) && ran_in(es[i], working_dir) == ran_in(es[j], working_dir) implies exists|a: int, b: int|
        0 <= a < b < all.len() && all[a] == es[j] && all[b] == es[i] by {
        lemma_later_listed_first(es, prefix, working_dir, i, j);
    }
    assert forall|i: int, j: int|
        0 <= i < es.len() && 0 <= j < es.len() && prefix.is_prefix_of((#[trigger] es[i]).command@)
            && prefix.is_prefix_of((#[trigger] es[j]).command@) && ran_in(es[i], working_dir)
            && !ran_in(es[j], working_dir) implies exists|a: int, b: int|
        0 <= a < b < all.len() && all[a] == es[i] && all[b] == es[j] by {
        lemma_working_dir_listed_first(es, prefix, working_dir, i, j);
    }
}

proof fn lemma_candidate_listed(
    es: Seq<HistoryEntry>,
    prefix: Seq<char>,
    working_dir: Option<Seq<char>>,
    i: int,
)
    requires
        0 <= i < es.len(),
        prefix.is_prefix_of(es[i].command@),
    ensures
        exists|a: int|
            0 <= a < spec_potential_autosuggestions(es, prefix, working_dir).len()
                && spec_potential_autosuggestions(es, prefix, working_dir)[a] == es[i],
{
    let here = recent_matching(es, prefix, working_dir, true, 0);
    let elsewhere = recent_matching(es, prefix, working_dir, false, 0);
    let all = spec_potential_autosuggestions(es, prefix, working_dir);
    let sd = ran_in(es[i], working_dir);
    lemma_recent_matching_members(es, prefix, working_dir, sd, 0, i);
    if sd {
        let a = choose|a: int| 0 <= a < here.len() && #[trigger] here[a] == es[i];
        assert(all[a] == here[a]);
    } else {
        let a = choose|a: int| 0 <= a < elsewhere.len() && #[trigger] elsewhere[a] == es[i];
        assert(all[here.len() + a] == elsewhere[a]);
    }
}

proof fn lemma_listed_is_candidate(
    es: Seq<HistoryEntry>,
    prefix: Seq<char>,
    working_dir: Option<Seq<char>>,
    a: int,
)
    requires
        0 <= a < spec_potential_autosuggestions(es, prefix, working_dir).len(),
    ensures
        exists|i: int|
            0 <= i < es.len() && prefix.is_prefix_of(es[i].command@)
                && spec_potential_autosuggestions(es, prefix, working_dir)[a] == es[i],
{
    let here = recent_matching(es, prefix, working_dir, true, 0);
    let elsewhere = recent_matching(es, prefix, working_dir, false, 0);
    let all = spec_potential_autosuggestions(es, prefix, working_dir);
    if a < here.len() {
        assert(all[a] == here[a]);
        lemma_recent_matching_elements(es, prefix, working_dir, true, 0, a);
    } else {
        assert(all[a] == elsewhere[a - here.len()]);
        lemma_recent_matching_elements(es, prefix, working_dir, false, 0, a - here.len());
    }
}

proof fn lemma_later_listed_first(
    es: Seq<HistoryEntry>,
    prefix: Seq<char>,
    working_dir: Option<Seq<char>>,
    i: int,
    j: int,
)
    requires
        0 <= i < j < es.len(),
        prefix.is_prefix_of(es[i].command@),
        prefix.is_prefix_of(es[j].command@),
        ran_in(es[i], working_dir) == ran_in(es[j], working_dir),
    ensures
        exists|a: int, b: int|
            0 <= a < b < spec_potential_autosuggestions(es, prefix, working_dir).len()
                && spec_potential_autosuggestions(es, prefix, working_dir)[a] == es[j]
                && spec_potential_autosuggestions(es, prefix, working_dir)[b] == es[i],
{
    let here = recent_matching(es, prefix, working_dir, true, 0);
    let elsewhere = recent_matching(es, prefix, working_dir, false, 0);
    let all = spec_potential_autosuggestions(es, prefix, working_dir);
    let sd = ran_in(es[i], working_dir);
    lemma_recent_matching_before(es, prefix, working_dir, sd, 0, i, j);
    if sd {
        let (a, b) = choose|a: int, b: int|
            0 <= a < b < here.len() && #[trigger] here[a] == es[j] && #[trigger] here[b] == es[i];
        assert(all[a] == here[a] && all[b] == here[b]);
    } else {
        let (a, b) = choose|a: int, b: int|
            0 <= a < b < elsewhere.len() && #[trigger] elsewhere[a] == es[j]
                && #[trigger] elsewhere[b] == es[i];
        assert(all[here.len() + a] == elsewhere[a] && all[here.len() + b] == elsewhere[b]);
    }
}

proof fn lemma_working_dir_listed_first(
    es: Seq<HistoryEntry>,
    prefix: Seq<char>,
    working_dir: Option<Seq<char>>,
    i: int,
    j: int,
)
    requires
        0 <= i < es.len(),
        0 <= j < es.len(),
        prefix.is_prefix_of(es[i].command@),
        prefix.is_prefix_of(es[j].command@),
        ran_in(es[i], working_dir),
        !ran_in(es[j], working_dir),
    ensures
        exists|a: int, b: int|
            0 <= a < b < spec_potential_autosuggestions(es, prefix, working_dir).len()
                && spec_potential_autosuggestions(es, prefix, working_dir)[a] == es[i]
                && spec_potential_autosuggestions(es, prefix, working_dir)[b] == es[j],
{
    let here = recent_matching(es, prefix, working_dir, true, 0);
    let elsewhere = recent_matching(es, prefix, working_dir, false, 0);
    let all = spec_potential_autosuggestions(es, prefix, working_dir);
    lemma_recent_matching_members(es, prefix, working_dir, true, 0, i);
    lemma_recent_matching_members(es, prefix, working_dir, false, 0, j);
    let a = choose|a: int| 0 <= a < here.len() && #[trigger] here[a] == es[i];
    let b = choose|b: int| 0 <= b < elsewhere.len() && #[trigger] elsewhere[b] == es[j];
    assert(all[a] == here[a] && all[here.len() + b] == elsewhere[b]);
}

fn clone_string_option(o: &Option<String>) -> (res: Option<String>)
    ensures
        res == *o,
{
    match o {
        Some(s) => Some(s.clone()),
        None => None,
    }
}

fn clone_entry(e: &HistoryEntry) -> (res: HistoryEntry)
    ensures
        res == *e,
{
    HistoryEntry { command: e.command.clone(), pwd: clone_string_option(&e.pwd) }
}

fn runs_in(e: &HistoryEntry, working_dir: Option<&str>) -> (res: bool)
    ensures
        res == ran_in(
            *e,
            match working_dir {
                Some(d) => Some(d@),
                None => None,
            },
        ),
{
    match (&e.pwd, working_dir) {
        (Some(pwd), Some(dir)) => {
            let a = crate::text::chars_of(pwd.as_str());
            let b = crate::text::chars_of(dir);
            if a.len() != b.len() {
                proof {
                    if pwd@ == dir@ {
                        assert(a@.len() == b@.len());
                    }
                }
                return false;
            }
            for i in 0..a.len()
                invariant
                    e.pwd == Some(*pwd),
                    working_dir == Some(dir),
                    a@ == pwd@,
                    b@ == dir@,
                    a@.len() == b@.len(),
                    forall|k: int| 0 <= k < i ==> a@[k] == b@[k],
            {
                if a[i] != b[i] {
                    proof {
                        if pwd@ == dir@ {
                            assert(a@[i as int] == b@[i as int]);
                        }
                    }
                    return false;
                }
            }
            proof {
                assert(a@ =~= b@);
            }
            true
        },
        _ => false,
    }
}

/// History commands starting with `prefix`, most recent first, with commands
/// run in the active block's working directory before commands run elsewhere.
pub fn reverse_chronological_potential_autosuggestions(
    prefix: &str,
    history_entries: &[HistoryEntry],
    working_dir: Option<&str>,
) -> (res: Vec<HistoryEntry>)
    ensures
        res@ == spec_potential_autosuggestions(
            history_entries@,
            prefix@,
            match working_dir {
                Some(d) => Some(d@),
                None => None,
            },
        ),
{
    let ghost wd = match working_dir {
        Some(d) => Some(d@),
        None => None,
    };
    let mut same: Vec<HistoryEntry> = Vec::new();
    let mut other: Vec<HistoryEntry> = Vec::new();
    let mut i = history_entries.len();
    while i > 0
        invariant
            i <= history_entries@.len(),
            wd == match working_dir {
                Some(d) => Some(d@),
                None => None,
            },
            same@ == recent_matching(history_entries@, prefix@, wd, true, i as int),
            other@ == recent_matching(history_entries@, prefix@, wd, false, i as int),
        decreases i,
    {
        i = i - 1;
        let e = &history_entries[i];
        let ghost prev_same = same@;
        let ghost prev_other = other@;
        let matches = starts_with(e.command.as_str(), prefix);
        let here = runs_in(e, working_dir);
        if matches {
            if here {
                same.push(clone_entry(e));
            } else {
                other.push(clone_entry(e));
            }
        }
        proof {
            let es = history_entries@;
            assert(*e == es[i as int]);
            assert(recent_matching(es, prefix@, wd, true, i as int) == if prefix@.is_prefix_of(
                es[i as int].command@,
            ) && ran_in(es[i as int], wd) == true {
                prev_same.push(es[i as int])
            } else {
                prev_same
            });
            assert(recent_matching(es, prefix@, wd, false, i as int) == if prefix@.is_prefix_of(
                es[i as int].command@,
            ) && ran_in(es[i as int], wd) == false {
                prev_other.push(es[i as int])
            } else {
                prev_other
            });
        }
    }
    let ghost head = same@;
    for k in 0..other.len()
        invariant
            same@ == head + other@.take(k as int),
    {
        same.push(clone_entry(&other[k]));
        proof {
            assert(other@.take(k + 1) =~= other@.take(k as int).push(other@[k as int]));
        }
    }
    proof {
        assert(other@.take(other@.len() as int) =~= other@);
    }
    same
}

/// The index of the last space in `s`, or -1.
pub open spec fn last_space_index(s: Seq<char>) -> int
    decreases s.len(),
{
    if s.len() == 0 {
        -1
    } else if s.last() == ' ' {
        s.len() - 1
    } else {
        last_space_index(s.drop_last())
    }
}

/// The last word of a command: what follows its last space, or the whole
/// command when it holds no space.
pub open spec fn spec_last_word(s: Seq<char>) -> Seq<char> {
    s.skip(last_space_index(s) + 1)
}

proof fn lemma_last_space_index(s: Seq<char>, e: int)
    requires
        -1 <= e < s.len(),
        forall|k: int| e < k < s.len() ==> #[trigger] s[k] != ' ',
        e == -1 || s[e] == ' ',
    ensures
        last_space_index(s) == e,
    decreases s.len(),
{
    if s.len() > 0 && e < s.len() - 1 {
        let r = s.drop_last();
        assert forall|k: int| e < k < r.len() implies #[trigger] r[k] != ' ' by {
            assert(r[k] == s[k]);
        }
        if e >= 0 {
            assert(r[e] == s[e]);
        }
        lemma_last_space_index(r, e);
    }
}

/// The command `back` places before the most recent of `len` commands, or the
/// oldest when there are fewer.
pub open spec fn last_word_command_index(len: int, back: int) -> int {
    if len >= 1 + back {
        len - 1 - back
    } else {
        0
    }
}

/// The last word of the command `command_history_index` places before the
/// most recent one (the oldest command when there are fewer).
pub fn get_last_word_of_command_in_history(
    commands: &[String],
    command_history_index: usize,
) -> (res: Option<String>)
    requires
        command_history_index < usize::MAX,
    ensures
        commands@.len() == 0 ==> res is None,
        commands@.len() > 0 ==> (res matches Some(w) && w@ == spec_last_word(
            commands@[last_word_command_index(commands@.len() as int, command_history_index as int)]@,
        )),
{
    if commands.len() == 0 {
        return None;
    }
    let idx = commands.len().saturating_sub(1 + command_history_index);
    let chars = chars_of(commands[idx].as_str());
    let mut e: usize = chars.len();
    while e > 0 && chars[e - 1] != ' '
        invariant
            e <= chars@.len(),
            forall|k: int| e <= k < chars@.len() ==> #[trigger] chars@[k] != ' ',
        decreases e,
    {
        e = e - 1;
    }
    proof {
        lemma_last_space_index(chars@, e - 1);
    }
    let mut word: Vec<char> = Vec::new();
    let mut i = e;
    while i < chars.len()
        invariant
            e <= i <= chars@.len(),
            word@ == chars@.subrange(e as int, i as int),
        decreases chars@.len() - i,
    {
        word.push(chars[i]);
        i = i + 1;
        proof {
            assert(word@ =~= chars@.subrange(e as int, i as int));
        }
    }
    proof {
        assert(word@ =~= chars@.skip(e as int));
    }
    Some(string_from_chars(word.as_slice()))
}

/// Tracks consecutive insertions of the last word of a previous command: each
/// consecutive insertion reaches one command further back.
pub struct LastWordInsertion {
    pub insert_command_from_history_index: usize,
    pub is_latest_editor_event: bool,
}

impl LastWordInsertion {
    pub fn new() -> (res: Self)
        ensures
            res.insert_command_from_history_index == 0,
            !res.is_latest_editor_event,
    {
        LastWordInsertion { insert_command_from_history_index: 0, is_latest_editor_event: false }
    }

    /// Called for every editor event but an insertion of a last word: the
    /// event that follows an insertion moves the next insertion one command
    /// back, any other event starts again from the most recent command.
    pub fn update_last_word_insertion_state(&mut self)
        requires
            old(self).insert_command_from_history_index < usize::MAX,
        ensures
            old(self).is_latest_editor_event ==> final(self).insert_command_from_history_index
                == old(self).insert_command_from_history_index + 1,
            !old(self).is_latest_editor_event ==> final(self).insert_command_from_history_index == 0,
            !final(self).is_latest_editor_event,
    {
        if self.is_latest_editor_event {
            self.insert_command_from_history_index = self.insert_command_from_history_index + 1;
            self.is_latest_editor_event = false;
        } else {
            self.insert_command_from_history_index = 0;
        }
    }

    /// Records that a last word was just inserted.
    pub fn mark_inserted(&mut self)
        ensures
            final(self).is_latest_editor_event,
            final(self).insert_command_from_history_index
                == old(self).insert_command_from_history_index,
    {
        self.is_latest_editor_event = true;
    }
}


pub open spec fn is_ignored(ignored: Seq<String>, s: Seq<char>) -> bool {
    exists|k: int| 0 <= k < ignored.len() && (#[trigger] ignored[k])@ == s
}

fn ignored_contains(ignored: &[String], s: &String) -> (res: bool)
    ensures
        res == is_ignored(ignored@, s@),
{
    for k in 0..ignored.len()
        invariant
            forall|j: int| 0 <= j < k ==> (#[trigger] ignored@[j])@ != s@,
    {
        if ignored[k] == *s {
            return true;
        }
    }
    false
}

/// The first candidate that the user has not ignored.
pub fn first_not_ignored(candidates: &[String], ignored: &[String]) -> (res: Option<String>)
    ensures
        match res {
            Some(x) => exists|i: int|
                0 <= i < candidates@.len() && x@ == (#[trigger] candidates@[i])@ && !is_ignored(
                    ignored@,
                    candidates@[i]@,
                ) && forall|j: int| 0 <= j < i ==> is_ignored(ignored@, (#[trigger] candidates@[j])@),
            None => forall|j: int|
                0 <= j < candidates@.len() ==> is_ignored(ignored@, (#[trigger] candidates@[j])@),
        },
{
    for i in 0..candidates.len()
        invariant
            forall|j: int| 0 <= j < i ==> is_ignored(ignored@, (#[trigger] candidates@[j])@),
    {
        if !ignored_contains(ignored, &candidates[i]) {
            let x = candidates[i].clone();
            proof {
                assert(x@ == candidates@[i as int]@);
            }
            return Some(x);
        }
    }
    None
}

/// `res` is the command of the first entry of `entries` that the user has
/// not ignored, or `None` when every command is ignored.
pub open spec fn first_unignored_command(
    entries: Seq<HistoryEntry>,
    ignored: Seq<String>,
    res: Option<Seq<char>>,
) -> bool {
    match res {
        Some(x) => exists|i: int|
            0 <= i < entries.len() && x == (#[trigger] entries[i]).command@ && !is_ignored(
                ignored,
                entries[i].command@,
            ) && forall|j: int| 0 <= j < i ==> is_ignored(ignored, (#[trigger] entries[j]).command@),
        None => forall|j: int|
            0 <= j < entries.len() ==> is_ignored(ignored, (#[trigger] entries[j]).command@),
    }
}

/// How generating an autosuggestion for the buffer begins.
pub enum AutosuggestionStart {
    /// Nothing is generated and nothing running is aborted: the buffer is
    /// empty or no session is active.
    Skip,
    /// Abort the previous generation and suggest this command from history.
    FromHistory(String),
    /// Abort the previous generation and ask the completer: no command in
    /// history fits.
    AskCompleter,
}

/// Begins generating an autosuggestion for `buffer_text`: nothing for an
/// empty buffer or without an active session; otherwise the most recent
/// history command that starts with the buffer (those run in the working
/// directory first) and that the user has not ignored, else the completer.
pub fn start_autosuggestion(
    buffer_text: &str,
    active_session: Option<SessionId>,
    history_entries: &[HistoryEntry],
    working_dir: Option<&str>,
    ignored: &[String],
) -> (res: AutosuggestionStart)
    ensures
        (buffer_text@.len() == 0 || active_session is None) <==> res is Skip,
        match res {
            AutosuggestionStart::FromHistory(c) => first_unignored_command(
                spec_potential_autosuggestions(
                    history_entries@,
                    buffer_text@,
                    match working_dir {
                        Some(d) => Some(d@),
                        None => None,
                    },
                ),
                ignored@,
                Some(c@),
            ),
            AutosuggestionStart::AskCompleter => first_unignored_command(
                spec_potential_autosuggestions(
                    history_entries@,
                    buffer_text@,
                    match working_dir {
                        Some(d) => Some(d@),
                        None => None,
                    },
                ),
                ignored@,
                None,
            ),
            AutosuggestionStart::Skip => true,
        },
{
    if chars_of(buffer_text).len() == 0 {
        return AutosuggestionStart::Skip;
    }
    if active_session.is_none() {
        return AutosuggestionStart::Skip;
    }
    let candidates = reverse_chronological_potential_autosuggestions(
        buffer_text,
        history_entries,
        working_dir,
    );
    let mut commands: Vec<String> = Vec::new();
    for i in 0..candidates.len()
        invariant
            commands@.len() == i,
            forall|k: int| 0 <= k < i ==> (#[trigger] commands@[k])@ == candidates@[k].command@,
    {
        commands.push(candidates[i].command.clone());
    }
    match first_not_ignored(commands.as_slice(), ignored) {
        Some(c) => {
            proof {
                let i = choose|i: int|
                    0 <= i < commands@.len() && c@ == (#[trigger] commands@[i])@ && !is_ignored(
                        ignored@,
                        commands@[i]@,
                    ) && forall|j: int|
                        0 <= j < i ==> is_ignored(ignored@, (#[trigger] commands@[j])@);
                assert(commands@[i]@ == candidates@[i].command@);
                assert forall|j: int| 0 <= j < i implies is_ignored(
                    ignored@,
                    (#[trigger] candidates@[j]).command@,
                ) by {
                    assert(commands@[j]@ == candidates@[j].command@);
                }
                assert(first_unignored_command(candidates@, ignored@, Some(c@)));
            }
            AutosuggestionStart::FromHistory(c)
        },
        None => {
            proof {
                assert forall|j: int| 0 <= j < candidates@.len() implies is_ignored(
                    ignored@,
                    (#[trigger] candidates@[j]).command@,
                ) by {
                    assert(commands@[j]@ == candidates@[j].command@);
                }
            }
            AutosuggestionStart::AskCompleter
        },
    }
}

/// The buffer text that each completion would give: the buffer up to the
/// start of the replaced span, followed by the replacement.
pub fn completion_autosuggestions(
    buffer_text: &str,
    replacement_start: usize,
    replacements: &[String],
) -> (res: Vec<String>)
    requires
        vstd::utf8::is_char_boundary(buffer_text.spec_bytes(), replacement_start as int),
    ensures
        res@.len() == replacements@.len(),
        forall|i: int|
            0 <= i < res@.len() ==> (#[trigger] res@[i])@ == vstd::utf8::decode_utf8(
                buffer_text.spec_bytes().subrange(0, replacement_start as int),
            ) + replacements@[i]@,
{
    let (head, _tail) = buffer_text.split_at(replacement_start);
    proof {
        vstd::utf8::encode_utf8_decode_utf8(head@);
    }
    let mut res: Vec<String> = Vec::new();
    for i in 0..replacements.len()
        invariant
            head@ == vstd::utf8::decode_utf8(
                buffer_text.spec_bytes().subrange(0, replacement_start as int),
            ),
            res@.len() == i,
            forall|k: int| 0 <= k < i ==> (#[trigger] res@[k])@ == head@ + replacements@[k]@,
    {
        let mut s = String::from_str(head);
        s.append(replacements[i].as_str());
        res.push(s);
    }
    res
}

/// What the editor shows as the autosuggestion for a result computed for
/// `result_buffer`: nothing when the buffer has changed since, otherwise the
/// part of the suggestion after the buffer text.
pub fn autosuggestion_suffix(
    current_buffer: &str,
    result_buffer: &str,
    autosuggestion: Option<&str>,
) -> (res: Option<String>)
    ensures
        current_buffer@ != result_buffer@ ==> res is None,
        current_buffer@ == result_buffer@ ==> match autosuggestion {
            Some(s) => if result_buffer@.is_prefix_of(s@) {
                res matches Some(r) && r@ == s@.skip(result_buffer@.len() as int)
            } else {
                res is None
            },
            None => res is None,
        },
{
    let cur = chars_of(current_buffer);
    let buf = chars_of(result_buffer);
    let mut same = cur.len() == buf.len();
    if same {
        for i in 0..cur.len()
            invariant
                cur@ == current_buffer@,
                buf@ == result_buffer@,
                cur@.len() == buf@.len(),
                same == forall|k: int| 0 <= k < i ==> cur@[k] == buf@[k],
        {
            if cur[i] != buf[i] {
                same = false;
            }
        }
        proof {
            if same {
                assert(cur@ =~= buf@);
            }
        }
    }
    if !same {
        return None;
    }
    match autosuggestion {
        Some(s) => {
            if !starts_with(s, result_buffer) {
                return None;
            }
            let sc = chars_of(s);
            let mut out: Vec<char> = Vec::new();
            let mut i = buf.len();
            while i < sc.len()
                invariant
                    sc@ == s@,
                    buf@.len() <= i <= sc@.len(),
                    out@ == sc@.subrange(buf@.len() as int, i as int),
                decreases sc@.len() - i,
            {
                out.push(sc[i]);
                i = i + 1;
                proof {
                    assert(out@ =~= sc@.subrange(buf@.len() as int, i as int));
                }
            }
            proof {
                assert(out@ =~= s@.skip(result_buffer@.len() as int));
            }
            Some(string_from_chars(out.as_slice()))
        },
        None => None,
    }
}

/// One row of the inline history menu.
pub struct InlineHistoryResult {
    pub command: String,
    /// How many leading bytes of the command match the query.
    pub prefix_match_len: usize,
    /// The row's place in the menu; later rows score higher.
    pub rank: usize,
}

impl InlineHistoryResult {
    /// How a screen reader announces the row.
    pub fn accessibility_label(&self) -> (res: String)
        ensures
            res@ == "Command: "@ + self.command@,
    {
        let mut label = String::from_str("Command: ");
        label.append(self.command.as_str());
        label
    }

    /// The bytes of the command drawn bold because the query matched them:
    /// none when nothing matched.
    pub fn bold_prefix_len(&self) -> (res: Option<usize>)
        ensures
            res == if self.prefix_match_len > 0 {
                Some(self.prefix_match_len)
            } else {
                None
            },
    {
        if self.prefix_match_len > 0 {
            Some(self.prefix_match_len)
        } else {
            None
        }
    }
}

/// The commands, among the first `n`, that the query keeps: all of them for
/// an empty query, otherwise those starting with it.
pub open spec fn history_query_matches(commands: Seq<String>, query: Seq<char>, n: int) -> Seq<
    String,
>
    decreases n,
{
    if n <= 0 {
        Seq::empty()
    } else if query.len() == 0 || query.is_prefix_of(commands[n - 1]@) {
        history_query_matches(commands, query, n - 1).push(commands[n - 1])
    } else {
        history_query_matches(commands, query, n - 1)
    }
}

/// The rows of the inline history menu for a query: nothing unless the
/// query's filters admit commands; otherwise the commands (in menu order) that
/// start with the trimmed query text, ranked by their place.
pub fn inline_history_query(
    query_text: &str,
    filters_admit_commands: bool,
    commands: &[String],
) -> (res: Vec<InlineHistoryResult>)
    ensures
        !filters_admit_commands ==> res@.len() == 0,
        filters_admit_commands ==> ({
            let matches = history_query_matches(
                commands@,
                spec_trim(query_text@),
                commands@.len() as int,
            );
            &&& res@.len() == matches.len()
            &&& forall|i: int|
                0 <= i < res@.len() ==> {
                    &&& (#[trigger] res@[i]).command@ == matches[i]@
                    &&& res@[i].rank == i
                    &&& res@[i].prefix_match_len == vstd::utf8::encode_utf8(
                        spec_trim(query_text@),
                    ).len() as usize
                }
        }),
{
    let mut res: Vec<InlineHistoryResult> = Vec::new();
    if !filters_admit_commands {
        return res;
    }
    let trimmed = trim(query_text);
    let prefix_match_len = trimmed.as_str().len();
    let empty = trimmed.as_str().is_empty();
    let ghost q = spec_trim(query_text@);
    for i in 0..commands.len()
        invariant
            trimmed@ == q,
            q == spec_trim(query_text@),
            empty == (q.len() == 0),
            prefix_match_len == vstd::utf8::encode_utf8(q).len() as usize,
            res@.len() == history_query_matches(commands@, q, i as int).len(),
            forall|k: int|
                0 <= k < res@.len() ==> {
                    &&& (#[trigger] res@[k]).command@ == history_query_matches(
                        commands@,
                        q,
                        i as int,
                    )[k]@
                    &&& res@[k].rank == k
                    &&& res@[k].prefix_match_len == vstd::utf8::encode_utf8(q).len() as usize
                },
    {
        if empty || starts_with(commands[i].as_str(), trimmed.as_str()) {
            let rank = res.len();
            res.push(
                InlineHistoryResult { command: commands[i].clone(), prefix_match_len, rank },
            );
        }
    }
    res
}

/// Whether moving down in the inline history menu closes it: it does when
/// the menu is empty or the last row is selected.
pub fn select_down_closes_menu(result_count: usize, selected_idx: Option<usize>) -> (res: bool)
    ensures
        res == (result_count == 0 || (selected_idx == Some((result_count - 1) as usize))),
{
    let is_last_item_selected = result_count > 0 && match selected_idx {
        Some(idx) => idx == result_count - 1,
        None => false,
    };
    is_last_item_selected || result_count == 0
}

/// The first `n` suggestions that the user has not ignored, in order.
pub open spec fn kept_unignored(
    s: Seq<HistorySuggestion>,
    ignored: Option<Seq<String>>,
    n: int,
) -> Seq<HistorySuggestion>
    decreases n,
{
    if n <= 0 {
        Seq::empty()
    } else {
        let prev = kept_unignored(s, ignored, n - 1);
        match ignored {
            Some(list) => if is_ignored(list, s[n - 1].text@) {
                prev
            } else {
                prev.push(s[n - 1])
            },
            None => prev.push(s[n - 1]),
        }
    }
}

fn copy_suggestion(x: &HistorySuggestion) -> (res: HistorySuggestion)
    ensures
        res == *x,
{
    HistorySuggestion {
        text: x.text.clone(),
        in_current_session: x.in_current_session,
        timestamp: x.timestamp,
    }
}

/// The up-arrow menu's commands: the session's history without the
/// commands the user ignored (when the ignore list is available), in menu
/// order, each command once.
pub fn up_arrow_suggestions(commands: Vec<HistorySuggestion>, ignored: Option<&[String]>) -> (res:
    Vec<HistorySuggestion>)
    ensures
        res@ == spec_sort_and_dedupe(
            kept_unignored(
                commands@,
                match ignored {
                    Some(list) => Some(list@),
                    None => None,
                },
                commands@.len() as int,
            ),
        ),
{
    let ghost ignored_view = match ignored {
        Some(list) => Some(list@),
        None => None,
    };
    let mut kept: Vec<HistorySuggestion> = Vec::new();
    for i in 0..commands.len()
        invariant
            kept@ == kept_unignored(commands@, ignored_view, i as int),
            ignored_view == match ignored {
                Some(list) => Some(list@),
                None => None,
            },
    {
        let x = &commands[i];
        let skip = match ignored {
            Some(list) => ignored_contains(list, &x.text),
            None => false,
        };
        if !skip {
            kept.push(copy_suggestion(x));
        }
    }
    sort_and_dedupe_suggestions(kept)
}

} // verus!
