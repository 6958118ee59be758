//! Locating chats in the account's chat list.
//!
//! The chat list is fetched in pages: first the 20 most recent chats, then
//! 40, 60, and so on, until the wanted chat shows up or a page comes back
//! shorter than what was asked for. The fetching is I/O and happens outside;
//! the decisions between two fetches are made here.
use vstd::prelude::*;

verus! {

/// The first number of chats asked for, and the step by which it grows.
pub const PAGE_STEP: i32 = 20;

/// What to do after a page of chat ids has arrived.
#[derive(Clone, Copy, Debug, PartialEq, Eq, Structural)]
pub enum SearchStep {
    /// The chat is in the list: open it.
    Found,
    /// The list is exhausted and the chat was not seen.
    NotFound,
    /// Ask again, for this many chats.
    FetchMore(i32),
}

/// The state of a search for one chat.
#[derive(Clone, Copy, Debug)]
pub struct ChatSearch {
    pub target: i64,
    pub limit: i32,
}

/// A limit that the search can be at: 20, 40, 60, ...
pub open spec fn valid_limit(limit: int) -> bool {
    limit >= PAGE_STEP && limit % (PAGE_STEP as int) == 0
}

/// Whether a page answers a request for `limit` chats with fewer chats than
/// asked for, on a request that was not the first.
pub open spec fn exhausted(page_len: int, limit: int) -> bool {
    page_len < limit && limit > PAGE_STEP
}

/// The decision on a page of chat ids, for a search for `target` whose last
/// request asked for `limit` chats: a page that holds the chat finds it;
/// otherwise a short answer to a later request ends the search, and any
/// other page asks for 20 chats more.
pub open spec fn search_step(target: i64, limit: int, page: Seq<i64>) -> SearchStep {
    if page.contains(target) {
        SearchStep::Found
    } else if exhausted(page.len() as int, limit) {
        SearchStep::NotFound
    } else {
        SearchStep::FetchMore((limit + PAGE_STEP) as i32)
    }
}

impl ChatSearch {
    pub open spec fn wf(&self) -> bool {
        valid_limit(self.limit as int)
    }

    /// A search for `target` whose first request asks for 20 chats.
    pub fn new(target: i64) -> (s: Self)
        ensures
            s.wf(),
            s.target == target,
            s.limit == PAGE_STEP,
    {
        ChatSearch { target, limit: PAGE_STEP }
    }

    /// Decides on the page of chat ids that the last request returned (see
    /// `search_step`). When the answer is to fetch more, the limit grows by
    /// 20 and the new limit is the one to ask for.
    pub fn on_page(&mut self, page: &Vec<i64>) -> (step: SearchStep)
        requires
            old(self).wf(),
            old(self).limit <= i32::MAX - PAGE_STEP,
        ensures
            final(self).wf(),
            final(self).target == old(self).target,
            step == search_step(old(self).target, old(self).limit as int, page@),
            page@.contains(old(self).target) ==> step == SearchStep::Found,
            step == SearchStep::Found ==> page@.contains(old(self).target),
            step == SearchStep::NotFound ==> page.len() < old(self).limit && old(self).limit > PAGE_STEP,
            !page@.contains(old(self).target) && (page.len() >= old(self).limit || old(self).limit
                == PAGE_STEP) ==> step == SearchStep::FetchMore((old(self).limit + PAGE_STEP) as i32),
            step is FetchMore ==> final(self).limit == old(self).limit + PAGE_STEP && step == SearchStep::FetchMore(
                final(self).limit,
            ),
            !(step is FetchMore) ==> final(self).limit == old(self).limit,
    {
        if contains_id(page, self.target) {
            SearchStep::Found
        } else if page.len() < self.limit as usize && self.limit > PAGE_STEP {
            SearchStep::NotFound
        } else {
            self.limit = self.limit + PAGE_STEP;
            SearchStep::FetchMore(self.limit)
        }
    }
}

/// Whether `id` is among `ids`.
pub fn contains_id(ids: &Vec<i64>, id: i64) -> (b: bool)
    ensures
        b == ids@.contains(id),
{
    let mut i: usize = 0;
    while i < ids.len()
        invariant
            i <= ids.len(),
            forall|k: int| 0 <= k < i ==> ids@[k] != id,
        decreases ids.len() - i,
    {
        if ids[i] == id {
            return true;
        }
        i += 1;
    }
    false
}

/// The first request of a search is never answered with "not found":
/// a search gives up only on a short answer to a later request.
pub proof fn lemma_first_page_never_gives_up(target: i64, page: Seq<i64>)
    ensures
        search_step(target, PAGE_STEP as int, page) != SearchStep::NotFound,
{
}

/// A search gives up only on a short answer to a later request: a page
/// that does not hold the chat but is as long as the limit asked for (or
/// answers the first request) always leads to asking for 20 chats more.
pub proof fn lemma_only_short_pages_give_up(target: i64, limit: int, page: Seq<i64>)
    ensures
        search_step(target, limit, page) == SearchStep::NotFound ==> page.len() < limit && limit > PAGE_STEP
            && !page.contains(target),
        !page.contains(target) && (page.len() >= limit || limit == PAGE_STEP) ==> search_step(target, limit, page)
            == SearchStep::FetchMore((limit + PAGE_STEP) as i32),
{
}

/// A search ends as not found only on a page that does not hold the chat,
/// and finds the chat exactly when the page holds it.
pub proof fn lemma_found_exactly_when_present(target: i64, limit: int, page: Seq<i64>)
    ensures
        (search_step(target, limit, page) == SearchStep::Found) == page.contains(target),
        search_step(target, limit, page) == SearchStep::NotFound ==> !page.contains(target),
{
}

// ---------------------------------------------------------------------------
// Searching for several chats at once.
// ---------------------------------------------------------------------------

/// The ids are in ascending order.
pub open spec fn sorted(s: Seq<i64>) -> bool {
    forall|i: int, j: int| 0 <= i <= j < s.len() ==> s[i] <= s[j]
}

/// `s` with one occurrence of `x` taken out.
pub open spec fn drop_one(s: Seq<i64>, x: i64) -> Seq<i64> {
    s.remove(s.index_of(x))
}

/// What scanning a page does to the ids still to be found, when they are
/// sorted: the ids of the page that were pending, in page order (each
/// taking one occurrence out of the pending ids), the ids still pending
/// afterwards, and whether none is left (the scan stops at that point).
pub open spec fn multi_scan(pending: Seq<i64>, page: Seq<i64>) -> (Seq<i64>, Seq<i64>, bool)
    decreases page.len(),
{
    if page.len() == 0 {
        (Seq::empty(), pending, false)
    } else {
        let x = page[0];
        if pending.contains(x) {
            let rest = drop_one(pending, x);
            if rest.len() == 0 {
                (seq![x], rest, true)
            } else {
                let r = multi_scan(rest, page.drop_first());
                (seq![x] + r.0, r.1, r.2)
            }
        } else {
            multi_scan(pending, page.drop_first())
        }
    }
}

/// What stays pending after a scan was pending before.
proof fn lemma_scan_keeps_only_pending(pending: Seq<i64>, page: Seq<i64>)
    ensures
        forall|y: i64| multi_scan(pending, page).1.contains(y) ==> pending.contains(y),
    decreases page.len(),
{
    if page.len() > 0 {
        let x = page[0];
        if pending.contains(x) {
            let j = pending.index_of(x);
            let rest = drop_one(pending, x);
            lemma_scan_keeps_only_pending(rest, page.drop_first());
            assert forall|y: i64| rest.contains(y) implies pending.contains(y) by {
                let i = choose|i: int| 0 <= i < rest.len() && rest[i] == y;
                if i < j {
                    assert(pending[i] == y);
                } else {
                    assert(pending[i + 1] == y);
                }
            }
        } else {
            lemma_scan_keeps_only_pending(pending, page.drop_first());
        }
    }
}

/// When the ids to find are given without repeats, a page that does not
/// end the search leaves none of its ids pending: every id of the page that
/// was wanted has been opened.
pub proof fn lemma_scan_leaves_no_page_id_pending(pending: Seq<i64>, page: Seq<i64>)
    requires
        pending.no_duplicates(),
    ensures
        !multi_scan(pending, page).2 ==> forall|k: int|
            0 <= k < page.len() ==> !multi_scan(pending, page).1.contains(#[trigger] page[k]),
    decreases page.len(),
{
    if page.len() > 0 {
        let x = page[0];
        let tail = page.drop_first();
        if pending.contains(x) {
            let j = pending.index_of(x);
            let rest = drop_one(pending, x);
            assert(pending[j] == x);
            assert(rest.no_duplicates()) by {
                assert forall|a: int, b: int| 0 <= a < rest.len() && 0 <= b < rest.len() && a != b implies rest[a]
                    != rest[b] by {
                    let a2 = if a < j { a } else { a + 1 };
                    let b2 = if b < j { b } else { b + 1 };
                    assert(rest[a] == pending[a2] && rest[b] == pending[b2]);
                }
            }
            assert(!rest.contains(x)) by {
                if rest.contains(x) {
                    let i = choose|i: int| 0 <= i < rest.len() && rest[i] == x;
                    let i2 = if i < j { i } else { i + 1 };
                    assert(pending[i2] == x && i2 != j);
                }
            }
            if rest.len() != 0 {
                lemma_scan_leaves_no_page_id_pending(rest, tail);
                lemma_scan_keeps_only_pending(rest, tail);
                assert forall|k: int| 0 <= k < page.len() && !multi_scan(pending, page).2 implies !multi_scan(
                    pending,
                    page,
                ).1.contains(#[trigger] page[k]) by {
                    if k > 0 {
                        assert(page[k] == tail[k - 1]);
                    }
                }
            }
        } else {
            lemma_scan_leaves_no_page_id_pending(pending, tail);
            lemma_scan_keeps_only_pending(pending, tail);
            assert forall|k: int| 0 <= k < page.len() && !multi_scan(pending, page).2 implies !multi_scan(
                pending,
                page,
            ).1.contains(#[trigger] page[k]) by {
                if k > 0 {
                    assert(page[k] == tail[k - 1]);
                }
            }
        }
    }
}

/// The law of `lemma_scan_leaves_no_page_id_pending`, guarded by its condition.
proof fn lemma_scan_leaves_no_page_id_pending_when_distinct(pending: Seq<i64>, page: Seq<i64>)
    ensures
        pending.no_duplicates() && !multi_scan(pending, page).2 ==> forall|k: int|
            0 <= k < page.len() ==> !multi_scan(pending, page).1.contains(#[trigger] page[k]),
{
    if pending.no_duplicates() {
        lemma_scan_leaves_no_page_id_pending(pending, page);
    }
}

/// How a page ended the multi-chat search.
#[derive(Clone, Debug, PartialEq, Eq)]
pub enum MultiOutcome {
    /// Every chat has been found.
    AllFound,
    /// The list is exhausted; these chats were not seen.
    Missing(Vec<i64>),
    /// Ask again, for this many chats.
    FetchMore(i32),
}

/// The decision on a page for the multi-chat search: which chats to open,
/// in this order, and how to go on.
#[derive(Clone, Debug, PartialEq, Eq)]
pub struct MultiStep {
    pub opened: Vec<i64>,
    pub outcome: MultiOutcome,
}

/// The state of a search for several chats: those not found yet, in
/// ascending order, and the number of chats last asked for.
#[derive(Clone, Debug)]
pub struct MultiChatSearch {
    pub pending: Vec<i64>,
    pub limit: i32,
}

/// Binary search in a vector of ids (std's `<[i64]>::binary_search`). On a
/// sorted vector, `Ok(i)` is an index holding `x` and `Err(_)` means that
/// `x` is absent. On an unsorted vector std documents the result as
/// unspecified, and nothing is stated of it.
#[verifier::external_body]
fn binary_search_id(v: &Vec<i64>, x: i64) -> (r: Result<usize, usize>)
    ensures
        sorted(v@) ==> match r {
            Ok(i) => i < v.len() && v@[i as int] == x,
            Err(i) => i <= v.len() && !v@.contains(x),
        },
{
    v.as_slice().binary_search(&x)
}

/// Sorts ids in ascending order (std's `slice::sort`): afterwards the ids
/// are in ascending order and are the same ids, each as often as before.
#[verifier::external_body]
fn sort_ids(v: &mut Vec<i64>)
    ensures
        sorted(final(v)@),
        final(v)@.to_multiset() == old(v)@.to_multiset(),
{
    v.sort();
}

/// Taking out any occurrence of `x` from a sorted sequence gives the same
/// sequence.
proof fn lemma_remove_equal_in_sorted(s: Seq<i64>, j: int, k: int)
    requires
        sorted(s),
        0 <= j < s.len(),
        0 <= k < s.len(),
        s[j] == s[k],
    ensures
        s.remove(j) == s.remove(k),
{
    let (a, b) = if j <= k { (j, k) } else { (k, j) };
    assert forall|i: int| 0 <= i < s.len() - 1 implies s.remove(a)[i] == s.remove(b)[i] by {
        if a <= i < b {
            assert(s[a] <= s[i] && s[i] <= s[i + 1] && s[i + 1] <= s[b]);
        }
    }
    assert(s.remove(a) =~= s.remove(b));
}

/// Taking an element out of a sorted sequence leaves it sorted.
proof fn lemma_remove_keeps_sorted(s: Seq<i64>, j: int)
    requires
        sorted(s),
        0 <= j < s.len(),
    ensures
        sorted(s.remove(j)),
{
    let r = s.remove(j);
    assert forall|a: int, b: int| 0 <= a <= b < r.len() implies r[a] <= r[b] by {
        let a2 = if a < j { a } else { a + 1 };
        let b2 = if b < j { b } else { b + 1 };
        assert(r[a] == s[a2] && r[b] == s[b2]);
    }
}

impl MultiChatSearch {
    pub open spec fn wf(&self) -> bool {
        valid_limit(self.limit as int) && sorted(self.pending@)
    }

    /// A search for the chats `ids`, in whatever order they are given, whose
    /// first request asks for 20 chats. The ids are kept in ascending order.
    pub fn new(ids: Vec<i64>) -> (s: Self)
        ensures
            s.wf(),
            s.pending@.to_multiset() == ids@.to_multiset(),
            s.limit == PAGE_STEP,
    {
        let mut pending = ids;
        sort_ids(&mut pending);
        MultiChatSearch { pending, limit: PAGE_STEP }
    }

    /// Decides on the page of chat ids that the last request returned.
    ///
    /// The page is scanned in order; each id found among the pending ones
    /// (by binary search) is to be opened and stops being pending, and the
    /// scan stops as soon as nothing is pending (see `multi_scan`). Then,
    /// unless everything was found, a short answer to a later request ends
    /// the search with the ids still missing, and otherwise the limit grows
    /// by 20. With the ids given without repeats, no id of a page that does
    /// not end the search stays pending.
    pub fn on_page(&mut self, page: &Vec<i64>) -> (step: MultiStep)
        requires
            old(self).wf(),
            old(self).limit <= i32::MAX - PAGE_STEP,
        ensures
            final(self).wf(),
            final(self).pending@.to_multiset().add(step.opened@.to_multiset())
                == old(self).pending@.to_multiset(),
            forall|k: int| 0 <= k < step.opened.len() ==> page@.contains(#[trigger] step.opened@[k]),
            step.outcome == MultiOutcome::AllFound ==> final(self).pending.len() == 0,
            match step.outcome {
                MultiOutcome::AllFound => final(self).limit == old(self).limit,
                MultiOutcome::Missing(ids) => ids@ == final(self).pending@
                    && exhausted(page.len() as int, old(self).limit as int)
                    && final(self).limit == old(self).limit,
                MultiOutcome::FetchMore(l) => final(self).limit == old(self).limit + PAGE_STEP
                    && l == final(self).limit
                    && !exhausted(page.len() as int, old(self).limit as int),
            },
            ({
                let r = multi_scan(old(self).pending@, page@);
                &&& step.opened@ == r.0
                &&& final(self).pending@ == r.1
                &&& (step.outcome == MultiOutcome::AllFound) == r.2
            }),
            old(self).pending@.no_duplicates() && step.outcome != MultiOutcome::AllFound ==> forall|k: int|
                0 <= k < page.len() ==> !final(self).pending@.contains(#[trigger] page@[k]),
    {
        broadcast use vstd::seq_lib::group_to_multiset_ensures;
        broadcast use vstd::multiset::group_multiset_axioms;

        let ghost p0 = self.pending@;
        let mut opened: Vec<i64> = Vec::new();
        let mut done = false;
        let mut i: usize = 0;
        proof {
            assert(page@.skip(0) == page@);
            assert(opened@ + multi_scan(p0, page@).0 == multi_scan(p0, page@).0);
        }
        while i < page.len()
            invariant_except_break
                !done,
            invariant
                i <= page.len(),
                self.limit == old(self).limit,
                self.pending@.to_multiset().add(opened@.to_multiset()) == p0.to_multiset(),
                forall|k: int| 0 <= k < opened.len() ==> page@.contains(#[trigger] opened@[k]),
                done ==> self.pending.len() == 0,
                sorted(p0) ==> sorted(self.pending@),
                sorted(p0) && !done ==> ({
                    let r = multi_scan(self.pending@, page@.skip(i as int));
                    multi_scan(p0, page@) == (opened@ + r.0, r.1, r.2)
                }),
                sorted(p0) && done ==> multi_scan(p0, page@) == (opened@, self.pending@, true),
            ensures
                i <= page.len(),
                self.limit == old(self).limit,
                self.pending@.to_multiset().add(opened@.to_multiset()) == p0.to_multiset(),
                forall|k: int| 0 <= k < opened.len() ==> page@.contains(#[trigger] opened@[k]),
                done ==> self.pending.len() == 0,
                sorted(p0) ==> sorted(self.pending@),
                sorted(p0) && !done ==> ({
                    let r = multi_scan(self.pending@, page@.skip(i as int));
                    multi_scan(p0, page@) == (opened@ + r.0, r.1, r.2)
                }),
                sorted(p0) && done ==> multi_scan(p0, page@) == (opened@, self.pending@, true),
                !done ==> i == page.len(),
            decreases page.len() - i,
        {
            let x = page[i];
            let ghost pend = self.pending@;
            let ghost rest_page = page@.skip(i as int);
            proof {
                assert(rest_page[0] == x);
                assert(rest_page.drop_first() =~= page@.skip(i + 1));
            }
            let r = binary_search_id(&self.pending, x);
            let mut hit: Option<usize> = None;
            if let Ok(idx) = r {
                if idx < self.pending.len() && self.pending[idx] == x {
                    hit = Some(idx);
                }
            }
            match hit {
                Some(idx) => {
                    self.pending.remove(idx);
                    let ghost before = opened@;
                    opened.push(x);
                    proof {
                        assert(page@[i as int] == x);
                        assert(opened@ == before.push(x));
                        vstd::seq_lib::to_multiset_build(before, x);
                        assert(self.pending@ == pend.remove(idx as int));
                        vstd::seq_lib::to_multiset_remove(pend, idx as int);
                        assert(self.pending@.to_multiset() == pend.to_multiset().remove(x));
                        assert(pend.to_multiset().count(x) > 0) by {
                            assert(pend[idx as int] == x);
                            assert(pend.contains(x));
                            vstd::seq_lib::to_multiset_contains(pend, x);
                        }
                        assert(self.pending@.to_multiset().add(opened@.to_multiset())
                            =~= pend.to_multiset().add(before.to_multiset()));
                        assert forall|k: int| 0 <= k < opened.len() implies page@.contains(
                            #[trigger] opened@[k],
                        ) by {
                            if k < before.len() {
                                assert(opened@[k] == before[k]);
                            }
                        }
                        if sorted(p0) {
                            assert(pend.contains(x));
                            let j = pend.index_of(x);
                            lemma_remove_equal_in_sorted(pend, idx as int, j);
                            lemma_remove_keeps_sorted(pend, idx as int);
                            assert(self.pending@ == drop_one(pend, x));
                            let rr = multi_scan(self.pending@, page@.skip(i + 1));
                            if self.pending@.len() != 0 {
                                assert(multi_scan(pend, rest_page) == (seq![x] + rr.0, rr.1, rr.2));
                                assert(before + (seq![x] + rr.0) =~= opened@ + rr.0);
                            } else {
                                assert(multi_scan(pend, rest_page) == (seq![x], self.pending@, true));
                                assert(before + seq![x] =~= opened@);
                            }
                        }
                    }
                    if self.pending.len() == 0 {
                        done = true;
                        i += 1;
                        break;
                    }
                },
                None => {
                    proof {
                        if sorted(p0) {
                            assert(!pend.contains(x));
                            assert(multi_scan(pend, rest_page) == multi_scan(pend, page@.skip(i + 1)));
                        }
                    }
                },
            }
            i += 1;
        }
        proof {
            if sorted(p0) && !done {
                assert(page@.skip(page.len() as int) =~= Seq::<i64>::empty());
                assert(opened@ + Seq::<i64>::empty() =~= opened@);
            }
        }
        proof {
            lemma_scan_leaves_no_page_id_pending_when_distinct(p0, page@);
        }
        let outcome = if done {
            MultiOutcome::AllFound
        } else if page.len() < self.limit as usize && self.limit > PAGE_STEP {
            MultiOutcome::Missing(self.pending.clone())
        } else {
            self.limit = self.limit + PAGE_STEP;
            MultiOutcome::FetchMore(self.limit)
        };
        MultiStep { opened, outcome }
    }
}

} // verus!
