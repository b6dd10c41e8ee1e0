use vstd::prelude::*;

verus! {

/// A button of the page navigation bar.
#[derive(Clone, Copy, PartialEq, Eq, Debug, Structural)]
pub enum PageAction {
    Nothing,
    Previous,
    Next,
    New,
}

/// The pages of a whiteboard. The page being edited lives in `live`; its
/// slot in `pages` holds a placeholder until another page is opened.
pub struct PageBook<P> {
    pub live: P,
    pub pages: Vec<P>,
    pub current_page: usize,
}

impl<P: Default> PageBook<P> {
    /// The pages in order, with the edited one in its place.
    pub open spec fn book(&self) -> Seq<P> {
        self.pages@.update(self.current_page as int, self.live)
    }

    /// The current page is one of the pages.
    pub open spec fn well_formed(&self) -> bool {
        self.current_page < self.pages@.len()
    }

    /// A book of one page, `first`, which is being edited.
    pub fn new(first: P) -> (b: Self)
        ensures
            b.well_formed(),
            b.book() == seq![first],
            b.current_page == 0,
            b.live == first,
    {
        let mut pages: Vec<P> = Vec::new();
        pages.push(P::default());
        let b = PageBook { live: first, pages, current_page: 0 };
        assert(b.book() =~= seq![first]);
        b
    }

    /// Opens page `page_index`: the edited page goes back to its slot and
    /// the chosen one is taken out for editing.
    pub fn switch_to_page_state(&mut self, page_index: usize)
        requires
            old(self).well_formed(),
            page_index < old(self).pages@.len(),
        ensures
            final(self).well_formed(),
            final(self).book() == old(self).book(),
            final(self).current_page == page_index,
            final(self).live == old(self).book()[page_index as int],
            final(self).pages@ == switched_slots(old(self).pages@, old(self).live, old(self).current_page as int, page_index as int),
    {
        let old_index = self.current_page;
        if old_index != page_index {
            self.pages.set_and_swap(old_index, &mut self.live);
            self.current_page = page_index;
            self.pages.set_and_swap(page_index, &mut self.live);
            assert(self.book() =~= old(self).book());
            assert(self.pages@ =~= switched_slots(old(self).pages@, old(self).live, old_index as int, page_index as int));
        } else {
            assert(self.pages@ =~= switched_slots(old(self).pages@, old(self).live, old_index as int, page_index as int));
        }
    }

    /// Stores the edited page and appends `new_page`, which becomes the
    /// edited page.
    pub fn add_new_page_state(&mut self, new_page: P)
        requires
            old(self).well_formed(),
        ensures
            final(self).well_formed(),
            final(self).book() == old(self).book().push(new_page),
            final(self).current_page == old(self).pages@.len(),
            final(self).live == new_page,
    {
        let mut page = new_page;
        std::mem::swap(&mut page, &mut self.live);
        self.pages.set(self.current_page, page);
        self.pages.push(P::default());
        self.current_page = self.pages.len() - 1;
        assert(self.book() =~= old(self).book().push(new_page));
    }
}

impl<P: Default> PageBook<P> {
    /// Carries out a button of the navigation bar: the previous or the next
    /// page, when there is one, or a new page `new_page` appended at the end.
    pub fn apply_page_action(&mut self, action: PageAction, new_page: P)
        requires
            old(self).well_formed(),
        ensures
            final(self).well_formed(),
            action == PageAction::New ==> final(self).book() == old(self).book().push(new_page)
                && final(self).current_page == old(self).pages@.len() && final(self).live == new_page,
            action != PageAction::New ==> final(self).book() == old(self).book(),
            final(self).current_page == (match action {
                PageAction::Previous => if old(self).current_page > 0 {
                    old(self).current_page - 1
                } else {
                    old(self).current_page as int
                },
                PageAction::Next => if old(self).current_page + 1 < old(self).pages@.len() {
                    old(self).current_page + 1
                } else {
                    old(self).current_page as int
                },
                PageAction::New => old(self).pages@.len() as int,
                PageAction::Nothing => old(self).current_page as int,
            }),
            final(self).live == final(self).book()[final(self).current_page as int],
    {
        proof {
            assert(old(self).book()[old(self).current_page as int] == old(self).live);
        }
        match action {
            PageAction::Previous => {
                if self.current_page > 0 {
                    self.switch_to_page_state(self.current_page - 1);
                }
            },
            PageAction::Next => {
                if self.current_page < self.pages.len() - 1 {
                    self.switch_to_page_state(self.current_page + 1);
                }
            },
            PageAction::New => {
                self.add_new_page_state(new_page);
            },
            PageAction::Nothing => {},
        }
    }

    /// Moves page `from_idx` to the drop position `to_idx` (the row before
    /// which the page was dropped, or `usize::MAX` for the end of the list).
    /// The edited page stays the edited page.
    pub fn reorder_pages(&mut self, from_idx: usize, to_idx: usize)
        requires
            old(self).well_formed(),
            from_idx < old(self).pages@.len(),
        ensures
            final(self).well_formed(),
            final(self).book() == old(self).book().remove(from_idx as int).insert(
                drop_position(old(self).pages@.len() - 1, from_idx as int, to_idx as int),
                old(self).book()[from_idx as int],
            ),
            final(self).live == old(self).live,
            final(self).current_page == page_after_move(
                old(self).current_page as int,
                from_idx as int,
                drop_position(old(self).pages@.len() - 1, from_idx as int, to_idx as int),
            ),
    {
        let old_cp = self.current_page;
        let ghost s = self.book();
        self.pages.set_and_swap(old_cp, &mut self.live);
        assert(self.pages@ =~= s);
        let page = self.pages.remove(from_idx);
        let len = self.pages.len();
        let mut insert_at: usize = if to_idx == usize::MAX || to_idx >= len {
            len
        } else if to_idx > from_idx {
            to_idx - 1
        } else {
            to_idx
        };
        if insert_at > len {
            insert_at = len;
        }
        self.pages.insert(insert_at, page);
        let ghost r = s.remove(from_idx as int);
        assert(self.pages@ =~= r.insert(insert_at as int, s[from_idx as int]));
        let cur = if old_cp == from_idx {
            insert_at
        } else if old_cp > from_idx && old_cp <= insert_at {
            old_cp - 1
        } else if old_cp < from_idx && old_cp >= insert_at {
            old_cp + 1
        } else {
            old_cp
        };
        assert(self.pages@[cur as int] == s[old_cp as int]);
        self.current_page = cur;
        let ghost t = self.pages@;
        self.pages.set_and_swap(cur, &mut self.live);
        assert(self.book() =~= t);
    }
}

/// The slots after switching from page `from` to page `to`: the edited page
/// `live` goes back to its slot, and the slot of the opened page takes the
/// placeholder that stood in the slot of the edited one.
pub open spec fn switched_slots<P>(pages: Seq<P>, live: P, from: int, to: int) -> Seq<P> {
    pages.update(from, live).update(to, pages[from])
}

/// Switching to another page and back gives back every slot of the page
/// list, the edited page and the book.
pub proof fn law_switch_away_and_back<P>(pages: Seq<P>, live: P, from: int, to: int)
    requires
        0 <= from < pages.len(),
        0 <= to < pages.len(),
    ensures
        ({
            let book = pages.update(from, live);
            let away = switched_slots(pages, live, from, to);
            let opened = book[to];
            &&& away.update(to, opened) == book
            &&& switched_slots(away, opened, to, from) == pages
            &&& away.update(to, opened)[from] == live
        }),
{
    let book = pages.update(from, live);
    let away = switched_slots(pages, live, from, to);
    let opened = book[to];
    assert(away.update(to, opened) =~= book);
    assert(switched_slots(away, opened, to, from) =~= pages);
}

/// Where the page at `current` is after the page at `from` was moved to
/// `to`: the moved page goes with it, and the pages in between shift by one.
pub open spec fn page_after_move(current: int, from: int, to: int) -> int {
    if current == from {
        to
    } else if from < current <= to {
        current - 1
    } else if to <= current < from {
        current + 1
    } else {
        current
    }
}

/// Where a page taken from `from` lands when dropped before row `to` of a
/// list that has `len_after` pages once it is taken out (`usize::MAX`, or
/// any row past the end, means the end).
pub open spec fn drop_position(len_after: int, from: int, to: int) -> int {
    let at = if to == usize::MAX || to >= len_after {
        len_after
    } else if to > from {
        to - 1
    } else {
        to
    };
    if at > len_after {
        len_after
    } else {
        at
    }
}


/// `s` strictly increases.
pub open spec fn strictly_increasing(s: Seq<usize>) -> bool {
    forall|i: int, j: int| 0 <= i < j < s.len() ==> s[i] < s[j]
}

/// The indices of `v` in increasing order, each once (what sorting and
/// removing duplicates gives).
pub fn sorted_unique(v: &Vec<usize>) -> (r: Vec<usize>)
    ensures
        strictly_increasing(r@),
        forall|x: usize| r@.contains(x) <==> v@.contains(x),
{
    let mut r: Vec<usize> = Vec::new();
    let n = v.len();
    let mut i: usize = 0;
    while i < n
        invariant
            n == v@.len(),
            0 <= i <= n,
            strictly_increasing(r@),
            forall|x: usize| r@.contains(x) <==> v@.take(i as int).contains(x),
        decreases n - i,
    {
        let x = v[i];
        let m = r.len();
        let mut p: usize = 0;
        while p < m && r[p] < x
            invariant
                m == r@.len(),
                0 <= p <= m,
                forall|k: int| 0 <= k < p ==> r@[k] < x,
            decreases m - p,
        {
            p = p + 1;
        }
        let ghost before = r@;
        if p < m && r[p] == x {
        } else {
            r.insert(p, x);
            assert forall|a: int, b: int| 0 <= a < b < r@.len() implies r@[a] < r@[b] by {
                if b < p {
                } else if a < p && b == p {
                } else if a < p && b > p {
                    assert(before[a] < x);
                    assert(x <= before[p as int]);
                } else if a == p {
                    assert(x <= before[p as int]);
                    assert(before[p as int] <= before[b - 1]);
                } else {
                }
            }
        }
        proof {
            assert(v@.take(i + 1) == v@.take(i as int).push(x));
            assert forall|y: usize| r@.contains(y) <==> v@.take(i + 1).contains(y) by {
                if r@.contains(y) {
                    let k = choose|k: int| 0 <= k < r@.len() && #[trigger] r@[k] == y;
                    if y != x {
                        if r@.len() == before.len() || k < p {
                            assert(before[k] == y);
                        } else if k > p {
                            assert(before[k - 1] == y);
                        } else {
                            assert(r@[k] == x);
                        }
                        assert(before.contains(y));
                        let j = choose|j: int| 0 <= j < i && #[trigger] v@.take(i as int)[j] == y;
                        assert(v@.take(i + 1)[j] == y);
                    } else {
                        assert(v@.take(i + 1)[i as int] == x);
                    }
                }
                if v@.take(i + 1).contains(y) {
                    let j = choose|j: int| 0 <= j < i + 1 && #[trigger] v@.take(i + 1)[j] == y;
                    if j < i {
                        assert(v@.take(i as int)[j] == y);
                        assert(before.contains(y));
                        let k = choose|k: int| 0 <= k < before.len() && #[trigger] before[k] == y;
                        if k < p {
                            assert(r@[k] == y);
                        } else if r@.len() > before.len() {
                            assert(r@[k + 1] == y);
                        } else {
                            assert(r@[k] == y);
                        }
                    } else {
                        assert(y == x);
                        assert(r@[p as int] == x);
                    }
                }
            }
        }
        i = i + 1;
    }
    assert(v@.take(n as int) == v@);
    r
}


/// `s` without the entries whose index is in `r`, in order.
pub open spec fn keep_except<P>(s: Seq<P>, r: Set<int>) -> Seq<P>
    decreases s.len(),
{
    if s.len() == 0 {
        s
    } else if r.contains(s.len() - 1) {
        keep_except(s.drop_last(), r)
    } else {
        keep_except(s.drop_last(), r).push(s.last())
    }
}

/// `j` is listed in `v`.
pub open spec fn listed(v: Seq<usize>, j: int) -> bool {
    v.contains(j as usize)
}

/// The indices listed in `v`.
pub open spec fn index_set(v: Seq<usize>) -> Set<int> {
    Set::new(|i: int| 0 <= i <= usize::MAX && v.contains(i as usize))
}

/// Where the edited page ends up after the pages in `r` are deleted: it
/// keeps its place among the remaining pages; if it is deleted itself, the
/// page before it is opened, or the first page when there is none before.
pub open spec fn page_after_removal<P>(s: Seq<P>, r: Set<int>, current: int) -> int {
    let before = keep_except(s.take(current), r).len() as int;
    if r.contains(current) {
        if before > 0 {
            before - 1
        } else {
            0
        }
    } else {
        before
    }
}

pub proof fn lemma_keep_except_untouched<P>(s: Seq<P>, r: Set<int>)
    requires
        forall|i: int| 0 <= i < s.len() ==> !r.contains(i),
    ensures
        keep_except(s, r) == s,
    decreases s.len(),
{
    if s.len() > 0 {
        lemma_keep_except_untouched(s.drop_last(), r);
        assert(s.drop_last().push(s.last()) == s);
    }
}

proof fn lemma_keep_except_len_above<P>(s: Seq<P>, r: Set<int>, i: int)
    requires
        0 <= i < s.len(),
        forall|x: int| r.contains(x) ==> x > i,
    ensures
        keep_except(s, r).len() > i,
    decreases s.len(),
{
    if s.len() - 1 == i {
        lemma_keep_except_untouched(s.drop_last(), r);
    } else {
        lemma_keep_except_len_above(s.drop_last(), r, i);
    }
}

proof fn lemma_keep_except_remove<P>(s: Seq<P>, r: Set<int>, i: int)
    requires
        0 <= i < s.len(),
        forall|x: int| r.contains(x) ==> x > i,
    ensures
        keep_except(s, r.insert(i)) == keep_except(s, r).remove(i),
    decreases s.len(),
{
    let n = s.len();
    if n - 1 == i {
        lemma_keep_except_untouched(s.drop_last(), r);
        lemma_keep_except_untouched(s.drop_last(), r.insert(i));
        assert(s.drop_last().push(s.last()).remove(i) == s.drop_last());
    } else if r.contains(n - 1) {
        lemma_keep_except_remove(s.drop_last(), r, i);
    } else {
        lemma_keep_except_remove(s.drop_last(), r, i);
        lemma_keep_except_len_above(s.drop_last(), r, i);
        let k = keep_except(s.drop_last(), r);
        assert(k.push(s.last()).remove(i) == k.remove(i).push(s.last()));
    }
}

proof fn lemma_keep_except_prefix<P>(s: Seq<P>, r: Set<int>, c: int, d: int)
    requires
        0 <= c <= d <= s.len(),
    ensures
        keep_except(s.take(c), r).len() <= keep_except(s.take(d), r).len(),
        keep_except(s.take(d), r).take(keep_except(s.take(c), r).len() as int) == keep_except(s.take(c), r),
    decreases d - c,
{
    if c < d {
        lemma_keep_except_prefix(s, r, c, d - 1);
        assert(s.take(d).drop_last() == s.take(d - 1));
        assert(s.take(d).last() == s[d - 1]);
    } else {
        let k = keep_except(s.take(c), r);
        assert(k.take(k.len() as int) == k);
    }
}

proof fn lemma_kept_page<P>(s: Seq<P>, r: Set<int>, c: int)
    requires
        0 <= c < s.len(),
        !r.contains(c),
    ensures
        keep_except(s.take(c), r).len() < keep_except(s, r).len(),
        keep_except(s, r)[keep_except(s.take(c), r).len() as int] == s[c],
{
    assert(s.take(c + 1).drop_last() == s.take(c));
    assert(s.take(c + 1).last() == s[c]);
    lemma_keep_except_prefix(s, r, c + 1, s.len() as int);
    assert(s.take(s.len() as int) == s);
    let k1 = keep_except(s.take(c + 1), r);
    assert(k1[keep_except(s.take(c), r).len() as int] == s[c]);
}

/// Pages `a..b` are all deleted: counting the kept pages before `b` gives
/// the count before `a`.
proof fn lemma_keep_except_skips<P>(s: Seq<P>, r: Set<int>, a: int, b: int)
    requires
        0 <= a <= b <= s.len(),
        forall|k: int| a <= k < b ==> r.contains(k),
    ensures
        keep_except(s.take(b), r) == keep_except(s.take(a), r),
    decreases b - a,
{
    if a < b {
        lemma_keep_except_skips(s, r, a, b - 1);
        assert(s.take(b).drop_last() == s.take(b - 1));
        assert(r.contains(b - 1));
    }
}

/// When the edited page `current` is kept, it is still the open page after
/// the pages in `r` are deleted.
pub proof fn law_kept_page_stays_open<P>(s: Seq<P>, r: Set<int>, current: int)
    requires
        0 <= current < s.len(),
        !r.contains(current),
    ensures
        0 <= page_after_removal(s, r, current) < keep_except(s, r).len(),
        keep_except(s, r)[page_after_removal(s, r, current)] == s[current],
{
    lemma_kept_page(s, r, current);
}

/// When the edited page `current` is deleted and page `j` is the nearest
/// kept page before it, page `j` is the one opened after the deletion.
pub proof fn law_deleted_page_opens_previous<P>(s: Seq<P>, r: Set<int>, current: int, j: int)
    requires
        0 <= j < current < s.len(),
        r.contains(current),
        !r.contains(j),
        forall|k: int| j < k < current ==> r.contains(k),
    ensures
        0 <= page_after_removal(s, r, current) < keep_except(s, r).len(),
        keep_except(s, r)[page_after_removal(s, r, current)] == s[j],
{
    lemma_keep_except_skips(s, r, j + 1, current);
    assert(s.take(j + 1).drop_last() == s.take(j));
    assert(s.take(j + 1).last() == s[j]);
    lemma_kept_page(s, r, j);
}

/// When the edited page `current` and every page before it are deleted, the
/// first remaining page is opened.
pub proof fn law_deleted_first_pages_open_first<P>(s: Seq<P>, r: Set<int>, current: int)
    requires
        0 <= current < s.len(),
        forall|k: int| 0 <= k <= current ==> r.contains(k),
    ensures
        page_after_removal(s, r, current) == 0,
{
    lemma_keep_except_skips(s, r, 0, current);
    assert(s.take(0) =~= Seq::<P>::empty());
}

/// Dropping page `from` of `s` before row `to`: the page lands just above
/// the page that was at row `to` (at the end when dropped before the last
/// row or past the end), and the list keeps its length.
pub proof fn law_drop_lands_before_target<P>(s: Seq<P>, from: int, to: int)
    requires
        s.len() <= usize::MAX,
        0 <= from < s.len(),
        0 <= to <= usize::MAX,
    ensures
        ({
            let moved = s.remove(from).insert(drop_position(s.len() - 1, from, to), s[from]);
            &&& moved.len() == s.len()
            &&& from < to < s.len() - 1 ==> moved[to - 1] == s[from] && moved[to] == s[to]
            &&& to < from ==> moved[to] == s[from] && moved[to + 1] == s[to]
            &&& to == from ==> moved == s
            &&& from < to && s.len() - 1 <= to ==> moved[s.len() - 1] == s[from]
        }),
{
    let d = drop_position(s.len() - 1, from, to);
    let moved = s.remove(from).insert(d, s[from]);
    if to == from {
        assert(moved =~= s);
    }
}

/// The edited page is still the edited one after a page was dropped
/// elsewhere: the place that `page_after_move` gives holds it.
pub proof fn law_moved_pages_follow_current<P>(s: Seq<P>, from: int, to: int, current: int)
    requires
        s.len() <= usize::MAX,
        0 <= from < s.len(),
        0 <= current < s.len(),
        0 <= to <= usize::MAX,
    ensures
        ({
            let d = drop_position(s.len() - 1, from, to);
            let moved = s.remove(from).insert(d, s[from]);
            &&& 0 <= page_after_move(current, from, d) < moved.len()
            &&& moved[page_after_move(current, from, d)] == s[current]
        }),
{
}

impl<P: Default> PageBook<P> {
    /// Deletes the pages listed in `pages_to_remove` (in any order, possibly
    /// repeated). The edited page stays open unless it is deleted; then the
    /// page before it opens, or the new first page.
    pub fn remove_pages(&mut self, pages_to_remove: &Vec<usize>)
        requires
            old(self).well_formed(),
            forall|k: int| 0 <= k < pages_to_remove@.len() ==> #[trigger] pages_to_remove@[k] < old(self).pages@.len(),
            exists|j: int| 0 <= j < old(self).pages@.len() && !#[trigger] listed(pages_to_remove@, j),
        ensures
            final(self).well_formed(),
            final(self).book() == keep_except(old(self).book(), index_set(pages_to_remove@)),
            final(self).current_page == page_after_removal(
                old(self).book(),
                index_set(pages_to_remove@),
                old(self).current_page as int,
            ),
            final(self).live == final(self).book()[final(self).current_page as int],
            !pages_to_remove@.contains(old(self).current_page) ==> final(self).live == old(self).live,
    {
        let ghost s = self.book();
        let ghost big_r = index_set(pages_to_remove@);
        let idx = sorted_unique(pages_to_remove);
        let m = idx.len();
        let old_cp = self.current_page;
        let n = self.pages.len();
        assert forall|x: usize| idx@.contains(x) implies x < n by {
            assert(pages_to_remove@.contains(x));
        }
        // Where the edited page lands: count the kept pages before it.
        let mut before: usize = 0;
        let mut j: usize = 0;
        while j < old_cp
            invariant
                0 <= j <= old_cp < n,
                n == s.len(),
                before == keep_except(s.take(j as int), big_r).len(),
                big_r == index_set(pages_to_remove@),
                forall|x: usize| idx@.contains(x) <==> pages_to_remove@.contains(x),
            decreases old_cp - j,
        {
            assert(s.take(j + 1).drop_last() == s.take(j as int));
            assert(s.take(j + 1).last() == s[j as int]);
            assert(big_r.contains(j as int) <==> pages_to_remove@.contains(j));
            if !contains_index(&idx, j) {
                proof {
                    assert(keep_except(s.take(j as int), big_r).len() <= j) by {
                        lemma_keep_except_len_le(s.take(j as int), big_r);
                    }
                }
                before = before + 1;
            }
            j = j + 1;
        }
        let removed_current = contains_index(&idx, old_cp);
        assert(big_r.contains(old_cp as int) <==> pages_to_remove@.contains(old_cp));
        self.pages.set_and_swap(old_cp, &mut self.live);
        assert(self.pages@ =~= s);
        let mut k: usize = m;
        let ghost mut done: Set<int> = Set::empty();
        assert(keep_except(s, done) == s) by {
            lemma_keep_except_untouched(s, done);
        }
        while k > 0
            invariant
                m == idx@.len(),
                0 <= k <= m,
                n == s.len(),
                strictly_increasing(idx@),
                forall|x: usize| idx@.contains(x) ==> x < n,
                done == Set::new(|x: int| exists|t: int| k <= t < m && #[trigger] idx@[t] as int == x),
                self.pages@ == keep_except(s, done),
            decreases k,
        {
            k = k - 1;
            let i = idx[k];
            proof {
                assert(idx@.contains(i));
                assert forall|x: int| done.contains(x) implies x > i by {
                    let t = choose|t: int| k + 1 <= t < m && #[trigger] idx@[t] as int == x;
                    assert(idx@[k as int] < idx@[t]);
                }
                lemma_keep_except_remove(s, done, i as int);
                lemma_keep_except_len_above(s, done, i as int);
                let new_done = Set::new(|x: int| exists|t: int| k <= t < m && #[trigger] idx@[t] as int == x);
                assert(new_done =~= done.insert(i as int)) by {
                    assert forall|x: int| new_done.contains(x) implies done.insert(i as int).contains(x) by {
                        let t = choose|t: int| k <= t < m && #[trigger] idx@[t] as int == x;
                        if t > k {
                            assert(done.contains(x));
                        }
                    }
                    assert(new_done.contains(i as int)) by {
                        assert(idx@[k as int] as int == i as int);
                    }
                }
                done = new_done;
            }
            self.pages.remove(i);
        }
        proof {
            assert(done =~= big_r) by {
                assert forall|x: int| done.contains(x) <==> big_r.contains(x) by {
                    if done.contains(x) {
                        let t = choose|t: int| 0 <= t < m && #[trigger] idx@[t] as int == x;
                        assert(idx@.contains(idx@[t]));
                    }
                    if big_r.contains(x) {
                        assert(idx@.contains(x as usize));
                        let t = choose|t: int| 0 <= t < m && #[trigger] idx@[t] == x as usize;
                        assert(idx@[t] as int == x);
                    }
                }
            }
            if removed_current {
            } else {
                lemma_kept_page(s, big_r, old_cp as int);
            }
            let jx = choose|jx: int| 0 <= jx < n && !#[trigger] listed(pages_to_remove@, jx);
            assert(!big_r.contains(jx));
            lemma_kept_page(s, big_r, jx);
        }
        let mut cur: usize = if removed_current {
            if before > 0 {
                before - 1
            } else {
                0
            }
        } else {
            before
        };
        if cur >= self.pages.len() {
            cur = self.pages.len() - 1;
        }
        proof {
            if removed_current && before > 0 {
                lemma_keep_except_prefix(s, big_r, old_cp as int, n as int);
                assert(s.take(n as int) == s);
            }
        }
        assert(cur == page_after_removal(s, big_r, old_cp as int));
        self.current_page = cur;
        let ghost t = self.pages@;
        self.pages.set_and_swap(cur, &mut self.live);
        assert(self.book() =~= t);
    }
}

proof fn lemma_keep_except_len_le<P>(s: Seq<P>, r: Set<int>)
    ensures
        keep_except(s, r).len() <= s.len(),
    decreases s.len(),
{
    if s.len() > 0 {
        lemma_keep_except_len_le(s.drop_last(), r);
    }
}

/// Whether `x` is listed in `v`.
fn contains_index(v: &Vec<usize>, x: usize) -> (b: bool)
    ensures
        b == v@.contains(x),
{
    let n = v.len();
    let mut i: usize = 0;
    while i < n
        invariant
            n == v@.len(),
            0 <= i <= n,
            forall|k: int| 0 <= k < i ==> v@[k] != x,
        decreases n - i,
    {
        if v[i] == x {
            assert(v@[i as int] == x);
            return true;
        }
        i = i + 1;
    }
    false
}

} // verus!
