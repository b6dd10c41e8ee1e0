use vstd::prelude::*;

use crate::app_state::{AppState, PointerInteraction};
use crate::history::{CanvasItem, CanvasState, History, HistoryCommand};
use crate::pages::{drop_position, index_set, keep_except, listed, page_after_move, page_after_removal, switched_slots, PageAction, PageBook};

verus! {

/// One page of the whiteboard: its canvas and its undo history.
pub struct Page<T: CanvasItem> {
    pub canvas: CanvasState<T>,
    pub history: History<T>,
}

impl<T: CanvasItem> Default for Page<T> {
    /// An empty page with a fresh history.
    fn default() -> (p: Self)
        ensures
            p.canvas.objects@ == Seq::<T>::empty(),
            p.history.undo_stack@ == Seq::<HistoryCommand<T>>::empty(),
            p.history.redo_stack@ == Seq::<HistoryCommand<T>>::empty(),
            p.history.max_history_size == 50,
    {
        Page { canvas: CanvasState::new(), history: History::default() }
    }
}

impl<T: CanvasItem> AppState<T> {
    /// The page being edited, as it stands.
    pub open spec fn live_page(&self) -> Page<T> {
        Page { canvas: self.canvas, history: self.history }
    }

    /// The pages in order, with the edited one in its place.
    pub open spec fn book(&self) -> Seq<Page<T>> {
        self.pages@.update(self.current_page as int, self.live_page())
    }

    /// The current page is one of the pages.
    pub open spec fn pages_well_formed(&self) -> bool {
        self.current_page < self.pages@.len()
    }

    /// The selection, the pointers and the shape insertion were reset, as a
    /// page change does; nothing else outside the pages changed.
    pub open spec fn interaction_reset_from(&self, before: &Self) -> bool {
        &&& self.selected_object_indices@ == Seq::<usize>::empty()
        &&& self.pointers@ == Map::<u64, PointerInteraction<T>>::empty()
        &&& *self == (AppState {
            canvas: self.canvas,
            history: self.history,
            pages: self.pages,
            current_page: self.current_page,
            selected_object_indices: self.selected_object_indices,
            pointers: self.pointers,
            shapes_inserted_count: 0,
            selected_shape_type: None,
            ..*before
        })
    }

    /// Lends the pages out as a book: the edited page becomes the book's
    /// live page, and this state keeps empty placeholders meanwhile.
    fn lend_pages(&mut self) -> (b: PageBook<Page<T>>)
        ensures
            b.live == old(self).live_page(),
            b.pages@ == old(self).pages@,
            b.current_page == old(self).current_page,
            *final(self) == (AppState {
                canvas: final(self).canvas,
                history: final(self).history,
                pages: final(self).pages,
                ..*old(self)
            }),
    {
        let mut live: Page<T> = Page::default();
        std::mem::swap(&mut live.canvas, &mut self.canvas);
        std::mem::swap(&mut live.history, &mut self.history);
        let mut pages: Vec<Page<T>> = Vec::new();
        std::mem::swap(&mut pages, &mut self.pages);
        PageBook { live, pages, current_page: self.current_page }
    }

    /// Takes the pages back from `b`.
    fn return_pages(&mut self, b: PageBook<Page<T>>)
        ensures
            final(self).live_page() == b.live,
            final(self).pages@ == b.pages@,
            final(self).current_page == b.current_page,
            *final(self) == (AppState {
                canvas: final(self).canvas,
                history: final(self).history,
                pages: final(self).pages,
                current_page: final(self).current_page,
                ..*old(self)
            }),
    {
        let PageBook { live, pages, current_page } = b;
        let Page { canvas, history } = live;
        self.canvas = canvas;
        self.history = history;
        self.pages = pages;
        self.current_page = current_page;
    }

    /// Opens page `page_index`: the edited page goes back to its slot, the
    /// chosen one is taken out for editing, and the selection, the pointers
    /// and the shape insertion are reset.
    pub fn switch_to_page_state(&mut self, page_index: usize)
        requires
            old(self).pages_well_formed(),
            page_index < old(self).pages@.len(),
        ensures
            final(self).pages_well_formed(),
            final(self).book() == old(self).book(),
            final(self).current_page == page_index,
            final(self).live_page() == old(self).book()[page_index as int],
            final(self).pages@ == switched_slots(
                old(self).pages@,
                old(self).live_page(),
                old(self).current_page as int,
                page_index as int,
            ),
            final(self).interaction_reset_from(old(self)),
    {
        let mut b = self.lend_pages();
        b.switch_to_page_state(page_index);
        self.return_pages(b);
        self.clear_interaction_state();
    }

    /// Stores the edited page and opens a new empty one at the end; the
    /// selection, the pointers and the shape insertion are reset.
    pub fn add_new_page_state(&mut self)
        requires
            old(self).pages_well_formed(),
        ensures
            final(self).pages_well_formed(),
            final(self).book().drop_last() == old(self).book(),
            final(self).book().len() == old(self).book().len() + 1,
            final(self).current_page == old(self).pages@.len(),
            final(self).canvas.objects@ == Seq::<T>::empty(),
            final(self).history.undo_stack@ == Seq::<HistoryCommand<T>>::empty(),
            final(self).history.redo_stack@ == Seq::<HistoryCommand<T>>::empty(),
            final(self).history.max_history_size == 50,
            final(self).interaction_reset_from(old(self)),
    {
        let mut b = self.lend_pages();
        let ghost before = b.book();
        b.add_new_page_state(Page::default());
        proof {
            assert(b.book().drop_last() =~= before);
        }
        self.return_pages(b);
        self.clear_interaction_state();
    }

    /// Carries out a button of the navigation bar: the previous or the next
    /// page, when there is one, or a new page at the end; each of these
    /// resets the selection, the pointers and the shape insertion. Any
    /// other press changes nothing.
    pub fn apply_page_action(&mut self, action: PageAction)
        requires
            old(self).pages_well_formed(),
        ensures
            final(self).pages_well_formed(),
            ({
                let cp = old(self).current_page as int;
                let n = old(self).pages@.len();
                let target = match action {
                    PageAction::Previous => if cp > 0 { cp - 1 } else { -1 },
                    PageAction::Next => if cp + 1 < n { cp + 1 } else { -1 },
                    _ => -1,
                };
                &&& action == PageAction::New ==> final(self).book().drop_last() == old(self).book()
                    && final(self).book().len() == n + 1
                    && final(self).current_page == n
                    && final(self).canvas.objects@ == Seq::<T>::empty()
                    && final(self).history.undo_stack@ == Seq::<HistoryCommand<T>>::empty()
                    && final(self).history.redo_stack@ == Seq::<HistoryCommand<T>>::empty()
                    && final(self).history.max_history_size == 50
                    && final(self).interaction_reset_from(old(self))
                &&& target >= 0 ==> final(self).book() == old(self).book()
                    && final(self).current_page == target
                    && final(self).live_page() == old(self).book()[target]
                    && final(self).pages@ == switched_slots(old(self).pages@, old(self).live_page(), cp, target)
                    && final(self).interaction_reset_from(old(self))
                &&& action != PageAction::New && target < 0 ==> *final(self) == *old(self)
            }),
    {
        match action {
            PageAction::Previous => {
                if self.current_page > 0 {
                    self.switch_to_page_state(self.current_page - 1);
                }
            },
            PageAction::Next => {
                let n = self.pages.len();
                if self.current_page + 1 < n {
                    self.switch_to_page_state(self.current_page + 1);
                }
            },
            PageAction::New => {
                self.add_new_page_state();
            },
            PageAction::Nothing => {},
        }
    }

    /// Moves page `from_idx` to the drop position `to_idx` (the row before
    /// which the page was dropped, or `usize::MAX` for the end of the list).
    /// The edited page stays the edited page, wherever it lands.
    pub fn reorder_pages(&mut self, from_idx: usize, to_idx: usize)
        requires
            old(self).pages_well_formed(),
            from_idx < old(self).pages@.len(),
        ensures
            final(self).pages_well_formed(),
            final(self).book() == old(self).book().remove(from_idx as int).insert(
                drop_position(old(self).pages@.len() - 1, from_idx as int, to_idx as int),
                old(self).book()[from_idx as int],
            ),
            final(self).current_page == page_after_move(
                old(self).current_page as int,
                from_idx as int,
                drop_position(old(self).pages@.len() - 1, from_idx as int, to_idx as int),
            ),
            final(self).live_page() == old(self).live_page(),
            *final(self) == (AppState {
                canvas: final(self).canvas,
                history: final(self).history,
                pages: final(self).pages,
                current_page: final(self).current_page,
                ..*old(self)
            }),
    {
        let mut b = self.lend_pages();
        b.reorder_pages(from_idx, to_idx);
        self.return_pages(b);
    }

    /// Deletes the pages listed in `pages_to_remove` (in any order, possibly
    /// repeated), keeping at least one. The edited page stays open unless it
    /// is deleted; then the page before it opens, or the new first page. The
    /// selection, the pointers and the shape insertion are reset.
    pub fn remove_pages(&mut self, pages_to_remove: &Vec<usize>)
        requires
            old(self).pages_well_formed(),
            forall|k: int| 0 <= k < pages_to_remove@.len() ==> #[trigger] pages_to_remove@[k] < old(self).pages@.len(),
            exists|j: int| 0 <= j < old(self).pages@.len() && !#[trigger] listed(pages_to_remove@, j),
        ensures
            final(self).pages_well_formed(),
            final(self).book() == keep_except(old(self).book(), index_set(pages_to_remove@)),
            final(self).current_page == page_after_removal(
                old(self).book(),
                index_set(pages_to_remove@),
                old(self).current_page as int,
            ),
            final(self).live_page() == final(self).book()[final(self).current_page as int],
            !pages_to_remove@.contains(old(self).current_page) ==> final(self).live_page() == old(self).live_page(),
            final(self).interaction_reset_from(old(self)),
    {
        let mut b = self.lend_pages();
        b.remove_pages(pages_to_remove);
        self.return_pages(b);
        self.clear_interaction_state();
    }
}

} // verus!
