use std::collections::HashMap;
use std::time::Duration;
use std::time::Instant;
use vstd::prelude::*;

use crate::history::{
    clone_is_exact, cloned_all, edits_in_place, forward, pushed, redone, reverse, structural, undone, CanvasItem, CanvasState, History,
    HistoryCommand,
};
use crate::paging::Page;
use crate::selection::without;
use crate::state::{CanvasShapeType, CanvasTool};

verus! {

/// How long, in milliseconds, a first exit request waits for the second one
/// that confirms it.
pub const EXIT_CONFIRM_TIMEOUT_MILLIS: u128 = 3000;

#[verifier::external_type_specification]
#[verifier::external_body]
pub struct ExInstant(std::time::Instant);

/// Calls `std::time::Instant::now`. The reading depends on the clock, so
/// nothing is stated of it.
#[verifier::external_body]
fn clock_now() -> (t: Instant) {
    Instant::now()
}

/// Calls `std::time::Instant::elapsed`: the time since `t`, which depends on
/// the clock, so nothing is stated of it.
#[verifier::external_body]
fn elapsed_since(t: &Instant) -> (d: Duration) {
    t.elapsed()
}

/// Calls `std::time::Duration::as_millis`: the whole milliseconds of `d`.
/// A `Duration` is opaque here, so nothing is stated of the number.
#[verifier::external_body]
fn whole_millis(d: &Duration) -> (ms: u128) {
    d.as_millis()
}

/// Whether a second exit request that comes `elapsed_millis` after the
/// first one confirms the exit.
pub fn exit_confirmed_after(elapsed_millis: u128) -> (b: bool)
    ensures
        b == (elapsed_millis < EXIT_CONFIRM_TIMEOUT_MILLIS),
{
    elapsed_millis < EXIT_CONFIRM_TIMEOUT_MILLIS
}

/// What a pointer on the canvas is doing, as far as the history needs to
/// know: an eraser gesture carries the snapshot taken when it started.
pub enum PointerInteraction<T: CanvasItem> {
    Erasing {
        /// The full object list when the gesture started.
        original_objects: Vec<T>,
        /// Whether any object was changed or removed during the gesture.
        modified: bool,
    },
    /// Drawing, selecting, inserting a shape, panning or a marquee.
    Other,
}

/// `cmd` replaces the whole canvas `current` and gives back `original` on
/// undo: its new list is a clone of `current`, element by element.
pub open spec fn snapshot_command<T: CanvasItem>(
    cmd: HistoryCommand<T>,
    original: Seq<T>,
    current: Seq<T>,
) -> bool {
    match cmd {
        HistoryCommand::ReplaceObjects { old, new } => old@ == original && cloned_all(current, new@),
        _ => false,
    }
}

/// How a message to the user is shown.
#[derive(Clone, Copy, PartialEq, Eq, Debug, Structural)]
pub enum ToastLevel {
    Info,
    Success,
    Error,
}

/// A short message to the user.
pub struct Toast {
    pub level: ToastLevel,
    pub text: String,
}

/// `after` is `before` with one more message, of `level` and text `text`.
pub open spec fn queued(before: Seq<Toast>, after: Seq<Toast>, level: ToastLevel, text: Seq<char>) -> bool {
    &&& after.len() == before.len() + 1
    &&& after.drop_last() == before
    &&& after.last().level == level
    &&& after.last().text@ == text
}

/// The canvas-side state of the application: the current page, its history,
/// the pointers in use, the selection, a pending exit request and the info
/// messages waiting to be shown.
pub struct AppState<T: CanvasItem> {
    pub canvas: CanvasState<T>,
    pub history: History<T>,
    /// Every page; the slot of the current page holds a placeholder while
    /// its canvas and history are in `canvas` and `history`.
    pub pages: Vec<Page<T>>,
    /// The page being edited.
    pub current_page: usize,
    pub pointers: HashMap<u64, PointerInteraction<T>>,
    pub selected_object_indices: Vec<usize>,
    /// When the first of two exit requests came, if one is pending.
    pub exit_confirm_armed_at: Option<Instant>,
    /// Messages to show, oldest first.
    pub toasts: Vec<Toast>,
    /// How many shapes were inserted since the interaction began.
    pub shapes_inserted_count: u32,
    /// The shape chosen for insertion, if any.
    pub selected_shape_type: Option<CanvasShapeType>,
    /// The tool in use.
    pub current_tool: CanvasTool,
}

impl<T: CanvasItem> Default for AppState<T> {
    /// An empty canvas with a fresh history, no pointers, nothing selected
    /// and no pending exit request.
    fn default() -> (s: Self)
        ensures
            s.canvas.objects@ == Seq::<T>::empty(),
            s.history.undo_stack@ == Seq::<HistoryCommand<T>>::empty(),
            s.history.redo_stack@ == Seq::<HistoryCommand<T>>::empty(),
            s.history.max_history_size == 50,
            s.pages@.len() == 1,
            s.current_page == 0,
            s.pointers@ == Map::<u64, PointerInteraction<T>>::empty(),
            s.selected_object_indices@ == Seq::<usize>::empty(),
            s.exit_confirm_armed_at.is_none(),
            s.toasts@ == Seq::<Toast>::empty(),
            s.shapes_inserted_count == 0,
            s.selected_shape_type.is_none(),
            s.current_tool == CanvasTool::Brush,
    {
        let mut pages: Vec<Page<T>> = Vec::new();
        pages.push(Page::default());
        AppState {
            canvas: CanvasState::new(),
            history: History::default(),
            pages,
            current_page: 0,
            pointers: HashMap::new(),
            selected_object_indices: Vec::new(),
            exit_confirm_armed_at: None,
            toasts: Vec::new(),
            shapes_inserted_count: 0,
            selected_shape_type: None,
            current_tool: CanvasTool::default(),
        }
    }
}

impl<T: CanvasItem> AppState<T> {
    /// Whether the object at `index` is selected.
    pub fn is_selected(&self, index: usize) -> (b: bool)
        ensures
            b == self.selected_object_indices@.contains(index),
    {
        let n = self.selected_object_indices.len();
        let mut i: usize = 0;
        while i < n
            invariant
                n == self.selected_object_indices@.len(),
                0 <= i <= n,
                forall|k: int| 0 <= k < i ==> self.selected_object_indices@[k] != index,
            decreases n - i,
        {
            if self.selected_object_indices[i] == index {
                assert(self.selected_object_indices@[i as int] == index);
                return true;
            }
            i = i + 1;
        }
        false
    }

    /// Deselects everything.
    pub fn clear_selection(&mut self)
        ensures
            final(self).selected_object_indices@ == Seq::<usize>::empty(),
            *final(self) == (AppState { selected_object_indices: final(self).selected_object_indices, ..*old(self) }),
    {
        self.selected_object_indices.clear();
    }

    /// Deselects the object at `index` if it is selected, and selects it
    /// (last in order) otherwise.
    pub fn toggle_selection(&mut self, index: usize)
        ensures
            old(self).selected_object_indices@.contains(index) ==> final(self).selected_object_indices@
                == without(old(self).selected_object_indices@, index),
            !old(self).selected_object_indices@.contains(index) ==> final(self).selected_object_indices@
                == old(self).selected_object_indices@.push(index),
            *final(self) == (AppState { selected_object_indices: final(self).selected_object_indices, ..*old(self) }),
    {
        if self.is_selected(index) {
            let mut old_list: Vec<usize> = Vec::new();
            std::mem::swap(&mut old_list, &mut self.selected_object_indices);
            let n = old_list.len();
            let mut i: usize = 0;
            while i < n
                invariant
                    n == old_list@.len(),
                    0 <= i <= n,
                    self.selected_object_indices@ == without(old_list@.take(i as int), index),
                    *self == (AppState { selected_object_indices: self.selected_object_indices, ..*old(self) }),
                decreases n - i,
            {
                assert(old_list@.take(i + 1).drop_last() == old_list@.take(i as int));
                assert(old_list@.take(i + 1).last() == old_list@[i as int]);
                if old_list[i] != index {
                    self.selected_object_indices.push(old_list[i]);
                }
                i = i + 1;
            }
            assert(old_list@.take(n as int) == old_list@);
        } else {
            self.selected_object_indices.push(index);
        }
    }

    /// Forgets what the user was in the middle of: the selection, the
    /// pointers, the count of inserted shapes and the chosen shape.
    pub fn clear_interaction_state(&mut self)
        ensures
            final(self).selected_object_indices@ == Seq::<usize>::empty(),
            final(self).pointers@ == Map::<u64, PointerInteraction<T>>::empty(),
            final(self).shapes_inserted_count == 0,
            final(self).selected_shape_type.is_none(),
            *final(self) == (AppState {
                selected_object_indices: final(self).selected_object_indices,
                pointers: final(self).pointers,
                shapes_inserted_count: 0,
                selected_shape_type: None,
                ..*old(self)
            }),
    {
        broadcast use vstd::std_specs::hash::group_hash_axioms;

        self.selected_object_indices.clear();
        self.pointers.clear();
        self.shapes_inserted_count = 0;
        self.selected_shape_type = None;
    }

    /// The undo button: deselects everything, undoes the newest step and
    /// reports success, or reports that there is nothing to undo.
    pub fn undo_from_toolbar(&mut self) -> (done: bool)
        ensures
            done == (old(self).history.undo_stack@.len() > 0),
            final(self).selected_object_indices@ == Seq::<usize>::empty(),
            final(self).history.max_history_size == old(self).history.max_history_size,
            done ==> final(self).history.undo_stack@ == old(self).history.undo_stack@.drop_last()
                && final(self).history.redo_stack@ == old(self).history.redo_stack@.push(
                old(self).history.undo_stack@.last(),
            ) && edits_in_place(
                old(self).history.undo_stack@.last(),
                old(self).canvas.objects@,
                final(self).canvas.objects@,
                false,
            ) && queued(old(self).toasts@, final(self).toasts@, ToastLevel::Success, "成功撤销操作!"@),
            done && clone_is_exact::<T>() && structural(old(self).history.undo_stack@.last())
                ==> final(self).canvas.objects@ == reverse(
                old(self).history.undo_stack@.last(),
                old(self).canvas.objects@,
            ),
            done ==> undone(old(self).history.undo_stack@.last(), old(self).canvas.objects@, final(self).canvas.objects@),
            done && structural(old(self).history.undo_stack@.last()) ==> cloned_all(
                reverse(old(self).history.undo_stack@.last(), old(self).canvas.objects@),
                final(self).canvas.objects@,
            ),
            !done ==> final(self).history.undo_stack@ == old(self).history.undo_stack@
                && final(self).history.redo_stack@ == old(self).history.redo_stack@
                && final(self).canvas.objects@ == old(self).canvas.objects@ && queued(
                old(self).toasts@,
                final(self).toasts@,
                ToastLevel::Error,
                "无法撤销，没有更多历史记录!"@,
            ),
            *final(self) == (AppState {
                selected_object_indices: final(self).selected_object_indices,
                history: final(self).history,
                canvas: final(self).canvas,
                toasts: final(self).toasts,
                ..*old(self)
            }),
    {
        self.clear_selection();
        if self.history.undo(&mut self.canvas) {
            self.toasts.push(Toast { level: ToastLevel::Success, text: "成功撤销操作!".to_owned() });
            assert(self.toasts@.drop_last() =~= old(self).toasts@);
            true
        } else {
            self.toasts.push(Toast { level: ToastLevel::Error, text: "无法撤销，没有更多历史记录!".to_owned() });
            assert(self.toasts@.drop_last() =~= old(self).toasts@);
            false
        }
    }

    /// The redo button: deselects everything, redoes the newest undone step
    /// and reports success, or reports that there is nothing to redo.
    pub fn redo_from_toolbar(&mut self) -> (done: bool)
        ensures
            done == (old(self).history.redo_stack@.len() > 0),
            final(self).selected_object_indices@ == Seq::<usize>::empty(),
            final(self).history.max_history_size == old(self).history.max_history_size,
            done ==> final(self).history.redo_stack@ == old(self).history.redo_stack@.drop_last()
                && final(self).history.undo_stack@ == old(self).history.undo_stack@.push(
                old(self).history.redo_stack@.last(),
            ) && edits_in_place(
                old(self).history.redo_stack@.last(),
                old(self).canvas.objects@,
                final(self).canvas.objects@,
                true,
            ) && queued(old(self).toasts@, final(self).toasts@, ToastLevel::Success, "成功重做操作!"@),
            done && clone_is_exact::<T>() && structural(old(self).history.redo_stack@.last())
                ==> final(self).canvas.objects@ == forward(
                old(self).history.redo_stack@.last(),
                old(self).canvas.objects@,
            ),
            done ==> redone(old(self).history.redo_stack@.last(), old(self).canvas.objects@, final(self).canvas.objects@),
            done && structural(old(self).history.redo_stack@.last()) ==> cloned_all(
                forward(old(self).history.redo_stack@.last(), old(self).canvas.objects@),
                final(self).canvas.objects@,
            ),
            !done ==> final(self).history.undo_stack@ == old(self).history.undo_stack@
                && final(self).history.redo_stack@ == old(self).history.redo_stack@
                && final(self).canvas.objects@ == old(self).canvas.objects@ && queued(
                old(self).toasts@,
                final(self).toasts@,
                ToastLevel::Error,
                "无法重做，没有更多历史记录!"@,
            ),
            *final(self) == (AppState {
                selected_object_indices: final(self).selected_object_indices,
                history: final(self).history,
                canvas: final(self).canvas,
                toasts: final(self).toasts,
                ..*old(self)
            }),
    {
        self.clear_selection();
        if self.history.redo(&mut self.canvas) {
            self.toasts.push(Toast { level: ToastLevel::Success, text: "成功重做操作!".to_owned() });
            assert(self.toasts@.drop_last() =~= old(self).toasts@);
            true
        } else {
            self.toasts.push(Toast { level: ToastLevel::Error, text: "无法重做，没有更多历史记录!".to_owned() });
            assert(self.toasts@.drop_last() =~= old(self).toasts@);
            false
        }
    }

    /// Arms or confirms an exit request. Returns `true` when a request was
    /// pending and this one came within the timeout, which clears it: the
    /// caller should exit. Otherwise the request is armed now and `toast` is
    /// queued for display.
    pub fn request_exit(&mut self, toast: &str) -> (confirmed: bool)
        ensures
            old(self).exit_confirm_armed_at.is_none() ==> !confirmed,
            confirmed ==> final(self).exit_confirm_armed_at.is_none() && final(self).toasts@
                == old(self).toasts@,
            !confirmed ==> final(self).exit_confirm_armed_at.is_some() && queued(
                old(self).toasts@,
                final(self).toasts@,
                ToastLevel::Info,
                toast@,
            ),
            *final(self) == (AppState {
                exit_confirm_armed_at: final(self).exit_confirm_armed_at,
                toasts: final(self).toasts,
                ..*old(self)
            }),
    {
        let confirmed = match &self.exit_confirm_armed_at {
            Some(t) => {
                let elapsed = elapsed_since(t);
                exit_confirmed_after(whole_millis(&elapsed))
            },
            None => false,
        };
        if confirmed {
            self.exit_confirm_armed_at = None;
        } else {
            self.exit_confirm_armed_at = Some(clock_now());
            self.toasts.push(Toast { level: ToastLevel::Info, text: toast.to_owned() });
            assert(self.toasts@.drop_last() =~= old(self).toasts@);
        }
        confirmed
    }

    /// Ends a pixel-eraser gesture: forgets pointer `pointer_id` and, when
    /// its eraser gesture changed anything, records one history step that
    /// replaces the snapshot taken at its start with the current objects.
    pub fn finish_pixel_erasing(&mut self, pointer_id: u64)
        ensures
            final(self).pointers@ == old(self).pointers@.remove(pointer_id),
            *final(self) == (AppState { pointers: final(self).pointers, history: final(self).history, ..*old(self) }),
            final(self).history.max_history_size == old(self).history.max_history_size,
            (match old(self).pointers@.get(pointer_id) {
                Some(PointerInteraction::Erasing { original_objects, modified: true }) => exists|
                    cmd: HistoryCommand<T>,
                |
                    snapshot_command(cmd, original_objects@, old(self).canvas.objects@)
                        && final(self).history.undo_stack@ == pushed(
                        old(self).history.undo_stack@,
                        cmd,
                        old(self).history.max_history_size,
                    ) && final(self).history.redo_stack@ == Seq::<HistoryCommand<T>>::empty(),
                _ => final(self).history == old(self).history,
            }),
    {
        broadcast use vstd::std_specs::hash::group_hash_axioms;

        let removed = self.pointers.remove(&pointer_id);
        match removed {
            Some(PointerInteraction::Erasing { original_objects, modified }) => {
                if modified {
                    let new_objects = self.canvas.objects.clone();
                    let cmd = HistoryCommand::ReplaceObjects { old: original_objects, new: new_objects };
                    assert(snapshot_command(cmd, original_objects@, self.canvas.objects@));
                    self.history.push_command(cmd);
                }
            },
            _ => {},
        }
    }
}

/// The one step that an eraser gesture records covers the whole gesture:
/// undoing it, whatever the canvas holds, gives back the snapshot taken when
/// the gesture started, and redoing it on that snapshot gives back as many
/// objects as the gesture left, clones of them (the very objects when clones
/// are exact).
pub proof fn law_erasing_step_round_trip<T: CanvasItem>(
    cmd: HistoryCommand<T>,
    original: Seq<T>,
    current: Seq<T>,
    s: Seq<T>,
)
    requires
        snapshot_command(cmd, original, current),
    ensures
        reverse(cmd, s) == original,
        forward(cmd, reverse(cmd, s)).len() == current.len(),
        cloned_all(current, forward(cmd, reverse(cmd, s))),
        clone_is_exact::<T>() ==> forward(cmd, reverse(cmd, s)) == current,
{
    if clone_is_exact::<T>() {
        let f = forward(cmd, reverse(cmd, s));
        assert forall|i: int| 0 <= i < current.len() implies f[i] == current[i] by {
            assert(cloned::<T>(current[i], f[i]));
        }
        assert(f =~= current);
    }
}

} // verus!
