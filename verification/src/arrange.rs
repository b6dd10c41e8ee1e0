use vstd::prelude::*;

use crate::app_state::{queued, AppState, PointerInteraction, Toast, ToastLevel};
use crate::history::{
    clone_is_exact, forward, forward_all, law_undo_inverts_change, lemma_forward_all_concat, lemma_reverse_forward_all,
    reverse_all,
    lemma_recorded_all_concat, lemma_structural_all_concat, pushed, recorded, recorded_all, reverse, structural,
    structural_all, CanvasItem, HistoryCommand,
};
use crate::pages::{index_set, keep_except, lemma_keep_except_untouched, strictly_increasing};
use crate::selection::{lemma_sorted_indices_props, sort_indices, sorted_indices};
use crate::state::CanvasTool;

verus! {

/// What taking out the objects at `idx` does to `s`, last index first: each
/// index that is still inside the shrinking list takes its object out.
/// Gives the list that is left and the taken objects with their indices,
/// in the order they were taken.
pub open spec fn remove_desc<T>(s: Seq<T>, idx: Seq<usize>) -> (Seq<T>, Seq<(usize, T)>)
    decreases idx.len(),
{
    if idx.len() == 0 {
        (s, Seq::empty())
    } else {
        let i = idx.last();
        if i < s.len() {
            let rest = remove_desc(s.remove(i as int), idx.drop_last());
            (rest.0, seq![(i, s[i as int])] + rest.1)
        } else {
            remove_desc(s, idx.drop_last())
        }
    }
}

/// Takes the objects at `idx` out of `objects`, last index first.
fn take_objects_desc<T>(objects: &mut Vec<T>, idx: &Vec<usize>) -> (removed: Vec<(usize, T)>)
    ensures
        final(objects)@ == remove_desc(old(objects)@, idx@).0,
        removed@ == remove_desc(old(objects)@, idx@).1,
{
    let mut removed: Vec<(usize, T)> = Vec::new();
    let mut k = idx.len();
    assert(idx@.take(k as int) =~= idx@);
    while k > 0
        invariant
            k <= idx@.len(),
            remove_desc(old(objects)@, idx@).0 == remove_desc(objects@, idx@.take(k as int)).0,
            remove_desc(old(objects)@, idx@).1 == removed@ + remove_desc(objects@, idx@.take(k as int)).1,
        decreases k,
    {
        k = k - 1;
        let i = idx[k];
        proof {
            assert(idx@.take(k + 1).drop_last() =~= idx@.take(k as int));
            assert(idx@.take(k + 1).last() == i);
        }
        if i < objects.len() {
            let ghost before = objects@;
            let obj = objects.remove(i);
            proof {
                let r = remove_desc(objects@, idx@.take(k as int));
                assert(removed@.push((i, obj)) + r.1 =~= removed@ + (seq![(i, before[i as int])] + r.1));
            }
            removed.push((i, obj));
        }
    }
    proof {
        assert(remove_desc(objects@, idx@.take(0)).1 =~= Seq::<(usize, T)>::empty());
        assert(removed@ + Seq::<(usize, T)>::empty() =~= removed@);
    }
    removed
}

/// The history step of taking out `removed`: one removal per taken object,
/// in the order they were taken.
pub open spec fn removal_commands<T: CanvasItem>(removed: Seq<(usize, T)>) -> Seq<HistoryCommand<T>> {
    Seq::new(
        removed.len(),
        |j: int| HistoryCommand::RemoveObject { index: removed[j].0, object: removed[j].1 },
    )
}

/// The removals that take the objects at `idx` out of `s` were each
/// recorded on the list they were applied to, are structural, and replay
/// the taking out.
proof fn lemma_removal_replays<T: CanvasItem>(s: Seq<T>, idx: Seq<usize>)
    ensures
        recorded_all(removal_commands(remove_desc(s, idx).1), s),
        forward_all(removal_commands(remove_desc(s, idx).1), s) == remove_desc(s, idx).0,
        structural_all(removal_commands(remove_desc(s, idx).1)),
    decreases idx.len(),
{
    if idx.len() == 0 {
        assert(removal_commands(remove_desc(s, idx).1) =~= Seq::<HistoryCommand<T>>::empty());
    } else {
        let i = idx.last();
        if i < s.len() {
            let s1 = s.remove(i as int);
            let rest = remove_desc(s1, idx.drop_last());
            let c = HistoryCommand::RemoveObject { index: i, object: s[i as int] };
            let rc = removal_commands(rest.1);
            assert(removal_commands(remove_desc(s, idx).1) =~= seq![c] + rc);
            lemma_removal_replays(s1, idx.drop_last());
            lemma_forward_all_concat(seq![c], rc, s);
            lemma_recorded_all_concat(seq![c], rc, s);
            lemma_structural_all_concat(seq![c], rc);
            lemma_single_command(c, s);
        } else {
            lemma_removal_replays(s, idx.drop_last());
        }
    }
}

/// One removal command per taken object, in order.
fn into_removal_commands<T: CanvasItem>(pairs: Vec<(usize, T)>) -> (c: Vec<HistoryCommand<T>>)
    ensures
        c@ == removal_commands(pairs@),
{
    let ghost orig = pairs@;
    let mut rest = pairs;
    let mut out: Vec<HistoryCommand<T>> = Vec::new();
    while rest.len() > 0
        invariant
            out@.len() + rest@.len() == orig.len(),
            rest@ == orig.skip(out@.len() as int),
            forall|j: int| 0 <= j < out@.len() ==> #[trigger] out@[j] == removal_commands(orig)[j],
        decreases rest@.len(),
    {
        let (i, o) = rest.remove(0);
        proof {
            assert(orig[out@.len() as int] == (i, o));
        }
        out.push(HistoryCommand::RemoveObject { index: i, object: o });
        proof {
            assert(rest@ =~= orig.skip(out@.len() as int));
        }
    }
    assert(out@ =~= removal_commands(orig));
    out
}

/// `c` holds, in order, a removal for each taken object of `r`, with its
/// index and a clone of it.
pub open spec fn removals_cloned<T: CanvasItem>(c: Seq<HistoryCommand<T>>, r: Seq<(usize, T)>) -> bool {
    &&& c.len() == r.len()
    &&& forall|j: int|
        0 <= j < r.len() ==> (#[trigger] c[j] matches HistoryCommand::RemoveObject { index, object } && index
            == r[j].0 && cloned::<T>(r[j].1, object))
}

/// The taken objects of `r` in the order they had on the canvas (they were
/// taken highest index first).
pub open spec fn moved_objects<T>(r: Seq<(usize, T)>) -> Seq<T> {
    Seq::new(r.len(), |k: int| r[r.len() - 1 - k].1)
}

/// `c` holds, in order, an insertion at `base + k` of a clone of `moved[k]`.
pub open spec fn additions_cloned<T: CanvasItem>(c: Seq<HistoryCommand<T>>, moved: Seq<T>, base: int) -> bool {
    &&& c.len() == moved.len()
    &&& forall|k: int|
        0 <= k < moved.len() ==> (#[trigger] c[k] matches HistoryCommand::AddObject { index, object } && index
            == base + k && cloned::<T>(moved[k], object))
}

/// `c` holds, in order, an insertion at `k` of a clone of `moved[k]`.
pub open spec fn insertions_cloned<T: CanvasItem>(c: Seq<HistoryCommand<T>>, moved: Seq<T>) -> bool {
    &&& c.len() == moved.len()
    &&& forall|k: int|
        0 <= k < moved.len() ==> (#[trigger] c[k] matches HistoryCommand::AddObject { index, object } && index
            == k && cloned::<T>(moved[k], object))
}

/// Appends to `commands` a removal for each taken object, with a clone of it.
fn push_cloned_removals<T: CanvasItem>(commands: &mut Vec<HistoryCommand<T>>, removed: &Vec<(usize, T)>)
    ensures
        final(commands)@.take(old(commands)@.len() as int) == old(commands)@,
        removals_cloned(final(commands)@.skip(old(commands)@.len() as int), removed@),
{
    let ghost start = commands@.len();
    let n = removed.len();
    let mut j: usize = 0;
    while j < n
        invariant
            n == removed@.len(),
            0 <= j <= n,
            commands@.len() == start + j,
            commands@.take(start as int) == old(commands)@,
            forall|q: int|
                0 <= q < j ==> (#[trigger] commands@[start + q] matches HistoryCommand::RemoveObject {
                    index,
                    object,
                } && index == removed@[q].0 && cloned::<T>(removed@[q].1, object)),
        decreases n - j,
    {
        let (i, o) = &removed[j];
        let copy = o.clone();
        commands.push(HistoryCommand::RemoveObject { index: *i, object: copy });
        proof {
            assert(commands@.take(start as int) =~= old(commands)@);
        }
        j = j + 1;
    }
    proof {
        let tail = commands@.skip(start as int);
        assert forall|q: int| 0 <= q < removed@.len() implies (#[trigger] tail[q] matches HistoryCommand::RemoveObject {
            index,
            object,
        } && index == removed@[q].0 && cloned::<T>(removed@[q].1, object)) by {
            assert(tail[q] == commands@[start + q]);
        }
    }
}

/// The indices `from, from + 1, ..., to - 1`.
fn index_range(from: usize, to: usize) -> (v: Vec<usize>)
    requires
        from <= to,
    ensures
        v@ == Seq::new((to - from) as nat, |k: int| (from + k) as usize),
{
    let mut v: Vec<usize> = Vec::new();
    let mut i = from;
    while i < to
        invariant
            from <= i <= to,
            v@ == Seq::new((i - from) as nat, |k: int| (from + k) as usize),
        decreases to - i,
    {
        v.push(i);
        i = i + 1;
        assert(v@ =~= Seq::new((i - from) as nat, |k: int| (from + k) as usize));
    }
    v
}

/// How many of the objects at `sel` a duplication copies onto a canvas of
/// `len` objects: it goes through `sel` in order, and an index counts when
/// it is inside the canvas as the copies so far have grown it.
pub open spec fn dup_count(sel: Seq<usize>, len: nat) -> nat
    decreases sel.len(),
{
    if sel.len() == 0 {
        0
    } else {
        let c = dup_count(sel.drop_last(), len);
        if sel.last() < len + c {
            c + 1
        } else {
            c
        }
    }
}

/// The indices of the objects that a duplication copies, in the order of
/// the copies: the counted entries of `sel` (see `dup_count`).
pub open spec fn dup_sources(sel: Seq<usize>, len: nat) -> Seq<usize>
    decreases sel.len(),
{
    if sel.len() == 0 {
        Seq::empty()
    } else {
        let s = dup_sources(sel.drop_last(), len);
        if sel.last() < len + s.len() {
            s.push(sel.last())
        } else {
            s
        }
    }
}

/// `copy` is what shifting a clone of `source` by `delta` gave.
pub open spec fn shifted_copy<T: CanvasItem>(source: T, delta: T::Offset, copy: T) -> bool {
    exists|c: T| #[trigger] cloned::<T>(source, c) && call_ensures(T::shifted, (&c, &delta), copy)
}

/// `stack` after pushing each of `cmds` in turn under the limit `max`.
pub open spec fn pushed_all<T: CanvasItem>(
    stack: Seq<HistoryCommand<T>>,
    cmds: Seq<HistoryCommand<T>>,
    max: usize,
) -> Seq<HistoryCommand<T>>
    decreases cmds.len(),
{
    if cmds.len() == 0 {
        stack
    } else {
        pushed(pushed_all(stack, cmds.drop_last(), max), cmds.last(), max)
    }
}

/// `cmds` inserts, one by one, clones of the objects that follow the first
/// `base` ones of `objects`, each at its place.
pub open spec fn copies_recorded<T: CanvasItem>(cmds: Seq<HistoryCommand<T>>, objects: Seq<T>, base: int) -> bool {
    &&& base + cmds.len() == objects.len()
    &&& forall|k: int|
        0 <= k < cmds.len() ==> (#[trigger] cmds[k] matches HistoryCommand::AddObject { index, object } && index
            == base + k && cloned::<T>(objects[base + k], object))
}

impl<T: CanvasItem> AppState<T> {
    /// The delete button: takes every selected object off the canvas, the
    /// highest index first, records their removals as one undo step, clears
    /// the selection and reports it.
    pub fn delete_selected_objects(&mut self)
        ensures
            final(self).canvas.objects@ == remove_desc(
                old(self).canvas.objects@,
                sorted_indices(old(self).selected_object_indices@),
            ).0,
            final(self).selected_object_indices@ == Seq::<usize>::empty(),
            final(self).history.max_history_size == old(self).history.max_history_size,
            ({
                let removed = remove_desc(
                    old(self).canvas.objects@,
                    sorted_indices(old(self).selected_object_indices@),
                ).1;
                &&& removed.len() == 0 ==> final(self).history == old(self).history
                &&& removed.len() > 0 ==> exists|c: Vec<HistoryCommand<T>>|
                    #![trigger c@]
                    c@ == removal_commands(removed) && final(self).history.undo_stack@ == pushed(
                        old(self).history.undo_stack@,
                        HistoryCommand::BatchCommand { commands: c },
                        old(self).history.max_history_size,
                    ) && final(self).history.redo_stack@ == Seq::<HistoryCommand<T>>::empty()
            }),
            queued(old(self).toasts@, final(self).toasts@, ToastLevel::Success, "对象已删除!"@),
            *final(self) == (AppState {
                canvas: final(self).canvas,
                history: final(self).history,
                selected_object_indices: final(self).selected_object_indices,
                toasts: final(self).toasts,
                ..*old(self)
            }),
    {
        let idx = sort_indices(&self.selected_object_indices);
        let removed = take_objects_desc(&mut self.canvas.objects, &idx);
        self.clear_selection();
        let commands = into_removal_commands(removed);
        let ghost c = commands;
        self.history.save_batch(commands);
        self.toasts.push(Toast { level: ToastLevel::Success, text: "对象已删除!".to_owned() });
        assert(self.toasts@.drop_last() =~= old(self).toasts@);
    }

    /// The object eraser at one point: takes the objects it touches (at
    /// `hits`, in any order) off the canvas, the highest index first, and
    /// records each removal as an undo step of its own.
    pub fn erase_objects(&mut self, hits: &Vec<usize>)
        ensures
            ({
                let removed = remove_desc(old(self).canvas.objects@, sorted_indices(hits@));
                &&& final(self).canvas.objects@ == removed.0
                &&& final(self).history.undo_stack@ == pushed_all(
                    old(self).history.undo_stack@,
                    removal_commands(removed.1),
                    old(self).history.max_history_size,
                )
                &&& removed.1.len() == 0 ==> final(self).history.redo_stack@ == old(self).history.redo_stack@
                &&& removed.1.len() > 0 ==> final(self).history.redo_stack@ == Seq::<HistoryCommand<T>>::empty()
            }),
            final(self).history.max_history_size == old(self).history.max_history_size,
            *final(self) == (AppState { canvas: final(self).canvas, history: final(self).history, ..*old(self) }),
    {
        let idx = sort_indices(hits);
        let removed = take_objects_desc(&mut self.canvas.objects, &idx);
        let mut rest = into_removal_commands(removed);
        let ghost cmds = rest@;
        let ghost mid = *self;
        let ghost mut k: int = 0;
        assert(cmds.take(0) =~= Seq::<HistoryCommand<T>>::empty());
        while rest.len() > 0
            invariant
                0 <= k <= cmds.len(),
                rest@ == cmds.skip(k),
                self.history.undo_stack@ == pushed_all(
                    old(self).history.undo_stack@,
                    cmds.take(k),
                    old(self).history.max_history_size,
                ),
                self.history.max_history_size == old(self).history.max_history_size,
                k == 0 ==> self.history.redo_stack@ == old(self).history.redo_stack@,
                k > 0 ==> self.history.redo_stack@ == Seq::<HistoryCommand<T>>::empty(),
                mid == (AppState { canvas: mid.canvas, ..*old(self) }),
                *self == (AppState { history: self.history, ..mid }),
            decreases rest@.len(),
        {
            let c = rest.remove(0);
            proof {
                assert(c == cmds[k]);
                assert(cmds.take(k + 1).drop_last() =~= cmds.take(k));
                assert(cmds.take(k + 1).last() == c);
            }
            self.history.push_command(c);
            proof {
                k = k + 1;
                assert(rest@ =~= cmds.skip(k));
            }
        }
        assert(cmds.take(k) =~= cmds);
    }

    /// The bring-to-front button: takes the selected objects out and puts
    /// them back on top in the order they had, records the removals and
    /// insertions as one undo step, selects the moved objects and reports it.
    pub fn bring_selected_to_front(&mut self)
        ensures
            ({
                let taken = remove_desc(old(self).canvas.objects@, sorted_indices(old(self).selected_object_indices@));
                let kept = taken.0;
                let moved = moved_objects(taken.1);
                &&& final(self).canvas.objects@ == kept + moved
                &&& final(self).selected_object_indices@ == Seq::new(
                    moved.len(),
                    |k: int| (kept.len() + k) as usize,
                )
                &&& taken.1.len() == 0 ==> final(self).history == old(self).history
                &&& taken.1.len() > 0 ==> exists|c: Vec<HistoryCommand<T>>|
                    #![trigger c@]
                    c@.len() == 2 * taken.1.len() && removals_cloned(c@.take(taken.1.len() as int), taken.1)
                        && additions_cloned(c@.skip(taken.1.len() as int), moved, kept.len() as int)
                        && final(self).history.undo_stack@ == pushed(
                        old(self).history.undo_stack@,
                        HistoryCommand::BatchCommand { commands: c },
                        old(self).history.max_history_size,
                    ) && final(self).history.redo_stack@ == Seq::<HistoryCommand<T>>::empty()
            }),
            final(self).history.max_history_size == old(self).history.max_history_size,
            queued(old(self).toasts@, final(self).toasts@, ToastLevel::Success, "对象已移至顶部!"@),
            *final(self) == (AppState {
                canvas: final(self).canvas,
                history: final(self).history,
                selected_object_indices: final(self).selected_object_indices,
                toasts: final(self).toasts,
                ..*old(self)
            }),
    {
        let idx = sort_indices(&self.selected_object_indices);
        let removed = take_objects_desc(&mut self.canvas.objects, &idx);
        let ghost kept = self.canvas.objects@;
        let ghost r = removed@;
        let ghost moved = moved_objects(r);
        let mut commands: Vec<HistoryCommand<T>> = Vec::new();
        push_cloned_removals(&mut commands, &removed);
        assert(commands@.skip(0) =~= commands@);
        let n = removed.len();
        let start = self.canvas.objects.len();
        let mut rest = removed;
        let mut k: usize = 0;
        assert(commands@.take(n as int) =~= commands@);
        assert(self.canvas.objects@ =~= kept + moved.take(0));
        assert(rest@ =~= r.take(n - 0));
        while rest.len() > 0
            invariant
                n == r.len(),
                moved == moved_objects(r),
                *self == (AppState { canvas: self.canvas, ..*old(self) }),
                rest@ == r.take(n - k),
                k <= n,
                start == kept.len(),
                self.canvas.objects@ == kept + moved.take(k as int),
                commands@.len() == n + k,
                removals_cloned(commands@.take(n as int), r),
                forall|q: int|
                    0 <= q < k ==> (#[trigger] commands@[n + q] matches HistoryCommand::AddObject {
                        index,
                        object,
                    } && index == start + q && cloned::<T>(moved[q], object)),
            decreases rest@.len(),
        {
            let ghost before = commands@;
            assert(k < n);
            let ghost last = rest@[rest@.len() - 1];
            let pair = rest.pop().unwrap();
            proof {
                assert(pair == last);
                assert(last == r[n - 1 - k]);
                assert(moved[k as int] == r[n - 1 - k].1);
            }
            let (_, o) = pair;
            let new_idx = self.canvas.objects.len();
            let copy = o.clone();
            commands.push(HistoryCommand::AddObject { index: new_idx, object: copy });
            self.canvas.objects.push(o);
            proof {
                assert(commands@.take(n as int) =~= before.take(n as int));
                assert(self.canvas.objects@ =~= kept + moved.take(k + 1));
                assert(rest@ =~= r.take(n - (k + 1)));
            }
            k = k + 1;
        }
        proof {
            assert(moved.take(n as int) =~= moved);
            let tail = commands@.skip(n as int);
            assert forall|q: int| 0 <= q < moved.len() implies (#[trigger] tail[q] matches HistoryCommand::AddObject {
                index,
                object,
            } && index == kept.len() + q && cloned::<T>(moved[q], object)) by {
                assert(tail[q] == commands@[n + q]);
            }
        }
        let end = self.canvas.objects.len();
        self.selected_object_indices = index_range(start, end);
        let ghost c = commands;
        self.history.save_batch(commands);
        self.toasts.push(Toast { level: ToastLevel::Success, text: "对象已移至顶部!".to_owned() });
        assert(self.toasts@.drop_last() =~= old(self).toasts@);
    }

    /// The send-to-back button: takes the selected objects out and puts them
    /// back at the bottom in the order they had, records the removals and
    /// insertions as one undo step, selects the moved objects and reports it.
    pub fn send_selected_to_back(&mut self)
        ensures
            ({
                let taken = remove_desc(old(self).canvas.objects@, sorted_indices(old(self).selected_object_indices@));
                let kept = taken.0;
                let moved = moved_objects(taken.1);
                &&& final(self).canvas.objects@ == moved + kept
                &&& final(self).selected_object_indices@ == Seq::new(moved.len(), |k: int| k as usize)
                &&& taken.1.len() == 0 ==> final(self).history == old(self).history
                &&& taken.1.len() > 0 ==> exists|c: Vec<HistoryCommand<T>>|
                    #![trigger c@]
                    c@.len() == 2 * taken.1.len() && removals_cloned(c@.take(taken.1.len() as int), taken.1)
                        && insertions_cloned(c@.skip(taken.1.len() as int), moved)
                        && final(self).history.undo_stack@ == pushed(
                        old(self).history.undo_stack@,
                        HistoryCommand::BatchCommand { commands: c },
                        old(self).history.max_history_size,
                    ) && final(self).history.redo_stack@ == Seq::<HistoryCommand<T>>::empty()
            }),
            final(self).history.max_history_size == old(self).history.max_history_size,
            queued(old(self).toasts@, final(self).toasts@, ToastLevel::Success, "对象已移至底部!"@),
            *final(self) == (AppState {
                canvas: final(self).canvas,
                history: final(self).history,
                selected_object_indices: final(self).selected_object_indices,
                toasts: final(self).toasts,
                ..*old(self)
            }),
    {
        let idx = sort_indices(&self.selected_object_indices);
        let removed = take_objects_desc(&mut self.canvas.objects, &idx);
        let ghost kept = self.canvas.objects@;
        let ghost r = removed@;
        let ghost moved = moved_objects(r);
        let mut commands: Vec<HistoryCommand<T>> = Vec::new();
        push_cloned_removals(&mut commands, &removed);
        assert(commands@.skip(0) =~= commands@);
        let n = removed.len();
        let mut rest = removed;
        let mut k: usize = 0;
        assert(commands@.take(n as int) =~= commands@);
        assert(self.canvas.objects@ =~= moved.take(0) + kept);
        assert(rest@ =~= r.take(n - 0));
        while rest.len() > 0
            invariant
                n == r.len(),
                moved == moved_objects(r),
                *self == (AppState { canvas: self.canvas, ..*old(self) }),
                rest@ == r.take(n - k),
                k <= n,
                self.canvas.objects@ == moved.take(k as int) + kept,
                commands@.len() == n + k,
                removals_cloned(commands@.take(n as int), r),
                forall|q: int|
                    0 <= q < k ==> (#[trigger] commands@[n + q] matches HistoryCommand::AddObject {
                        index,
                        object,
                    } && index == q && cloned::<T>(moved[q], object)),
            decreases rest@.len(),
        {
            let ghost before = commands@;
            assert(k < n);
            let ghost last = rest@[rest@.len() - 1];
            let pair = rest.pop().unwrap();
            proof {
                assert(pair == last);
                assert(last == r[n - 1 - k]);
                assert(moved[k as int] == r[n - 1 - k].1);
            }
            let (_, o) = pair;
            let copy = o.clone();
            commands.push(HistoryCommand::AddObject { index: k, object: copy });
            self.canvas.objects.insert(k, o);
            proof {
                assert(commands@.take(n as int) =~= before.take(n as int));
                assert(self.canvas.objects@ =~= moved.take(k + 1) + kept);
                assert(rest@ =~= r.take(n - (k + 1)));
            }
            k = k + 1;
        }
        proof {
            assert(moved.take(n as int) =~= moved);
            let tail = commands@.skip(n as int);
            assert forall|q: int| 0 <= q < moved.len() implies (#[trigger] tail[q] matches HistoryCommand::AddObject {
                index,
                object,
            } && index == q && cloned::<T>(moved[q], object)) by {
                assert(tail[q] == commands@[n + q]);
            }
        }
        self.selected_object_indices = index_range(0, k);
        assert(self.selected_object_indices@ =~= Seq::new(moved.len(), |q: int| q as usize));
        let ghost c = commands;
        self.history.save_batch(commands);
        self.toasts.push(Toast { level: ToastLevel::Success, text: "对象已移至底部!".to_owned() });
        assert(self.toasts@.drop_last() =~= old(self).toasts@);
    }

    /// The duplicate button: for each selected index in turn that is inside
    /// the canvas, appends a copy of that object shifted by `offset` and
    /// records the insertion as its own undo step; then selects the copies
    /// and reports it.
    pub fn duplicate_selected_objects(&mut self, offset: &T::Offset)
        ensures
            ({
                let base = old(self).canvas.objects@.len();
                let count = dup_count(old(self).selected_object_indices@, base);
                &&& final(self).canvas.objects@.len() == base + count
                &&& final(self).canvas.objects@.take(base as int) == old(self).canvas.objects@
                &&& final(self).selected_object_indices@ == Seq::new(count, |k: int| (base + k) as usize)
                &&& dup_sources(old(self).selected_object_indices@, base).len() == count
                &&& forall|k: int| 0 <= k < count ==> {
                    let src = #[trigger] dup_sources(old(self).selected_object_indices@, base)[k];
                    &&& src < base + k
                    &&& shifted_copy(final(self).canvas.objects@[src as int], *offset, final(self).canvas.objects@[base + k])
                }
                &&& exists|cmds: Seq<HistoryCommand<T>>|
                    #![trigger copies_recorded(cmds, final(self).canvas.objects@, base as int)]
                    copies_recorded(cmds, final(self).canvas.objects@, base as int)
                        && final(self).history.undo_stack@ == pushed_all(
                        old(self).history.undo_stack@,
                        cmds,
                        old(self).history.max_history_size,
                    )
                &&& count == 0 ==> final(self).history.redo_stack@ == old(self).history.redo_stack@
                &&& count > 0 ==> final(self).history.redo_stack@ == Seq::<HistoryCommand<T>>::empty()
            }),
            final(self).history.max_history_size == old(self).history.max_history_size,
            queued(old(self).toasts@, final(self).toasts@, ToastLevel::Success, "对象已复制!"@),
            *final(self) == (AppState {
                canvas: final(self).canvas,
                history: final(self).history,
                selected_object_indices: final(self).selected_object_indices,
                toasts: final(self).toasts,
                ..*old(self)
            }),
    {
        let n = self.selected_object_indices.len();
        let base = self.canvas.objects.len();
        let ghost sel = self.selected_object_indices@;
        let ghost mut cmds: Seq<HistoryCommand<T>> = Seq::empty();
        let mut new_indices: Vec<usize> = Vec::new();
        let mut j: usize = 0;
        assert(sel.take(0) =~= Seq::<usize>::empty());
        assert(self.canvas.objects@.take(base as int) =~= old(self).canvas.objects@);
        while j < n
            invariant
                n == sel.len(),
                sel == old(self).selected_object_indices@,
                base == old(self).canvas.objects@.len(),
                0 <= j <= n,
                self.canvas.objects@.len() == base + dup_count(sel.take(j as int), base as nat),
                self.canvas.objects@.take(base as int) == old(self).canvas.objects@,
                new_indices@ == Seq::new(dup_count(sel.take(j as int), base as nat), |k: int| (base + k) as usize),
                dup_sources(sel.take(j as int), base as nat).len() == dup_count(sel.take(j as int), base as nat),
                forall|k: int| 0 <= k < dup_count(sel.take(j as int), base as nat) ==> {
                    let src = #[trigger] dup_sources(sel.take(j as int), base as nat)[k];
                    &&& src < base + k
                    &&& shifted_copy(self.canvas.objects@[src as int], *offset, self.canvas.objects@[base + k])
                },
                copies_recorded(cmds, self.canvas.objects@, base as int),
                self.history.undo_stack@ == pushed_all(old(self).history.undo_stack@, cmds, old(self).history.max_history_size),
                self.history.max_history_size == old(self).history.max_history_size,
                cmds.len() == 0 ==> self.history.redo_stack@ == old(self).history.redo_stack@,
                cmds.len() > 0 ==> self.history.redo_stack@ == Seq::<HistoryCommand<T>>::empty(),
                *self == (AppState { canvas: self.canvas, history: self.history, ..*old(self) }),
            decreases n - j,
        {
            let idx = self.selected_object_indices[j];
            proof {
                assert(sel.take(j + 1).drop_last() =~= sel.take(j as int));
                assert(sel.take(j + 1).last() == idx);
            }
            if idx < self.canvas.objects.len() {
                let source = self.canvas.objects[idx].clone();
                let copy = source.shifted(offset);
                proof {
                    assert(cloned::<T>(self.canvas.objects@[idx as int], source));
                    assert(call_ensures(T::shifted, (&source, offset), copy));
                    assert(shifted_copy(self.canvas.objects@[idx as int], *offset, copy));
                }
                let new_idx = self.canvas.objects.len();
                let recorded = copy.clone();
                let ghost cmd = HistoryCommand::AddObject { index: new_idx, object: recorded };
                let ghost before = self.canvas.objects@;
                let ghost old_cmds = cmds;
                self.history.save_add_object(new_idx, recorded);
                self.canvas.objects.push(copy);
                new_indices.push(new_idx);
                proof {
                    cmds = cmds.push(cmd);
                    assert(cmds.drop_last() =~= old_cmds);
                    assert(self.canvas.objects@.take(base as int) =~= before.take(base as int));
                    assert forall|k: int| 0 <= k < cmds.len() implies (#[trigger] cmds[k] matches HistoryCommand::AddObject {
                        index,
                        object,
                    } && index == base + k && cloned::<T>(self.canvas.objects@[base + k], object)) by {
                        if k < old_cmds.len() {
                            assert(cmds[k] == old_cmds[k]);
                            assert(self.canvas.objects@[base + k] == before[base + k]);
                        }
                    }
                    let srcs = dup_sources(sel.take(j + 1), base as nat);
                    assert(srcs == dup_sources(sel.take(j as int), base as nat).push(idx));
                    assert forall|k: int| 0 <= k < dup_count(sel.take(j + 1), base as nat) implies {
                        let src = #[trigger] srcs[k];
                        &&& src < base + k
                        &&& shifted_copy(self.canvas.objects@[src as int], *offset, self.canvas.objects@[base + k])
                    } by {
                        if k < old_cmds.len() {
                            assert(srcs[k] == dup_sources(sel.take(j as int), base as nat)[k]);
                            assert(self.canvas.objects@[base + k] == before[base + k]);
                            assert(self.canvas.objects@[srcs[k] as int] == before[srcs[k] as int]);
                        } else {
                            assert(k == old_cmds.len());
                            assert(srcs[k] == idx);
                            assert(self.canvas.objects@[idx as int] == before[idx as int]);
                        }
                    }
                    assert(new_indices@ =~= Seq::new(
                        dup_count(sel.take(j + 1), base as nat),
                        |k: int| (base + k) as usize,
                    ));
                }
            }
            j = j + 1;
        }
        proof {
            assert(sel.take(n as int) =~= sel);
        }
        self.selected_object_indices = new_indices;
        self.toasts.push(Toast { level: ToastLevel::Success, text: "对象已复制!".to_owned() });
        assert(self.toasts@.drop_last() =~= old(self).toasts@);
    }

    /// Puts `object` on top of the canvas and records its insertion, with a
    /// clone of it, as one undo step.
    pub fn insert_object_on_top(&mut self, object: T)
        ensures
            final(self).canvas.objects@ == old(self).canvas.objects@.push(object),
            exists|c: T|
                #![trigger cloned::<T>(object, c)]
                cloned::<T>(object, c) && final(self).history.undo_stack@ == pushed(
                    old(self).history.undo_stack@,
                    HistoryCommand::AddObject { index: old(self).canvas.objects@.len() as usize, object: c },
                    old(self).history.max_history_size,
                ),
            final(self).history.redo_stack@ == Seq::<HistoryCommand<T>>::empty(),
            final(self).history.max_history_size == old(self).history.max_history_size,
            *final(self) == (AppState { canvas: final(self).canvas, history: final(self).history, ..*old(self) }),
    {
        let index = self.canvas.objects.len();
        let copy = object.clone();
        assert(cloned::<T>(object, copy));
        let ghost c = copy;
        self.history.save_add_object(index, copy);
        self.canvas.objects.push(object);
        assert(self.history.undo_stack@ == pushed(
            old(self).history.undo_stack@,
            HistoryCommand::AddObject { index: old(self).canvas.objects@.len() as usize, object: c },
            old(self).history.max_history_size,
        ));
    }

    /// Counts one more inserted shape and, unless shapes are inserted one
    /// after another, goes back to the brush.
    pub fn count_inserted_shape(&mut self, continuous_insert: bool)
        requires
            old(self).shapes_inserted_count < u32::MAX,
        ensures
            final(self).shapes_inserted_count == old(self).shapes_inserted_count + 1,
            final(self).current_tool == (if continuous_insert {
                old(self).current_tool
            } else {
                CanvasTool::Brush
            }),
            *final(self) == (AppState {
                shapes_inserted_count: final(self).shapes_inserted_count,
                current_tool: final(self).current_tool,
                ..*old(self)
            }),
    {
        self.shapes_inserted_count = self.shapes_inserted_count + 1;
        if !continuous_insert && self.shapes_inserted_count >= 1 {
            self.current_tool = CanvasTool::Brush;
        }
    }

    /// The clear button: takes every object off the canvas, recording the
    /// list as one undo step, forgets the pointers and the selection, and
    /// picks the brush.
    pub fn clear_canvas(&mut self)
        ensures
            final(self).canvas.objects@ == Seq::<T>::empty(),
            exists|c: Vec<T>|
                #![trigger c@]
                c@ == old(self).canvas.objects@ && final(self).history.undo_stack@ == pushed(
                    old(self).history.undo_stack@,
                    HistoryCommand::ClearObjects { objects: c },
                    old(self).history.max_history_size,
                ),
            final(self).history.redo_stack@ == Seq::<HistoryCommand<T>>::empty(),
            final(self).history.max_history_size == old(self).history.max_history_size,
            final(self).pointers@ == Map::<u64, PointerInteraction<T>>::empty(),
            final(self).selected_object_indices@ == Seq::<usize>::empty(),
            final(self).current_tool == CanvasTool::Brush,
            *final(self) == (AppState {
                canvas: final(self).canvas,
                history: final(self).history,
                pointers: final(self).pointers,
                selected_object_indices: final(self).selected_object_indices,
                current_tool: CanvasTool::Brush,
                ..*old(self)
            }),
    {
        broadcast use vstd::std_specs::hash::group_hash_axioms;

        let mut old_objects: Vec<T> = Vec::new();
        std::mem::swap(&mut old_objects, &mut self.canvas.objects);
        let ghost c = old_objects;
        self.history.save_clear_objects(old_objects);
        self.pointers.clear();
        self.clear_selection();
        self.current_tool = CanvasTool::Brush;
    }
}

/// Deleting objects is one undo step that undo takes back whole: the
/// removals were recorded on the canvas they applied to, replay the delete,
/// and undoing them on the canvas the delete left gives back the canvas it
/// started from. This holds for any indices, in range or not, repeated or
/// not.
pub proof fn law_delete_step_round_trip<T: CanvasItem>(
    c: Vec<HistoryCommand<T>>,
    s: Seq<T>,
    idx: Seq<usize>,
)
    requires
        c@ == removal_commands(remove_desc(s, idx).1),
    ensures
        structural(HistoryCommand::BatchCommand { commands: c }),
        recorded(HistoryCommand::BatchCommand { commands: c }, s),
        forward(HistoryCommand::BatchCommand { commands: c }, s) == remove_desc(s, idx).0,
        reverse(HistoryCommand::BatchCommand { commands: c }, remove_desc(s, idx).0) == s,
{
    lemma_removal_replays(s, idx);
    law_undo_inverts_change(HistoryCommand::BatchCommand { commands: c }, s);
}

/// The object eraser's steps undo one by one: the removals it records, one
/// per taken object, were each recorded on the canvas they applied to and
/// replay the erasing; undoing them newest first gives back the canvas the
/// eraser started from. This holds for any indices, in range or not.
pub proof fn law_erase_steps_round_trip<T: CanvasItem>(s: Seq<T>, idx: Seq<usize>)
    ensures
        recorded_all(removal_commands(remove_desc(s, idx).1), s),
        forward_all(removal_commands(remove_desc(s, idx).1), s) == remove_desc(s, idx).0,
        reverse_all(removal_commands(remove_desc(s, idx).1), remove_desc(s, idx).0) == s,
{
    lemma_removal_replays(s, idx);
    lemma_reverse_forward_all(removal_commands(remove_desc(s, idx).1), s);
}

/// Insertions of `moved` on top of a list of `base` objects, in order.
pub open spec fn appends<T: CanvasItem>(moved: Seq<T>, base: int) -> Seq<HistoryCommand<T>> {
    Seq::new(moved.len(), |k: int| HistoryCommand::AddObject { index: (base + k) as usize, object: moved[k] })
}

/// Insertions of `moved` at the bottom, each at its own place, in order.
pub open spec fn insertions<T: CanvasItem>(moved: Seq<T>) -> Seq<HistoryCommand<T>> {
    Seq::new(moved.len(), |k: int| HistoryCommand::AddObject { index: k as usize, object: moved[k] })
}

proof fn lemma_single_command<T: CanvasItem>(c: HistoryCommand<T>, s: Seq<T>)
    ensures
        forward_all(seq![c], s) == forward(c, s),
        recorded_all(seq![c], s) == recorded(c, s),
        structural_all(seq![c]) == structural(c),
{
    let none = Seq::<HistoryCommand<T>>::empty();
    assert(seq![c].drop_last() =~= none);
    assert(seq![c].last() == c);
    assert(forward_all(none, s) == s);
    assert(recorded_all(none, s));
    assert(structural_all(none));
}

proof fn lemma_appends_replay<T: CanvasItem>(moved: Seq<T>, kept: Seq<T>)
    requires
        kept.len() + moved.len() <= usize::MAX,
    ensures
        recorded_all(appends(moved, kept.len() as int), kept),
        forward_all(appends(moved, kept.len() as int), kept) == kept + moved,
        structural_all(appends(moved, kept.len() as int)),
    decreases moved.len(),
{
    let a = appends(moved, kept.len() as int);
    if moved.len() == 0 {
        assert(a =~= Seq::<HistoryCommand<T>>::empty());
        assert(kept + moved =~= kept);
    } else {
        let m = moved.drop_last();
        lemma_appends_replay(m, kept);
        assert(a.drop_last() =~= appends(m, kept.len() as int));
        let cur = kept + m;
        let at = (kept.len() + m.len()) as usize;
        assert(at as int == cur.len());
        assert(a.last() == HistoryCommand::AddObject { index: at, object: moved.last() });
        assert(cur.insert(cur.len() as int, moved.last()) =~= kept + moved);
        assert(forward(a.last(), cur) == cur.insert(at as int, moved.last()));
        assert(recorded(a.last(), cur));
        assert(structural(a.last()));
        assert(forward_all(a, kept) == forward(a.last(), forward_all(a.drop_last(), kept)));
        assert(recorded_all(a, kept) == (recorded_all(a.drop_last(), kept) && recorded(a.last(), forward_all(a.drop_last(), kept))));
        assert(structural_all(a) == (structural(a.last()) && structural_all(a.drop_last())));
    }
}

proof fn lemma_insertions_replay<T: CanvasItem>(moved: Seq<T>, kept: Seq<T>)
    requires
        moved.len() <= usize::MAX,
    ensures
        recorded_all(insertions(moved), kept),
        forward_all(insertions(moved), kept) == moved + kept,
        structural_all(insertions(moved)),
    decreases moved.len(),
{
    let a = insertions(moved);
    if moved.len() == 0 {
        assert(a =~= Seq::<HistoryCommand<T>>::empty());
        assert(moved + kept =~= kept);
    } else {
        let m = moved.drop_last();
        lemma_insertions_replay(m, kept);
        assert(a.drop_last() =~= insertions(m));
        let cur = m + kept;
        let at = m.len() as usize;
        assert(at as int == m.len());
        assert(a.last() == HistoryCommand::AddObject { index: at, object: moved.last() });
        assert(cur.insert(m.len() as int, moved.last()) =~= moved + kept);
        assert(forward(a.last(), cur) == cur.insert(at as int, moved.last()));
        assert(recorded(a.last(), cur));
        assert(structural(a.last()));
        assert(forward_all(a, kept) == forward(a.last(), forward_all(a.drop_last(), kept)));
        assert(recorded_all(a, kept) == (recorded_all(a.drop_last(), kept) && recorded(a.last(), forward_all(a.drop_last(), kept))));
        assert(structural_all(a) == (structural(a.last()) && structural_all(a.drop_last())));
    }
}

/// With exact clones, the removals recorded with clones are the removals of
/// the taken objects themselves.
proof fn lemma_removals_exact<T: CanvasItem>(c: Seq<HistoryCommand<T>>, r: Seq<(usize, T)>)
    requires
        clone_is_exact::<T>(),
        removals_cloned(c, r),
    ensures
        c == removal_commands(r),
{
    assert forall|j: int| 0 <= j < r.len() implies #[trigger] c[j] == removal_commands(r)[j] by {
        if let HistoryCommand::RemoveObject { index, object } = c[j] {
            assert(cloned::<T>(r[j].1, object));
        }
    }
    assert(c =~= removal_commands(r));
}

/// Bringing objects to the front is one undo step that undo takes back
/// whole, when clones are exact: the step was recorded on the canvas it
/// applied to, replays the move (the objects that stayed, then the moved
/// ones in their order), and undoing it gives back the canvas it started
/// from.
pub proof fn law_bring_to_front_round_trip<T: CanvasItem>(c: Vec<HistoryCommand<T>>, s: Seq<T>, idx: Seq<usize>)
    requires
        clone_is_exact::<T>(),
        s.len() <= usize::MAX,
        c@.len() == 2 * remove_desc(s, idx).1.len(),
        removals_cloned(c@.take(remove_desc(s, idx).1.len() as int), remove_desc(s, idx).1),
        additions_cloned(
            c@.skip(remove_desc(s, idx).1.len() as int),
            moved_objects(remove_desc(s, idx).1),
            remove_desc(s, idx).0.len() as int,
        ),
    ensures
        structural(HistoryCommand::BatchCommand { commands: c }),
        recorded(HistoryCommand::BatchCommand { commands: c }, s),
        forward(HistoryCommand::BatchCommand { commands: c }, s) == remove_desc(s, idx).0 + moved_objects(
            remove_desc(s, idx).1,
        ),
        reverse(
            HistoryCommand::BatchCommand { commands: c },
            remove_desc(s, idx).0 + moved_objects(remove_desc(s, idx).1),
        ) == s,
{
    let taken = remove_desc(s, idx);
    let kept = taken.0;
    let r = taken.1;
    let moved = moved_objects(r);
    let n = r.len() as int;
    lemma_remove_desc_sizes(s, idx);
    lemma_removals_exact(c@.take(n), r);
    let adds = c@.skip(n);
    assert forall|k: int| 0 <= k < moved.len() implies #[trigger] adds[k] == appends(moved, kept.len() as int)[k] by {
        if let HistoryCommand::AddObject { index, object } = adds[k] {
            assert(cloned::<T>(moved[k], object));
        }
    }
    assert(adds =~= appends(moved, kept.len() as int));
    assert(c@ =~= removal_commands(r) + appends(moved, kept.len() as int));
    lemma_removal_replays(s, idx);
    lemma_appends_replay(moved, kept);
    lemma_forward_all_concat(removal_commands(r), appends(moved, kept.len() as int), s);
    lemma_recorded_all_concat(removal_commands(r), appends(moved, kept.len() as int), s);
    lemma_structural_all_concat(removal_commands(r), appends(moved, kept.len() as int));
    law_undo_inverts_change(HistoryCommand::BatchCommand { commands: c }, s);
}

/// Sending objects to the back is one undo step that undo takes back whole,
/// when clones are exact: the step was recorded on the canvas it applied to,
/// replays the move (the moved objects in their order, then the ones that
/// stayed), and undoing it gives back the canvas it started from.
pub proof fn law_send_to_back_round_trip<T: CanvasItem>(c: Vec<HistoryCommand<T>>, s: Seq<T>, idx: Seq<usize>)
    requires
        clone_is_exact::<T>(),
        s.len() <= usize::MAX,
        c@.len() == 2 * remove_desc(s, idx).1.len(),
        removals_cloned(c@.take(remove_desc(s, idx).1.len() as int), remove_desc(s, idx).1),
        insertions_cloned(c@.skip(remove_desc(s, idx).1.len() as int), moved_objects(remove_desc(s, idx).1)),
    ensures
        structural(HistoryCommand::BatchCommand { commands: c }),
        recorded(HistoryCommand::BatchCommand { commands: c }, s),
        forward(HistoryCommand::BatchCommand { commands: c }, s) == moved_objects(remove_desc(s, idx).1)
            + remove_desc(s, idx).0,
        reverse(
            HistoryCommand::BatchCommand { commands: c },
            moved_objects(remove_desc(s, idx).1) + remove_desc(s, idx).0,
        ) == s,
{
    let taken = remove_desc(s, idx);
    let kept = taken.0;
    let r = taken.1;
    let moved = moved_objects(r);
    let n = r.len() as int;
    lemma_remove_desc_sizes(s, idx);
    lemma_removals_exact(c@.take(n), r);
    let adds = c@.skip(n);
    assert forall|k: int| 0 <= k < moved.len() implies #[trigger] adds[k] == insertions(moved)[k] by {
        if let HistoryCommand::AddObject { index, object } = adds[k] {
            assert(cloned::<T>(moved[k], object));
        }
    }
    assert(adds =~= insertions(moved));
    assert(c@ =~= removal_commands(r) + insertions(moved));
    lemma_removal_replays(s, idx);
    lemma_insertions_replay(moved, kept);
    lemma_forward_all_concat(removal_commands(r), insertions(moved), s);
    lemma_recorded_all_concat(removal_commands(r), insertions(moved), s);
    lemma_structural_all_concat(removal_commands(r), insertions(moved));
    law_undo_inverts_change(HistoryCommand::BatchCommand { commands: c }, s);
}

/// Taking objects out keeps the count: what is left and what was taken add
/// up to what there was.
proof fn lemma_remove_desc_sizes<T>(s: Seq<T>, idx: Seq<usize>)
    ensures
        remove_desc(s, idx).0.len() + remove_desc(s, idx).1.len() == s.len(),
    decreases idx.len(),
{
    if idx.len() > 0 {
        let i = idx.last();
        if i < s.len() {
            lemma_remove_desc_sizes(s.remove(i as int), idx.drop_last());
        } else {
            lemma_remove_desc_sizes(s, idx.drop_last());
        }
    }
}

proof fn lemma_keep_except_same_below<T>(s: Seq<T>, r1: Set<int>, r2: Set<int>)
    requires
        forall|x: int| 0 <= x < s.len() ==> (r1.contains(x) == r2.contains(x)),
    ensures
        keep_except(s, r1) == keep_except(s, r2),
    decreases s.len(),
{
    if s.len() > 0 {
        lemma_keep_except_same_below(s.drop_last(), r1, r2);
    }
}

proof fn lemma_keep_except_remove_top<T>(s: Seq<T>, r: Set<int>, i: int)
    requires
        0 <= i < s.len(),
        forall|x: int| r.contains(x) ==> x < i,
    ensures
        keep_except(s.remove(i), r) == keep_except(s, r.insert(i)),
    decreases s.len(),
{
    let n = s.len();
    if i == n - 1 {
        assert(s.remove(i) =~= s.drop_last());
        lemma_keep_except_same_below(s.drop_last(), r, r.insert(i));
    } else {
        let t = s.remove(i);
        assert(t.drop_last() =~= s.drop_last().remove(i));
        assert(t.last() == s.last());
        assert(!r.contains(t.len() - 1));
        assert(!r.insert(i).contains(n - 1));
        lemma_keep_except_remove_top(s.drop_last(), r, i);
    }
}

proof fn lemma_remove_desc_increasing<T>(s: Seq<T>, idx: Seq<usize>)
    requires
        strictly_increasing(idx),
        forall|k: int| 0 <= k < idx.len() ==> #[trigger] idx[k] < s.len(),
    ensures
        remove_desc(s, idx).0 == keep_except(s, index_set(idx)),
        remove_desc(s, idx).1 == Seq::new(
            idx.len(),
            |j: int| (idx[idx.len() - 1 - j], s[idx[idx.len() - 1 - j] as int]),
        ),
    decreases idx.len(),
{
    if idx.len() == 0 {
        lemma_keep_except_same_below(s, index_set(idx), Set::empty());
        lemma_keep_except_untouched(s, Set::<int>::empty());
        assert(remove_desc(s, idx).1 =~= Seq::new(
            idx.len(),
            |j: int| (idx[idx.len() - 1 - j], s[idx[idx.len() - 1 - j] as int]),
        ));
    } else {
        let n = idx.len();
        let i = idx.last();
        let d = idx.drop_last();
        assert(i == idx[n - 1]);
        assert(i < s.len());
        let s1 = s.remove(i as int);
        assert(strictly_increasing(d));
        assert forall|k: int| 0 <= k < d.len() implies #[trigger] d[k] < s1.len() by {
            assert(d[k] == idx[k]);
            assert(idx[k] < idx[n - 1]);
        }
        lemma_remove_desc_increasing(s1, d);
        let rd = index_set(d);
        assert forall|x: int| rd.contains(x) implies x < i by {
            let k = choose|k: int| 0 <= k < d.len() && d[k] == x as usize;
            assert(d[k] == idx[k]);
            assert(idx[k] < idx[n - 1]);
        }
        lemma_keep_except_remove_top(s, rd, i as int);
        assert(rd.insert(i as int) =~= index_set(idx)) by {
            assert forall|x: int| rd.insert(i as int).contains(x) <==> index_set(idx).contains(x) by {
                if rd.contains(x) {
                    let k = choose|k: int| 0 <= k < d.len() && d[k] == x as usize;
                    assert(idx[k] == x as usize);
                }
                if index_set(idx).contains(x) {
                    let k = choose|k: int| 0 <= k < idx.len() && idx[k] == x as usize;
                    if k < n - 1 {
                        assert(d[k] == x as usize);
                    }
                }
                assert(idx[n - 1] == i);
            }
        }
        let want = Seq::new(n, |j: int| (idx[n - 1 - j], s[idx[n - 1 - j] as int]));
        let got = seq![(i, s[i as int])] + remove_desc(s1, d).1;
        assert forall|j: int| 0 <= j < n implies #[trigger] got[j] == want[j] by {
            if j > 0 {
                let x = d[d.len() - 1 - (j - 1)];
                assert(x == idx[n - 1 - j]);
                assert(x < i);
                assert(s1[x as int] == s[x as int]);
            }
        }
        assert(got =~= want);
    }
}

/// With a selection that lists each object once and only objects on the
/// canvas, the delete and move buttons act on exactly the selected objects:
/// what stays is every unselected object in its order, and what moves is
/// every selected object in the order of the canvas.
pub proof fn law_selected_objects_taken_in_order<T>(s: Seq<T>, sel: Seq<usize>)
    requires
        sel.no_duplicates(),
        forall|k: int| 0 <= k < sel.len() ==> #[trigger] sel[k] < s.len(),
    ensures
        strictly_increasing(sorted_indices(sel)),
        sorted_indices(sel).len() == sel.len(),
        forall|y: usize| #[trigger] sorted_indices(sel).contains(y) <==> sel.contains(y),
        remove_desc(s, sorted_indices(sel)).0 == keep_except(s, index_set(sel)),
        moved_objects(remove_desc(s, sorted_indices(sel)).1) == Seq::new(
            sel.len(),
            |k: int| s[sorted_indices(sel)[k] as int],
        ),
{
    let idx = sorted_indices(sel);
    lemma_sorted_indices_props(sel);
    assert forall|k: int| 0 <= k < idx.len() implies #[trigger] idx[k] < s.len() by {
        assert(idx.contains(idx[k]));
        let q = choose|q: int| 0 <= q < sel.len() && sel[q] == idx[k];
    }
    lemma_remove_desc_increasing(s, idx);
    assert(index_set(idx) =~= index_set(sel)) by {
        assert forall|x: int| index_set(idx).contains(x) <==> index_set(sel).contains(x) by {
            if 0 <= x <= usize::MAX {
                assert(idx.contains(x as usize) <==> sel.contains(x as usize));
            }
        }
    }
    let r = remove_desc(s, idx).1;
    assert(moved_objects(r) =~= Seq::new(sel.len(), |k: int| s[idx[k] as int]));
}

} // verus!
