use vstd::prelude::*;

verus! {

/// An object that can be placed on a canvas and recorded in the history.
pub trait CanvasItem: Clone + Sized {
    /// Offset by which a move command shifts an object.
    type Offset: Clone;
    /// Position and size that a transform command gives an object.
    type Transform: Clone;

    /// The object shifted by `delta`.
    fn shifted(&self, delta: &Self::Offset) -> Self;

    /// The object with the position and size of `transform`.
    fn transformed(&self, transform: &Self::Transform) -> Self;
}

/// One undoable change of the canvas.
pub enum HistoryCommand<T: CanvasItem> {
    AddObject { index: usize, object: T },
    RemoveObject { index: usize, object: T },
    ClearObjects { objects: Vec<T> },
    MoveObject { index: usize, old_position: T::Offset, new_position: T::Offset },
    TransformObject { index: usize, old_transform: T::Transform, new_transform: T::Transform },
    BatchCommand { commands: Vec<HistoryCommand<T>> },
    ReplaceObjects { old: Vec<T>, new: Vec<T> },
}

pub open spec fn forward<T: CanvasItem>(cmd: HistoryCommand<T>, s: Seq<T>) -> Seq<T>
    decreases cmd,
{
    match cmd {
        HistoryCommand::AddObject { index, object } => if index <= s.len() {
            s.insert(index as int, object)
        } else {
            s
        },
        HistoryCommand::RemoveObject { index, object } => if index < s.len() {
            s.remove(index as int)
        } else {
            s
        },
        HistoryCommand::ClearObjects { .. } => Seq::empty(),
        HistoryCommand::MoveObject { .. } => s,
        HistoryCommand::TransformObject { .. } => s,
        HistoryCommand::BatchCommand { commands } => forward_all(commands@, s),
        HistoryCommand::ReplaceObjects { old, new } => new@,
    }
}

pub open spec fn forward_all<T: CanvasItem>(cs: Seq<HistoryCommand<T>>, s: Seq<T>) -> Seq<T>
    decreases cs,
{
    if cs.len() == 0 {
        s
    } else {
        forward(cs.last(), forward_all(cs.drop_last(), s))
    }
}


pub open spec fn reverse<T: CanvasItem>(cmd: HistoryCommand<T>, s: Seq<T>) -> Seq<T>
    decreases cmd,
{
    match cmd {
        HistoryCommand::AddObject { index, object } => if index < s.len() {
            s.remove(index as int)
        } else {
            s
        },
        HistoryCommand::RemoveObject { index, object } => if index <= s.len() {
            s.insert(index as int, object)
        } else {
            s
        },
        HistoryCommand::ClearObjects { objects } => objects@,
        HistoryCommand::MoveObject { .. } => s,
        HistoryCommand::TransformObject { .. } => s,
        HistoryCommand::BatchCommand { commands } => reverse_all(commands@, s),
        HistoryCommand::ReplaceObjects { old, new } => old@,
    }
}

pub open spec fn reverse_all<T: CanvasItem>(cs: Seq<HistoryCommand<T>>, s: Seq<T>) -> Seq<T>
    decreases cs,
{
    if cs.len() == 0 {
        s
    } else {
        reverse_all(cs.drop_last(), reverse(cs.last(), s))
    }
}

pub open spec fn structural<T: CanvasItem>(cmd: HistoryCommand<T>) -> bool
    decreases cmd,
{
    match cmd {
        HistoryCommand::MoveObject { .. } => false,
        HistoryCommand::TransformObject { .. } => false,
        HistoryCommand::BatchCommand { commands } => structural_all(commands@),
        _ => true,
    }
}

pub open spec fn structural_all<T: CanvasItem>(cs: Seq<HistoryCommand<T>>) -> bool
    decreases cs,
{
    cs.len() == 0 || (structural(cs.last()) && structural_all(cs.drop_last()))
}

pub open spec fn clone_is_exact<T: Clone>() -> bool {
    forall|a: T, b: T| #[trigger] cloned::<T>(a, b) ==> a == b
}

/// `b` is a clone of `a`, element by element.
pub open spec fn cloned_all<T: Clone>(a: Seq<T>, b: Seq<T>) -> bool {
    a.len() == b.len() && forall|i: int| 0 <= i < a.len() ==> #[trigger] cloned::<T>(a[i], b[i])
}

proof fn lemma_forward_len<T: CanvasItem>(cmd: HistoryCommand<T>, a: Seq<T>, b: Seq<T>)
    requires a.len() == b.len(),
    ensures forward(cmd, a).len() == forward(cmd, b).len(),
    decreases cmd,
{
    if let HistoryCommand::BatchCommand { commands } = cmd {
        lemma_forward_all_len(commands@, a, b);
    }
}

proof fn lemma_forward_all_len<T: CanvasItem>(cs: Seq<HistoryCommand<T>>, a: Seq<T>, b: Seq<T>)
    requires a.len() == b.len(),
    ensures forward_all(cs, a).len() == forward_all(cs, b).len(),
    decreases cs,
{
    if cs.len() > 0 {
        lemma_forward_all_len(cs.drop_last(), a, b);
        lemma_forward_len(cs.last(), forward_all(cs.drop_last(), a), forward_all(cs.drop_last(), b));
    }
}

proof fn lemma_structural_all_elem<T: CanvasItem>(cs: Seq<HistoryCommand<T>>, i: int)
    requires
        structural_all(cs),
        0 <= i < cs.len(),
    ensures
        structural(cs[i]),
    decreases cs,
{
    if i < cs.len() - 1 {
        lemma_structural_all_elem(cs.drop_last(), i);
    }
}

/// Applying `a + b` applies `a`, then `b`.
pub proof fn lemma_forward_all_concat<T: CanvasItem>(a: Seq<HistoryCommand<T>>, b: Seq<HistoryCommand<T>>, s: Seq<T>)
    ensures
        forward_all(a + b, s) == forward_all(b, forward_all(a, s)),
    decreases b.len(),
{
    if b.len() == 0 {
        assert(a + b =~= a);
    } else {
        assert((a + b).drop_last() =~= a + b.drop_last());
        assert((a + b).last() == b.last());
        lemma_forward_all_concat(a, b.drop_last(), s);
    }
}

/// `a + b` was recorded on `s` when `a` was, and `b` was on what `a` left.
pub proof fn lemma_recorded_all_concat<T: CanvasItem>(a: Seq<HistoryCommand<T>>, b: Seq<HistoryCommand<T>>, s: Seq<T>)
    ensures
        recorded_all(a + b, s) == (recorded_all(a, s) && recorded_all(b, forward_all(a, s))),
    decreases b.len(),
{
    if b.len() == 0 {
        assert(a + b =~= a);
    } else {
        assert((a + b).drop_last() =~= a + b.drop_last());
        assert((a + b).last() == b.last());
        lemma_recorded_all_concat(a, b.drop_last(), s);
        lemma_forward_all_concat(a, b.drop_last(), s);
    }
}

/// Every command of `a + b` is structural when every one of `a` and of `b` is.
pub proof fn lemma_structural_all_concat<T: CanvasItem>(a: Seq<HistoryCommand<T>>, b: Seq<HistoryCommand<T>>)
    ensures
        structural_all(a + b) == (structural_all(a) && structural_all(b)),
    decreases b.len(),
{
    if b.len() == 0 {
        assert(a + b =~= a);
    } else {
        assert((a + b).drop_last() =~= a + b.drop_last());
        assert((a + b).last() == b.last());
        lemma_structural_all_concat(a, b.drop_last());
    }
}

/// Of a move or a transform, redone (`redo`) or undone: the list keeps its
/// length and every object other than the edited one, and the edited one is
/// what shifting or transforming the one that was there gives, with the new
/// offset or transform on redo and the old one on undo.
pub open spec fn edits_in_place<T: CanvasItem>(cmd: HistoryCommand<T>, before: Seq<T>, after: Seq<T>, redo: bool) -> bool {
    match cmd {
        HistoryCommand::MoveObject { index, old_position, new_position } => {
            &&& after.len() == before.len()
            &&& forall|j: int| 0 <= j < before.len() && j != index ==> #[trigger] after[j] == before[j]
            &&& index < before.len() ==> call_ensures(
                T::shifted,
                (&before[index as int], &(if redo { new_position } else { old_position })),
                after[index as int],
            )
        },
        HistoryCommand::TransformObject { index, old_transform, new_transform } => {
            &&& after.len() == before.len()
            &&& forall|j: int| 0 <= j < before.len() && j != index ==> #[trigger] after[j] == before[j]
            &&& index < before.len() ==> call_ensures(
                T::transformed,
                (&before[index as int], &(if redo { new_transform } else { old_transform })),
                after[index as int],
            )
        },
        _ => true,
    }
}

/// `after` is a list that redoing `cmd` on `before` can give: an added
/// object goes in as a clone, a moved or transformed object is what
/// `shifted` or `transformed` gives for the one that was there, a replaced
/// list comes in as clones, and a batch redoes its commands in order.
pub open spec fn redone<T: CanvasItem>(cmd: HistoryCommand<T>, before: Seq<T>, after: Seq<T>) -> bool
    decreases cmd,
{
    match cmd {
        HistoryCommand::AddObject { index, object } => if index <= before.len() {
            exists|c: T| #[trigger] cloned::<T>(object, c) && after == before.insert(index as int, c)
        } else {
            after == before
        },
        HistoryCommand::RemoveObject { index, .. } => if index < before.len() {
            after == before.remove(index as int)
        } else {
            after == before
        },
        HistoryCommand::ClearObjects { .. } => after == Seq::<T>::empty(),
        HistoryCommand::MoveObject { index, new_position, .. } => if index < before.len() {
            exists|m: T|
                #[trigger] call_ensures(T::shifted, (&before[index as int], &new_position), m) && after
                    == before.update(index as int, m)
        } else {
            after == before
        },
        HistoryCommand::TransformObject { index, new_transform, .. } => if index < before.len() {
            exists|m: T|
                #[trigger] call_ensures(T::transformed, (&before[index as int], &new_transform), m) && after
                    == before.update(index as int, m)
        } else {
            after == before
        },
        HistoryCommand::BatchCommand { commands } => redone_all(commands@, before, after),
        HistoryCommand::ReplaceObjects { new, .. } => cloned_all(new@, after),
    }
}

/// `after` is a list that redoing the commands `cs` in order on `before`
/// can give, each on the list the ones before it left.
pub open spec fn redone_all<T: CanvasItem>(cs: Seq<HistoryCommand<T>>, before: Seq<T>, after: Seq<T>) -> bool
    decreases cs,
{
    if cs.len() == 0 {
        after == before
    } else {
        // Any list in sight may be the intermediate one, so the trigger is its length.
        exists|mid: Seq<T>| #![trigger mid.len()] redone_all(cs.drop_last(), before, mid) && redone(cs.last(), mid, after)
    }
}

/// `after` is a list that undoing `cmd` on `before` can give: an added
/// object is taken out, a removed object comes back as a clone, a cleared or
/// replaced list comes back as clones, a moved or transformed object is
/// what `shifted` or `transformed` gives for the old offset or transform,
/// and a batch undoes its commands newest first.
pub open spec fn undone<T: CanvasItem>(cmd: HistoryCommand<T>, before: Seq<T>, after: Seq<T>) -> bool
    decreases cmd,
{
    match cmd {
        HistoryCommand::AddObject { index, .. } => if index < before.len() {
            after == before.remove(index as int)
        } else {
            after == before
        },
        HistoryCommand::RemoveObject { index, object } => if index <= before.len() {
            exists|c: T| #[trigger] cloned::<T>(object, c) && after == before.insert(index as int, c)
        } else {
            after == before
        },
        HistoryCommand::ClearObjects { objects } => cloned_all(objects@, after),
        HistoryCommand::MoveObject { index, old_position, .. } => if index < before.len() {
            exists|m: T|
                #[trigger] call_ensures(T::shifted, (&before[index as int], &old_position), m) && after
                    == before.update(index as int, m)
        } else {
            after == before
        },
        HistoryCommand::TransformObject { index, old_transform, .. } => if index < before.len() {
            exists|m: T|
                #[trigger] call_ensures(T::transformed, (&before[index as int], &old_transform), m) && after
                    == before.update(index as int, m)
        } else {
            after == before
        },
        HistoryCommand::BatchCommand { commands } => undone_all(commands@, before, after),
        HistoryCommand::ReplaceObjects { old, .. } => cloned_all(old@, after),
    }
}

/// `after` is a list that undoing the commands `cs` on `before` can give:
/// the later ones first, the first one last.
pub open spec fn undone_all<T: CanvasItem>(cs: Seq<HistoryCommand<T>>, before: Seq<T>, after: Seq<T>) -> bool
    decreases cs,
{
    if cs.len() == 0 {
        after == before
    } else {
        // Any list in sight may be the intermediate one, so the trigger is its length.
        exists|mid: Seq<T>| #![trigger mid.len()] undone_all(cs.drop_first(), before, mid) && undone(cs.first(), mid, after)
    }
}

/// Applying `cmd` to `before` gave `after` up to clones: for every list `e`
/// of which `before` is a clone, element by element, `after` is a clone of
/// what applying `cmd` to `e` gives.
pub open spec fn forward_up_to_clones<T: CanvasItem>(cmd: HistoryCommand<T>, before: Seq<T>, after: Seq<T>) -> bool {
    forall|e: Seq<T>| #[trigger] cloned_all(e, before) ==> cloned_all(forward(cmd, e), after)
}

/// Undoing `cmd` on `before` gave `after` up to clones, in the same sense.
pub open spec fn reverse_up_to_clones<T: CanvasItem>(cmd: HistoryCommand<T>, before: Seq<T>, after: Seq<T>) -> bool {
    forall|e: Seq<T>| #[trigger] cloned_all(e, before) ==> cloned_all(reverse(cmd, e), after)
}

fn apply_forward<T: CanvasItem>(command: &HistoryCommand<T>, objects: &mut Vec<T>)
    ensures
        final(objects)@.len() == forward(*command, old(objects)@).len(),
        clone_is_exact::<T>() && structural(*command) ==> final(objects)@ == forward(*command, old(objects)@),
        structural(*command) ==> forward_up_to_clones(*command, old(objects)@, final(objects)@),
        edits_in_place(*command, old(objects)@, final(objects)@, true),
        redone(*command, old(objects)@, final(objects)@),
    decreases command,
{
    match command {
        HistoryCommand::AddObject { index, object } => {
            if *index <= objects.len() {
                let copy = object.clone();
                assert(cloned::<T>(*object, copy));
                let ghost before = objects@;
                objects.insert(*index, copy);
                proof {
                    let i = *index as int;
                    assert(cloned::<T>(*object, copy) && objects@ == before.insert(i, copy));
                    assert forall|e: Seq<T>| #[trigger] cloned_all(e, before) implies cloned_all(
                        forward(*command, e),
                        objects@,
                    ) by {
                        let f = e.insert(i, *object);
                        assert(forward(*command, e) == f);
                        assert forall|j: int| 0 <= j < f.len() implies #[trigger] cloned::<T>(f[j], objects@[j]) by {
                            if j < i {
                                assert(cloned::<T>(e[j], before[j]));
                            } else if j > i {
                                assert(cloned::<T>(e[j - 1], before[j - 1]));
                            }
                        }
                    }
                }
            }
        },
        HistoryCommand::RemoveObject { index, object: _ } => {
            if *index < objects.len() {
                let ghost before = objects@;
                objects.remove(*index);
                proof {
                    let i = *index as int;
                    assert forall|e: Seq<T>| #[trigger] cloned_all(e, before) implies cloned_all(
                        forward(*command, e),
                        objects@,
                    ) by {
                        let f = e.remove(i);
                        assert(forward(*command, e) == f);
                        assert forall|j: int| 0 <= j < f.len() implies #[trigger] cloned::<T>(f[j], objects@[j]) by {
                            if j < i {
                                assert(cloned::<T>(e[j], before[j]));
                            } else {
                                assert(cloned::<T>(e[j + 1], before[j + 1]));
                            }
                        }
                    }
                }
            }
        },
        HistoryCommand::ClearObjects { objects: _ } => {
            objects.clear();
            assert(objects@ =~= Seq::<T>::empty());
        },
        HistoryCommand::MoveObject { index, old_position: _, new_position } => {
            if *index < objects.len() {
                let ghost before = objects@;
                let obj = objects.remove(*index);
                let shifted = obj.shifted(new_position);
                objects.insert(*index, shifted);
                proof {
                    assert(objects@ =~= before.update(*index as int, shifted));
                    assert(call_ensures(T::shifted, (&before[*index as int], new_position), shifted));
                }
            }
        },
        HistoryCommand::TransformObject { index, old_transform: _, new_transform } => {
            if *index < objects.len() {
                let ghost before = objects@;
                let obj = objects.remove(*index);
                let transformed = obj.transformed(new_transform);
                objects.insert(*index, transformed);
                proof {
                    assert(objects@ =~= before.update(*index as int, transformed));
                    assert(call_ensures(T::transformed, (&before[*index as int], new_transform), transformed));
                }
            }
        },
        HistoryCommand::BatchCommand { commands } => {
            let ghost s0 = objects@;
            let n = commands.len();
            let mut i: usize = 0;
            while i < n
                invariant
                    n == commands@.len(),
                    0 <= i <= n,
                    *command == (HistoryCommand::BatchCommand { commands: *commands }),
                    objects@.len() == forward_all(commands@.take(i as int), s0).len(),
                    clone_is_exact::<T>() && structural_all(commands@) ==> objects@ == forward_all(commands@.take(i as int), s0),
                    structural_all(commands@) ==> forall|e: Seq<T>| #[trigger] cloned_all(e, s0) ==> cloned_all(
                        forward_all(commands@.take(i as int), e),
                        objects@,
                    ),
                    redone_all(commands@.take(i as int), s0, objects@),
                decreases n - i,
            {
                assert(commands@.take(i + 1).drop_last() == commands@.take(i as int));
                assert(commands@.take(i + 1).last() == commands@[i as int]);
                proof {
                    if structural_all(commands@) {
                        lemma_structural_all_elem(commands@, i as int);
                    }
                    let ghost c = *command;
                    assert(c is BatchCommand);
                    assert(decreases_to!(c => c->BatchCommand_commands));
                    assert(decreases_to!(c => c->BatchCommand_commands@));
                }
                let ghost before = objects@;
                apply_forward(&commands[i], objects);
                proof {
                    lemma_forward_len(commands@[i as int], before, forward_all(commands@.take(i as int), s0));
                    let cs1 = commands@.take(i + 1);
                    assert(cs1.drop_last() == commands@.take(i as int));
                    assert(cs1.last() == commands@[i as int]);
                    assert(redone_all(cs1.drop_last(), s0, before) && redone(cs1.last(), before, objects@));
                    assert(redone_all(cs1, s0, objects@));
                    if structural_all(commands@) {
                        assert forall|e: Seq<T>| #[trigger] cloned_all(e, s0) implies cloned_all(
                            forward_all(commands@.take(i + 1), e),
                            objects@,
                        ) by {
                            let e1 = forward_all(commands@.take(i as int), e);
                            assert(cloned_all(e1, before));
                            assert(forward_all(commands@.take(i + 1), e) == forward(commands@[i as int], e1));
                        }
                    }
                }
                i = i + 1;
            }
            assert(commands@.take(n as int) == commands@);
            assert(structural(*command) == structural_all(commands@));
            assert(redone(*command, s0, objects@) == redone_all(commands@, s0, objects@));
        },
        HistoryCommand::ReplaceObjects { old: _, new } => {
            *objects = new.clone();
            assert(clone_is_exact::<T>() ==> objects@ =~= new@);
        },
    }
}


proof fn lemma_reverse_len<T: CanvasItem>(cmd: HistoryCommand<T>, a: Seq<T>, b: Seq<T>)
    requires a.len() == b.len(),
    ensures reverse(cmd, a).len() == reverse(cmd, b).len(),
    decreases cmd,
{
    if let HistoryCommand::BatchCommand { commands } = cmd {
        lemma_reverse_all_len(commands@, a, b);
    }
}

proof fn lemma_reverse_all_len<T: CanvasItem>(cs: Seq<HistoryCommand<T>>, a: Seq<T>, b: Seq<T>)
    requires a.len() == b.len(),
    ensures reverse_all(cs, a).len() == reverse_all(cs, b).len(),
    decreases cs,
{
    if cs.len() > 0 {
        lemma_reverse_len(cs.last(), a, b);
        lemma_reverse_all_len(cs.drop_last(), reverse(cs.last(), a), reverse(cs.last(), b));
    }
}

/// Undoing a command list that starts with `c` undoes the rest first and `c` last.
proof fn lemma_reverse_all_cons<T: CanvasItem>(c: HistoryCommand<T>, rest: Seq<HistoryCommand<T>>, s: Seq<T>)
    ensures reverse_all(seq![c] + rest, s) == reverse(c, reverse_all(rest, s)),
    decreases rest.len(),
{
    let cs = seq![c] + rest;
    if rest.len() == 0 {
        assert(cs.drop_last() =~= Seq::<HistoryCommand<T>>::empty());
        assert(cs.last() == c);
        assert(reverse_all(cs, s) == reverse_all(cs.drop_last(), reverse(c, s)));
    } else {
        assert(cs.drop_last() =~= seq![c] + rest.drop_last());
        assert(cs.last() == rest.last());
        lemma_reverse_all_cons(c, rest.drop_last(), reverse(rest.last(), s));
        assert(reverse_all(cs, s) == reverse_all(cs.drop_last(), reverse(rest.last(), s)));
        assert(reverse_all(rest, s) == reverse_all(rest.drop_last(), reverse(rest.last(), s)));
    }
}

proof fn lemma_structural_all_skip<T: CanvasItem>(cs: Seq<HistoryCommand<T>>, j: int)
    requires
        structural_all(cs),
        0 <= j <= cs.len(),
    ensures
        structural_all(cs.skip(j)),
    decreases cs.len() - j,
{
    let t = cs.skip(j);
    if t.len() > 0 {
        lemma_structural_all_elem(cs, cs.len() - 1);
        assert(t.last() == cs[cs.len() - 1]);
        assert(t.drop_last() =~= cs.drop_last().skip(j));
        lemma_structural_all_drop_last(cs);
        lemma_structural_all_skip(cs.drop_last(), j);
    }
}

proof fn lemma_structural_all_drop_last<T: CanvasItem>(cs: Seq<HistoryCommand<T>>)
    requires
        structural_all(cs),
        cs.len() > 0,
    ensures
        structural_all(cs.drop_last()),
{
}

fn apply_reverse<T: CanvasItem>(command: &HistoryCommand<T>, objects: &mut Vec<T>)
    ensures
        final(objects)@.len() == reverse(*command, old(objects)@).len(),
        clone_is_exact::<T>() && structural(*command) ==> final(objects)@ == reverse(*command, old(objects)@),
        structural(*command) ==> reverse_up_to_clones(*command, old(objects)@, final(objects)@),
        edits_in_place(*command, old(objects)@, final(objects)@, false),
        undone(*command, old(objects)@, final(objects)@),
    decreases command,
{
    match command {
        HistoryCommand::AddObject { index, object: _ } => {
            if *index < objects.len() {
                let ghost before = objects@;
                objects.remove(*index);
                proof {
                    let i = *index as int;
                    assert forall|e: Seq<T>| #[trigger] cloned_all(e, before) implies cloned_all(
                        reverse(*command, e),
                        objects@,
                    ) by {
                        let f = e.remove(i);
                        assert(reverse(*command, e) == f);
                        assert forall|k: int| 0 <= k < f.len() implies #[trigger] cloned::<T>(f[k], objects@[k]) by {
                            if k < i {
                                assert(cloned::<T>(e[k], before[k]));
                            } else {
                                assert(cloned::<T>(e[k + 1], before[k + 1]));
                            }
                        }
                    }
                }
            }
        },
        HistoryCommand::RemoveObject { index, object } => {
            if *index <= objects.len() {
                let copy = object.clone();
                assert(cloned::<T>(*object, copy));
                let ghost before = objects@;
                objects.insert(*index, copy);
                proof {
                    let i = *index as int;
                    assert(cloned::<T>(*object, copy) && objects@ == before.insert(i, copy));
                    assert forall|e: Seq<T>| #[trigger] cloned_all(e, before) implies cloned_all(
                        reverse(*command, e),
                        objects@,
                    ) by {
                        let f = e.insert(i, *object);
                        assert(reverse(*command, e) == f);
                        assert forall|k: int| 0 <= k < f.len() implies #[trigger] cloned::<T>(f[k], objects@[k]) by {
                            if k < i {
                                assert(cloned::<T>(e[k], before[k]));
                            } else if k > i {
                                assert(cloned::<T>(e[k - 1], before[k - 1]));
                            }
                        }
                    }
                }
            }
        },
        HistoryCommand::ClearObjects { objects: stored } => {
            *objects = stored.clone();
            assert(clone_is_exact::<T>() ==> objects@ =~= stored@);
        },
        HistoryCommand::MoveObject { index, old_position, new_position: _ } => {
            if *index < objects.len() {
                let ghost before = objects@;
                let obj = objects.remove(*index);
                let shifted = obj.shifted(old_position);
                objects.insert(*index, shifted);
                proof {
                    assert(objects@ =~= before.update(*index as int, shifted));
                    assert(call_ensures(T::shifted, (&before[*index as int], old_position), shifted));
                }
            }
        },
        HistoryCommand::TransformObject { index, old_transform, new_transform: _ } => {
            if *index < objects.len() {
                let ghost before = objects@;
                let obj = objects.remove(*index);
                let transformed = obj.transformed(old_transform);
                objects.insert(*index, transformed);
                proof {
                    assert(objects@ =~= before.update(*index as int, transformed));
                    assert(call_ensures(T::transformed, (&before[*index as int], old_transform), transformed));
                }
            }
        },
        HistoryCommand::BatchCommand { commands } => {
            let ghost s0 = objects@;
            let n = commands.len();
            let mut j: usize = n;
            assert(commands@.skip(n as int) =~= Seq::<HistoryCommand<T>>::empty());
            while j > 0
                invariant
                    n == commands@.len(),
                    0 <= j <= n,
                    *command == (HistoryCommand::BatchCommand { commands: *commands }),
                    objects@.len() == reverse_all(commands@.skip(j as int), s0).len(),
                    clone_is_exact::<T>() && structural_all(commands@) ==> objects@ == reverse_all(commands@.skip(j as int), s0),
                    structural_all(commands@) ==> forall|e: Seq<T>| #[trigger] cloned_all(e, s0) ==> cloned_all(
                        reverse_all(commands@.skip(j as int), e),
                        objects@,
                    ),
                    undone_all(commands@.skip(j as int), s0, objects@),
                decreases j,
            {
                j = j - 1;
                proof {
                    assert(commands@.skip(j as int) =~= seq![commands@[j as int]] + commands@.skip(j + 1));
                    lemma_reverse_all_cons(commands@[j as int], commands@.skip(j + 1), s0);
                    if structural_all(commands@) {
                        lemma_structural_all_elem(commands@, j as int);
                    }
                    let ghost c = *command;
                    assert(c is BatchCommand);
                    assert(decreases_to!(c => c->BatchCommand_commands));
                    assert(decreases_to!(c => c->BatchCommand_commands@));
                }
                let ghost before = objects@;
                apply_reverse(&commands[j], objects);
                proof {
                    lemma_reverse_len(commands@[j as int], before, reverse_all(commands@.skip(j + 1), s0));
                    assert(commands@.skip(j as int).drop_first() =~= commands@.skip(j + 1));
                    assert(commands@.skip(j as int).first() == commands@[j as int]);
                    let cs1 = commands@.skip(j as int);
                    assert(undone_all(cs1.drop_first(), s0, before) && undone(cs1.first(), before, objects@));
                    assert(undone_all(cs1, s0, objects@));
                    if structural_all(commands@) {
                        assert forall|e: Seq<T>| #[trigger] cloned_all(e, s0) implies cloned_all(
                            reverse_all(commands@.skip(j as int), e),
                            objects@,
                        ) by {
                            let e1 = reverse_all(commands@.skip(j + 1), e);
                            assert(cloned_all(e1, before));
                            lemma_reverse_all_cons(commands@[j as int], commands@.skip(j + 1), e);
                        }
                    }
                }
            }
            assert(commands@.skip(0) == commands@);
            assert(structural(*command) == structural_all(commands@));
            assert(undone(*command, s0, objects@) == undone_all(commands@, s0, objects@));
        },
        HistoryCommand::ReplaceObjects { old, new: _ } => {
            *objects = old.clone();
            assert(clone_is_exact::<T>() ==> objects@ =~= old@);
        },
    }
}


/// The objects on one canvas, bottom first.
pub struct CanvasState<T: CanvasItem> {
    pub objects: Vec<T>,
}

impl<T: CanvasItem> CanvasState<T> {
    /// An empty canvas.
    pub fn new() -> (s: Self)
        ensures
            s.objects@ == Seq::<T>::empty(),
    {
        CanvasState { objects: Vec::new() }
    }
}

/// The undo stack after `cmd` was pushed onto `stack` under the size limit
/// `max`: the oldest entry goes once the stack holds more than `max`.
pub open spec fn pushed<T: CanvasItem>(stack: Seq<HistoryCommand<T>>, cmd: HistoryCommand<T>, max: usize) -> Seq<
    HistoryCommand<T>,
> {
    if stack.len() + 1 > max {
        stack.push(cmd).drop_first()
    } else {
        stack.push(cmd)
    }
}

/// Undo and redo stacks with a size limit on the undo stack.
pub struct History<T: CanvasItem> {
    pub undo_stack: Vec<HistoryCommand<T>>,
    pub redo_stack: Vec<HistoryCommand<T>>,
    pub max_history_size: usize,
}

impl<T: CanvasItem> History<T> {
    /// An empty history that keeps at most `max_history_size` undo steps.
    pub fn new(max_history_size: usize) -> (h: Self)
        ensures
            h.undo_stack@ == Seq::<HistoryCommand<T>>::empty(),
            h.redo_stack@ == Seq::<HistoryCommand<T>>::empty(),
            h.max_history_size == max_history_size,
    {
        History {
            undo_stack: Vec::with_capacity(max_history_size),
            redo_stack: Vec::with_capacity(max_history_size),
            max_history_size,
        }
    }

    /// Records `command` as the newest undo step: the redo stack is
    /// discarded and the oldest undo step goes if the limit is exceeded.
    pub fn push_command(&mut self, command: HistoryCommand<T>)
        ensures
            final(self).undo_stack@ == pushed(old(self).undo_stack@, command, old(self).max_history_size),
            final(self).redo_stack@ == Seq::<HistoryCommand<T>>::empty(),
            final(self).max_history_size == old(self).max_history_size,
    {
        self.undo_stack.push(command);
        self.redo_stack.clear();
        if self.undo_stack.len() > self.max_history_size {
            self.undo_stack.remove(0);
        }
    }

    /// Records that `object` was inserted at `index`.
    pub fn save_add_object(&mut self, index: usize, object: T)
        ensures
            final(self).undo_stack@ == pushed(
                old(self).undo_stack@,
                HistoryCommand::AddObject { index, object },
                old(self).max_history_size,
            ),
            final(self).redo_stack@ == Seq::<HistoryCommand<T>>::empty(),
            final(self).max_history_size == old(self).max_history_size,
    {
        self.push_command(HistoryCommand::AddObject { index, object });
    }

    /// Records that `object` was removed from `index`.
    pub fn save_remove_object(&mut self, index: usize, object: T)
        ensures
            final(self).undo_stack@ == pushed(
                old(self).undo_stack@,
                HistoryCommand::RemoveObject { index, object },
                old(self).max_history_size,
            ),
            final(self).redo_stack@ == Seq::<HistoryCommand<T>>::empty(),
            final(self).max_history_size == old(self).max_history_size,
    {
        self.push_command(HistoryCommand::RemoveObject { index, object });
    }

    /// Records that the canvas, which held `objects`, was cleared.
    pub fn save_clear_objects(&mut self, objects: Vec<T>)
        ensures
            final(self).undo_stack@ == pushed(
                old(self).undo_stack@,
                HistoryCommand::ClearObjects { objects },
                old(self).max_history_size,
            ),
            final(self).redo_stack@ == Seq::<HistoryCommand<T>>::empty(),
            final(self).max_history_size == old(self).max_history_size,
    {
        self.push_command(HistoryCommand::ClearObjects { objects });
    }

    /// Records that the object at `index` was moved.
    pub fn save_move_object(&mut self, index: usize, old_position: T::Offset, new_position: T::Offset)
        ensures
            final(self).undo_stack@ == pushed(
                old(self).undo_stack@,
                HistoryCommand::MoveObject { index, old_position, new_position },
                old(self).max_history_size,
            ),
            final(self).redo_stack@ == Seq::<HistoryCommand<T>>::empty(),
            final(self).max_history_size == old(self).max_history_size,
    {
        self.push_command(HistoryCommand::MoveObject { index, old_position, new_position });
    }

    /// Records that the object at `index` was resized or repositioned.
    pub fn save_transform_object(
        &mut self,
        index: usize,
        old_transform: T::Transform,
        new_transform: T::Transform,
    )
        ensures
            final(self).undo_stack@ == pushed(
                old(self).undo_stack@,
                HistoryCommand::TransformObject { index, old_transform, new_transform },
                old(self).max_history_size,
            ),
            final(self).redo_stack@ == Seq::<HistoryCommand<T>>::empty(),
            final(self).max_history_size == old(self).max_history_size,
    {
        self.push_command(HistoryCommand::TransformObject { index, old_transform, new_transform });
    }

    /// Records `commands` as one undo step; an empty list records nothing.
    pub fn save_batch(&mut self, commands: Vec<HistoryCommand<T>>)
        ensures
            commands@.len() == 0 ==> *final(self) == *old(self),
            commands@.len() > 0 ==> final(self).undo_stack@ == pushed(
                old(self).undo_stack@,
                HistoryCommand::BatchCommand { commands },
                old(self).max_history_size,
            ) && final(self).redo_stack@ == Seq::<HistoryCommand<T>>::empty(),
            final(self).max_history_size == old(self).max_history_size,
    {
        if !commands.is_empty() {
            self.push_command(HistoryCommand::BatchCommand { commands });
        }
    }

    /// Undoes the newest undo step on `current_state` and moves it onto the
    /// redo stack; returns whether there was one.
    pub fn undo(&mut self, current_state: &mut CanvasState<T>) -> (done: bool)
        ensures
            done == (old(self).undo_stack@.len() > 0),
            final(self).max_history_size == old(self).max_history_size,
            !done ==> final(self).undo_stack@ == old(self).undo_stack@
                && final(self).redo_stack@ == old(self).redo_stack@
                && final(current_state).objects@ == old(current_state).objects@,
            done ==> final(self).undo_stack@ == old(self).undo_stack@.drop_last()
                && final(self).redo_stack@ == old(self).redo_stack@.push(old(self).undo_stack@.last())
                && final(current_state).objects@.len() == reverse(
                old(self).undo_stack@.last(),
                old(current_state).objects@,
            ).len() && edits_in_place(
                old(self).undo_stack@.last(),
                old(current_state).objects@,
                final(current_state).objects@,
                false,
            ),
            done && clone_is_exact::<T>() && structural(old(self).undo_stack@.last())
                ==> final(current_state).objects@ == reverse(
                old(self).undo_stack@.last(),
                old(current_state).objects@,
            ),
            done ==> undone(old(self).undo_stack@.last(), old(current_state).objects@, final(current_state).objects@),
            done && structural(old(self).undo_stack@.last()) ==> cloned_all(
                reverse(old(self).undo_stack@.last(), old(current_state).objects@),
                final(current_state).objects@,
            ) && reverse_up_to_clones(
                old(self).undo_stack@.last(),
                old(current_state).objects@,
                final(current_state).objects@,
            ),
    {
        if let Some(command) = self.undo_stack.pop() {
            let ghost before = current_state.objects@;
            apply_reverse(&command, &mut current_state.objects);
            proof {
                assert(cloned_all(before, before));
            }
            self.redo_stack.push(command);
            true
        } else {
            false
        }
    }

    /// Reapplies the newest redo step on `current_state` and moves it back
    /// onto the undo stack; returns whether there was one.
    pub fn redo(&mut self, current_state: &mut CanvasState<T>) -> (done: bool)
        ensures
            done == (old(self).redo_stack@.len() > 0),
            final(self).max_history_size == old(self).max_history_size,
            !done ==> final(self).undo_stack@ == old(self).undo_stack@
                && final(self).redo_stack@ == old(self).redo_stack@
                && final(current_state).objects@ == old(current_state).objects@,
            done ==> final(self).redo_stack@ == old(self).redo_stack@.drop_last()
                && final(self).undo_stack@ == old(self).undo_stack@.push(old(self).redo_stack@.last())
                && final(current_state).objects@.len() == forward(
                old(self).redo_stack@.last(),
                old(current_state).objects@,
            ).len() && edits_in_place(
                old(self).redo_stack@.last(),
                old(current_state).objects@,
                final(current_state).objects@,
                true,
            ),
            done && clone_is_exact::<T>() && structural(old(self).redo_stack@.last())
                ==> final(current_state).objects@ == forward(
                old(self).redo_stack@.last(),
                old(current_state).objects@,
            ),
            done ==> redone(old(self).redo_stack@.last(), old(current_state).objects@, final(current_state).objects@),
            done && structural(old(self).redo_stack@.last()) ==> cloned_all(
                forward(old(self).redo_stack@.last(), old(current_state).objects@),
                final(current_state).objects@,
            ) && forward_up_to_clones(
                old(self).redo_stack@.last(),
                old(current_state).objects@,
                final(current_state).objects@,
            ),
    {
        if let Some(command) = self.redo_stack.pop() {
            let ghost before = current_state.objects@;
            apply_forward(&command, &mut current_state.objects);
            proof {
                assert(cloned_all(before, before));
            }
            self.undo_stack.push(command);
            true
        } else {
            false
        }
    }
}

impl<T: CanvasItem> Default for History<T> {
    /// An empty history that keeps fifty undo steps.
    fn default() -> (h: Self)
        ensures
            h.undo_stack@ == Seq::<HistoryCommand<T>>::empty(),
            h.redo_stack@ == Seq::<HistoryCommand<T>>::empty(),
            h.max_history_size == 50,
    {
        Self::new(50)
    }
}


/// `cmd` describes a change that was made to `s`: an added object went to a
/// place that existed, a removed object is the one found at its index, and a
/// cleared or replaced list is the list that was there.
pub open spec fn recorded<T: CanvasItem>(cmd: HistoryCommand<T>, s: Seq<T>) -> bool
    decreases cmd,
{
    match cmd {
        HistoryCommand::AddObject { index, object } => index <= s.len(),
        HistoryCommand::RemoveObject { index, object } => index < s.len() && s[index as int] == object,
        HistoryCommand::ClearObjects { objects } => objects@ == s,
        HistoryCommand::MoveObject { .. } => false,
        HistoryCommand::TransformObject { .. } => false,
        HistoryCommand::BatchCommand { commands } => recorded_all(commands@, s),
        HistoryCommand::ReplaceObjects { old, new } => old@ == s,
    }
}

/// Each command of `cs` was recorded on the list that the ones before it left.
pub open spec fn recorded_all<T: CanvasItem>(cs: Seq<HistoryCommand<T>>, s: Seq<T>) -> bool
    decreases cs,
{
    cs.len() == 0 || (recorded_all(cs.drop_last(), s) && recorded(
        cs.last(),
        forward_all(cs.drop_last(), s),
    ))
}

proof fn lemma_reverse_forward<T: CanvasItem>(cmd: HistoryCommand<T>, s: Seq<T>)
    requires
        recorded(cmd, s),
    ensures
        reverse(cmd, forward(cmd, s)) == s,
    decreases cmd,
{
    match cmd {
        HistoryCommand::AddObject { index, object } => {
            assert(s.insert(index as int, object).remove(index as int) =~= s);
        },
        HistoryCommand::RemoveObject { index, object } => {
            assert(s.remove(index as int).insert(index as int, object) =~= s);
        },
        HistoryCommand::BatchCommand { commands } => {
            lemma_reverse_forward_all(commands@, s);
        },
        _ => {},
    }
}

/// Undoing recorded commands newest first gives back the list they were
/// recorded on.
pub proof fn lemma_reverse_forward_all<T: CanvasItem>(cs: Seq<HistoryCommand<T>>, s: Seq<T>)
    requires
        recorded_all(cs, s),
    ensures
        reverse_all(cs, forward_all(cs, s)) == s,
    decreases cs,
{
    if cs.len() > 0 {
        let t = forward_all(cs.drop_last(), s);
        lemma_reverse_forward(cs.last(), t);
        lemma_reverse_forward_all(cs.drop_last(), s);
    }
}

/// Undo inverts a recorded change: undoing a command on the list it produced
/// gives back the list it was recorded on, and redoing it then gives back the
/// list it produced.
pub proof fn law_undo_inverts_change<T: CanvasItem>(cmd: HistoryCommand<T>, s: Seq<T>)
    requires
        recorded(cmd, s),
    ensures
        reverse(cmd, forward(cmd, s)) == s,
        forward(cmd, reverse(cmd, forward(cmd, s))) == forward(cmd, s),
{
    lemma_reverse_forward(cmd, s);
}

/// Undo followed by redo leaves the history and the canvas as they were:
/// the undone step returns from the redo stack to the top of the undo stack,
/// and the canvas goes back to the list that the step produced.
pub proof fn law_undo_then_redo<T: CanvasItem>(
    undo: Seq<HistoryCommand<T>>,
    redo: Seq<HistoryCommand<T>>,
    s: Seq<T>,
)
    requires
        undo.len() > 0,
        recorded(undo.last(), s),
    ensures
        reverse(undo.last(), forward(undo.last(), s)) == s,
        redo.push(undo.last()).last() == undo.last(),
        redo.push(undo.last()).drop_last() == redo,
        undo.drop_last().push(redo.push(undo.last()).last()) == undo,
        forward(undo.last(), reverse(undo.last(), forward(undo.last(), s))) == forward(undo.last(), s),
{
    lemma_reverse_forward(undo.last(), s);
    assert(redo.push(undo.last()).drop_last() =~= redo);
    assert(undo.drop_last().push(undo.last()) =~= undo);
}

/// Undo then redo gives the canvas back up to clones, whatever cloning
/// does: when undoing a recorded step on the list it produced gave `undone`
/// and redoing it there gave `redone` (as `undo` and `redo` state it), each
/// object of `undone` is a clone of the one in its place before the step,
/// and each object of `redone` a clone of the one in its place after it.
pub proof fn law_undo_redo_up_to_clones<T: CanvasItem>(
    cmd: HistoryCommand<T>,
    s: Seq<T>,
    undone: Seq<T>,
    redone: Seq<T>,
)
    requires
        recorded(cmd, s),
        reverse_up_to_clones(cmd, forward(cmd, s), undone),
        forward_up_to_clones(cmd, undone, redone),
    ensures
        cloned_all(s, undone),
        cloned_all(forward(cmd, s), redone),
{
    lemma_reverse_forward(cmd, s);
    let after = forward(cmd, s);
    assert forall|i: int| 0 <= i < after.len() implies #[trigger] cloned::<T>(after[i], after[i]) by {}
    assert(cloned_all(after, after));
    assert(cloned_all(reverse(cmd, after), undone));
    assert(cloned_all(forward(cmd, s), redone));
}

/// A step that was just recorded is the one that the next undo takes back,
/// as long as the limit keeps at least one step.
pub proof fn law_push_then_undo<T: CanvasItem>(
    stack: Seq<HistoryCommand<T>>,
    cmd: HistoryCommand<T>,
    max: usize,
    s: Seq<T>,
)
    requires
        max >= 1,
        recorded(cmd, s),
    ensures
        pushed(stack, cmd, max).len() > 0,
        pushed(stack, cmd, max).last() == cmd,
        reverse(pushed(stack, cmd, max).last(), forward(cmd, s)) == s,
{
    lemma_reverse_forward(cmd, s);
}

/// The undo stack never grows beyond its limit: pushing onto a stack within
/// the limit leaves one more step, or the limit's worth when it is full.
pub proof fn law_history_bounded<T: CanvasItem>(
    stack: Seq<HistoryCommand<T>>,
    cmd: HistoryCommand<T>,
    max: usize,
)
    requires
        stack.len() <= max,
    ensures
        pushed(stack, cmd, max).len() == (if stack.len() + 1 <= max {
            stack.len() + 1
        } else {
            max as nat
        }),
        pushed(stack, cmd, max).len() <= max,
{
}


/// Recording a step keeps the newest earlier steps: below the new step, the
/// result holds the last steps of the old stack in their order. Within the
/// limit nothing goes; on a full stack only the oldest step goes, and the
/// newest `max - 1` earlier steps stay.
pub proof fn law_push_keeps_newest_steps<T: CanvasItem>(
    stack: Seq<HistoryCommand<T>>,
    cmd: HistoryCommand<T>,
    max: usize,
)
    requires
        1 <= max,
        stack.len() <= max,
    ensures
        pushed(stack, cmd, max).last() == cmd,
        pushed(stack, cmd, max).drop_last() == stack.subrange(
            stack.len() - (pushed(stack, cmd, max).len() - 1),
            stack.len() as int,
        ),
        stack.len() < max ==> pushed(stack, cmd, max).drop_last() == stack,
        stack.len() == max ==> pushed(stack, cmd, max) == stack.subrange(stack.len() + 1 - max, stack.len() as int).push(
            cmd,
        ),
{
    let r = pushed(stack, cmd, max);
    if stack.len() + 1 > max {
        assert(r =~= stack.subrange(1, stack.len() as int).push(cmd));
        assert(r.drop_last() =~= stack.subrange(1, stack.len() as int));
    } else {
        assert(r.drop_last() =~= stack);
        assert(stack.subrange(0, stack.len() as int) =~= stack);
    }
}

/// A command as the undo stack of a saved file holds it: a batch becomes its
/// steps in their own order, so that undoing them one by one, newest first,
/// undoes them in the order that undoing the batch does.
pub open spec fn expand<T: CanvasItem>(cmd: HistoryCommand<T>) -> Seq<HistoryCommand<T>>
    decreases cmd,
{
    match cmd {
        HistoryCommand::BatchCommand { commands } => expand_all(commands@),
        _ => seq![cmd],
    }
}

pub open spec fn expand_all<T: CanvasItem>(cs: Seq<HistoryCommand<T>>) -> Seq<HistoryCommand<T>>
    decreases cs,
{
    if cs.len() == 0 {
        Seq::empty()
    } else {
        expand_all(cs.drop_last()) + expand(cs.last())
    }
}

/// A command as the redo stack of a saved file holds it: the steps of a batch,
/// nested batches included, in reverse, so that redoing them one by one,
/// newest first, applies them in the order that redoing the batch does.
pub open spec fn expand_redo<T: CanvasItem>(cmd: HistoryCommand<T>) -> Seq<HistoryCommand<T>> {
    expand(cmd).reverse()
}

pub open spec fn expand_redo_all<T: CanvasItem>(cs: Seq<HistoryCommand<T>>) -> Seq<HistoryCommand<T>>
    decreases cs,
{
    if cs.len() == 0 {
        Seq::empty()
    } else {
        expand_redo_all(cs.drop_last()) + expand_redo(cs.last())
    }
}

/// `refs` points, position by position, at the commands of `cmds`.
pub open spec fn refers_to<'a, T: CanvasItem>(
    refs: Seq<&'a HistoryCommand<T>>,
    cmds: Seq<HistoryCommand<T>>,
) -> bool {
    refs.len() == cmds.len() && forall|i: int| 0 <= i < refs.len() ==> *#[trigger] refs[i] == cmds[i]
}

proof fn lemma_refers_concat<'a, T: CanvasItem>(
    r1: Seq<&'a HistoryCommand<T>>,
    c1: Seq<HistoryCommand<T>>,
    r2: Seq<&'a HistoryCommand<T>>,
    c2: Seq<HistoryCommand<T>>,
)
    requires
        refers_to(r1, c1),
        refers_to(r2, c2),
    ensures
        refers_to(r1 + r2, c1 + c2),
{
    assert forall|i: int| 0 <= i < (r1 + r2).len() implies *#[trigger] (r1 + r2)[i] == (c1 + c2)[i] by {
        if i < r1.len() {
            assert(*r1[i] == c1[i]);
        } else {
            assert(*r2[i - r1.len()] == c2[i - r1.len()]);
        }
    }
}

/// Appends the references in `src` to `out`.
fn append_refs<'a, T: CanvasItem>(out: &mut Vec<&'a HistoryCommand<T>>, src: &Vec<&'a HistoryCommand<T>>)
    ensures
        final(out)@ == old(out)@ + src@,
{
    let n = src.len();
    let mut i: usize = 0;
    while i < n
        invariant
            n == src@.len(),
            0 <= i <= n,
            out@ == old(out)@ + src@.take(i as int),
        decreases n - i,
    {
        out.push(src[i]);
        i = i + 1;
        assert(src@.take(i as int) == src@.take(i - 1).push(src@[i - 1]));
    }
    assert(src@.take(n as int) == src@);
}

/// The references of `v` in reverse order.
fn reversed_refs<'a, T: CanvasItem>(v: &Vec<&'a HistoryCommand<T>>) -> (r: Vec<&'a HistoryCommand<T>>)
    ensures
        r@ == v@.reverse(),
{
    let n = v.len();
    let mut r: Vec<&'a HistoryCommand<T>> = Vec::new();
    let mut i: usize = n;
    while i > 0
        invariant
            n == v@.len(),
            0 <= i <= n,
            r@ == v@.skip(i as int).reverse(),
        decreases i,
    {
        i = i - 1;
        r.push(v[i]);
        assert(v@.skip(i as int).reverse() =~= v@.skip(i + 1).reverse().push(v@[i as int]));
    }
    assert(v@.skip(0) == v@);
    r
}

/// The steps that `cmd` stands for, nested batches expanded, in the order
/// they are applied.
fn command_leaves<'a, T: CanvasItem>(cmd: &'a HistoryCommand<T>) -> (r: Vec<&'a HistoryCommand<T>>)
    ensures
        refers_to(r@, expand(*cmd)),
    decreases cmd,
{
    match cmd {
        HistoryCommand::BatchCommand { commands } => {
            let n = commands.len();
            let mut inner: Vec<&'a HistoryCommand<T>> = Vec::new();
            let mut i: usize = 0;
            while i < n
                invariant
                    n == commands@.len(),
                    0 <= i <= n,
                    *cmd == (HistoryCommand::BatchCommand { commands: *commands }),
                    refers_to(inner@, expand_all(commands@.take(i as int))),
                decreases n - i,
            {
                proof {
                    let ghost c = *cmd;
                    assert(c is BatchCommand);
                    assert(decreases_to!(c => c->BatchCommand_commands));
                    assert(decreases_to!(c => c->BatchCommand_commands@));
                }
                let part = command_leaves(&commands[i]);
                let ghost before = inner@;
                append_refs(&mut inner, &part);
                proof {
                    let t = commands@.take(i + 1);
                    assert(t.drop_last() == commands@.take(i as int));
                    assert(t.last() == commands@[i as int]);
                    lemma_refers_concat(before, expand_all(commands@.take(i as int)), part@, expand(commands@[i as int]));
                }
                i = i + 1;
            }
            assert(commands@.take(n as int) == commands@);
            inner
        },
        _ => {
            let mut r: Vec<&'a HistoryCommand<T>> = Vec::new();
            r.push(cmd);
            r
        },
    }
}

/// The steps that `cmd` stands for in a saved undo stack (`for_redo` false):
/// its leaves in the order they are applied; or in a saved redo stack
/// (`for_redo` true): the same leaves in reverse.
pub fn flatten_command<'a, T: CanvasItem>(cmd: &'a HistoryCommand<T>, for_redo: bool) -> (r: Vec<
    &'a HistoryCommand<T>,
>)
    ensures
        !for_redo ==> refers_to(r@, expand(*cmd)),
        for_redo ==> refers_to(r@, expand_redo(*cmd)),
{
    let leaves = command_leaves(cmd);
    if for_redo {
        let r = reversed_refs(&leaves);
        proof {
            let e = expand(*cmd);
            assert forall|k: int| 0 <= k < r@.len() implies *#[trigger] r@[k] == e.reverse()[k] by {
                assert(r@[k] == leaves@[leaves@.len() - 1 - k]);
            }
        }
        r
    } else {
        leaves
    }
}

/// A saved form of a stack: every batch is replaced by its steps, as
/// `flatten_command` lists them.
fn flatten_stack<'a, T: CanvasItem>(stack: &'a Vec<HistoryCommand<T>>, for_redo: bool) -> (r: Vec<
    &'a HistoryCommand<T>,
>)
    ensures
        !for_redo ==> refers_to(r@, expand_all(stack@)),
        for_redo ==> refers_to(r@, expand_redo_all(stack@)),
{
    let n = stack.len();
    let mut out: Vec<&'a HistoryCommand<T>> = Vec::new();
    let mut i: usize = 0;
    while i < n
        invariant
            n == stack@.len(),
            0 <= i <= n,
            !for_redo ==> refers_to(out@, expand_all(stack@.take(i as int))),
            for_redo ==> refers_to(out@, expand_redo_all(stack@.take(i as int))),
        decreases n - i,
    {
        let part = flatten_command(&stack[i], for_redo);
        let ghost before = out@;
        append_refs(&mut out, &part);
        proof {
            let t = stack@.take(i + 1);
            assert(t.drop_last() == stack@.take(i as int));
            assert(t.last() == stack@[i as int]);
            if for_redo {
                lemma_refers_concat(before, expand_redo_all(stack@.take(i as int)), part@, expand_redo(stack@[i as int]));
            } else {
                lemma_refers_concat(before, expand_all(stack@.take(i as int)), part@, expand(stack@[i as int]));
            }
        }
        i = i + 1;
    }
    assert(stack@.take(n as int) == stack@);
    out
}

impl<T: CanvasItem> History<T> {
    /// The undo stack as a file stores it, with every batch expanded.
    pub fn flattened_undo_stack(&self) -> (r: Vec<&HistoryCommand<T>>)
        ensures
            refers_to(r@, expand_all(self.undo_stack@)),
    {
        flatten_stack(&self.undo_stack, false)
    }

    /// The redo stack as a file stores it, with every batch expanded in
    /// reverse.
    pub fn flattened_redo_stack(&self) -> (r: Vec<&HistoryCommand<T>>)
        ensures
            refers_to(r@, expand_redo_all(self.redo_stack@)),
    {
        flatten_stack(&self.redo_stack, true)
    }
}


/// Redoing every step of a redo stack, newest first, starting from `s`.
pub open spec fn redo_all<T: CanvasItem>(rs: Seq<HistoryCommand<T>>, s: Seq<T>) -> Seq<T>
    decreases rs,
{
    if rs.len() == 0 {
        s
    } else {
        redo_all(rs.drop_last(), forward(rs.last(), s))
    }
}

proof fn lemma_reverse_all_concat<T: CanvasItem>(a: Seq<HistoryCommand<T>>, b: Seq<HistoryCommand<T>>, s: Seq<T>)
    ensures
        reverse_all(a + b, s) == reverse_all(a, reverse_all(b, s)),
    decreases b.len(),
{
    if b.len() == 0 {
        assert(a + b =~= a);
    } else {
        assert((a + b).drop_last() =~= a + b.drop_last());
        assert((a + b).last() == b.last());
        lemma_reverse_all_concat(a, b.drop_last(), reverse(b.last(), s));
    }
}

proof fn lemma_redo_all_concat<T: CanvasItem>(a: Seq<HistoryCommand<T>>, b: Seq<HistoryCommand<T>>, s: Seq<T>)
    ensures
        redo_all(a + b, s) == redo_all(a, redo_all(b, s)),
    decreases b.len(),
{
    if b.len() == 0 {
        assert(a + b =~= a);
    } else {
        assert((a + b).drop_last() =~= a + b.drop_last());
        assert((a + b).last() == b.last());
        lemma_redo_all_concat(a, b.drop_last(), forward(b.last(), s));
    }
}

proof fn lemma_expand_undo<T: CanvasItem>(c: HistoryCommand<T>, s: Seq<T>)
    ensures
        reverse_all(expand(c), s) == reverse(c, s),
    decreases c,
{
    match c {
        HistoryCommand::BatchCommand { commands } => {
            lemma_expand_all_undo(commands@, s);
        },
        _ => {
            assert(seq![c].drop_last() =~= Seq::<HistoryCommand<T>>::empty());
            assert(reverse_all(seq![c], s) == reverse_all(seq![c].drop_last(), reverse(c, s)));
        },
    }
}

proof fn lemma_expand_all_undo<T: CanvasItem>(cs: Seq<HistoryCommand<T>>, s: Seq<T>)
    ensures
        reverse_all(expand_all(cs), s) == reverse_all(cs, s),
    decreases cs,
{
    if cs.len() > 0 {
        let p = cs.drop_last();
        let l = cs.last();
        lemma_reverse_all_concat(expand_all(p), expand(l), s);
        lemma_expand_undo(l, s);
        lemma_expand_all_undo(p, reverse(l, s));
    }
}

/// Saving flattens the undo stack without changing what undo does: undoing
/// every step of the flattened stack, newest first, gives the canvas that
/// undoing every step of the unflattened stack gives.
pub proof fn law_flattened_undo_stack<T: CanvasItem>(stack: Seq<HistoryCommand<T>>, s: Seq<T>)
    ensures
        reverse_all(expand_all(stack), s) == reverse_all(stack, s),
{
    lemma_expand_all_undo(stack, s);
}

proof fn lemma_redo_reversed<T: CanvasItem>(cs: Seq<HistoryCommand<T>>, s: Seq<T>)
    ensures
        redo_all(cs.reverse(), s) == forward_all(cs, s),
    decreases cs.len(),
{
    if cs.len() > 0 {
        let l = cs.last();
        let x = cs.drop_last().reverse();
        assert(cs.reverse() =~= seq![l] + x);
        lemma_redo_all_concat(seq![l], x, s);
        lemma_redo_reversed(cs.drop_last(), s);
        assert(seq![l].drop_last() =~= Seq::<HistoryCommand<T>>::empty());
        assert(redo_all(seq![l], redo_all(x, s)) == redo_all(
            seq![l].drop_last(),
            forward(l, redo_all(x, s)),
        ));
    }
}

proof fn lemma_expand_forward<T: CanvasItem>(c: HistoryCommand<T>, s: Seq<T>)
    ensures
        forward_all(expand(c), s) == forward(c, s),
    decreases c,
{
    match c {
        HistoryCommand::BatchCommand { commands } => {
            lemma_expand_all_forward(commands@, s);
        },
        _ => {
            assert(seq![c].drop_last() =~= Seq::<HistoryCommand<T>>::empty());
            assert(forward_all(seq![c], s) == forward(c, forward_all(seq![c].drop_last(), s)));
        },
    }
}

proof fn lemma_expand_all_forward<T: CanvasItem>(cs: Seq<HistoryCommand<T>>, s: Seq<T>)
    ensures
        forward_all(expand_all(cs), s) == forward_all(cs, s),
    decreases cs,
{
    if cs.len() > 0 {
        let p = cs.drop_last();
        let l = cs.last();
        lemma_forward_all_concat(expand_all(p), expand(l), s);
        lemma_expand_all_forward(p, s);
        lemma_expand_forward(l, forward_all(p, s));
    }
}

proof fn lemma_expand_redo_all<T: CanvasItem>(rs: Seq<HistoryCommand<T>>, s: Seq<T>)
    ensures
        redo_all(expand_redo_all(rs), s) == redo_all(rs, s),
    decreases rs.len(),
{
    if rs.len() > 0 {
        let p = rs.drop_last();
        let l = rs.last();
        lemma_redo_all_concat(expand_redo_all(p), expand_redo(l), s);
        lemma_redo_reversed(expand(l), s);
        lemma_expand_forward(l, s);
        lemma_expand_redo_all(p, forward(l, s));
    }
}

/// Saving flattens the redo stack without changing what redo does: redoing
/// every step of the flattened stack, newest first, gives the canvas that
/// redoing the unflattened stack gives, nested batches included.
pub proof fn law_flattened_redo_stack<T: CanvasItem>(stack: Seq<HistoryCommand<T>>, s: Seq<T>)
    ensures
        redo_all(expand_redo_all(stack), s) == redo_all(stack, s),
{
    lemma_expand_redo_all(stack, s);
}

} // verus!
