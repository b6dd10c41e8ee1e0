use uwu::app_state::{exit_confirmed_after, AppState, PointerInteraction, ToastLevel, EXIT_CONFIRM_TIMEOUT_MILLIS};
use uwu::history::{CanvasItem, CanvasState, HistoryCommand};
use uwu::pages::PageAction;
use uwu::state::{CanvasShapeType, CanvasTool};

#[derive(Debug, Clone, PartialEq)]
struct Shape {
    shape_type: CanvasShapeType,
    pos: (f32, f32),
    size: f32,
    color: [u8; 4],
}

impl CanvasItem for Shape {
    type Offset = (f32, f32);
    type Transform = ((f32, f32), (f32, f32));

    fn shifted(&self, delta: &(f32, f32)) -> Shape {
        let mut copy = self.clone();
        copy.pos.0 += delta.0;
        copy.pos.1 += delta.1;
        copy
    }

    fn transformed(&self, transform: &((f32, f32), (f32, f32))) -> Shape {
        let mut copy = self.clone();
        copy.pos = transform.0;
        copy.size = transform.1 .0;
        copy
    }
}

fn create_dummy_object() -> Shape {
    Shape {
        shape_type: CanvasShapeType::Circle,
        pos: (0.0, 0.0),
        size: 10.0,
        color: [255, 255, 255, 255],
    }
}

fn shape(shape_type: CanvasShapeType) -> Shape {
    Shape {
        shape_type,
        pos: (0.0, 0.0),
        size: 10.0,
        color: [255, 255, 255, 255],
    }
}

#[test]
fn test_pixel_erasing_finish_records_single_replace_command() {
    let mut state: AppState<Shape> = AppState::default();
    let original = CanvasState {
        objects: vec![create_dummy_object(), create_dummy_object()],
    };
    state.canvas = CanvasState {
        objects: original.objects.clone(),
    };
    state.pointers.insert(
        42,
        PointerInteraction::Erasing {
            original_objects: original.objects.clone(),
            modified: true,
        },
    );

    // Simulate the eraser shrinking the object list during the gesture.
    state.canvas.objects.pop();

    state.finish_pixel_erasing(42);

    // Exactly one command, covering the whole gesture.
    assert_eq!(state.history.undo_stack.len(), 1);
    assert!(state.pointers.is_empty());

    // Undo restores the pre-gesture snapshot; redo reapplies the result.
    assert!(state.history.undo(&mut state.canvas));
    assert_eq!(state.canvas.objects.len(), original.objects.len());
    assert!(state.history.redo(&mut state.canvas));
    assert_eq!(state.canvas.objects.len(), original.objects.len() - 1);
}

#[test]
fn test_pixel_erasing_unmodified_records_nothing() {
    let mut state: AppState<Shape> = AppState::default();
    state.canvas.objects.push(shape(CanvasShapeType::Line));
    state.pointers.insert(
        7,
        PointerInteraction::Erasing {
            original_objects: vec![shape(CanvasShapeType::Line)],
            modified: false,
        },
    );
    state.pointers.insert(8, PointerInteraction::Other);
    state.finish_pixel_erasing(7);
    assert!(state.history.undo_stack.is_empty());
    assert_eq!(state.pointers.len(), 1);
    assert!(state.pointers.contains_key(&8));
}

#[test]
fn test_pixel_erasing_other_pointer_records_nothing() {
    let mut state: AppState<Shape> = AppState::default();
    state.pointers.insert(3, PointerInteraction::Other);
    state.finish_pixel_erasing(3);
    assert!(state.history.undo_stack.is_empty());
    assert!(state.pointers.is_empty());

    // An unknown pointer changes nothing.
    state.finish_pixel_erasing(99);
    assert!(state.history.undo_stack.is_empty());
}

#[test]
fn test_pixel_erasing_step_replaces_exactly() {
    let mut state: AppState<Shape> = AppState::default();
    let before = vec![shape(CanvasShapeType::Line), shape(CanvasShapeType::Arrow)];
    state.canvas.objects = vec![shape(CanvasShapeType::Arrow)];
    state.pointers.insert(
        1,
        PointerInteraction::Erasing {
            original_objects: before.clone(),
            modified: true,
        },
    );
    state.history.redo_stack.push(HistoryCommand::AddObject {
        index: 0,
        object: shape(CanvasShapeType::Circle),
    });
    state.finish_pixel_erasing(1);
    assert!(state.history.redo_stack.is_empty());
    match &state.history.undo_stack[0] {
        HistoryCommand::ReplaceObjects { old, new } => {
            assert_eq!(old, &before);
            assert_eq!(new, &vec![shape(CanvasShapeType::Arrow)]);
        }
        _ => panic!("expected a replace command"),
    }
    assert!(state.history.undo(&mut state.canvas));
    assert_eq!(state.canvas.objects, before);
}

#[test]
fn test_request_exit_requires_second_request_within_timeout() {
    let mut state: AppState<Shape> = AppState::default();

    // First request only arms the confirmation.
    assert!(!state.request_exit("再次按 Esc 确认退出"));
    assert!(state.exit_confirm_armed_at.is_some());

    // A second request inside the timeout window confirms the exit.
    assert!(state.request_exit("再次按 Esc 确认退出"));
    assert!(state.exit_confirm_armed_at.is_none());
}

#[test]
fn test_request_exit_queues_toast_once() {
    let mut state: AppState<Shape> = AppState::default();
    assert!(!state.request_exit("press again"));
    assert_eq!(state.toasts.len(), 1);
    assert_eq!(state.toasts[0].text, "press again");
    assert_eq!(state.toasts[0].level, ToastLevel::Info);
    assert!(state.request_exit("press again"));
    assert_eq!(state.toasts.len(), 1);
    // After a confirmed exit the next request arms again.
    assert!(!state.request_exit("again"));
    assert_eq!(state.toasts.len(), 2);
    assert_eq!(state.toasts[1].text, "again");
}

#[test]
fn test_exit_confirmed_after_timeout_boundary() {
    assert_eq!(EXIT_CONFIRM_TIMEOUT_MILLIS, 3000);
    assert!(exit_confirmed_after(0));
    assert!(exit_confirmed_after(2999));
    assert!(!exit_confirmed_after(3000));
    assert!(!exit_confirmed_after(10_000));
}

#[test]
fn test_selection_toggle_and_clear() {
    let mut state: AppState<Shape> = AppState::default();
    assert!(!state.is_selected(2));
    state.toggle_selection(2);
    state.toggle_selection(5);
    state.toggle_selection(1);
    assert_eq!(state.selected_object_indices, vec![2, 5, 1]);
    assert!(state.is_selected(5));
    state.toggle_selection(5);
    assert_eq!(state.selected_object_indices, vec![2, 1]);
    assert!(!state.is_selected(5));
    state.clear_selection();
    assert!(state.selected_object_indices.is_empty());
}

#[test]
fn test_toggle_twice_restores_selection() {
    let mut state: AppState<Shape> = AppState::default();
    state.selected_object_indices = vec![4, 0];
    state.toggle_selection(9);
    state.toggle_selection(9);
    assert_eq!(state.selected_object_indices, vec![4, 0]);
}

#[test]
fn test_toggle_removes_every_copy() {
    let mut state: AppState<Shape> = AppState::default();
    state.selected_object_indices = vec![3, 1, 3, 2];
    state.toggle_selection(3);
    assert_eq!(state.selected_object_indices, vec![1, 2]);
}

#[test]
fn test_clear_interaction_state() {
    let mut state: AppState<Shape> = AppState::default();
    state.selected_object_indices = vec![1, 2];
    state.pointers.insert(0, PointerInteraction::Other);
    state.shapes_inserted_count = 4;
    state.selected_shape_type = Some(CanvasShapeType::Triangle);
    state.canvas.objects.push(create_dummy_object());
    state.clear_interaction_state();
    assert!(state.selected_object_indices.is_empty());
    assert!(state.pointers.is_empty());
    assert_eq!(state.shapes_inserted_count, 0);
    assert_eq!(state.selected_shape_type, None);
    assert_eq!(state.canvas.objects.len(), 1);
}

#[test]
fn test_app_state_default() {
    let state: AppState<Shape> = AppState::default();
    assert!(state.canvas.objects.is_empty());
    assert_eq!(state.history.max_history_size, 50);
    assert!(state.pointers.is_empty());
    assert!(state.exit_confirm_armed_at.is_none());
    assert!(state.toasts.is_empty());
}

#[test]
fn test_toolbar_undo_redo_report() {
    let mut state: AppState<Shape> = AppState::default();
    state.selected_object_indices = vec![0];
    assert!(!state.undo_from_toolbar());
    assert!(state.selected_object_indices.is_empty());
    assert_eq!(state.toasts[0].level, ToastLevel::Error);
    assert_eq!(state.toasts[0].text, "无法撤销，没有更多历史记录!");

    state.canvas.objects.push(shape(CanvasShapeType::Line));
    state.history.save_add_object(0, shape(CanvasShapeType::Line));
    state.selected_object_indices = vec![0];
    assert!(state.undo_from_toolbar());
    assert!(state.canvas.objects.is_empty());
    assert!(state.selected_object_indices.is_empty());
    assert_eq!(state.toasts[1].level, ToastLevel::Success);
    assert_eq!(state.toasts[1].text, "成功撤销操作!");

    assert!(state.redo_from_toolbar());
    assert_eq!(state.canvas.objects, vec![shape(CanvasShapeType::Line)]);
    assert_eq!(state.toasts[2].text, "成功重做操作!");
    assert!(!state.redo_from_toolbar());
    assert_eq!(state.toasts[3].level, ToastLevel::Error);
    assert_eq!(state.toasts[3].text, "无法重做，没有更多历史记录!");
}

fn abcd() -> Vec<Shape> {
    vec![
        shape(CanvasShapeType::Line),
        shape(CanvasShapeType::Arrow),
        shape(CanvasShapeType::Rectangle),
        shape(CanvasShapeType::Triangle),
    ]
}

#[test]
fn test_delete_selected_objects_is_one_undo_step() {
    let mut state: AppState<Shape> = AppState::default();
    state.canvas.objects = abcd();
    state.selected_object_indices = vec![3, 1];
    state.delete_selected_objects();
    assert_eq!(
        state.canvas.objects,
        vec![shape(CanvasShapeType::Line), shape(CanvasShapeType::Rectangle)]
    );
    assert!(state.selected_object_indices.is_empty());
    assert_eq!(state.history.undo_stack.len(), 1);
    assert_eq!(state.toasts[0].text, "对象已删除!");
    match &state.history.undo_stack[0] {
        HistoryCommand::BatchCommand { commands } => {
            assert!(matches!(commands[0], HistoryCommand::RemoveObject { index: 3, .. }));
            assert!(matches!(commands[1], HistoryCommand::RemoveObject { index: 1, .. }));
        }
        _ => panic!("expected a batch"),
    }
    assert!(state.history.undo(&mut state.canvas));
    assert_eq!(state.canvas.objects, abcd());
    assert!(state.history.redo(&mut state.canvas));
    assert_eq!(state.canvas.objects.len(), 2);
}

#[test]
fn test_delete_out_of_range_selection_records_nothing() {
    let mut state: AppState<Shape> = AppState::default();
    state.canvas.objects = abcd();
    state.selected_object_indices = vec![7];
    state.delete_selected_objects();
    assert_eq!(state.canvas.objects, abcd());
    assert!(state.history.undo_stack.is_empty());
}

#[test]
fn test_bring_selected_to_front() {
    let mut state: AppState<Shape> = AppState::default();
    state.canvas.objects = abcd();
    state.selected_object_indices = vec![1, 0];
    state.bring_selected_to_front();
    assert_eq!(
        state.canvas.objects,
        vec![
            shape(CanvasShapeType::Rectangle),
            shape(CanvasShapeType::Triangle),
            shape(CanvasShapeType::Line),
            shape(CanvasShapeType::Arrow),
        ]
    );
    assert_eq!(state.selected_object_indices, vec![2, 3]);
    assert_eq!(state.toasts[0].text, "对象已移至顶部!");
    assert!(state.history.undo(&mut state.canvas));
    assert_eq!(state.canvas.objects, abcd());
    assert!(state.history.redo(&mut state.canvas));
    assert_eq!(state.canvas.objects[2], shape(CanvasShapeType::Line));
    assert_eq!(state.canvas.objects[3], shape(CanvasShapeType::Arrow));
}

#[test]
fn test_send_selected_to_back_keeps_order() {
    let mut state: AppState<Shape> = AppState::default();
    state.canvas.objects = abcd();
    state.selected_object_indices = vec![3, 2];
    state.send_selected_to_back();
    assert_eq!(
        state.canvas.objects,
        vec![
            shape(CanvasShapeType::Rectangle),
            shape(CanvasShapeType::Triangle),
            shape(CanvasShapeType::Line),
            shape(CanvasShapeType::Arrow),
        ]
    );
    assert_eq!(state.selected_object_indices, vec![0, 1]);
    assert_eq!(state.toasts[0].text, "对象已移至底部!");
    assert!(state.history.undo(&mut state.canvas));
    assert_eq!(state.canvas.objects, abcd());
    assert!(state.history.redo(&mut state.canvas));
    assert_eq!(state.canvas.objects[0], shape(CanvasShapeType::Rectangle));
    assert_eq!(state.canvas.objects[1], shape(CanvasShapeType::Triangle));
}

#[test]
fn test_move_with_empty_selection_records_nothing() {
    let mut state: AppState<Shape> = AppState::default();
    state.canvas.objects = abcd();
    state.bring_selected_to_front();
    state.send_selected_to_back();
    assert_eq!(state.canvas.objects, abcd());
    assert!(state.history.undo_stack.is_empty());
    assert_eq!(state.toasts.len(), 2);
}

#[test]
fn test_duplicate_selected_objects() {
    let mut state: AppState<Shape> = AppState::default();
    state.canvas.objects = abcd();
    state.selected_object_indices = vec![2, 0, 9];
    state.duplicate_selected_objects(&(20.0, 20.0));
    assert_eq!(state.canvas.objects.len(), 6);
    assert_eq!(&state.canvas.objects[..4], &abcd()[..]);
    let mut expected = shape(CanvasShapeType::Rectangle);
    expected.pos = (20.0, 20.0);
    assert_eq!(state.canvas.objects[4], expected);
    assert_eq!(state.canvas.objects[5].shape_type, CanvasShapeType::Line);
    assert_eq!(state.canvas.objects[5].pos, (20.0, 20.0));
    assert_eq!(state.selected_object_indices, vec![4, 5]);
    // Each copy is its own undo step.
    assert_eq!(state.history.undo_stack.len(), 2);
    assert!(matches!(state.history.undo_stack[0], HistoryCommand::AddObject { index: 4, .. }));
    assert!(matches!(state.history.undo_stack[1], HistoryCommand::AddObject { index: 5, .. }));
    assert_eq!(state.toasts[0].text, "对象已复制!");
    assert!(state.history.undo(&mut state.canvas));
    assert_eq!(state.canvas.objects.len(), 5);
}

#[test]
fn test_duplicate_reaches_copies_made_on_the_way() {
    let mut state: AppState<Shape> = AppState::default();
    state.canvas.objects = vec![shape(CanvasShapeType::Circle)];
    // Index 1 is outside the canvas until index 0 has been copied.
    state.selected_object_indices = vec![0, 1];
    state.duplicate_selected_objects(&(1.0, 0.0));
    assert_eq!(state.canvas.objects.len(), 3);
    assert_eq!(state.canvas.objects[2].pos, (2.0, 0.0));
    assert_eq!(state.selected_object_indices, vec![1, 2]);
}

#[test]
fn test_clear_canvas_is_undoable() {
    let mut state: AppState<Shape> = AppState::default();
    state.canvas.objects = abcd();
    state.selected_object_indices = vec![1];
    state.pointers.insert(5, PointerInteraction::Other);
    state.current_tool = CanvasTool::Select;
    state.clear_canvas();
    assert!(state.canvas.objects.is_empty());
    assert!(state.pointers.is_empty());
    assert!(state.selected_object_indices.is_empty());
    assert_eq!(state.current_tool, CanvasTool::Brush);
    assert!(state.history.undo(&mut state.canvas));
    assert_eq!(state.canvas.objects, abcd());
    assert!(state.history.redo(&mut state.canvas));
    assert!(state.canvas.objects.is_empty());
}

#[test]
fn test_insert_object_on_top_and_count() {
    let mut state: AppState<Shape> = AppState::default();
    state.canvas.objects = abcd();
    state.current_tool = CanvasTool::Insert;
    state.insert_object_on_top(shape(CanvasShapeType::Circle));
    assert_eq!(state.canvas.objects.len(), 5);
    assert_eq!(state.canvas.objects[4], shape(CanvasShapeType::Circle));
    assert!(matches!(state.history.undo_stack[0], HistoryCommand::AddObject { index: 4, .. }));
    state.count_inserted_shape(true);
    assert_eq!(state.shapes_inserted_count, 1);
    assert_eq!(state.current_tool, CanvasTool::Insert);
    state.count_inserted_shape(false);
    assert_eq!(state.shapes_inserted_count, 2);
    assert_eq!(state.current_tool, CanvasTool::Brush);
    assert!(state.history.undo(&mut state.canvas));
    assert_eq!(state.canvas.objects, abcd());
}

#[test]
fn test_erase_objects_records_one_step_per_object() {
    let mut state: AppState<Shape> = AppState::default();
    state.canvas.objects = abcd();
    // The hit test lists the touched objects from the top down.
    state.erase_objects(&vec![3, 1]);
    assert_eq!(
        state.canvas.objects,
        vec![shape(CanvasShapeType::Line), shape(CanvasShapeType::Rectangle)]
    );
    assert_eq!(state.history.undo_stack.len(), 2);
    match (&state.history.undo_stack[0], &state.history.undo_stack[1]) {
        (
            HistoryCommand::RemoveObject { index: 3, object: first },
            HistoryCommand::RemoveObject { index: 1, object: second },
        ) => {
            assert_eq!(*first, shape(CanvasShapeType::Triangle));
            assert_eq!(*second, shape(CanvasShapeType::Arrow));
        }
        _ => panic!("expected two removals"),
    }
    assert!(state.history.undo(&mut state.canvas));
    assert_eq!(state.canvas.objects.len(), 3);
    assert_eq!(state.canvas.objects[1], shape(CanvasShapeType::Arrow));
    assert!(state.history.undo(&mut state.canvas));
    assert_eq!(state.canvas.objects, abcd());
}

#[test]
fn test_erase_objects_order_and_misses() {
    let mut state: AppState<Shape> = AppState::default();
    state.canvas.objects = abcd();
    // Any order, and indices past the end are skipped; highest first.
    state.erase_objects(&vec![0, 2, 7]);
    assert_eq!(
        state.canvas.objects,
        vec![shape(CanvasShapeType::Arrow), shape(CanvasShapeType::Triangle)]
    );
    assert_eq!(state.history.undo_stack.len(), 2);
    assert!(matches!(state.history.undo_stack[0], HistoryCommand::RemoveObject { index: 2, .. }));
    assert!(matches!(state.history.undo_stack[1], HistoryCommand::RemoveObject { index: 0, .. }));

    let mut untouched: AppState<Shape> = AppState::default();
    untouched.canvas.objects = abcd();
    untouched.history.save_add_object(0, shape(CanvasShapeType::Line));
    assert!(untouched.history.undo(&mut untouched.canvas));
    untouched.canvas.objects = abcd();
    untouched.erase_objects(&vec![]);
    assert_eq!(untouched.canvas.objects, abcd());
    assert_eq!(untouched.history.redo_stack.len(), 1);
}

#[test]
fn test_switch_page_resets_interaction() {
    let mut state: AppState<Shape> = AppState::default();
    assert_eq!(state.pages.len(), 1);
    assert_eq!(state.current_page, 0);
    state.canvas.objects = abcd();
    state.add_new_page_state();
    assert_eq!(state.current_page, 1);
    assert!(state.canvas.objects.is_empty());
    state.canvas.objects = vec![shape(CanvasShapeType::Circle)];
    state.selected_object_indices = vec![0];
    state.pointers.insert(3, PointerInteraction::Other);
    state.shapes_inserted_count = 4;
    state.selected_shape_type = Some(CanvasShapeType::Circle);
    state.current_tool = CanvasTool::ObjectEraser;

    state.switch_to_page_state(0);
    assert_eq!(state.current_page, 0);
    assert_eq!(state.canvas.objects, abcd());
    assert!(state.selected_object_indices.is_empty());
    assert!(state.pointers.is_empty());
    assert_eq!(state.shapes_inserted_count, 0);
    assert!(state.selected_shape_type.is_none());
    assert_eq!(state.current_tool, CanvasTool::ObjectEraser);

    // Switching back gives the other page back as it was left.
    state.switch_to_page_state(1);
    assert_eq!(state.canvas.objects, vec![shape(CanvasShapeType::Circle)]);
    assert_eq!(state.pages.len(), 2);
}

#[test]
fn test_app_page_actions() {
    let mut state: AppState<Shape> = AppState::default();
    state.selected_object_indices = vec![1];
    state.apply_page_action(PageAction::Previous);
    // Nothing to go back to: nothing changes, the selection stays.
    assert_eq!(state.selected_object_indices, vec![1]);
    state.apply_page_action(PageAction::New);
    assert_eq!(state.current_page, 1);
    assert!(state.selected_object_indices.is_empty());
    state.apply_page_action(PageAction::Next);
    assert_eq!(state.current_page, 1);
    state.apply_page_action(PageAction::Previous);
    assert_eq!(state.current_page, 0);
}

#[test]
fn test_app_reorder_and_remove_pages() {
    let mut state: AppState<Shape> = AppState::default();
    state.canvas.objects = vec![shape(CanvasShapeType::Line)];
    state.add_new_page_state();
    state.canvas.objects = vec![shape(CanvasShapeType::Arrow)];
    state.add_new_page_state();
    state.canvas.objects = vec![shape(CanvasShapeType::Rectangle)];
    // Edited page 2 is dragged before row 0.
    state.reorder_pages(2, 0);
    assert_eq!(state.current_page, 0);
    assert_eq!(state.canvas.objects, vec![shape(CanvasShapeType::Rectangle)]);
    // Page 0 (the edited one) dropped at the end.
    state.reorder_pages(0, usize::MAX);
    assert_eq!(state.current_page, 2);
    state.selected_object_indices = vec![0];
    state.remove_pages(&vec![2]);
    assert_eq!(state.pages.len(), 2);
    assert_eq!(state.current_page, 1);
    assert_eq!(state.canvas.objects, vec![shape(CanvasShapeType::Arrow)]);
    assert!(state.selected_object_indices.is_empty());
}

#[test]
fn test_switch_away_and_back_restores_page_slots() {
    let mut state: AppState<Shape> = AppState::default();
    state.canvas.objects = abcd();
    state.add_new_page_state();
    state.canvas.objects = vec![shape(CanvasShapeType::Circle)];
    state.history.save_add_object(0, shape(CanvasShapeType::Circle));
    let slots_before: Vec<Vec<Shape>> = state.pages.iter().map(|p| p.canvas.objects.clone()).collect();
    state.switch_to_page_state(0);
    assert_eq!(state.pages[0].canvas.objects, Vec::<Shape>::new());
    assert_eq!(state.pages[1].canvas.objects, vec![shape(CanvasShapeType::Circle)]);
    state.switch_to_page_state(1);
    let slots_after: Vec<Vec<Shape>> = state.pages.iter().map(|p| p.canvas.objects.clone()).collect();
    assert_eq!(slots_after, slots_before);
    assert_eq!(state.current_page, 1);
    assert_eq!(state.canvas.objects, vec![shape(CanvasShapeType::Circle)]);
    assert_eq!(state.history.undo_stack.len(), 1);
}

#[test]
fn test_undo_redo_batch_of_moves() {
    let mut state: AppState<Shape> = AppState::default();
    state.canvas.objects = vec![shape(CanvasShapeType::Line), shape(CanvasShapeType::Circle)];
    // A drag of the selection: every moved object is shifted, then the moves are recorded as one step.
    for i in 0..2 {
        state.canvas.objects[i] = state.canvas.objects[i].shifted(&(3.0, 4.0));
    }
    state.history.save_batch(vec![
        HistoryCommand::MoveObject { index: 0, old_position: (-3.0, -4.0), new_position: (3.0, 4.0) },
        HistoryCommand::MoveObject { index: 1, old_position: (-3.0, -4.0), new_position: (3.0, 4.0) },
    ]);
    assert!(state.undo_from_toolbar());
    assert_eq!(state.canvas.objects[0].pos, (0.0, 0.0));
    assert_eq!(state.canvas.objects[1].pos, (0.0, 0.0));
    assert_eq!(state.canvas.objects[1].shape_type, CanvasShapeType::Circle);
    assert!(state.redo_from_toolbar());
    assert_eq!(state.canvas.objects[0].pos, (3.0, 4.0));
    assert_eq!(state.canvas.objects[1].pos, (3.0, 4.0));
}
