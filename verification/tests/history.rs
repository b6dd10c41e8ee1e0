use uwu::app_state::AppState;
use uwu::history::{CanvasItem, CanvasState, History, HistoryCommand};
use uwu::state::CanvasShapeType;

#[derive(Debug, Clone, PartialEq)]
struct Shape {
    shape_type: CanvasShapeType,
    pos: (f32, f32),
    size: f32,
    color: [u8; 4],
}

impl CanvasItem for Shape {
    type Offset = (f32, f32);
    type Transform = ((f32, f32), (f32, f32));

    fn shifted(&self, delta: &(f32, f32)) -> Shape {
        let mut copy = self.clone();
        copy.pos.0 += delta.0;
        copy.pos.1 += delta.1;
        copy
    }

    fn transformed(&self, transform: &((f32, f32), (f32, f32))) -> Shape {
        let mut copy = self.clone();
        copy.pos = transform.0;
        copy.size = transform.1 .0;
        copy
    }
}

fn create_dummy_object() -> Shape {
    Shape {
        shape_type: CanvasShapeType::Circle,
        pos: (0.0, 0.0),
        size: 10.0,
        color: [255, 255, 255, 255],
    }
}

fn shape(shape_type: CanvasShapeType) -> Shape {
    Shape {
        shape_type,
        pos: (0.0, 0.0),
        size: 10.0,
        color: [255, 255, 255, 255],
    }
}

fn obj_debug(list: &[Shape]) -> Vec<String> {
    list.iter().map(|o| format!("{o:?}")).collect()
}

#[test]
fn test_history_undo_redo() {
    let mut history = History::new(10);
    let mut state = CanvasState::new();

    let obj = create_dummy_object();

    state.objects.push(obj.clone());
    history.save_add_object(0, obj.clone());

    assert_eq!(state.objects.len(), 1);
    assert_eq!(history.undo_stack.len(), 1);
    assert_eq!(history.redo_stack.len(), 0);

    let undo_success = history.undo(&mut state);
    assert!(undo_success);
    assert_eq!(state.objects.len(), 0);
    assert_eq!(history.undo_stack.len(), 0);
    assert_eq!(history.redo_stack.len(), 1);

    let redo_success = history.redo(&mut state);
    assert!(redo_success);
    assert_eq!(state.objects.len(), 1);
    assert_eq!(history.undo_stack.len(), 1);
    assert_eq!(history.redo_stack.len(), 0);
}

#[test]
fn test_history_limit() {
    let mut history = History::new(2);

    for i in 0..5 {
        history.save_add_object(i, create_dummy_object());
    }

    assert_eq!(history.undo_stack.len(), 2);
}

#[test]
fn test_bring_to_front_batch_undo_redo() {
    let objs = ["A", "B", "C", "D"]
        .into_iter()
        .map(|_| create_dummy_object())
        .collect::<Vec<_>>();
    let mut state = CanvasState { objects: objs.clone() };
    let mut history = History::new(10);

    let mut indices = [0usize, 1];
    indices.sort_unstable();
    let mut moved = Vec::new();
    let mut commands = Vec::new();
    for &idx in indices.iter().rev() {
        let obj = state.objects.remove(idx);
        commands.push(HistoryCommand::RemoveObject {
            index: idx,
            object: obj.clone(),
        });
        moved.push(obj);
    }
    moved.reverse();
    for obj in moved {
        let new_idx = state.objects.len();
        state.objects.push(obj.clone());
        commands.push(HistoryCommand::AddObject {
            index: new_idx,
            object: obj,
        });
    }
    history.save_batch(commands);

    assert!(history.undo(&mut state));
    assert_eq!(state.objects.len(), objs.len());
    assert_eq!(obj_debug(&state.objects), obj_debug(&objs));

    assert!(history.redo(&mut state));
    assert_eq!(state.objects.len(), objs.len());
    assert_eq!(obj_debug(&state.objects[2..3]), obj_debug(&objs[0..1]));
    assert_eq!(obj_debug(&state.objects[3..4]), obj_debug(&objs[1..2]));
}

#[test]
fn test_bring_to_back_batch_undo_redo() {
    let objs = ["A", "B", "C", "D"]
        .into_iter()
        .map(|_| create_dummy_object())
        .collect::<Vec<_>>();
    let mut state = CanvasState { objects: objs.clone() };
    let mut history = History::new(10);

    let mut indices = [2usize, 3];
    indices.sort_unstable();
    let mut moved = Vec::new();
    let mut commands = Vec::new();
    for &idx in indices.iter().rev() {
        let obj = state.objects.remove(idx);
        commands.push(HistoryCommand::RemoveObject {
            index: idx,
            object: obj.clone(),
        });
        moved.push((idx, obj));
    }
    moved.reverse();
    for (_, obj) in &moved {
        state.objects.insert(0, obj.clone());
        commands.push(HistoryCommand::AddObject {
            index: 0,
            object: obj.clone(),
        });
    }
    history.save_batch(commands);

    assert_eq!(state.objects.len(), objs.len());
    assert_eq!(obj_debug(&state.objects[0..1]), obj_debug(&objs[2..3]));
    assert_eq!(obj_debug(&state.objects[1..2]), obj_debug(&objs[3..4]));

    assert!(history.undo(&mut state));
    assert_eq!(obj_debug(&state.objects), obj_debug(&objs));

    assert!(history.redo(&mut state));
    assert_eq!(obj_debug(&state.objects[0..1]), obj_debug(&objs[2..3]));
    assert_eq!(obj_debug(&state.objects[1..2]), obj_debug(&objs[3..4]));
}

#[test]
fn test_app_flow_history() {
    let mut app_state: AppState<Shape> = AppState::default();

    // Verify initial state
    assert_eq!(app_state.canvas.objects.len(), 0);

    // Simulate drawing a shape
    let dummy_shape = Shape {
        shape_type: CanvasShapeType::Rectangle,
        pos: (10.0, 10.0),
        size: 50.0,
        color: [255, 0, 0, 255],
    };

    app_state.canvas.objects.push(dummy_shape.clone());
    app_state.history.save_add_object(0, dummy_shape);

    assert_eq!(app_state.canvas.objects.len(), 1);

    // Perform an undo
    let success = app_state.history.undo(&mut app_state.canvas);
    assert!(success);
    assert_eq!(app_state.canvas.objects.len(), 0);

    // Perform a redo
    let success = app_state.history.redo(&mut app_state.canvas);
    assert!(success);
    assert_eq!(app_state.canvas.objects.len(), 1);
}

#[test]
fn test_batch_and_replace_history_round_trip() {
    let obj = shape;
    let history = History {
        undo_stack: vec![
            HistoryCommand::BatchCommand {
                commands: vec![
                    HistoryCommand::RemoveObject {
                        index: 2,
                        object: obj(CanvasShapeType::Circle),
                    },
                    HistoryCommand::AddObject {
                        index: 3,
                        object: obj(CanvasShapeType::Triangle),
                    },
                ],
            },
            HistoryCommand::ReplaceObjects {
                old: vec![obj(CanvasShapeType::Line)],
                new: vec![obj(CanvasShapeType::Arrow), obj(CanvasShapeType::Circle)],
            },
        ],
        redo_stack: vec![HistoryCommand::BatchCommand {
            commands: vec![
                HistoryCommand::RemoveObject {
                    index: 2,
                    object: obj(CanvasShapeType::Circle),
                },
                HistoryCommand::AddObject {
                    index: 3,
                    object: obj(CanvasShapeType::Triangle),
                },
            ],
        }],
        max_history_size: 50,
    };

    let undo = history.flattened_undo_stack();
    let redo = history.flattened_redo_stack();

    assert_eq!(undo.len(), 3);
    assert!(matches!(undo[0], HistoryCommand::RemoveObject { index: 2, .. }));
    assert!(matches!(undo[1], HistoryCommand::AddObject { index: 3, .. }));
    assert!(matches!(undo[2], HistoryCommand::ReplaceObjects { .. }));

    assert_eq!(redo.len(), 2);
    assert!(matches!(redo[0], HistoryCommand::AddObject { index: 3, .. }));
    assert!(matches!(redo[1], HistoryCommand::RemoveObject { index: 2, .. }));
}

#[test]
fn batch_undo_restores_distinct_objects() {
    let objs = [
        CanvasShapeType::Line,
        CanvasShapeType::Arrow,
        CanvasShapeType::Rectangle,
        CanvasShapeType::Triangle,
    ]
    .into_iter()
    .map(shape)
    .collect::<Vec<_>>();
    let mut state = CanvasState { objects: objs.clone() };
    let mut history = History::new(10);

    // Bring the last two to the front, recording each step.
    let mut commands = Vec::new();
    for idx in [3usize, 2] {
        let obj = state.objects.remove(idx);
        commands.push(HistoryCommand::RemoveObject { index: idx, object: obj });
    }
    for obj in [objs[2].clone(), objs[3].clone()] {
        state.objects.insert(0, obj.clone());
        commands.push(HistoryCommand::AddObject { index: 0, object: obj });
    }
    history.save_batch(commands);
    let after = state.objects.clone();
    assert_eq!(after[0].shape_type, CanvasShapeType::Triangle);
    assert_eq!(after[1].shape_type, CanvasShapeType::Rectangle);

    assert!(history.undo(&mut state));
    assert_eq!(state.objects, objs);
    assert!(history.redo(&mut state));
    assert_eq!(state.objects, after);
    assert!(!history.redo(&mut state));
}

#[test]
fn empty_batch_records_nothing() {
    let mut history: History<Shape> = History::new(3);
    history.save_batch(Vec::new());
    assert!(history.undo_stack.is_empty());
    let mut state = CanvasState::new();
    assert!(!history.undo(&mut state));
    assert!(!history.redo(&mut state));
}

#[test]
fn push_clears_redo_and_zero_limit_keeps_nothing() {
    let mut history = History::new(1);
    let mut state = CanvasState::new();
    state.objects.push(create_dummy_object());
    history.save_add_object(0, create_dummy_object());
    assert!(history.undo(&mut state));
    assert_eq!(history.redo_stack.len(), 1);
    history.save_clear_objects(Vec::new());
    assert!(history.redo_stack.is_empty());
    assert_eq!(history.undo_stack.len(), 1);

    let mut none = History::new(0);
    none.save_add_object(0, create_dummy_object());
    assert!(none.undo_stack.is_empty());
}

#[test]
fn move_and_transform_edit_one_object() {
    let mut state = CanvasState {
        objects: vec![shape(CanvasShapeType::Line), shape(CanvasShapeType::Circle)],
    };
    let mut history = History::new(10);
    state.objects[1] = state.objects[1].shifted(&(5.0, 5.0));
    history.save_move_object(1, (-5.0, -5.0), (5.0, 5.0));
    assert!(history.undo(&mut state));
    assert_eq!(state.objects[1].pos, (0.0, 0.0));
    assert_eq!(state.objects[0], shape(CanvasShapeType::Line));
    assert!(history.redo(&mut state));
    assert_eq!(state.objects[1].pos, (5.0, 5.0));

    history.save_transform_object(0, ((0.0, 0.0), (10.0, 10.0)), ((1.0, 2.0), (30.0, 30.0)));
    assert!(history.undo(&mut state));
    assert_eq!(state.objects[0].size, 10.0);
    assert!(history.redo(&mut state));
    assert_eq!(state.objects[0].pos, (1.0, 2.0));
    assert_eq!(state.objects[0].size, 30.0);
}

#[test]
fn replace_and_clear_swap_whole_lists() {
    let mut state = CanvasState {
        objects: vec![shape(CanvasShapeType::Line), shape(CanvasShapeType::Arrow)],
    };
    let mut history = History::new(10);
    let old = state.objects.clone();
    state.objects = vec![shape(CanvasShapeType::Circle)];
    history.push_command(HistoryCommand::ReplaceObjects { old: old.clone(), new: state.objects.clone() });
    assert!(history.undo(&mut state));
    assert_eq!(state.objects, old);
    assert!(history.redo(&mut state));
    assert_eq!(state.objects, vec![shape(CanvasShapeType::Circle)]);

    let before = state.objects.clone();
    state.objects.clear();
    history.save_clear_objects(before.clone());
    assert!(history.undo(&mut state));
    assert_eq!(state.objects, before);
    assert!(history.redo(&mut state));
    assert!(state.objects.is_empty());
}

#[test]
fn out_of_range_commands_leave_the_canvas_alone() {
    let mut state = CanvasState { objects: vec![shape(CanvasShapeType::Line)] };
    let mut history = History::new(10);
    history.save_add_object(5, shape(CanvasShapeType::Arrow));
    assert!(history.undo(&mut state));
    assert_eq!(state.objects.len(), 1);
    assert!(history.redo(&mut state));
    assert_eq!(state.objects.len(), 1);
}

#[test]
fn test_nested_batch_redo_flattening_keeps_order() {
    let x = HistoryCommand::AddObject { index: 0, object: shape(CanvasShapeType::Line) };
    let y = HistoryCommand::AddObject { index: 1, object: shape(CanvasShapeType::Arrow) };
    let z = HistoryCommand::AddObject { index: 2, object: shape(CanvasShapeType::Circle) };
    let mut history: History<Shape> = History::new(10);
    history.redo_stack.push(HistoryCommand::BatchCommand {
        commands: vec![x, HistoryCommand::BatchCommand { commands: vec![y, z] }],
    });
    let undo_form = uwu::history::flatten_command(&history.redo_stack[0], false);
    assert!(matches!(undo_form[0], HistoryCommand::AddObject { index: 0, .. }));
    assert!(matches!(undo_form[2], HistoryCommand::AddObject { index: 2, .. }));
    let redo = history.flattened_redo_stack();
    assert_eq!(redo.len(), 3);
    assert!(matches!(redo[0], HistoryCommand::AddObject { index: 2, .. }));
    assert!(matches!(redo[1], HistoryCommand::AddObject { index: 1, .. }));
    assert!(matches!(redo[2], HistoryCommand::AddObject { index: 0, .. }));

    // Replaying the saved redo stack, newest first, gives what redoing the batch gives.
    let mut saved: History<Shape> = History::new(10);
    saved.redo_stack = redo
        .iter()
        .map(|c| match c {
            HistoryCommand::AddObject { index, object } => HistoryCommand::AddObject { index: *index, object: object.clone() },
            _ => panic!("expected insertions only"),
        })
        .collect();
    let mut a = CanvasState::new();
    while saved.redo(&mut a) {}
    let mut b = CanvasState::new();
    assert!(history.redo(&mut b));
    assert_eq!(a.objects, b.objects);
    assert_eq!(
        a.objects,
        vec![shape(CanvasShapeType::Line), shape(CanvasShapeType::Arrow), shape(CanvasShapeType::Circle)]
    );
}
