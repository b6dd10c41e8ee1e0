use vstd::prelude::*;
use crate::state::CanvasShapeType;
use crate::text::{append_decimal, append_str, decimal, string_from_chars};

verus! {

/// The shape types as canvas files store them.
#[derive(Clone, Copy, PartialEq, Eq, Debug, Structural)]
pub enum ShapeTypeFlat {
    Line,
    Arrow,
    Rectangle,
    Triangle,
    Circle,
}

pub open spec fn spec_shape_to_flat(t: CanvasShapeType) -> ShapeTypeFlat {
    match t {
        CanvasShapeType::Line => ShapeTypeFlat::Line,
        CanvasShapeType::Arrow => ShapeTypeFlat::Arrow,
        CanvasShapeType::Rectangle => ShapeTypeFlat::Rectangle,
        CanvasShapeType::Triangle => ShapeTypeFlat::Triangle,
        CanvasShapeType::Circle => ShapeTypeFlat::Circle,
    }
}

pub open spec fn spec_shape_from_flat(t: ShapeTypeFlat) -> CanvasShapeType {
    match t {
        ShapeTypeFlat::Line => CanvasShapeType::Line,
        ShapeTypeFlat::Arrow => CanvasShapeType::Arrow,
        ShapeTypeFlat::Rectangle => CanvasShapeType::Rectangle,
        ShapeTypeFlat::Triangle => CanvasShapeType::Triangle,
        ShapeTypeFlat::Circle => CanvasShapeType::Circle,
    }
}

/// The stored form of a shape type.
pub fn shape_type_to_flat(t: CanvasShapeType) -> (f: ShapeTypeFlat)
    ensures
        f == spec_shape_to_flat(t),
{
    match t {
        CanvasShapeType::Line => ShapeTypeFlat::Line,
        CanvasShapeType::Arrow => ShapeTypeFlat::Arrow,
        CanvasShapeType::Rectangle => ShapeTypeFlat::Rectangle,
        CanvasShapeType::Triangle => ShapeTypeFlat::Triangle,
        CanvasShapeType::Circle => ShapeTypeFlat::Circle,
    }
}

/// The shape type that a stored form stands for.
pub fn shape_type_from_flat(f: ShapeTypeFlat) -> (t: CanvasShapeType)
    ensures
        t == spec_shape_from_flat(f),
{
    match f {
        ShapeTypeFlat::Line => CanvasShapeType::Line,
        ShapeTypeFlat::Arrow => CanvasShapeType::Arrow,
        ShapeTypeFlat::Rectangle => CanvasShapeType::Rectangle,
        ShapeTypeFlat::Triangle => CanvasShapeType::Triangle,
        ShapeTypeFlat::Circle => CanvasShapeType::Circle,
    }
}

/// Storing a shape type and reading it back gives the same shape type, and
/// the stored forms correspond one to one to the shape types.
pub proof fn law_shape_type_round_trip(t: CanvasShapeType, f: ShapeTypeFlat)
    ensures
        spec_shape_from_flat(spec_shape_to_flat(t)) == t,
        spec_shape_to_flat(spec_shape_from_flat(f)) == f,
{
}

/// What validation reads of a stroke's width: for a fixed width, whether it
/// is finite and not negative; for per-point widths, how many there are and
/// whether all are finite and not negative.
#[derive(Clone, Copy, PartialEq, Eq, Debug)]
pub enum WidthCheck {
    Fixed { valid: bool },
    Dynamic { count: usize, all_valid: bool },
}

/// What validation reads of a stored object: its counts and sizes, and the
/// outcome of each test on its floating-point fields.
#[derive(Clone, Copy, PartialEq, Eq, Debug)]
pub enum ObjectCheck {
    /// `points_finite`: every point is finite; `base_width_valid`: the base
    /// width is finite and not negative.
    Stroke { point_count: usize, points_finite: bool, width: WidthCheck, base_width_valid: bool },
    /// `placement_valid`: the position is finite and the font size finite and positive.
    Text { placement_valid: bool },
    /// `placement_valid`: the position is finite and the size finite and not negative.
    Shape { placement_valid: bool },
    /// `placement_valid`: the position is finite and both sizes finite and
    /// positive; `aspect_ratio_valid`: the aspect ratio is finite and positive.
    Image { width: u32, height: u32, data_len: usize, placement_valid: bool, aspect_ratio_valid: bool },
}

/// Why a stored object is rejected.
#[derive(Clone, Copy, PartialEq, Eq, Debug)]
pub enum ObjectError {
    NoPoints,
    NonFinitePoints,
    InvalidFixedWidth,
    EmptyDynamicWidths,
    WidthCountMismatch { widths: usize, points: usize },
    InvalidDynamicWidths,
    InvalidBaseWidth,
    InvalidText,
    InvalidShape,
    ZeroImageDimension,
    ImageDataLength { len: usize, width: u32, height: u32 },
    InvalidImagePlacement,
    InvalidAspectRatio,
}

/// The first check that `o` fails, in the order in which they are made.
pub open spec fn object_error(o: ObjectCheck) -> Option<ObjectError> {
    match o {
        ObjectCheck::Stroke { point_count, points_finite, width, base_width_valid } => if point_count
            == 0 {
            Some(ObjectError::NoPoints)
        } else if !points_finite {
            Some(ObjectError::NonFinitePoints)
        } else {
            match width {
                WidthCheck::Fixed { valid } => if !valid {
                    Some(ObjectError::InvalidFixedWidth)
                } else if !base_width_valid {
                    Some(ObjectError::InvalidBaseWidth)
                } else {
                    None
                },
                WidthCheck::Dynamic { count, all_valid } => if count == 0 {
                    Some(ObjectError::EmptyDynamicWidths)
                } else if count != point_count {
                    Some(ObjectError::WidthCountMismatch { widths: count, points: point_count })
                } else if !all_valid {
                    Some(ObjectError::InvalidDynamicWidths)
                } else if !base_width_valid {
                    Some(ObjectError::InvalidBaseWidth)
                } else {
                    None
                },
            }
        },
        ObjectCheck::Text { placement_valid } => if !placement_valid {
            Some(ObjectError::InvalidText)
        } else {
            None
        },
        ObjectCheck::Shape { placement_valid } => if !placement_valid {
            Some(ObjectError::InvalidShape)
        } else {
            None
        },
        ObjectCheck::Image { width, height, data_len, placement_valid, aspect_ratio_valid } => if width
            == 0 || height == 0 {
            Some(ObjectError::ZeroImageDimension)
        } else if width * height * 4 != data_len {
            Some(ObjectError::ImageDataLength { len: data_len, width, height })
        } else if !placement_valid {
            Some(ObjectError::InvalidImagePlacement)
        } else if !aspect_ratio_valid {
            Some(ObjectError::InvalidAspectRatio)
        } else {
            None
        },
    }
}

/// Checks the structural invariants of a stored object that painting and
/// texture upload rely on: a stroke has points, as many widths as points
/// when the width varies, and sane widths; an image has pixels, exactly four
/// bytes of them per pixel, and a sane placement.
pub fn validate_object(o: &ObjectCheck) -> (r: Result<(), ObjectError>)
    ensures
        r == (match object_error(*o) {
            Some(e) => Err(e),
            None => Ok(()),
        }),
{
    match o {
        ObjectCheck::Stroke { point_count, points_finite, width, base_width_valid } => {
            if *point_count == 0 {
                return Err(ObjectError::NoPoints);
            }
            if !*points_finite {
                return Err(ObjectError::NonFinitePoints);
            }
            match width {
                WidthCheck::Fixed { valid } => {
                    if !*valid {
                        return Err(ObjectError::InvalidFixedWidth);
                    }
                },
                WidthCheck::Dynamic { count, all_valid } => {
                    if *count == 0 {
                        return Err(ObjectError::EmptyDynamicWidths);
                    }
                    if *count != *point_count {
                        return Err(
                            ObjectError::WidthCountMismatch { widths: *count, points: *point_count },
                        );
                    }
                    if !*all_valid {
                        return Err(ObjectError::InvalidDynamicWidths);
                    }
                },
            }
            if !*base_width_valid {
                return Err(ObjectError::InvalidBaseWidth);
            }
        },
        ObjectCheck::Text { placement_valid } => {
            if !*placement_valid {
                return Err(ObjectError::InvalidText);
            }
        },
        ObjectCheck::Shape { placement_valid } => {
            if !*placement_valid {
                return Err(ObjectError::InvalidShape);
            }
        },
        ObjectCheck::Image { width, height, data_len, placement_valid, aspect_ratio_valid } => {
            let expected = checked_pixel_bytes(*width, *height);
            if *width == 0 || *height == 0 {
                return Err(ObjectError::ZeroImageDimension);
            }
            match expected {
                Some(n) => {
                    if n != *data_len {
                        return Err(
                            ObjectError::ImageDataLength { len: *data_len, width: *width, height: *height },
                        );
                    }
                },
                None => {
                    return Err(
                        ObjectError::ImageDataLength { len: *data_len, width: *width, height: *height },
                    );
                },
            }
            if !*placement_valid {
                return Err(ObjectError::InvalidImagePlacement);
            }
            if !*aspect_ratio_valid {
                return Err(ObjectError::InvalidAspectRatio);
            }
        },
    }
    Ok(())
}

/// The byte count of a `width` by `height` RGBA image, or `None` when it
/// does not fit in `usize`.
pub fn checked_pixel_bytes(width: u32, height: u32) -> (r: Option<usize>)
    ensures
        r == (if width * height * 4 <= usize::MAX {
            Some((width * height * 4) as usize)
        } else {
            None::<usize>
        }),
{
    let w = width as usize;
    let h = height as usize;
    match w.checked_mul(h) {
        Some(p) => match p.checked_mul(4) {
            Some(n) => Some(n),
            None => {
                assert(width * height * 4 > usize::MAX) by (nonlinear_arith)
                    requires
                        p == width * height,
                        p * 4 > usize::MAX,
                ;
                None
            },
        },
        None => {
            assert(width * height * 4 > usize::MAX) by (nonlinear_arith)
                requires
                    width * height > usize::MAX,
            ;
            None
        },
    }
}


/// The first object of `objs` that fails validation, with its index.
pub open spec fn first_object_error(objs: Seq<ObjectCheck>) -> Option<(int, ObjectError)>
    decreases objs.len(),
{
    if objs.len() == 0 {
        None
    } else {
        match first_object_error(objs.drop_last()) {
            Some(found) => Some(found),
            None => match object_error(objs.last()) {
                Some(e) => Some((objs.len() - 1, e)),
                None => None,
            },
        }
    }
}

proof fn lemma_first_object_error_step(objs: Seq<ObjectCheck>, i: int)
    requires
        0 <= i < objs.len(),
        first_object_error(objs.take(i)) is None,
    ensures
        first_object_error(objs.take(i + 1)) == (match object_error(objs[i]) {
            Some(e) => Some((i, e)),
            None => None::<(int, ObjectError)>,
        }),
{
    assert(objs.take(i + 1).drop_last() == objs.take(i));
    assert(objs.take(i + 1).last() == objs[i]);
}

/// Validates `objs` in order, numbering them from `offset`; returns the
/// number and error of the first invalid one.
fn validate_objects_from(objs: &Vec<ObjectCheck>, offset: usize) -> (r: Result<(), (usize, ObjectError)>)
    requires
        offset + objs.len() <= usize::MAX,
    ensures
        match first_object_error(objs@) {
            Some((i, e)) => r == Err::<(), (usize, ObjectError)>(((offset + i) as usize, e)),
            None => r == Ok::<(), (usize, ObjectError)>(()),
        },
{
    let n = objs.len();
    let mut i: usize = 0;
    while i < n
        invariant
            n == objs@.len(),
            offset + n <= usize::MAX,
            0 <= i <= n,
            first_object_error(objs@.take(i as int)) is None,
        decreases n - i,
    {
        proof {
            lemma_first_object_error_step(objs@, i as int);
        }
        match validate_object(&objs[i]) {
            Err(e) => {
                proof {
                    lemma_first_object_error_prefix(objs@, i + 1);
                }
                return Err((offset + i, e));
            },
            Ok(()) => {},
        }
        i = i + 1;
    }
    assert(objs@.take(n as int) == objs@);
    Ok(())
}

/// An error found in a prefix of a list is the list's first error.
proof fn lemma_first_object_error_prefix(objs: Seq<ObjectCheck>, k: int)
    requires
        0 <= k <= objs.len(),
        first_object_error(objs.take(k)) is Some,
    ensures
        first_object_error(objs) == first_object_error(objs.take(k)),
    decreases objs.len() - k,
{
    if k < objs.len() {
        assert(objs.take(k + 1).drop_last() == objs.take(k));
        lemma_first_object_error_prefix(objs, k + 1);
    } else {
        assert(objs.take(k) == objs);
    }
}

/// What validation reads of a stored history command.
#[derive(Clone, PartialEq, Eq, Debug)]
pub enum CommandCheck {
    AddObject { object: ObjectCheck },
    RemoveObject { object: ObjectCheck },
    ClearObjects { objects: Vec<ObjectCheck> },
    /// `positions_finite`: both positions are finite.
    MoveObject { positions_finite: bool },
    /// `values_finite`: both transforms have finite positions and sizes.
    TransformObject { values_finite: bool },
    ReplaceObjects { old: Vec<ObjectCheck>, new: Vec<ObjectCheck> },
}

/// Why a stored history command is rejected.
#[derive(Clone, Copy, PartialEq, Eq, Debug)]
pub enum CommandError {
    /// The object of an add or remove command.
    Object(ObjectError),
    ClearedObject { index: usize, error: ObjectError },
    NonFiniteMove,
    NonFiniteTransform,
    /// `index` counts the old objects first, then the new ones.
    ReplacedObject { index: usize, error: ObjectError },
}

pub open spec fn command_error(c: CommandCheck) -> Option<CommandError> {
    match c {
        CommandCheck::AddObject { object } => match object_error(object) {
            Some(e) => Some(CommandError::Object(e)),
            None => None,
        },
        CommandCheck::RemoveObject { object } => match object_error(object) {
            Some(e) => Some(CommandError::Object(e)),
            None => None,
        },
        CommandCheck::ClearObjects { objects } => match first_object_error(objects@) {
            Some((i, e)) => Some(CommandError::ClearedObject { index: i as usize, error: e }),
            None => None,
        },
        CommandCheck::MoveObject { positions_finite } => if !positions_finite {
            Some(CommandError::NonFiniteMove)
        } else {
            None
        },
        CommandCheck::TransformObject { values_finite } => if !values_finite {
            Some(CommandError::NonFiniteTransform)
        } else {
            None
        },
        CommandCheck::ReplaceObjects { old, new } => match first_object_error(old@ + new@) {
            Some((i, e)) => Some(CommandError::ReplacedObject { index: i as usize, error: e }),
            None => None,
        },
    }
}

proof fn lemma_first_object_error_bound(objs: Seq<ObjectCheck>)
    ensures
        first_object_error(objs) matches Some((i, e)) ==> 0 <= i < objs.len(),
    decreases objs.len(),
{
    if objs.len() > 0 {
        lemma_first_object_error_bound(objs.drop_last());
    }
}

proof fn lemma_first_object_error_concat(a: Seq<ObjectCheck>, b: Seq<ObjectCheck>)
    ensures
        first_object_error(a + b) == (match first_object_error(a) {
            Some(found) => Some(found),
            None => match first_object_error(b) {
                Some((i, e)) => Some((i + a.len(), e)),
                None => None::<(int, ObjectError)>,
            },
        }),
    decreases b.len(),
{
    if b.len() == 0 {
        assert(a + b == a);
    } else {
        lemma_first_object_error_concat(a, b.drop_last());
        assert((a + b).drop_last() == a + b.drop_last());
        assert((a + b).last() == b.last());
    }
}

/// Validates a stored history command: the objects it holds, and the
/// positions and sizes of a move or a transform.
pub fn validate_history_command(c: &CommandCheck) -> (r: Result<(), CommandError>)
    requires
        match c {
            CommandCheck::ReplaceObjects { old, new } => old.len() + new.len() <= usize::MAX,
            _ => true,
        },
    ensures
        r == (match command_error(*c) {
            Some(e) => Err(e),
            None => Ok(()),
        }),
{
    match c {
        CommandCheck::AddObject { object } => match validate_object(object) {
            Err(e) => Err(CommandError::Object(e)),
            Ok(()) => Ok(()),
        },
        CommandCheck::RemoveObject { object } => match validate_object(object) {
            Err(e) => Err(CommandError::Object(e)),
            Ok(()) => Ok(()),
        },
        CommandCheck::ClearObjects { objects } => {
            proof {
                lemma_first_object_error_bound(objects@);
            }
            match validate_objects_from(objects, 0) {
                Err((i, e)) => Err(CommandError::ClearedObject { index: i, error: e }),
                Ok(()) => Ok(()),
            }
        },
        CommandCheck::MoveObject { positions_finite } => {
            if !*positions_finite {
                Err(CommandError::NonFiniteMove)
            } else {
                Ok(())
            }
        },
        CommandCheck::TransformObject { values_finite } => {
            if !*values_finite {
                Err(CommandError::NonFiniteTransform)
            } else {
                Ok(())
            }
        },
        CommandCheck::ReplaceObjects { old, new } => {
            proof {
                lemma_first_object_error_concat(old@, new@);
                lemma_first_object_error_bound(old@);
                lemma_first_object_error_bound(new@);
            }
            match validate_objects_from(old, 0) {
                Err((i, e)) => Err(CommandError::ReplacedObject { index: i, error: e }),
                Ok(()) => match validate_objects_from(new, old.len()) {
                    Err((i, e)) => Err(CommandError::ReplacedObject { index: i, error: e }),
                    Ok(()) => Ok(()),
                },
            }
        },
    }
}


/// What validation reads of a stored page: whether the view offset is
/// finite and the zoom finite and positive, and its objects and commands.
#[derive(Clone, PartialEq, Eq, Debug)]
pub struct PageStateCheck {
    pub view_valid: bool,
    pub objects: Vec<ObjectCheck>,
    pub undo_stack: Vec<CommandCheck>,
    pub redo_stack: Vec<CommandCheck>,
}

/// Why a stored page is rejected.
#[derive(Clone, Copy, PartialEq, Eq, Debug)]
pub enum PageError {
    InvalidView,
    Object { index: usize, error: ObjectError },
    UndoCommand { index: usize, error: CommandError },
    RedoCommand { index: usize, error: CommandError },
}

/// The first command of `cs` that fails validation, with its index.
pub open spec fn first_command_error(cs: Seq<CommandCheck>) -> Option<(int, CommandError)>
    decreases cs.len(),
{
    if cs.len() == 0 {
        None
    } else {
        match first_command_error(cs.drop_last()) {
            Some(found) => Some(found),
            None => match command_error(cs.last()) {
                Some(e) => Some((cs.len() - 1, e)),
                None => None,
            },
        }
    }
}

/// The error of a page: the view first, then the objects, the undo stack
/// and the redo stack, each in order.
pub open spec fn page_error(p: PageStateCheck) -> Option<PageError> {
    if !p.view_valid {
        Some(PageError::InvalidView)
    } else {
        match first_object_error(p.objects@) {
            Some((i, e)) => Some(PageError::Object { index: i as usize, error: e }),
            None => match first_command_error(p.undo_stack@) {
                Some((i, e)) => Some(PageError::UndoCommand { index: i as usize, error: e }),
                None => match first_command_error(p.redo_stack@) {
                    Some((i, e)) => Some(PageError::RedoCommand { index: i as usize, error: e }),
                    None => None,
                },
            },
        }
    }
}

/// Every test on a stored object holds: a stroke has points, all finite, a
/// valid fixed width or one valid width per point, and a valid base width;
/// a text or a shape is validly placed; an image has pixels, four bytes of
/// data per pixel, a valid placement and a valid aspect ratio.
pub open spec fn object_sound(o: ObjectCheck) -> bool {
    match o {
        ObjectCheck::Stroke { point_count, points_finite, width, base_width_valid } => {
            &&& point_count > 0
            &&& points_finite
            &&& base_width_valid
            &&& match width {
                WidthCheck::Fixed { valid } => valid,
                WidthCheck::Dynamic { count, all_valid } => count == point_count && all_valid,
            }
        },
        ObjectCheck::Text { placement_valid } => placement_valid,
        ObjectCheck::Shape { placement_valid } => placement_valid,
        ObjectCheck::Image { width, height, data_len, placement_valid, aspect_ratio_valid } => {
            &&& width > 0
            &&& height > 0
            &&& width * height * 4 == data_len
            &&& placement_valid
            &&& aspect_ratio_valid
        },
    }
}

/// A stored object is accepted exactly when every test on it holds.
pub proof fn law_object_accepted_iff_sound(o: ObjectCheck)
    ensures
        object_error(o) is None <==> object_sound(o),
{
}

/// A list of stored objects passes exactly when each object is sound; when
/// it does not, the error is that of the first object that is not.
pub proof fn law_objects_accepted_iff_sound(objs: Seq<ObjectCheck>)
    ensures
        first_object_error(objs) is None <==> forall|i: int| 0 <= i < objs.len() ==> object_sound(#[trigger] objs[i]),
        first_object_error(objs) matches Some((i, e)) ==> {
            &&& 0 <= i < objs.len()
            &&& !object_sound(objs[i])
            &&& object_error(objs[i]) == Some(e)
            &&& forall|k: int| 0 <= k < i ==> object_sound(#[trigger] objs[k])
        },
    decreases objs.len(),
{
    if objs.len() > 0 {
        let init = objs.drop_last();
        law_objects_accepted_iff_sound(init);
        law_object_accepted_iff_sound(objs.last());
        assert forall|i: int| 0 <= i < init.len() implies #[trigger] init[i] == objs[i] by {}
        if first_object_error(objs) is None {
            assert forall|i: int| 0 <= i < objs.len() implies object_sound(#[trigger] objs[i]) by {
                if i < init.len() {
                    assert(object_sound(init[i]));
                }
            }
        }
        if forall|i: int| 0 <= i < objs.len() ==> object_sound(#[trigger] objs[i]) {
            assert(forall|i: int| 0 <= i < init.len() ==> object_sound(#[trigger] init[i]));
            assert(object_sound(objs[objs.len() - 1]));
        }
        if let Some((i, e)) = first_object_error(objs) {
            if let Some((i2, e2)) = first_object_error(init) {
                assert forall|k: int| 0 <= k < i implies object_sound(#[trigger] objs[k]) by {
                    assert(object_sound(init[k]));
                }
            } else {
                assert forall|k: int| 0 <= k < i implies object_sound(#[trigger] objs[k]) by {
                    assert(object_sound(init[k]));
                }
            }
        }
    }
}

/// A stored page is accepted exactly when its view is valid, every object on
/// it is sound and no command of its undo or redo stack fails; in
/// particular, a page of sound objects with empty stacks is accepted.
pub proof fn law_page_accepted(p: PageStateCheck)
    ensures
        page_error(p) is None <==> (p.view_valid && (forall|i: int|
            0 <= i < p.objects@.len() ==> object_sound(#[trigger] p.objects@[i]))
            && first_command_error(p.undo_stack@) is None && first_command_error(p.redo_stack@) is None),
{
    law_objects_accepted_iff_sound(p.objects@);
}

/// Every replace command of `cs` holds at most `usize::MAX` objects.
pub open spec fn replace_counts_fit(cs: Seq<CommandCheck>) -> bool {
    forall|i: int|
        0 <= i < cs.len() ==> match #[trigger] cs[i] {
            CommandCheck::ReplaceObjects { old, new } => old.len() + new.len() <= usize::MAX,
            _ => true,
        }
}

proof fn lemma_first_command_error_step(cs: Seq<CommandCheck>, i: int)
    requires
        0 <= i < cs.len(),
        first_command_error(cs.take(i)) is None,
    ensures
        first_command_error(cs.take(i + 1)) == (match command_error(cs[i]) {
            Some(e) => Some((i, e)),
            None => None::<(int, CommandError)>,
        }),
{
    assert(cs.take(i + 1).drop_last() == cs.take(i));
    assert(cs.take(i + 1).last() == cs[i]);
}

proof fn lemma_first_command_error_prefix(cs: Seq<CommandCheck>, k: int)
    requires
        0 <= k <= cs.len(),
        first_command_error(cs.take(k)) is Some,
    ensures
        first_command_error(cs) == first_command_error(cs.take(k)),
    decreases cs.len() - k,
{
    if k < cs.len() {
        assert(cs.take(k + 1).drop_last() == cs.take(k));
        lemma_first_command_error_prefix(cs, k + 1);
    } else {
        assert(cs.take(k) == cs);
    }
}

fn validate_commands(cs: &Vec<CommandCheck>) -> (r: Result<(), (usize, CommandError)>)
    requires
        replace_counts_fit(cs@),
    ensures
        match first_command_error(cs@) {
            Some((i, e)) => r == Err::<(), (usize, CommandError)>((i as usize, e)),
            None => r == Ok::<(), (usize, CommandError)>(()),
        },
{
    let n = cs.len();
    let mut i: usize = 0;
    while i < n
        invariant
            n == cs@.len(),
            replace_counts_fit(cs@),
            0 <= i <= n,
            first_command_error(cs@.take(i as int)) is None,
        decreases n - i,
    {
        proof {
            lemma_first_command_error_step(cs@, i as int);
        }
        let c = &cs[i];
        assert(*c == cs@[i as int]);
        match validate_history_command(c) {
            Err(e) => {
                proof {
                    lemma_first_command_error_prefix(cs@, i + 1);
                }
                return Err((i, e));
            },
            Ok(()) => {},
        }
        i = i + 1;
    }
    assert(cs@.take(n as int) == cs@);
    Ok(())
}

impl PageStateCheck {
    /// Validates the structural invariants that runtime code relies on, so
    /// that a corrupt or hand-made file is rejected on loading rather than
    /// making painting or texture upload fail later.
    pub fn validate(&self) -> (r: Result<(), PageError>)
        requires
            replace_counts_fit(self.undo_stack@),
            replace_counts_fit(self.redo_stack@),
        ensures
            r == (match page_error(*self) {
                Some(e) => Err(e),
                None => Ok(()),
            }),
    {
        if !self.view_valid {
            return Err(PageError::InvalidView);
        }
        match validate_objects_from(&self.objects, 0) {
            Err((i, e)) => {
                return Err(PageError::Object { index: i, error: e });
            },
            Ok(()) => {},
        }
        match validate_commands(&self.undo_stack) {
            Err((i, e)) => {
                return Err(PageError::UndoCommand { index: i, error: e });
            },
            Ok(()) => {},
        }
        match validate_commands(&self.redo_stack) {
            Err((i, e)) => {
                return Err(PageError::RedoCommand { index: i, error: e });
            },
            Ok(()) => {},
        }
        Ok(())
    }
}


/// The text that describes an object error.
pub open spec fn object_message(e: ObjectError) -> Seq<char> {
    match e {
        ObjectError::NoPoints => "stroke has no points"@,
        ObjectError::NonFinitePoints => "stroke contains non-finite points"@,
        ObjectError::InvalidFixedWidth => "stroke has an invalid fixed width"@,
        ObjectError::EmptyDynamicWidths => "stroke has an empty dynamic width list"@,
        ObjectError::WidthCountMismatch { widths, points } => "stroke dynamic width count "@ + decimal(
            widths as nat,
        ) + " does not match point count "@ + decimal(points as nat),
        ObjectError::InvalidDynamicWidths => "stroke contains invalid dynamic widths"@,
        ObjectError::InvalidBaseWidth => "stroke has an invalid base width"@,
        ObjectError::InvalidText => "text has invalid position or font size"@,
        ObjectError::InvalidShape => "shape has invalid position or size"@,
        ObjectError::ZeroImageDimension => "image has a zero dimension"@,
        ObjectError::ImageDataLength { len, width, height } => "image data length "@ + decimal(
            len as nat,
        ) + " does not match dimensions "@ + decimal(width as nat) + "x"@ + decimal(height as nat),
        ObjectError::InvalidImagePlacement => "image has invalid position or size"@,
        ObjectError::InvalidAspectRatio => "image has an invalid aspect ratio"@,
    }
}

/// The text that describes a command error.
pub open spec fn command_message(e: CommandError) -> Seq<char> {
    match e {
        CommandError::Object(o) => object_message(o),
        CommandError::ClearedObject { index, error } => "clear object "@ + decimal(index as nat)
            + ": "@ + object_message(error),
        CommandError::NonFiniteMove => "move command contains non-finite positions"@,
        CommandError::NonFiniteTransform => "transform command contains non-finite values"@,
        CommandError::ReplacedObject { index, error } => "replaced object "@ + decimal(index as nat)
            + ": "@ + object_message(error),
    }
}

/// The text that describes a page error.
pub open spec fn page_message(e: PageError) -> Seq<char> {
    match e {
        PageError::InvalidView => "view state contains non-finite or invalid values"@,
        PageError::Object { index, error } => "object "@ + decimal(index as nat) + ": "@
            + object_message(error),
        PageError::UndoCommand { index, error } => "undo history command "@ + decimal(index as nat)
            + ": "@ + command_message(error),
        PageError::RedoCommand { index, error } => "redo history command "@ + decimal(index as nat)
            + ": "@ + command_message(error),
    }
}

fn append_object_message(out: &mut Vec<char>, e: &ObjectError)
    ensures
        final(out)@ == old(out)@ + object_message(*e),
{
    match e {
        ObjectError::NoPoints => append_str(out, "stroke has no points"),
        ObjectError::NonFinitePoints => append_str(out, "stroke contains non-finite points"),
        ObjectError::InvalidFixedWidth => append_str(out, "stroke has an invalid fixed width"),
        ObjectError::EmptyDynamicWidths => append_str(out, "stroke has an empty dynamic width list"),
        ObjectError::WidthCountMismatch { widths, points } => {
            append_str(out, "stroke dynamic width count ");
            append_decimal(out, *widths);
            append_str(out, " does not match point count ");
            append_decimal(out, *points);
            assert(out@ =~= old(out)@ + object_message(*e));
        },
        ObjectError::InvalidDynamicWidths => append_str(out, "stroke contains invalid dynamic widths"),
        ObjectError::InvalidBaseWidth => append_str(out, "stroke has an invalid base width"),
        ObjectError::InvalidText => append_str(out, "text has invalid position or font size"),
        ObjectError::InvalidShape => append_str(out, "shape has invalid position or size"),
        ObjectError::ZeroImageDimension => append_str(out, "image has a zero dimension"),
        ObjectError::ImageDataLength { len, width, height } => {
            append_str(out, "image data length ");
            append_decimal(out, *len);
            append_str(out, " does not match dimensions ");
            append_decimal(out, *width as usize);
            append_str(out, "x");
            append_decimal(out, *height as usize);
            assert(out@ =~= old(out)@ + object_message(*e));
        },
        ObjectError::InvalidImagePlacement => append_str(out, "image has invalid position or size"),
        ObjectError::InvalidAspectRatio => append_str(out, "image has an invalid aspect ratio"),
    }
}

fn append_command_message(out: &mut Vec<char>, e: &CommandError)
    ensures
        final(out)@ == old(out)@ + command_message(*e),
{
    match e {
        CommandError::Object(o) => append_object_message(out, o),
        CommandError::ClearedObject { index, error } => {
            append_str(out, "clear object ");
            append_decimal(out, *index);
            append_str(out, ": ");
            append_object_message(out, error);
            assert(out@ =~= old(out)@ + command_message(*e));
        },
        CommandError::NonFiniteMove => append_str(out, "move command contains non-finite positions"),
        CommandError::NonFiniteTransform => append_str(out, "transform command contains non-finite values"),
        CommandError::ReplacedObject { index, error } => {
            append_str(out, "replaced object ");
            append_decimal(out, *index);
            append_str(out, ": ");
            append_object_message(out, error);
            assert(out@ =~= old(out)@ + command_message(*e));
        },
    }
}

fn append_page_message(out: &mut Vec<char>, e: &PageError)
    ensures
        final(out)@ == old(out)@ + page_message(*e),
{
    match e {
        PageError::InvalidView => append_str(out, "view state contains non-finite or invalid values"),
        PageError::Object { index, error } => {
            append_str(out, "object ");
            append_decimal(out, *index);
            append_str(out, ": ");
            append_object_message(out, error);
            assert(out@ =~= old(out)@ + page_message(*e));
        },
        PageError::UndoCommand { index, error } => {
            append_str(out, "undo history command ");
            append_decimal(out, *index);
            append_str(out, ": ");
            append_command_message(out, error);
            assert(out@ =~= old(out)@ + page_message(*e));
        },
        PageError::RedoCommand { index, error } => {
            append_str(out, "redo history command ");
            append_decimal(out, *index);
            append_str(out, ": ");
            append_command_message(out, error);
            assert(out@ =~= old(out)@ + page_message(*e));
        },
    }
}

impl ObjectError {
    /// The description of the error.
    pub fn message(&self) -> (s: String)
        ensures
            s@ == object_message(*self),
    {
        let mut out: Vec<char> = Vec::new();
        append_object_message(&mut out, self);
        assert(out@ =~= object_message(*self));
        string_from_chars(out.as_slice())
    }
}

impl CommandError {
    /// The description of the error.
    pub fn message(&self) -> (s: String)
        ensures
            s@ == command_message(*self),
    {
        let mut out: Vec<char> = Vec::new();
        append_command_message(&mut out, self);
        assert(out@ =~= command_message(*self));
        string_from_chars(out.as_slice())
    }
}

impl PageError {
    /// The description of the error.
    pub fn message(&self) -> (s: String)
        ensures
            s@ == page_message(*self),
    {
        let mut out: Vec<char> = Vec::new();
        append_page_message(&mut out, self);
        assert(out@ =~= page_message(*self));
        string_from_chars(out.as_slice())
    }
}

} // verus!
