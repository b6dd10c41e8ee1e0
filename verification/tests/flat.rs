use uwu::flat::{
    checked_pixel_bytes, shape_type_from_flat, shape_type_to_flat, validate_history_command, validate_object,
    CommandCheck, CommandError, ObjectCheck, ObjectError, PageError, PageStateCheck, ShapeTypeFlat, WidthCheck,
};
use uwu::state::CanvasShapeType;

// Stored objects as the file holds them, and what validation reads of them.

enum StrokeWidthFlat {
    Fixed(f32),
    Dynamic(Vec<f32>),
}

struct StrokeFlat {
    points: Vec<[f32; 2]>,
    width: StrokeWidthFlat,
    #[allow(dead_code)]
    color: [u8; 4],
    base_width: f32,
    #[allow(dead_code)]
    shape: Option<ShapeTypeFlat>,
}

struct ImageFlat {
    pos: [f32; 2],
    size: [f32; 2],
    aspect_ratio: f32,
    image_data: Vec<u8>,
    image_size: [u32; 2],
}

enum CanvasObjectFlat {
    Stroke(StrokeFlat),
    Image(ImageFlat),
}

struct CanvasStateFlat {
    objects: Vec<CanvasObjectFlat>,
}

struct HistoryFlat {
    undo_stack: Vec<CommandCheck>,
    redo_stack: Vec<CommandCheck>,
}

struct PageStateFlat {
    canvas: CanvasStateFlat,
    history: HistoryFlat,
    view_offset: [f32; 2],
    view_zoom: f32,
}

fn finite_pos(p: &[f32; 2]) -> bool {
    p[0].is_finite() && p[1].is_finite()
}

fn object_check(obj: &CanvasObjectFlat) -> ObjectCheck {
    match obj {
        CanvasObjectFlat::Stroke(s) => ObjectCheck::Stroke {
            point_count: s.points.len(),
            points_finite: s.points.iter().all(finite_pos),
            width: match &s.width {
                StrokeWidthFlat::Fixed(w) => WidthCheck::Fixed {
                    valid: w.is_finite() && *w >= 0.0,
                },
                StrokeWidthFlat::Dynamic(ws) => WidthCheck::Dynamic {
                    count: ws.len(),
                    all_valid: ws.iter().all(|w| w.is_finite() && *w >= 0.0),
                },
            },
            base_width_valid: s.base_width.is_finite() && s.base_width >= 0.0,
        },
        CanvasObjectFlat::Image(img) => ObjectCheck::Image {
            width: img.image_size[0],
            height: img.image_size[1],
            data_len: img.image_data.len(),
            placement_valid: finite_pos(&img.pos)
                && img.size[0].is_finite()
                && img.size[1].is_finite()
                && img.size[0] > 0.0
                && img.size[1] > 0.0,
            aspect_ratio_valid: img.aspect_ratio.is_finite() && img.aspect_ratio > 0.0,
        },
    }
}

impl PageStateFlat {
    fn validate(&self) -> Result<(), PageError> {
        let check = PageStateCheck {
            view_valid: finite_pos(&self.view_offset) && self.view_zoom.is_finite() && self.view_zoom > 0.0,
            objects: self.canvas.objects.iter().map(object_check).collect(),
            undo_stack: self.history.undo_stack.clone(),
            redo_stack: self.history.redo_stack.clone(),
        };
        check.validate()
    }
}

fn make_valid_flat() -> PageStateFlat {
    PageStateFlat {
        canvas: CanvasStateFlat {
            objects: vec![CanvasObjectFlat::Stroke(StrokeFlat {
                points: vec![[0.0, 0.0], [1.0, 1.0]],
                width: StrokeWidthFlat::Fixed(3.0),
                color: [255, 255, 255, 255],
                base_width: 3.0,
                shape: None,
            })],
        },
        history: HistoryFlat {
            undo_stack: Vec::new(),
            redo_stack: Vec::new(),
        },
        view_offset: [0.0, 0.0],
        view_zoom: 1.0,
    }
}

#[test]
fn test_validate_rejects_empty_stroke_points() {
    let mut flat = make_valid_flat();
    if let CanvasObjectFlat::Stroke(stroke) = &mut flat.canvas.objects[0] {
        stroke.points.clear();
    }
    assert!(flat.validate().is_err());
}

#[test]
fn test_validate_rejects_dynamic_width_mismatch() {
    let mut flat = make_valid_flat();
    if let CanvasObjectFlat::Stroke(stroke) = &mut flat.canvas.objects[0] {
        stroke.width = StrokeWidthFlat::Dynamic(vec![1.0]);
    }
    assert!(flat.validate().is_err());
}

#[test]
fn test_validate_rejects_bad_image_data_size() {
    let mut flat = make_valid_flat();
    flat.canvas.objects[0] = CanvasObjectFlat::Image(ImageFlat {
        pos: [0.0, 0.0],
        size: [10.0, 10.0],
        aspect_ratio: 1.0,
        image_data: vec![0u8; 3], // 1x1 RGBA needs 4 bytes
        image_size: [1, 1],
    });
    assert!(flat.validate().is_err());
}

#[test]
fn test_validate_rejects_non_finite_zoom() {
    let mut flat = make_valid_flat();
    flat.view_zoom = f32::NAN;
    assert!(flat.validate().is_err());
}

#[test]
fn test_validate_accepts_valid_flat() {
    assert!(make_valid_flat().validate().is_ok());
}

#[test]
fn test_stroke_shape_round_trip() {
    let shape = Some(CanvasShapeType::Rectangle);
    let flat = shape.map(shape_type_to_flat);
    let back = flat.map(shape_type_from_flat);
    assert_eq!(back, Some(CanvasShapeType::Rectangle));
}

#[test]
fn test_shape_type_round_trip_all() {
    for t in [
        CanvasShapeType::Line,
        CanvasShapeType::Arrow,
        CanvasShapeType::Rectangle,
        CanvasShapeType::Triangle,
        CanvasShapeType::Circle,
    ] {
        assert_eq!(shape_type_from_flat(shape_type_to_flat(t)), t);
    }
    assert!(matches!(shape_type_to_flat(CanvasShapeType::Circle), ShapeTypeFlat::Circle));
}

fn stroke(points: usize, width: WidthCheck) -> ObjectCheck {
    ObjectCheck::Stroke {
        point_count: points,
        points_finite: true,
        width,
        base_width_valid: true,
    }
}

#[test]
fn test_validate_object_errors_in_order() {
    assert_eq!(
        validate_object(&stroke(0, WidthCheck::Fixed { valid: false })),
        Err(ObjectError::NoPoints)
    );
    assert_eq!(
        validate_object(&ObjectCheck::Stroke {
            point_count: 2,
            points_finite: false,
            width: WidthCheck::Fixed { valid: true },
            base_width_valid: true,
        }),
        Err(ObjectError::NonFinitePoints)
    );
    assert_eq!(
        validate_object(&stroke(2, WidthCheck::Fixed { valid: false })),
        Err(ObjectError::InvalidFixedWidth)
    );
    assert_eq!(
        validate_object(&stroke(2, WidthCheck::Dynamic { count: 0, all_valid: true })),
        Err(ObjectError::EmptyDynamicWidths)
    );
    assert_eq!(
        validate_object(&stroke(2, WidthCheck::Dynamic { count: 1, all_valid: true })),
        Err(ObjectError::WidthCountMismatch { widths: 1, points: 2 })
    );
    assert_eq!(
        validate_object(&stroke(2, WidthCheck::Dynamic { count: 2, all_valid: false })),
        Err(ObjectError::InvalidDynamicWidths)
    );
    assert_eq!(
        validate_object(&ObjectCheck::Stroke {
            point_count: 2,
            points_finite: true,
            width: WidthCheck::Dynamic { count: 2, all_valid: true },
            base_width_valid: false,
        }),
        Err(ObjectError::InvalidBaseWidth)
    );
    assert_eq!(validate_object(&stroke(2, WidthCheck::Dynamic { count: 2, all_valid: true })), Ok(()));
    assert_eq!(
        validate_object(&ObjectCheck::Text { placement_valid: false }),
        Err(ObjectError::InvalidText)
    );
    assert_eq!(validate_object(&ObjectCheck::Text { placement_valid: true }), Ok(()));
    assert_eq!(
        validate_object(&ObjectCheck::Shape { placement_valid: false }),
        Err(ObjectError::InvalidShape)
    );
}

fn image(width: u32, height: u32, data_len: usize, placement: bool, aspect: bool) -> ObjectCheck {
    ObjectCheck::Image {
        width,
        height,
        data_len,
        placement_valid: placement,
        aspect_ratio_valid: aspect,
    }
}

#[test]
fn test_validate_image_checks() {
    assert_eq!(validate_object(&image(0, 5, 0, true, true)), Err(ObjectError::ZeroImageDimension));
    assert_eq!(
        validate_object(&image(2, 3, 23, true, true)),
        Err(ObjectError::ImageDataLength { len: 23, width: 2, height: 3 })
    );
    assert_eq!(
        validate_object(&image(2, 3, 24, false, true)),
        Err(ObjectError::InvalidImagePlacement)
    );
    assert_eq!(
        validate_object(&image(2, 3, 24, true, false)),
        Err(ObjectError::InvalidAspectRatio)
    );
    assert_eq!(validate_object(&image(2, 3, 24, true, true)), Ok(()));
    assert_eq!(checked_pixel_bytes(2, 3), Some(24));
    assert_eq!(checked_pixel_bytes(0, 7), Some(0));
}

#[test]
fn test_validate_history_command_errors() {
    let bad = stroke(0, WidthCheck::Fixed { valid: true });
    let good = stroke(1, WidthCheck::Fixed { valid: true });
    assert_eq!(
        validate_history_command(&CommandCheck::AddObject { object: bad }),
        Err(CommandError::Object(ObjectError::NoPoints))
    );
    assert_eq!(validate_history_command(&CommandCheck::RemoveObject { object: good }), Ok(()));
    assert_eq!(
        validate_history_command(&CommandCheck::ClearObjects { objects: vec![good, good, bad] }),
        Err(CommandError::ClearedObject { index: 2, error: ObjectError::NoPoints })
    );
    assert_eq!(
        validate_history_command(&CommandCheck::MoveObject { positions_finite: false }),
        Err(CommandError::NonFiniteMove)
    );
    assert_eq!(
        validate_history_command(&CommandCheck::TransformObject { values_finite: false }),
        Err(CommandError::NonFiniteTransform)
    );
    assert_eq!(
        validate_history_command(&CommandCheck::ReplaceObjects { old: vec![good], new: vec![good, bad] }),
        Err(CommandError::ReplacedObject { index: 2, error: ObjectError::NoPoints })
    );
    assert_eq!(
        validate_history_command(&CommandCheck::ReplaceObjects { old: vec![], new: vec![] }),
        Ok(())
    );
}

#[test]
fn test_page_validation_order_and_messages() {
    let good = stroke(1, WidthCheck::Fixed { valid: true });
    let bad = stroke(0, WidthCheck::Fixed { valid: true });
    let page = PageStateCheck {
        view_valid: true,
        objects: vec![good, bad],
        undo_stack: vec![CommandCheck::MoveObject { positions_finite: false }],
        redo_stack: vec![],
    };
    let e = page.validate().unwrap_err();
    assert_eq!(e, PageError::Object { index: 1, error: ObjectError::NoPoints });
    assert_eq!(e.message(), "object 1: stroke has no points");

    let page = PageStateCheck {
        view_valid: true,
        objects: vec![good],
        undo_stack: vec![CommandCheck::AddObject { object: good }],
        redo_stack: vec![CommandCheck::ClearObjects { objects: vec![good, bad] }],
    };
    let e = page.validate().unwrap_err();
    assert_eq!(e.message(), "redo history command 0: clear object 1: stroke has no points");

    let page = PageStateCheck {
        view_valid: false,
        objects: vec![bad],
        undo_stack: vec![],
        redo_stack: vec![],
    };
    assert_eq!(
        page.validate().unwrap_err().message(),
        "view state contains non-finite or invalid values"
    );

    let page = PageStateCheck {
        view_valid: true,
        objects: vec![],
        undo_stack: vec![CommandCheck::AddObject { object: good }, CommandCheck::TransformObject { values_finite: false }],
        redo_stack: vec![],
    };
    assert_eq!(
        page.validate().unwrap_err().message(),
        "undo history command 1: transform command contains non-finite values"
    );
}

#[test]
fn test_object_error_messages() {
    assert_eq!(
        ObjectError::WidthCountMismatch { widths: 1, points: 2 }.message(),
        "stroke dynamic width count 1 does not match point count 2"
    );
    assert_eq!(
        ObjectError::ImageDataLength { len: 3, width: 1, height: 1 }.message(),
        "image data length 3 does not match dimensions 1x1"
    );
    assert_eq!(ObjectError::InvalidAspectRatio.message(), "image has an invalid aspect ratio");
    assert_eq!(
        CommandError::ReplacedObject { index: 4, error: ObjectError::InvalidShape }.message(),
        "replaced object 4: shape has invalid position or size"
    );
    assert_eq!(CommandError::NonFiniteMove.message(), "move command contains non-finite positions");
}
