use uwu::pages::{sorted_unique, PageAction, PageBook};
use uwu::state::{
    CanvasShapeType, CanvasTool, DynamicBrushWidthMode, GraphicsApi, InsertTab, MarqueeMatchMode, OptimizationPolicy,
    ThemeMode, WindowMode,
};

/// The pages in order, with the edited one in its place.
fn book(b: &PageBook<String>) -> Vec<String> {
    let mut v = b.pages.clone();
    v[b.current_page] = b.live.clone();
    v
}

fn three_pages() -> PageBook<String> {
    let mut b = PageBook::new("a".to_string());
    b.add_new_page_state("b".to_string());
    b.add_new_page_state("c".to_string());
    b
}

#[test]
fn test_new_and_add_pages() {
    let b = three_pages();
    assert_eq!(b.current_page, 2);
    assert_eq!(b.live, "c");
    assert_eq!(book(&b), vec!["a", "b", "c"]);
}

#[test]
fn test_switch_keeps_every_page() {
    let mut b = three_pages();
    b.live.push('!');
    b.switch_to_page_state(0);
    assert_eq!(b.live, "a");
    assert_eq!(book(&b), vec!["a", "b", "c!"]);
    b.switch_to_page_state(0);
    assert_eq!(book(&b), vec!["a", "b", "c!"]);
}

#[test]
fn test_page_actions() {
    let mut b = three_pages();
    b.apply_page_action(PageAction::Next, String::new());
    assert_eq!(b.current_page, 2);
    b.apply_page_action(PageAction::Previous, String::new());
    assert_eq!(b.current_page, 1);
    assert_eq!(b.live, "b");
    b.apply_page_action(PageAction::Previous, String::new());
    b.apply_page_action(PageAction::Previous, String::new());
    assert_eq!(b.current_page, 0);
    b.apply_page_action(PageAction::Nothing, "x".to_string());
    assert_eq!(book(&b), vec!["a", "b", "c"]);
    b.apply_page_action(PageAction::New, "d".to_string());
    assert_eq!(b.current_page, 3);
    assert_eq!(book(&b), vec!["a", "b", "c", "d"]);
}

#[test]
fn test_reorder_pages_moves_and_follows_current() {
    let mut b = three_pages();
    b.switch_to_page_state(1);
    // Drag page 0 to the end.
    b.reorder_pages(0, usize::MAX);
    assert_eq!(book(&b), vec!["b", "c", "a"]);
    assert_eq!(b.live, "b");
    assert_eq!(b.current_page, 0);
    // Drag the last page before row 0.
    b.reorder_pages(2, 0);
    assert_eq!(book(&b), vec!["a", "b", "c"]);
    assert_eq!(b.live, "b");
    // A row at or past the end of the shortened list means the end.
    b.reorder_pages(1, 2);
    assert_eq!(book(&b), vec!["a", "c", "b"]);
    assert_eq!(b.live, "b");
    assert_eq!(b.current_page, 2);
    // Dropping a page before the row after it leaves the order alone.
    b.reorder_pages(0, 1);
    assert_eq!(book(&b), vec!["a", "c", "b"]);
}

#[test]
fn test_remove_pages() {
    let mut b = three_pages();
    b.add_new_page_state("d".to_string());
    b.switch_to_page_state(2);
    b.remove_pages(&vec![3, 0, 3]);
    assert_eq!(book(&b), vec!["b", "c"]);
    assert_eq!(b.live, "c");
    assert_eq!(b.current_page, 1);

    // Deleting the edited page opens the one before it.
    b.remove_pages(&vec![1]);
    assert_eq!(book(&b), vec!["b"]);
    assert_eq!(b.current_page, 0);
    assert_eq!(b.live, "b");
}

#[test]
fn test_remove_first_page_while_on_it() {
    let mut b = three_pages();
    b.switch_to_page_state(0);
    b.remove_pages(&vec![0]);
    assert_eq!(book(&b), vec!["b", "c"]);
    assert_eq!(b.current_page, 0);
    assert_eq!(b.live, "b");
}

#[test]
fn test_sorted_unique() {
    assert_eq!(sorted_unique(&vec![3, 1, 3, 0, 1]), vec![0, 1, 3]);
    assert_eq!(sorted_unique(&vec![]), Vec::<usize>::new());
}

#[test]
fn test_state_defaults() {
    assert_eq!(DynamicBrushWidthMode::default(), DynamicBrushWidthMode::Disabled);
    assert_eq!(CanvasTool::default(), CanvasTool::Brush);
    assert_eq!(InsertTab::default(), InsertTab::Shape);
    assert_eq!(WindowMode::default(), WindowMode::BorderlessFullscreen);
    assert_eq!(ThemeMode::default(), ThemeMode::Dark);
    assert_eq!(OptimizationPolicy::default(), OptimizationPolicy::Performance);
    assert_eq!(MarqueeMatchMode::default(), MarqueeMatchMode::Overlapping);
    assert_eq!(GraphicsApi::platform_default(true), GraphicsApi::Dx12);
    assert_eq!(GraphicsApi::platform_default(false), GraphicsApi::Auto);
    assert_ne!(CanvasShapeType::Line, CanvasShapeType::Arrow);
}

#[test]
fn test_theme_is_dark() {
    assert!(ThemeMode::System.is_dark(None));
    assert!(!ThemeMode::System.is_dark(Some(false)));
    assert!(ThemeMode::System.is_dark(Some(true)));
    assert!(!ThemeMode::Light.is_dark(Some(true)));
    assert!(ThemeMode::Dark.is_dark(Some(false)));
}

#[test]
fn test_switch_away_and_back_restores_slots() {
    let mut b = three_pages();
    let slots = b.pages.clone();
    b.switch_to_page_state(0);
    assert_eq!(b.pages, vec![String::new(), "b".to_string(), "c".to_string()]);
    b.switch_to_page_state(2);
    assert_eq!(b.pages, slots);
    assert_eq!(b.live, "c");
}
