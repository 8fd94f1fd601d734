use screen_grabbing_utility::pp_no_stroke::{Painting, PpOptions};
use screen_grabbing_utility::post_processing;
use screen_grabbing_utility::text::{contains_text, remove_text};

type Canvas = Painting<&'static str, &'static str, &'static str, &'static str, &'static str, u32>;

#[test]
fn new_canvas_is_empty() {
    let p = Canvas::new();
    assert!(!p.can_undo());
    assert!(!p.can_redo());
    assert_eq!(p.last_removed(), None);
    assert!(p.lines().is_empty() && p.arrows().is_empty() && p.arrows_pixels().is_empty());
    assert!(p.circles().is_empty() && p.squares().is_empty() && p.texts().is_empty());
}

#[test]
fn undo_then_redo_restores_a_circle() {
    let mut p = Canvas::new();
    p.add_circle("c1");
    p.add_square("s1");
    p.add_circle("c2");
    p.undo();
    assert_eq!(p.circles(), &vec!["c1"]);
    assert_eq!(p.last_removed(), Some(PpOptions::Circle));
    assert!(p.can_redo());
    p.redo();
    assert_eq!(p.circles(), &vec!["c1", "c2"]);
    assert_eq!(p.squares(), &vec!["s1"]);
    assert!(!p.can_redo());
    assert_eq!(p.last_removed(), None);
}

#[test]
fn undo_goes_back_in_drawing_order() {
    let mut p = Canvas::new();
    p.add_text("t1");
    p.add_square("s1");
    p.add_text("t2");
    p.undo();
    p.undo();
    assert_eq!(p.texts(), &vec!["t1"]);
    assert!(p.squares().is_empty());
    assert_eq!(p.last_removed(), Some(PpOptions::Square));
    p.redo();
    assert_eq!(p.squares(), &vec!["s1"]);
    assert_eq!(p.last_removed(), Some(PpOptions::Text));
    p.redo();
    assert_eq!(p.texts(), &vec!["t1", "t2"]);
}

#[test]
fn undoing_an_arrow_drops_its_outline() {
    let mut p = Canvas::new();
    p.add_arrow("a1");
    p.push_arrow_pixels(1);
    p.add_arrow("a2");
    p.push_arrow_pixels(2);
    p.undo();
    assert_eq!(p.arrows(), &vec!["a1"]);
    assert_eq!(p.arrows_pixels(), &vec![1]);
    p.redo();
    assert_eq!(p.arrows(), &vec!["a1", "a2"]);
    assert_eq!(p.arrows_pixels(), &vec![1]);
}

#[test]
fn saving_clears_drawings_but_keeps_redo() {
    let mut p = Canvas::new();
    p.push_line("l1");
    p.add_circle("c1");
    p.add_arrow("a1");
    p.push_arrow_pixels(7);
    p.add_square("s1");
    p.undo();
    p.clear_on_save();
    assert!(!p.can_undo());
    assert!(p.lines().is_empty() && p.arrows().is_empty() && p.arrows_pixels().is_empty());
    assert!(p.circles().is_empty() && p.squares().is_empty() && p.texts().is_empty());
    assert!(p.can_redo());
    p.redo();
    assert_eq!(p.squares(), &vec!["s1"]);
}

#[test]
fn free_hand_lines() {
    let mut p = Canvas::new();
    assert_eq!(p.pop_line(), None);
    p.push_line("l1");
    p.push_line("l2");
    assert_eq!(p.pop_line(), Some("l2"));
    assert_eq!(p.lines(), &vec!["l1"]);
    p.clear_lines();
    assert!(p.lines().is_empty());
    assert!(!p.can_undo());
}

#[test]
fn tool_sets() {
    let tools = [
        PpOptions::Arrow,
        PpOptions::Circle,
        PpOptions::Square,
        PpOptions::Text,
        PpOptions::Painting,
        PpOptions::Cut,
    ];
    assert_eq!(tools.len(), 6);
    assert_ne!(PpOptions::Cut, PpOptions::Painting);
    let stroke_tools = [
        post_processing::PpOptions::Arrow,
        post_processing::PpOptions::Circle,
        post_processing::PpOptions::Square,
        post_processing::PpOptions::Text,
        post_processing::PpOptions::Painting,
    ];
    assert_eq!(stroke_tools[4], post_processing::PpOptions::Painting);
}

#[test]
fn removing_key_name_decorations() {
    assert_eq!(remove_text("{Num4}", "{"), "Num4}");
    assert_eq!(remove_text("Num4}", "}"), "Num4");
    assert_eq!(remove_text("Num4", "Num"), "4");
    assert_eq!(remove_text("NumNumA", "Num"), "A");
    assert_eq!(remove_text("NuNumm", "Num"), "Num");
    assert_eq!(remove_text("abc", ""), "abc");
}

#[test]
fn finding_text() {
    assert!(contains_text("alt: true, ctrl: false", "alt: true"));
    assert!(!contains_text("alt: false", "alt: true"));
    assert!(contains_text("x", ""));
    assert!(!contains_text("", "a"));
}
