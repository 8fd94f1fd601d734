use screen_grabbing_utility::first_window::{CropStep, FirstWindow, ImageFormat, TimerOptions};

#[test]
fn timer_options_have_their_delays_and_names() {
    assert_eq!(TimerOptions::NoTimer.seconds(), 0);
    assert_eq!(TimerOptions::ThreeSeconds.seconds(), 3);
    assert_eq!(TimerOptions::FiveSeconds.seconds(), 5);
    assert_eq!(TimerOptions::TenSeconds.seconds(), 10);
    assert_eq!(TimerOptions::NoTimer.label(), "No Timer");
    assert_eq!(TimerOptions::TenSeconds.label(), "10 Seconds");
}

#[test]
fn selecting_a_timer_sets_the_delay() {
    let mut w = FirstWindow::new();
    assert_eq!(w.selected_timer, TimerOptions::NoTimer);
    let label = w.select_timer(TimerOptions::FiveSeconds);
    assert_eq!(label, "5 Seconds");
    assert_eq!(w.selected_timer, TimerOptions::FiveSeconds);
    assert_eq!(w.selected_timer_numeric, 5);
    assert_eq!(w.selected_window, 1);
}

#[test]
fn image_format_extensions() {
    assert_eq!(ImageFormat::Jpg.extension(), "jpg");
    assert_eq!(ImageFormat::Png.extension(), "png");
    assert_eq!(ImageFormat::Gif.extension(), "gif");
    assert_eq!(FirstWindow::new().image_format, ImageFormat::Jpg);
}

#[test]
fn capture_screens_lead_to_editing() {
    let mut w = FirstWindow::new();
    w.advance_capture();
    assert_eq!(w.selected_window, 1);
    w.selected_window = 3;
    w.advance_capture();
    assert_eq!(w.selected_window, 4);
    w.advance_capture();
    assert_eq!(w.selected_window, 5);
    w.advance_capture();
    assert_eq!(w.selected_window, 5);
}

#[test]
fn leaving_settings_depends_on_the_capture() {
    let mut w = FirstWindow::new();
    w.selected_window = 6;
    w.leave_settings(false);
    assert_eq!(w.selected_window, 1);
    w.selected_window = 6;
    w.leave_settings(true);
    assert_eq!(w.selected_window, 5);
}

#[test]
fn cutting_a_clean_capture_starts_at_once() {
    let mut w = FirstWindow::new();
    let step = w.request_crop(false);
    assert_eq!(step, CropStep::Cutting { flatten: false });
    assert!(w.cut_clicked);
    assert_eq!(w.ready_to_cut, None);
    w.end_crop();
    assert!(!w.cut_clicked);
    assert!(!w.ready_to_crop);
}

#[test]
fn cutting_over_annotations_asks_first() {
    let mut w = FirstWindow::new();
    assert_eq!(w.request_crop(true), CropStep::AwaitingConfirmation);
    assert_eq!(w.ready_to_cut, Some(false));
    assert!(!w.cut_clicked);
    // asking again while the question is open changes nothing
    assert_eq!(w.request_crop(true), CropStep::AwaitingConfirmation);
    assert_eq!(w.ready_to_cut, Some(false));
    w.answer_crop_question(true);
    assert_eq!(w.ready_to_cut, Some(true));
    assert!(w.ready_to_crop);
    assert_eq!(w.request_crop(true), CropStep::Cutting { flatten: true });
    assert!(w.cut_clicked);
    w.end_crop();
    assert_eq!(w.ready_to_cut, None);
    assert!(!w.cut_clicked);
    assert!(!w.ready_to_crop);
}

#[test]
fn declining_the_question_withdraws_it() {
    let mut w = FirstWindow::new();
    assert_eq!(w.request_crop(true), CropStep::AwaitingConfirmation);
    w.answer_crop_question(false);
    assert_eq!(w.ready_to_cut, None);
    assert!(!w.ready_to_crop);
    assert!(!w.cut_clicked);
}

#[test]
fn start_screen_buttons() {
    let mut w = FirstWindow::new();
    w.select_timer(TimerOptions::ThreeSeconds);
    assert_eq!(w.start_capture(), Some(3));
    assert_eq!(w.selected_window, 2);
    // the capture button acts on the start screen only
    assert_eq!(w.start_capture(), None);
    assert_eq!(w.selected_window, 2);
    w.open_settings();
    assert_eq!(w.selected_window, 2);
    w.finish_selection();
    assert_eq!(w.selected_window, 3);
    w.finish_selection();
    assert_eq!(w.selected_window, 3);
    let mut v = FirstWindow::new();
    v.open_settings();
    assert_eq!(v.selected_window, 6);
}

#[test]
fn editing_without_a_capture_goes_back() {
    let mut w = FirstWindow::new();
    w.drop_unusable_capture();
    assert_eq!(w.selected_window, 1);
    w.selected_window = 5;
    w.open_settings();
    assert_eq!(w.selected_window, 6);
    w.leave_settings(true);
    w.drop_unusable_capture();
    assert_eq!(w.selected_window, 1);
}
