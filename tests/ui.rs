use trooper::ui::{ActivePanel, Ui};

#[test]
fn scroll_past_end() {
    let mut ui = Ui::new();
    ui.height = 30;

    ui.scroll_abs(60, 60, &ActivePanel::Main);
    assert!(
        ui.scroll_y + ui.cursor_y == 59,
        "Scrolled to index {}",
        ui.scroll_y + ui.cursor_y
    );

    ui.scroll(1, 60, &ActivePanel::Main);
    assert!(
        ui.scroll_y + ui.cursor_y == 59,
        "Scrolled to index {}",
        ui.scroll_y + ui.cursor_y
    );
}

#[test]
fn scrolling_moves_the_window_at_its_edges() {
    let mut ui = Ui::new();
    ui.height = 3;
    ui.scroll(1, 10, &ActivePanel::Main);
    ui.scroll(1, 10, &ActivePanel::Main);
    assert_eq!((ui.cursor_y, ui.scroll_y), (2, 0));
    ui.scroll(1, 10, &ActivePanel::Main);
    assert_eq!((ui.cursor_y, ui.scroll_y), (2, 1));
    ui.scroll(-3, 10, &ActivePanel::Main);
    assert_eq!((ui.cursor_y, ui.scroll_y), (0, 0));
    ui.scroll(-1, 10, &ActivePanel::Main);
    assert_eq!((ui.cursor_y, ui.scroll_y), (0, 0));
}

#[test]
fn scrolling_an_empty_list_stays_at_zero() {
    let mut ui = Ui::new();
    ui.height = 5;
    ui.scroll(1, 0, &ActivePanel::Main);
    assert_eq!((ui.cursor_y, ui.scroll_y), (0, 0));
    ui.scroll_abs(4, 0, &ActivePanel::Bookmarks);
    assert_eq!((ui.bookmark_y, ui.bookmark_scroll_y), (0, 0));
}

#[test]
fn bookmark_list_scrolls_on_its_own() {
    let mut ui = Ui::new();
    ui.height = 2;
    ui.scroll_abs(4, 5, &ActivePanel::Bookmarks);
    assert_eq!((ui.bookmark_y, ui.bookmark_scroll_y), (1, 3));
    assert_eq!((ui.cursor_y, ui.scroll_y), (0, 0));
}
