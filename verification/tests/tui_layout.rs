use chat_cafe::tui::confirm_exit::{ConfirmExitPopup, PopupStyle};
use chat_cafe::tui::layout::{
    centered_rect, centering, chat_room_layout, inner_area, make_keybindings_footer, split_layout, wrap_text,
    Area, FooterStyle, SizeConstraint, SplitDirection,
};
use chat_cafe::tui::prompt::InputPrompt;
use chat_cafe::tui::users_list::{ActiveUsersList, ItemStyle};

#[test]
fn wrap_breaks_at_word_boundaries() {
    assert_eq!(wrap_text("hello world", 5), ("hello\n \nworld".to_string(), 3));
    assert_eq!(wrap_text("hello world", 11), ("hello world".to_string(), 1));
    assert_eq!(wrap_text("a b", 2), ("a \nb".to_string(), 2));
}

#[test]
fn wrap_splits_long_words() {
    assert_eq!(wrap_text("abcdefgh", 3), ("abc\ndef\ngh".to_string(), 3));
    assert_eq!(wrap_text("ab cdefgh", 4), ("ab c\ndefg\nh".to_string(), 3));
    // a word that ends exactly at a line end leaves an uncounted empty line
    assert_eq!(wrap_text("abcdef", 3), ("abc\ndef\n".to_string(), 2));
}

#[test]
fn wrap_edge_cases() {
    assert_eq!(wrap_text("", 10), ("".to_string(), 1));
    assert_eq!(wrap_text("abc", 0), ("abc".to_string(), 1));
    assert_eq!(wrap_text("a\nb c", 3), ("a\nb\n c".to_string(), 2));
    assert_eq!(wrap_text("héllo wörld", 5), ("héllo\n \nwörld".to_string(), 3));
}

#[test]
fn wrapped_text_keeps_every_character() {
    let text = "the quick brown fox jumps over the lazy dog, then again";
    for width in 1..20 {
        let (wrapped, lines) = wrap_text(text, width);
        let back: String = wrapped.chars().filter(|c| *c != '\n').collect();
        assert_eq!(back, text);
        assert!(lines >= 1);
        for line in wrapped.split('\n') {
            assert!(line.chars().count() <= width);
        }
    }
}

#[test]
fn prompt_text_and_height() {
    let p = InputPrompt::new("hi");
    assert_eq!(p.text(), "> hi\u{2588}");
    assert_eq!(p.lines_required(10), 3);
    assert_eq!(p.lines_required(0), 3);
    let long = "x".repeat(30);
    assert_eq!(InputPrompt::new(&long).lines_required(5), 7);
    let mid = "x".repeat(8);
    // "> " + 8 x + cursor: "> xxx" / "xxxxx" / "█" -> 3 lines
    assert_eq!(InputPrompt::new(&mid).lines_required(5), 5);
}

#[test]
fn users_list_heading_and_entries() {
    let users = vec!["ann".to_string(), "bob".to_string()];
    let list = ActiveUsersList::new(&users);
    assert_eq!(list.heading(), " Users (2) ");
    let list = list.title("Connected Users").own_username(Some("bob"));
    assert_eq!(list.heading(), " Connected Users (2) ");
    let entries = list.entries();
    assert_eq!(entries.len(), 2);
    assert_eq!(entries[0].name, "ann");
    assert!(!entries[0].is_own);
    assert!(entries[1].is_own);
    let none: Vec<String> = Vec::new();
    let empty = ActiveUsersList::new(&none);
    assert_eq!(empty.heading(), " Users (0) ");
    assert!(empty.entries().is_empty());
    let many: Vec<String> = (0..12).map(|i| format!("u{}", i)).collect();
    assert_eq!(ActiveUsersList::new(&many).heading(), " Users (12) ");
}

#[test]
fn exit_popup_size() {
    assert_eq!(ConfirmExitPopup::size(), (46, 8));
}

#[test]
fn centered_rect_sits_in_the_middle() {
    let screen = Area { x: 0, y: 0, width: 100, height: 30 };
    assert_eq!(centered_rect(46, 8, screen), Area { x: 27, y: 11, width: 46, height: 8 });
    let offset = Area { x: 10, y: 5, width: 20, height: 10 };
    assert_eq!(centered_rect(10, 4, offset), Area { x: 15, y: 8, width: 10, height: 4 });
}

#[test]
fn centered_rect_larger_than_screen_is_clipped() {
    let small = Area { x: 0, y: 0, width: 20, height: 5 };
    let c = centered_rect(46, 8, small);
    assert_eq!((c.x, c.y), (0, 0));
    assert!(c.width <= 20 && c.height <= 5);
}

#[test]
fn footer_lists_bindings_with_separators() {
    let spans = make_keybindings_footer(&[("Enter", "send", 1u8), ("Ctrl+Q", "exit", 2u8)]);
    let texts: Vec<&str> = spans.iter().map(|s| s.text.as_str()).collect();
    assert_eq!(texts, vec!["Enter", " send", "  |  ", "Ctrl+Q", " exit"]);
    assert!(matches!(spans[0].style, FooterStyle::Key(1)));
    assert!(matches!(spans[1].style, FooterStyle::Description));
    assert!(matches!(spans[2].style, FooterStyle::Separator));
    assert!(matches!(spans[3].style, FooterStyle::Key(2)));
    let none: [(&str, &str, u8); 0] = [];
    assert!(make_keybindings_footer(&none).is_empty());
}

#[test]
fn centering_constraints_split_the_room() {
    assert_eq!(
        centering(100, 46),
        vec![SizeConstraint::Length(27), SizeConstraint::Length(46), SizeConstraint::Min(0)]
    );
    assert_eq!(
        centering(5, 8),
        vec![SizeConstraint::Length(0), SizeConstraint::Length(8), SizeConstraint::Min(0)]
    );
}

#[test]
fn chat_room_shows_users_column_on_wide_screens() {
    let wide = chat_room_layout(80, 4);
    assert_eq!(
        wide.rows,
        vec![
            SizeConstraint::Length(1),
            SizeConstraint::Min(1),
            SizeConstraint::Length(4),
            SizeConstraint::Length(1)
        ]
    );
    assert_eq!(wide.users_column, Some(25));
    assert_eq!(chat_room_layout(60, 3).users_column, Some(25));
    assert_eq!(chat_room_layout(59, 3).users_column, None);
}

#[test]
fn user_items_mark_the_own_name() {
    let users = vec!["ann".to_string(), "bob".to_string()];
    let list = ActiveUsersList::new(&users).own_username(Some("bob"));
    let items: Vec<Vec<(String, ItemStyle)>> = list
        .items()
        .into_iter()
        .map(|i| i.into_iter().map(|s| (s.text, s.style)).collect())
        .collect();
    assert_eq!(
        items,
        vec![
            vec![("• ".to_string(), ItemStyle::PeerBullet), ("ann".to_string(), ItemStyle::PeerName)],
            vec![
                ("• ".to_string(), ItemStyle::OwnBullet),
                ("bob".to_string(), ItemStyle::OwnName),
                (" (you)".to_string(), ItemStyle::YouMark)
            ],
        ]
    );
    let none: Vec<String> = Vec::new();
    let empty = ActiveUsersList::new(&none).items();
    assert_eq!(empty.len(), 1);
    assert_eq!(empty[0][0].text, "No other users online. Be the first to join!");
    assert_eq!(empty[0][0].style, ItemStyle::Notice);
}

#[test]
fn exit_popup_text() {
    assert_eq!(ConfirmExitPopup::title(), " Confirm Exit ");
    let lines: Vec<Vec<(String, PopupStyle)>> = ConfirmExitPopup::lines()
        .into_iter()
        .map(|l| l.into_iter().map(|s| (s.text, s.style)).collect())
        .collect();
    assert_eq!(lines.len(), 4);
    assert!(lines[0].is_empty() && lines[2].is_empty());
    assert_eq!(lines[1], vec![("Are you sure you want to exit?".to_string(), PopupStyle::Text)]);
    let answer: String = lines[3].iter().map(|(t, _)| t.as_str()).collect();
    assert_eq!(answer, "  [Y] Yes, Exit   [N] No, Stay  ");
    assert_eq!(lines[3][0].1, PopupStyle::AcceptKey);
    assert_eq!(lines[3][2].1, PopupStyle::RejectKey);
}

#[test]
fn inner_area_leaves_the_margin() {
    let a = Area { x: 0, y: 0, width: 10, height: 5 };
    assert_eq!(inner_area(a, 1), Area { x: 1, y: 1, width: 8, height: 3 });
    let tiny = Area { x: 3, y: 3, width: 1, height: 5 };
    assert_eq!(inner_area(tiny, 1), Area { x: 0, y: 0, width: 0, height: 0 });
}

#[test]
fn split_layout_gives_one_part_per_constraint() {
    let screen = Area { x: 0, y: 0, width: 80, height: 24 };
    let rows = split_layout(
        SplitDirection::Vertical,
        &[SizeConstraint::Length(1), SizeConstraint::Min(1), SizeConstraint::Length(3)],
        screen,
    );
    assert_eq!(rows.len(), 3);
    assert_eq!(rows[0], Area { x: 0, y: 0, width: 80, height: 1 });
    assert_eq!(rows[2], Area { x: 0, y: 21, width: 80, height: 3 });
    let cols = split_layout(
        SplitDirection::Horizontal,
        &[SizeConstraint::Percentage(50), SizeConstraint::Percentage(50)],
        screen,
    );
    assert_eq!(cols[0].width + cols[1].width, 80);
}
