use mm2_rtui::qr_compact::{render_qr_compact, render_qr_lines};

#[test]
fn test_render_qr_compact() {
    let result = render_qr_compact("RBPG3zECm1SBEeFLCvqvPfGPnk5HXXhxV1");
    assert!(result.is_ok());

    let lines = result.unwrap();
    assert!(!lines.is_empty());

    for line in &lines {
        println!("{}", line);
    }
}

#[test]
fn qr_lines_share_one_width_with_quiet_zone() {
    let lines = render_qr_compact("RBPG3zECm1SBEeFLCvqvPfGPnk5HXXhxV1").unwrap();
    let width = lines[0].chars().count();
    assert!(lines.iter().all(|l| l.chars().count() == width));
    // two blank lines on top and bottom
    assert!(lines[0].chars().all(|c| c == ' '));
    assert!(lines[1].chars().all(|c| c == ' '));
    assert!(lines[lines.len() - 1].chars().all(|c| c == ' '));
    // a QR module width w gives (w + 1) / 2 text rows between the borders
    let modules = width - 4;
    assert_eq!(lines.len(), (modules + 1) / 2 + 4);
    // the code is not blank: its finder pattern starts with dark modules
    assert!(lines[2].starts_with("  █"));
}

#[test]
fn qr_lines_pair_rows_into_block_characters() {
    // 3 x 3: rows (dark, light, dark), (light, dark, light), (dark, dark, light)
    let m = vec![true, false, true, false, true, false, true, true, false];
    let lines = render_qr_lines(3, &m);
    assert_eq!(lines.len(), 2 + 2 + 2);
    assert_eq!(lines[0], "       ");
    assert_eq!(lines[1], "       ");
    assert_eq!(lines[2], "  ▀▄▀  ");
    // the last row has no partner below: it is drawn over a light row
    assert_eq!(lines[3], "  ▀▀   ");
    assert_eq!(lines[4], "       ");
    assert_eq!(lines[5], "       ");
}

#[test]
fn qr_lines_of_full_dark_pair() {
    let m = vec![true, true, true, true];
    let lines = render_qr_lines(2, &m);
    assert_eq!(lines, vec!["      ", "      ", "  ██  ", "      ", "      "]);
}
