use tauri_runtime_cef::style::{background_color_class, background_color_css, Color};

#[test]
fn class_carries_the_host_id() {
    assert_eq!(background_color_class(0), "tauri-cef-window-background-0");
    assert_eq!(background_color_class(4_194_310), "tauri-cef-window-background-4194310");
    for xid in [9, 10, 99, 100, 1_000_000, u64::MAX] {
        assert_eq!(background_color_class(xid), format!("tauri-cef-window-background-{xid}"));
    }
}

#[test]
fn classes_of_different_hosts_differ() {
    assert_ne!(background_color_class(12), background_color_class(21));
    assert_ne!(background_color_class(1), background_color_class(10));
}

#[test]
fn css_of_a_known_color() {
    let class = background_color_class(7);
    assert_eq!(
        background_color_css(&class, Color(255, 0, 18, 128)),
        ".tauri-cef-window-background-7 { background-color: rgba(255, 0, 18, 0.502); }"
    );
    assert_eq!(
        background_color_css(&class, Color(1, 20, 100, 255)),
        ".tauri-cef-window-background-7 { background-color: rgba(1, 20, 100, 1.000); }"
    );
}

#[test]
fn css_writes_every_alpha_as_floating_point_would() {
    let class = String::from("c");
    for alpha in 0..=255u8 {
        let wanted = format!(
            ".{class} {{ background-color: rgba({}, {}, {}, {:.3}); }}",
            alpha,
            255 - alpha,
            3,
            f64::from(alpha) / 255.
        );
        assert_eq!(background_color_css(&class, Color(alpha, 255 - alpha, 3, alpha)), wanted);
    }
}
