use zepto::config::{
    default_background_color, default_frame_color, default_frame_corner, default_frame_hide,
    default_line_numbers_color, default_line_numbers_enabled, default_line_numbers_gutter_width,
    default_line_numbers_show_separator_line, default_margin, default_prompt_panel_background_color,
    default_prompt_panel_enabled, default_prompt_panel_foreground_color,
    default_status_panel_background_color, default_status_panel_enabled,
    default_status_panel_foreground_color, default_vim_mode, Config,
};

#[test]
fn frame_defaults() {
    assert_eq!(default_frame_corner(), "plain");
    assert_eq!(default_margin(), 0);
    assert_eq!(default_frame_color(), "#0000FF");
    assert!(!default_frame_hide());
}

#[test]
fn line_number_defaults() {
    assert!(default_line_numbers_enabled());
    assert_eq!(default_line_numbers_color(), "#808080");
    assert_eq!(default_line_numbers_gutter_width(), 5);
    assert!(!default_line_numbers_show_separator_line());
}

#[test]
fn panel_defaults() {
    assert!(default_status_panel_enabled());
    assert_eq!(default_status_panel_background_color(), "#0000FF");
    assert_eq!(default_status_panel_foreground_color(), "#FFFFFF");
    assert!(default_prompt_panel_enabled());
    assert_eq!(default_prompt_panel_background_color(), "#808080");
    assert_eq!(default_prompt_panel_foreground_color(), "#FFFFFF");
}

#[test]
fn behavior_defaults() {
    assert!(!default_vim_mode());
    assert_eq!(default_background_color(), "#000000");
}

#[test]
fn config_default_is_composed_of_section_defaults() {
    let c = Config::default();
    assert!(!c.editor_behavior.vim);
    assert_eq!(c.main_section.background_color, "#000000");
    assert_eq!(c.main_section.frame.corner, "plain");
    assert!(!c.main_section.frame.hide);
    assert!(c.main_section.line_numbers.enabled);
    assert_eq!(c.main_section.line_numbers.gutter_width, 5);
    assert!(c.main_section.status_panel.enabled);
    assert!(c.main_section.prompt_panel.enabled);
}
