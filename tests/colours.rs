use pts::config::Config;

#[test]
fn default_config_values() {
    let config = Config::default();
    assert_eq!(config.bg_color, "#FFFFFF");
    assert_eq!(config.point_color, "#000000");
    assert_eq!(config.selected_color, "#FF0000");
    assert_eq!(config.selection_box_color, "#0000FF");
    assert_eq!(config.grid_color, "#CCCCCC");
    assert!(config.grid_enabled);
    assert_eq!(config.grid_spacing, 40);
    assert_eq!(config.point_radius, 20);
    assert_eq!(config.move_step, 1);
    assert_eq!(config.move_step_large, 20);
    assert!(config.is_valid());
}

#[test]
fn invalid_config_is_reported() {
    let mut config = Config::default();
    config.grid_spacing = 0;
    assert!(!config.is_valid());
}

#[test]
fn parse_colour_reads_pairs() {
    assert_eq!(Config::parse_colour("#FF0000"), Some((255, 0, 0)));
    assert_eq!(Config::parse_colour("#0a1B2c"), Some((10, 27, 44)));
    assert_eq!(Config::parse_colour("##abcdef"), Some((171, 205, 239)));
    assert_eq!(Config::parse_colour("CCCCCC"), Some((204, 204, 204)));
}

#[test]
fn parse_colour_bad_pairs_read_as_zero() {
    assert_eq!(Config::parse_colour("#zz00ff"), Some((0, 0, 255)));
    assert_eq!(Config::parse_colour("#+f-1 1"), Some((15, 0, 0)));
    assert_eq!(Config::parse_colour("#é0011"), Some((0, 0, 17)));
}

#[test]
fn parse_colour_short_or_split_text() {
    assert_eq!(Config::parse_colour("#12"), None);
    assert_eq!(Config::parse_colour("#"), None);
    assert_eq!(Config::parse_colour("#1é2345"), None);
}
