use rmenu::config::Config;
use rmenu::errors::ConfigError;

const DEFAULT_FONT: &str = "DejaVu Sans Mono:size=11:antialias=true";

#[test]
fn no_file_falls_back_to_defaults() {
    let c = Config::load(None).unwrap();
    assert_eq!(c.foreground.encode(), 0xffffff);
    assert_eq!(c.background.encode(), 0);
    assert_eq!(c.font, DEFAULT_FONT);
}

#[test]
fn full_document_is_read() {
    let text = "foreground = \"255-0-10\"\nbackground = \"1-2-3\"\nfont = \"mono\"\n";
    let c = Config::load(Some(text)).unwrap();
    assert_eq!(c.foreground.encode(), 255 * 65536 + 10);
    assert_eq!(c.background.encode(), 1 * 65536 + 2 * 256 + 3);
    assert_eq!(c.font, "mono");
}

#[test]
fn missing_entries_read_as_black_and_default_font() {
    let c = Config::load(Some("other = \"1\"\n")).unwrap();
    assert_eq!(c.foreground.encode(), 0);
    assert_eq!(c.background.encode(), 0);
    assert_eq!(c.font, DEFAULT_FONT);
}

#[test]
fn empty_document_is_all_defaults_but_colors_black() {
    let c = Config::load(Some("")).unwrap();
    assert_eq!(c.foreground.encode(), 0);
    assert_eq!(c.background.encode(), 0);
    assert_eq!(c.font, DEFAULT_FONT);
}

#[test]
fn malformed_document_is_rejected() {
    assert_eq!(Config::load(Some("not = [ toml")).unwrap_err(), ConfigError::BadToml);
}

#[test]
fn malformed_color_is_rejected() {
    let text = "foreground = \"zzz\"\n";
    assert_eq!(Config::load(Some(text)).unwrap_err(), ConfigError::BadColor);
}

#[test]
fn non_string_color_entry_reads_as_missing() {
    let c = Config::load(Some("foreground = 3\n")).unwrap();
    assert_eq!(c.foreground.encode(), 0);
}

#[test]
fn foreground_error_wins_over_background_error() {
    let text = "foreground = \"bad\"\nbackground = \"also-bad\"\n";
    assert_eq!(Config::load(Some(text)).unwrap_err(), ConfigError::BadColor);
}
