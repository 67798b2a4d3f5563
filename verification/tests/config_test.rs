use mahgit::config::{Config, ConfigError, ConfigFile};
use mahgit::theme::{PaletteColor, Theme};
use mahgit::ui::styled::ThemeColor;
use mahgit::config::expand_tabs_with_width;

#[test]
fn test_expand_tabs_no_tabs() {
    assert_eq!(expand_tabs_with_width("hello world", 4), "hello world");
    assert_eq!(expand_tabs_with_width("no tabs here", 8), "no tabs here");
}

#[test]
fn test_expand_tabs_single_tab_at_start() {
    // Tab at position 0 should expand to 4 spaces (tab_width=4)
    assert_eq!(expand_tabs_with_width("\thello", 4), "    hello");
    // Tab at position 0 should expand to 8 spaces (tab_width=8)
    assert_eq!(expand_tabs_with_width("\thello", 8), "        hello");
}

#[test]
fn test_expand_tabs_single_tab_at_middle() {
    assert_eq!(expand_tabs_with_width("a\tb", 4), "a   b");
    assert_eq!(expand_tabs_with_width("ab\tc", 4), "ab  c");
    assert_eq!(expand_tabs_with_width("abc\td", 4), "abc d");
    assert_eq!(expand_tabs_with_width("abcd\te", 4), "abcd    e");
}

#[test]
fn test_expand_tabs_multiple_tabs() {
    assert_eq!(expand_tabs_with_width("\t\thello", 4), "        hello");
    assert_eq!(expand_tabs_with_width("a\tb\tc", 4), "a   b   c");
}

#[test]
fn test_expand_tabs_different_widths() {
    assert_eq!(expand_tabs_with_width("\thello", 2), "  hello");
    assert_eq!(expand_tabs_with_width("a\tb", 2), "a b");
    assert_eq!(expand_tabs_with_width("\thello", 8), "        hello");
}

#[test]
fn test_expand_tabs_empty_string() {
    assert_eq!(expand_tabs_with_width("", 4), "");
}

#[test]
fn test_expand_tabs_only_tabs() {
    assert_eq!(expand_tabs_with_width("\t", 4), "    ");
    assert_eq!(expand_tabs_with_width("\t\t", 4), "        ");
}

#[test]
fn expand_tabs_counts_columns_of_multibyte_characters() {
    assert_eq!(expand_tabs_with_width("é\tx", 4), "é   x");
}

#[test]
fn expand_tabs_with_zero_width_and_no_tab_keeps_text() {
    assert_eq!(expand_tabs_with_width("abc", 0), "abc");
}

#[test]
fn test_config_file_default() {
    let config_file = ConfigFile::default();
    assert_eq!(config_file.theme, "gruvbox-dark");
    assert_eq!(config_file.tab_width, 4);
}

#[test]
fn test_config_expand_tabs() {
    let theme = Theme::from_name("github-dark").unwrap();
    let config = Config { theme, tab_width: 4 };
    assert_eq!(config.expand_tabs("\thello"), "    hello");

    let theme_8 = Theme::from_name("github-dark").unwrap();
    let config_width_8 = Config { theme: theme_8, tab_width: 8 };
    assert_eq!(config_width_8.expand_tabs("\thello"), "        hello");
}

#[test]
fn test_theme_from_name_known_themes() {
    assert!(Theme::from_name("github-dark").is_some());
}

#[test]
fn test_theme_from_name_unknown_theme() {
    assert!(Theme::from_name("unknown").is_none());
    assert!(Theme::from_name("gruvbox-dark").is_none());
    assert!(Theme::from_name("").is_none());
}

#[test]
fn test_github_dark_uses_rgb() {
    let theme = Theme::github_dark();
    assert!(matches!(theme.staged, PaletteColor::Rgb(_, _, _)));
    assert!(matches!(theme.unstaged, PaletteColor::Rgb(_, _, _)));
}

#[test]
fn config_from_default_file_rejects_unknown_theme() {
    match Config::from_file(ConfigFile::default()) {
        Err(error) => {
            assert!(matches!(error, ConfigError::UnknownTheme(ref name) if name == "gruvbox-dark"));
            assert_eq!(error.to_display_string(), "Unknown theme: gruvbox-dark");
        }
        Ok(_) => panic!("the default theme name is not a known theme"),
    }
    let config = Config::from_file(ConfigFile { theme: "github-dark".to_string(), tab_width: 2 }).unwrap();
    assert_eq!(config.tab_width, 2);
    assert_eq!(config.theme, Theme::github_dark());
}

#[test]
fn theme_roles_map_to_palette() {
    let theme = Theme::default();
    assert_eq!(theme.color(ThemeColor::HunkHeaderFg), Some(PaletteColor::Rgb(224, 175, 104)));
    assert_eq!(theme.color(ThemeColor::Staged), Some(PaletteColor::Rgb(63, 185, 80)));
    assert_eq!(theme.color(ThemeColor::LogHash), None);
}

#[test]
fn file_errors_name_the_path_and_the_cause() {
    let read = ConfigError::ReadError(std::path::PathBuf::from("/home/u/.config/mahgit/config.toml"), std::io::Error::other("denied"));
    assert_eq!(read.to_display_string(), "Failed to read config file /home/u/.config/mahgit/config.toml: denied");
    let bad = toml::from_str::<toml::Value>("= 1").unwrap_err();
    let parse = ConfigError::ParseError(std::path::PathBuf::from("c.toml"), bad);
    assert!(parse.to_display_string().starts_with("Failed to parse config file c.toml: "));
}
