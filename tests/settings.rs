use himawari::error::AppErr;
use himawari::output_format::{OutputFormat, OutputFormatValueParser, FORMAT_USAGE};
use himawari::output_level::{OutputLevel, OutputLevelValueParser, LEVEL_USAGE};

#[test]
fn formats_are_read_in_either_case() {
    assert_eq!(OutputFormatValueParser.parse_ref("PNG").ok(), Some(OutputFormat::PNG));
    assert_eq!(OutputFormatValueParser.parse_ref("png").ok(), Some(OutputFormat::PNG));
    assert_eq!(OutputFormatValueParser.parse_ref("JPEG").ok(), Some(OutputFormat::JPEG));
    assert_eq!(OutputFormatValueParser.parse_ref(" jpeg\n").ok(), Some(OutputFormat::JPEG));
}

#[test]
fn mixed_case_and_other_formats_are_rejected() {
    for s in ["Png", "jpg", "gif", "", "p n g"] {
        match OutputFormatValueParser.parse_ref(s) {
            Ok(_) => panic!("{} was accepted", s),
            Err(e) => {
                assert_eq!(e.kind, "InvalidValue");
                assert_eq!(e.message, FORMAT_USAGE);
            }
        }
    }
}

#[test]
fn format_extensions_and_default() {
    assert_eq!(OutputFormat::PNG.extension(), "png");
    assert_eq!(OutputFormat::JPEG.extension(), "jpeg");
    assert_eq!(OutputFormat::JPEG.to_string(), "jpeg");
    assert_eq!(OutputFormat::default(), OutputFormat::JPEG);
}

#[test]
fn the_four_levels_are_accepted() {
    for (s, n) in [("4", 4), ("8", 8), ("16", 16), (" 20 ", 20), ("+8", 8)] {
        let level = OutputLevelValueParser.parse_ref(s).ok().expect("level rejected");
        assert_eq!(level.to_level(), n);
    }
}

#[test]
fn other_levels_are_rejected() {
    for s in ["0", "5", "12", "21", "eight", "", "-4"] {
        match OutputLevelValueParser.parse_ref(s) {
            Ok(_) => panic!("{} was accepted", s),
            Err(e) => {
                assert_eq!(e.kind, "InvalidValue");
                assert_eq!(e.message, LEVEL_USAGE);
            }
        }
    }
    assert!(OutputLevel::new(3).is_none());
}

#[test]
fn default_level_is_eight() {
    assert_eq!(OutputLevel::default().to_level(), 8);
    assert_eq!(OutputLevel::default().to_string(), "8");
    assert_eq!(OutputLevel::new(16).unwrap().to_string(), "16");
}

#[test]
fn errors_are_shown_with_their_tag() {
    let e = AppErr::new("Config", "bad value");
    assert_eq!(e.description(), "[Config] bad value");
    assert_eq!(e.to_string(), "[Config] bad value");
    assert!(e.source().is_none());
    let c = AppErr::custom("Io", "disk full");
    assert_eq!(c.description(), "[Io] disk full");
}

#[test]
fn wrapped_errors_keep_their_cause() {
    let e = AppErr::from_err("std::io::Error", String::from("not found"));
    assert_eq!(e.description(), "[std::io::Error] not found");
    assert_eq!(e.source().map(|s| s.as_str()), Some("not found"));
}

#[test]
fn wallpaper_is_accepted_without_a_platform_mechanism() {
    assert!(himawari::wallpaper::set_wallpaper(std::path::Path::new("/tmp/x.png")).is_ok());
}
