use fftviz::config::{
    averaging_window_constraint, bar_smoothness_constraint, cli_args_to_fft_args, config_exists,
    convert_color_to_hex, fft_fps_constraint, fftargs_to_config, freq_resolution_constraint,
    merge_config_with_cli_args, parse_hex_color, CLIArgs, ConfigError, ConfigFFTArgs, Rgb8,
};

fn plain_cli_args() -> CLIArgs {
    CLIArgs {
        file_path: String::from("track.mp3"),
        smoothness: None,
        freq_resolution: None,
        min_freq: None,
        max_freq: None,
        volume: None,
        window_width: None,
        window_height: None,
        border_size: None,
        border_color: None,
        bar_color: None,
        track_name: Some(false),
        display_gui: Some(false),
        text_color: None,
        font_size: None,
        background_color: None,
    }
}

#[test]
fn constraints_accept_documented_ranges() {
    assert!(bar_smoothness_constraint(0));
    assert!(bar_smoothness_constraint(3));
    assert!(!bar_smoothness_constraint(4));
    assert!(fft_fps_constraint(6));
    assert!(fft_fps_constraint(12));
    assert!(fft_fps_constraint(60));
    assert!(!fft_fps_constraint(7)); // does not divide 60
    assert!(!fft_fps_constraint(5)); // below 6
    assert!(!fft_fps_constraint(61));
    assert!(freq_resolution_constraint(10));
    assert!(freq_resolution_constraint(300));
    assert!(!freq_resolution_constraint(9));
    assert!(!freq_resolution_constraint(301));
    assert!(averaging_window_constraint(1));
    assert!(averaging_window_constraint(5));
    assert!(!averaging_window_constraint(0));
    assert!(!averaging_window_constraint(6));
}

#[test]
fn parse_hex_color_reads_bytes() {
    let c = parse_hex_color(&String::from("FF007F")).unwrap();
    assert_eq!(c, Rgb8 { r: 255, g: 0, b: 127 });
    let c = parse_hex_color(&String::from("00ff7f")).unwrap();
    assert_eq!(c, Rgb8 { r: 0, g: 255, b: 127 });
}

#[test]
fn parse_hex_color_rejects_malformed_strings() {
    assert_eq!(
        parse_hex_color(&String::from("GG0000")).unwrap_err(),
        ConfigError::BadColor
    );
    assert_eq!(
        parse_hex_color(&String::from("12345")).unwrap_err(),
        ConfigError::BadColor
    );
    assert_eq!(
        parse_hex_color(&String::from("1234567")).unwrap_err(),
        ConfigError::BadColor
    );
}

#[test]
fn color_to_hex_is_uppercase_and_round_trips() {
    let c = Rgb8 { r: 255, g: 0, b: 127 };
    let s = convert_color_to_hex(&c);
    assert_eq!(s, "FF007F");
    assert_eq!(parse_hex_color(&s).unwrap(), c);
}

#[test]
fn default_config_matches_documented_values() {
    let d = ConfigFFTArgs::default();
    assert_eq!(d.border_size, Some(1));
    assert_eq!(d.border_color.as_deref(), Some("000000"));
    assert_eq!(d.bar_color.as_deref(), Some("FF0000"));
    assert_eq!(d.display_track_name, Some(false));
    assert_eq!(d.text_color.as_deref(), Some("FFFFFF"));
    assert_eq!(d.font_size, Some(25));
    assert_eq!(d.background_color.as_deref(), Some("000000"));
    assert_eq!(d.smoothness, Some(1));
    assert_eq!(d.freq_resolution, Some(90));
    assert_eq!(d.window_width, Some(1000));
    assert_eq!(d.window_height, Some(700));
    assert_eq!(d.min_freq, Some(0));
    assert_eq!(d.max_freq, Some(5000));
    assert_eq!(d.display_gui, Some(false));
    assert_eq!(d.volume, Some(50));
}

#[test]
fn merge_prefers_cli_then_config_then_default() {
    let mut args = plain_cli_args();
    args.smoothness = Some(3);
    let mut cfg = ConfigFFTArgs::default();
    cfg.smoothness = Some(2);
    cfg.freq_resolution = Some(120);
    cfg.volume = None;
    let cfg = Some(cfg);
    merge_config_with_cli_args(&mut args, &cfg);
    // command line wins
    assert_eq!(args.smoothness, Some(3));
    // configuration file fills the gap
    assert_eq!(args.freq_resolution, Some(120));
    // defaults fill the rest
    assert_eq!(args.volume, Some(50));
    assert_eq!(args.bar_color.as_deref(), Some("FF0000"));
}

#[test]
fn merge_without_config_file_uses_defaults() {
    let mut args = plain_cli_args();
    args.window_width = Some(640);
    merge_config_with_cli_args(&mut args, &None);
    assert_eq!(args.window_width, Some(640));
    assert_eq!(args.window_height, Some(700));
    assert_eq!(args.freq_resolution, Some(90));
    assert_eq!(args.border_color.as_deref(), Some("000000"));
    // the display flags are left untouched
    assert_eq!(args.track_name, Some(false));
    assert_eq!(args.display_gui, Some(false));
}

#[test]
fn merge_lets_config_override_display_flags() {
    let mut args = plain_cli_args();
    let mut cfg = ConfigFFTArgs::default();
    cfg.display_track_name = Some(true);
    cfg.display_gui = Some(true);
    merge_config_with_cli_args(&mut args, &Some(cfg));
    assert_eq!(args.track_name, Some(true));
    assert_eq!(args.display_gui, Some(true));
}

#[test]
fn cli_args_to_fft_args_resolves_defaults() {
    let a = cli_args_to_fft_args(plain_cli_args(), None).unwrap();
    assert_eq!(a.file_path, "track.mp3");
    assert_eq!(a.smoothness, 1);
    assert_eq!(a.freq_resolution, 90);
    assert_eq!(a.min_freq, 0);
    assert_eq!(a.max_freq, 5000);
    assert_eq!(a.volume, 50);
    assert_eq!(a.window_width, 1000);
    assert_eq!(a.window_height, 700);
    assert_eq!(a.border_size, 1);
    assert_eq!(a.font_size, 25);
    assert_eq!(a.border_color, Rgb8 { r: 0, g: 0, b: 0 });
    assert_eq!(a.bar_color, Rgb8 { r: 255, g: 0, b: 0 });
    assert_eq!(a.text_color, Rgb8 { r: 255, g: 255, b: 255 });
    assert_eq!(a.background_color, Rgb8 { r: 0, g: 0, b: 0 });
    assert!(!a.track_name);
    assert!(!a.display_gui);
    assert!(!a.paused);
    assert_eq!(a.fft_fps, 12);
}

#[test]
fn cli_args_to_fft_args_rejects_high_smoothness() {
    let mut args = plain_cli_args();
    args.smoothness = Some(4);
    assert_eq!(
        cli_args_to_fft_args(args, None).unwrap_err(),
        ConfigError::Smoothness
    );
}

#[test]
fn cli_args_to_fft_args_rejects_bad_resolution() {
    let mut args = plain_cli_args();
    args.freq_resolution = Some(9);
    assert_eq!(
        cli_args_to_fft_args(args, None).unwrap_err(),
        ConfigError::FreqResolution
    );
}

#[test]
fn cli_args_to_fft_args_rejects_bad_color() {
    let mut args = plain_cli_args();
    args.bar_color = Some(String::from("not-hex"));
    assert_eq!(
        cli_args_to_fft_args(args, None).unwrap_err(),
        ConfigError::BadColor
    );
}

#[test]
fn fftargs_to_config_writes_every_setting_back() {
    let a = cli_args_to_fft_args(plain_cli_args(), None).unwrap();
    let c = fftargs_to_config(&a);
    assert_eq!(c.border_size, Some(1));
    assert_eq!(c.border_color.as_deref(), Some("000000"));
    assert_eq!(c.bar_color.as_deref(), Some("FF0000"));
    assert_eq!(c.display_track_name, Some(false));
    assert_eq!(c.text_color.as_deref(), Some("FFFFFF"));
    assert_eq!(c.font_size, Some(25));
    assert_eq!(c.background_color.as_deref(), Some("000000"));
    assert_eq!(c.smoothness, Some(1));
    assert_eq!(c.freq_resolution, Some(90));
    assert_eq!(c.window_width, Some(1000));
    assert_eq!(c.window_height, Some(700));
    assert_eq!(c.min_freq, Some(0));
    assert_eq!(c.max_freq, Some(5000));
    assert_eq!(c.display_gui, Some(false));
    assert_eq!(c.volume, Some(50));
}

#[test]
fn config_exists_is_false_for_missing_path() {
    assert!(!config_exists(&String::from(
        "/nonexistent-directory/nonexistent-config.yaml"
    )));
}
