//! Settings handling: the raw command-line argument set, the optional
//! on-disk configuration, the precedence merge between them, the validity
//! constraints checked before analysis starts, and hex color conversion.

use vstd::prelude::*;

verus! {

use vstd::arithmetic::div_mod::lemma_fundamental_div_mod;
use vstd::string::StrSliceExecFns;
use vstd::string::StringExecFns;
use crate::RENDERING_FPS;
use crate::FFT_FPS;

/// An opaque 8-bit RGB color.
#[derive(Debug, Clone, Copy, PartialEq, Eq, Structural)]
pub struct Rgb8 {
    /// Red component.
    pub r: u8,
    /// Green component.
    pub g: u8,
    /// Blue component.
    pub b: u8,
}

/// Why a merged argument set was rejected before analysis.
#[derive(Debug, Clone, Copy, PartialEq, Eq, Structural)]
pub enum ConfigError {
    /// The spatial smoothness is above 3.
    Smoothness,
    /// The frequency resolution is outside 10..=300.
    FreqResolution,
    /// A color is not six hexadecimal digits.
    BadColor,
}

/// A smoothness argument is accepted when it is at most 3.
pub fn bar_smoothness_constraint(v: u32) -> (ok: bool)
    ensures
        ok == (v <= 3),
{
    v <= 3
}

/// An analysis rate is accepted when it lies in 6..=60 and divides the
/// render rate.
pub fn fft_fps_constraint(v: u32) -> (ok: bool)
    ensures
        ok == (6 <= v <= 60 && RENDERING_FPS as int % (v as int) == 0),
{
    6 <= v && v <= 60 && RENDERING_FPS % v == 0
}

/// A frequency resolution is accepted when it lies in 10..=300.
pub fn freq_resolution_constraint(v: u32) -> (ok: bool)
    ensures
        ok == (10 <= v <= 300),
{
    10 <= v && v <= 300
}

/// A temporal averaging window is accepted when it lies in 1..=5.
pub fn averaging_window_constraint(v: u32) -> (ok: bool)
    ensures
        ok == (1 <= v <= 5),
{
    1 <= v && v <= 5
}

/// The value of a hexadecimal digit, or -1 for any other character.
pub open spec fn hex_digit_val(c: char) -> int {
    let u = c as int;
    if '0' as int <= u && u <= '9' as int {
        u - '0' as int
    } else if 'A' as int <= u && u <= 'F' as int {
        u - 'A' as int + 10
    } else if 'a' as int <= u && u <= 'f' as int {
        u - 'a' as int + 10
    } else {
        -1
    }
}

/// A color string is exactly six hexadecimal digits.
pub open spec fn hex_ok(s: Seq<char>) -> bool {
    s.len() == 6 && forall|i: int| 0 <= i < 6 ==> hex_digit_val(#[trigger] s[i]) >= 0
}

/// Byte `i` (0 = red, 1 = green, 2 = blue) encoded in a hex color string.
pub open spec fn hex_byte(s: Seq<char>, i: int) -> int {
    hex_digit_val(s[2 * i]) * 16 + hex_digit_val(s[2 * i + 1])
}

/// The value of one hex digit character, or `None` for any other character.
fn hex_nibble(c: char) -> (r: Option<u8>)
    ensures
        match r {
            Some(v) => v == hex_digit_val(c) && v < 16,
            None => hex_digit_val(c) < 0,
        },
{
    let u: u32 = c as u32;
    if 48 <= u && u <= 57 {
        Some((u - 48) as u8)
    } else if 65 <= u && u <= 70 {
        Some((u - 65 + 10) as u8)
    } else if 97 <= u && u <= 102 {
        Some((u - 97 + 10) as u8)
    } else {
        None
    }
}

/// Parse a six-digit hex color string into its three bytes; `Err` exactly
/// when the string is not six hexadecimal digits.
pub fn parse_hex_color(s: &String) -> (r: Result<Rgb8, ConfigError>)
    ensures
        match r {
            Ok(c) => {
                &&& hex_ok(s@)
                &&& c.r == hex_byte(s@, 0)
                &&& c.g == hex_byte(s@, 1)
                &&& c.b == hex_byte(s@, 2)
            },
            Err(e) => e == ConfigError::BadColor && !hex_ok(s@),
        },
{
    let st: &str = s.as_str();
    if st.unicode_len() != 6 {
        return Err(ConfigError::BadColor);
    }
    let mut digits: Vec<u8> = Vec::new();
    for i in 0..6usize
        invariant
            st@ == s@,
            s@.len() == 6,
            digits@.len() == i,
            forall|t: int| 0 <= t < i ==> #[trigger] digits@[t] == hex_digit_val(s@[t])
                && digits@[t] < 16,
    {
        match hex_nibble(st.get_char(i)) {
            Some(v) => {
                digits.push(v);
            },
            None => {
                return Err(ConfigError::BadColor);
            },
        }
    }
    Ok(
        Rgb8 {
            r: digits[0] * 16 + digits[1],
            g: digits[2] * 16 + digits[3],
            b: digits[4] * 16 + digits[5],
        },
    )
}

/// The uppercase hex digit character of a value below 16.
pub open spec fn hex_char(d: int) -> char {
    if d == 0 {
        '0'
    } else if d == 1 {
        '1'
    } else if d == 2 {
        '2'
    } else if d == 3 {
        '3'
    } else if d == 4 {
        '4'
    } else if d == 5 {
        '5'
    } else if d == 6 {
        '6'
    } else if d == 7 {
        '7'
    } else if d == 8 {
        '8'
    } else if d == 9 {
        '9'
    } else if d == 10 {
        'A'
    } else if d == 11 {
        'B'
    } else if d == 12 {
        'C'
    } else if d == 13 {
        'D'
    } else if d == 14 {
        'E'
    } else {
        'F'
    }
}

/// The six uppercase hex digits encoding a color, high nibble first.
pub open spec fn color_hex(c: Rgb8) -> Seq<char> {
    seq![
        hex_char(c.r as int / 16),
        hex_char(c.r as int % 16),
        hex_char(c.g as int / 16),
        hex_char(c.g as int % 16),
        hex_char(c.b as int / 16),
        hex_char(c.b as int % 16),
    ]
}

/// The one-character string of one uppercase hex digit.
fn nibble_str(d: u8) -> (r: &'static str)
    requires
        d < 16,
    ensures
        r@.len() == 1,
        r@[0] == hex_char(d as int),
{
    if d == 0 {
        proof {
            reveal_strlit("0");
        }
        "0"
    } else if d == 1 {
        proof {
            reveal_strlit("1");
        }
        "1"
    } else if d == 2 {
        proof {
            reveal_strlit("2");
        }
        "2"
    } else if d == 3 {
        proof {
            reveal_strlit("3");
        }
        "3"
    } else if d == 4 {
        proof {
            reveal_strlit("4");
        }
        "4"
    } else if d == 5 {
        proof {
            reveal_strlit("5");
        }
        "5"
    } else if d == 6 {
        proof {
            reveal_strlit("6");
        }
        "6"
    } else if d == 7 {
        proof {
            reveal_strlit("7");
        }
        "7"
    } else if d == 8 {
        proof {
            reveal_strlit("8");
        }
        "8"
    } else if d == 9 {
        proof {
            reveal_strlit("9");
        }
        "9"
    } else if d == 10 {
        proof {
            reveal_strlit("A");
        }
        "A"
    } else if d == 11 {
        proof {
            reveal_strlit("B");
        }
        "B"
    } else if d == 12 {
        proof {
            reveal_strlit("C");
        }
        "C"
    } else if d == 13 {
        proof {
            reveal_strlit("D");
        }
        "D"
    } else if d == 14 {
        proof {
            reveal_strlit("E");
        }
        "E"
    } else {
        proof {
            reveal_strlit("F");
        }
        "F"
    }
}

/// Law: formatting a color as hex yields a valid color string, and parsing
/// it back recovers the color exactly.
pub proof fn lemma_color_hex_round_trip(c: Rgb8)
    ensures
        hex_ok(color_hex(c)),
        rgb_of(color_hex(c)) == c,
{
    lemma_hex_digit_of_hex_char(c.r as int / 16);
    lemma_hex_digit_of_hex_char(c.r as int % 16);
    lemma_hex_digit_of_hex_char(c.g as int / 16);
    lemma_hex_digit_of_hex_char(c.g as int % 16);
    lemma_hex_digit_of_hex_char(c.b as int / 16);
    lemma_hex_digit_of_hex_char(c.b as int % 16);
    lemma_fundamental_div_mod(c.r as int, 16);
    lemma_fundamental_div_mod(c.g as int, 16);
    lemma_fundamental_div_mod(c.b as int, 16);
    assert(hex_ok(color_hex(c))) by {
        assert forall|i: int| 0 <= i < 6 implies hex_digit_val(#[trigger] color_hex(c)[i])
            >= 0 by {
            assert(color_hex(c)[0] == hex_char(c.r as int / 16));
            assert(color_hex(c)[1] == hex_char(c.r as int % 16));
            assert(color_hex(c)[2] == hex_char(c.g as int / 16));
            assert(color_hex(c)[3] == hex_char(c.g as int % 16));
            assert(color_hex(c)[4] == hex_char(c.b as int / 16));
            assert(color_hex(c)[5] == hex_char(c.b as int % 16));
        }
    }
}

proof fn lemma_hex_digit_of_hex_char(d: int)
    requires
        0 <= d < 16,
    ensures
        hex_digit_val(hex_char(d)) == d,
{
}

/// Command-line arguments as parsed, before the merge with the
/// configuration file; `None` means the flag was not given.
#[derive(Debug)]
pub struct CLIArgs {
    /// Path of the audio file to play.
    pub file_path: String,
    /// Spatial interpolation factor between bars.
    pub smoothness: Option<u32>,
    /// Number of individual frequencies detected by the analysis.
    pub freq_resolution: Option<u32>,
    /// Lowest frequency kept, in Hz.
    pub min_freq: Option<u32>,
    /// Highest frequency kept, in Hz.
    pub max_freq: Option<u32>,
    /// Playback volume in percent.
    pub volume: Option<u32>,
    /// Window width in pixels.
    pub window_width: Option<u32>,
    /// Window height in pixels.
    pub window_height: Option<u32>,
    /// Border size of each bar.
    pub border_size: Option<i32>,
    /// Border color of each bar, six hex digits.
    pub border_color: Option<String>,
    /// Bar color, six hex digits.
    pub bar_color: Option<String>,
    /// Whether the track name is displayed.
    pub track_name: Option<bool>,
    /// Whether the settings panel starts open.
    pub display_gui: Option<bool>,
    /// Color of the track-name text, six hex digits.
    pub text_color: Option<String>,
    /// Font size of the track-name text.
    pub font_size: Option<i32>,
    /// Background color, six hex digits.
    pub background_color: Option<String>,
}

/// The optional values read from the configuration file.
#[derive(Debug)]
pub struct ConfigFFTArgs {
    /// Border size of each bar.
    pub border_size: Option<i32>,
    /// Border color, six hex digits.
    pub border_color: Option<String>,
    /// Bar color, six hex digits.
    pub bar_color: Option<String>,
    /// Whether the track name is displayed.
    pub display_track_name: Option<bool>,
    /// Color of the track-name text, six hex digits.
    pub text_color: Option<String>,
    /// Font size of the track-name text.
    pub font_size: Option<i32>,
    /// Background color, six hex digits.
    pub background_color: Option<String>,
    /// Spatial interpolation factor between bars.
    pub smoothness: Option<u32>,
    /// Number of individual frequencies detected by the analysis.
    pub freq_resolution: Option<u32>,
    /// Window width in pixels.
    pub window_width: Option<u32>,
    /// Window height in pixels.
    pub window_height: Option<u32>,
    /// Lowest frequency kept, in Hz.
    pub min_freq: Option<u32>,
    /// Highest frequency kept, in Hz.
    pub max_freq: Option<u32>,
    /// Whether the settings panel starts open.
    pub display_gui: Option<bool>,
    /// Playback volume in percent.
    pub volume: Option<u32>,
}

impl Default for ConfigFFTArgs {
    /// The built-in defaults, used for any setting that neither the command
    /// line nor the configuration file supplies.
    fn default() -> (r: ConfigFFTArgs)
        ensures
            r.border_size == Some(1i32),
            opt_view(r.border_color) == Some("000000"@),
            opt_view(r.bar_color) == Some("FF0000"@),
            r.display_track_name == Some(false),
            opt_view(r.text_color) == Some("FFFFFF"@),
            r.font_size == Some(25i32),
            opt_view(r.background_color) == Some("000000"@),
            r.smoothness == Some(1u32),
            r.freq_resolution == Some(90u32),
            r.window_width == Some(1000u32),
            r.window_height == Some(700u32),
            r.min_freq == Some(0u32),
            r.max_freq == Some(5000u32),
            r.display_gui == Some(false),
            r.volume == Some(50u32),
    {
        ConfigFFTArgs {
            border_size: Some(1),
            border_color: Some(String::from_str("000000")),
            bar_color: Some(String::from_str("FF0000")),
            display_track_name: Some(false),
            text_color: Some(String::from_str("FFFFFF")),
            font_size: Some(25),
            background_color: Some(String::from_str("000000")),
            smoothness: Some(1),
            freq_resolution: Some(90),
            window_width: Some(1000),
            window_height: Some(700),
            min_freq: Some(0),
            max_freq: Some(5000),
            display_gui: Some(false),
            volume: Some(50),
        }
    }
}

/// The fully resolved argument set handed to analysis and rendering.
#[derive(Debug, Clone)]
pub struct FFTArgs {
    /// Path of the audio file to play.
    pub file_path: String,
    /// Border size of each bar.
    pub border_size: i32,
    /// Border color of each bar.
    pub border_color: Rgb8,
    /// Bar color.
    pub bar_color: Rgb8,
    /// Whether the track name is displayed.
    pub track_name: bool,
    /// Color of the track-name text.
    pub text_color: Rgb8,
    /// Font size of the track-name text.
    pub font_size: i32,
    /// Background color.
    pub background_color: Rgb8,
    /// Spatial interpolation factor between bars.
    pub smoothness: u32,
    /// Number of individual frequencies detected by the analysis.
    pub freq_resolution: u32,
    /// Window height in pixels.
    pub window_height: u32,
    /// Window width in pixels.
    pub window_width: u32,
    /// Lowest frequency kept, in Hz.
    pub min_freq: u32,
    /// Highest frequency kept, in Hz.
    pub max_freq: u32,
    /// Whether the settings panel starts open.
    pub display_gui: bool,
    /// Playback volume in percent.
    pub volume: u32,
    /// Whether playback starts paused.
    pub paused: bool,
    /// The analysis rate, in frames per second.
    pub fft_fps: u32,
}

/// The view of an optional string: its character sequence, if present.
pub open spec fn opt_view(o: Option<String>) -> Option<Seq<char>> {
    match o {
        Some(s) => Some(s@),
        None => None,
    }
}

/// The result of merging the command line with the configuration file and
/// the defaults, one resolved value per setting. The two display flags stay
/// optional: no default is supplied for them.
pub struct MergedArgs {
    /// Spatial interpolation factor between bars.
    pub smoothness: u32,
    /// Number of individual frequencies detected by the analysis.
    pub freq_resolution: u32,
    /// Lowest frequency kept, in Hz.
    pub min_freq: u32,
    /// Highest frequency kept, in Hz.
    pub max_freq: u32,
    /// Playback volume in percent.
    pub volume: u32,
    /// Window width in pixels.
    pub window_width: u32,
    /// Window height in pixels.
    pub window_height: u32,
    /// Border size of each bar.
    pub border_size: i32,
    /// Font size of the track-name text.
    pub font_size: i32,
    /// Border color, six hex digits.
    pub border_color: Seq<char>,
    /// Bar color, six hex digits.
    pub bar_color: Seq<char>,
    /// Color of the track-name text, six hex digits.
    pub text_color: Seq<char>,
    /// Background color, six hex digits.
    pub background_color: Seq<char>,
    /// Whether the track name is displayed.
    pub track_name: Option<bool>,
    /// Whether the settings panel starts open.
    pub display_gui: Option<bool>,
}

/// The merge of one optional setting: the command line wins, then the
/// configuration file, then the default.
pub open spec fn pick<T>(cli: Option<T>, cfg: Option<T>, dflt: T) -> T {
    if cli is Some {
        cli->0
    } else if cfg is Some {
        cfg->0
    } else {
        dflt
    }
}

/// The merge of one optional string setting, at the view level.
pub open spec fn pick_str(cli: Option<String>, cfg: Option<String>, dflt: Seq<char>) -> Seq<char> {
    if cli is Some {
        cli->0@
    } else if cfg is Some {
        cfg->0@
    } else {
        dflt
    }
}

/// What every setting resolves to, given the command line and the optional
/// configuration file: the command line takes precedence, then the file,
/// then the defaults — except the two display flags, which the file
/// overrides when it sets them.
pub open spec fn merged_args(cli: CLIArgs, uc: Option<ConfigFFTArgs>) -> MergedArgs {
    let cfg_smoothness = if uc is Some { uc->0.smoothness } else { None };
    let cfg_freq_resolution = if uc is Some { uc->0.freq_resolution } else { None };
    let cfg_min_freq = if uc is Some { uc->0.min_freq } else { None };
    let cfg_max_freq = if uc is Some { uc->0.max_freq } else { None };
    let cfg_volume = if uc is Some { uc->0.volume } else { None };
    let cfg_window_width = if uc is Some { uc->0.window_width } else { None };
    let cfg_window_height = if uc is Some { uc->0.window_height } else { None };
    let cfg_border_size = if uc is Some { uc->0.border_size } else { None };
    let cfg_font_size = if uc is Some { uc->0.font_size } else { None };
    let cfg_border_color = if uc is Some { uc->0.border_color } else { None };
    let cfg_bar_color = if uc is Some { uc->0.bar_color } else { None };
    let cfg_text_color = if uc is Some { uc->0.text_color } else { None };
    let cfg_background_color = if uc is Some { uc->0.background_color } else { None };
    MergedArgs {
        smoothness: pick(cli.smoothness, cfg_smoothness, 1u32),
        freq_resolution: pick(cli.freq_resolution, cfg_freq_resolution, 90u32),
        min_freq: pick(cli.min_freq, cfg_min_freq, 0u32),
        max_freq: pick(cli.max_freq, cfg_max_freq, 5000u32),
        volume: pick(cli.volume, cfg_volume, 50u32),
        window_width: pick(cli.window_width, cfg_window_width, 1000u32),
        window_height: pick(cli.window_height, cfg_window_height, 700u32),
        border_size: pick(cli.border_size, cfg_border_size, 1i32),
        font_size: pick(cli.font_size, cfg_font_size, 25i32),
        border_color: pick_str(cli.border_color, cfg_border_color, "000000"@),
        bar_color: pick_str(cli.bar_color, cfg_bar_color, "FF0000"@),
        text_color: pick_str(cli.text_color, cfg_text_color, "FFFFFF"@),
        background_color: pick_str(cli.background_color, cfg_background_color, "000000"@),
        track_name: if uc is Some && uc->0.display_track_name is Some {
            uc->0.display_track_name
        } else {
            cli.track_name
        },
        display_gui: if uc is Some && uc->0.display_gui is Some {
            uc->0.display_gui
        } else {
            cli.display_gui
        },
    }
}

/// An argument set agrees with a merge result when every optional setting
/// holds exactly the resolved value.
pub open spec fn agrees_with(a: CLIArgs, m: MergedArgs) -> bool {
    &&& a.smoothness == Some(m.smoothness)
    &&& a.freq_resolution == Some(m.freq_resolution)
    &&& a.min_freq == Some(m.min_freq)
    &&& a.max_freq == Some(m.max_freq)
    &&& a.volume == Some(m.volume)
    &&& a.window_width == Some(m.window_width)
    &&& a.window_height == Some(m.window_height)
    &&& a.border_size == Some(m.border_size)
    &&& a.font_size == Some(m.font_size)
    &&& opt_view(a.border_color) == Some(m.border_color)
    &&& opt_view(a.bar_color) == Some(m.bar_color)
    &&& opt_view(a.text_color) == Some(m.text_color)
    &&& opt_view(a.background_color) == Some(m.background_color)
    &&& a.track_name == m.track_name
    &&& a.display_gui == m.display_gui
}

/// The merge of one copyable optional setting.
fn merge_val<T: Copy>(cli: Option<T>, cfg: Option<T>, dflt: T) -> (r: T)
    ensures
        r == pick(cli, cfg, dflt),
{
    match cli {
        Some(v) => v,
        None => match cfg {
            Some(v) => v,
            None => dflt,
        },
    }
}

/// The merge of one optional string setting.
fn merge_str(cli: &Option<String>, cfg: &Option<String>, dflt: &'static str) -> (r: String)
    ensures
        r@ == (if *cli is Some {
            (*cli)->0@
        } else if *cfg is Some {
            (*cfg)->0@
        } else {
            dflt@
        }),
{
    match cli {
        Some(s) => s.clone(),
        None => match cfg {
            Some(s) => s.clone(),
            None => String::from_str(dflt),
        },
    }
}

/// Merge the configuration file into the command-line arguments in place:
/// an argument given on the command line is kept, a missing one is taken
/// from the configuration file, and failing that from the defaults. The
/// two display flags are instead overridden by the file whenever it sets
/// them, and are left untouched when no file is given. The audio file path
/// is never changed.
pub fn merge_config_with_cli_args(args: &mut CLIArgs, user_config: &Option<ConfigFFTArgs>)
    ensures
        final(args).file_path == old(args).file_path,
        agrees_with(*final(args), merged_args(*old(args), *user_config)),
{
    let none_str: Option<String> = None;
    args.smoothness = Some(
        merge_val(
            args.smoothness,
            match user_config {
                Some(c) => c.smoothness,
                None => None,
            },
            1,
        ),
    );
    args.freq_resolution = Some(
        merge_val(
            args.freq_resolution,
            match user_config {
                Some(c) => c.freq_resolution,
                None => None,
            },
            90,
        ),
    );
    args.min_freq = Some(
        merge_val(
            args.min_freq,
            match user_config {
                Some(c) => c.min_freq,
                None => None,
            },
            0,
        ),
    );
    args.max_freq = Some(
        merge_val(
            args.max_freq,
            match user_config {
                Some(c) => c.max_freq,
                None => None,
            },
            5000,
        ),
    );
    args.volume = Some(
        merge_val(
            args.volume,
            match user_config {
                Some(c) => c.volume,
                None => None,
            },
            50,
        ),
    );
    args.window_width = Some(
        merge_val(
            args.window_width,
            match user_config {
                Some(c) => c.window_width,
                None => None,
            },
            1000,
        ),
    );
    args.window_height = Some(
        merge_val(
            args.window_height,
            match user_config {
                Some(c) => c.window_height,
                None => None,
            },
            700,
        ),
    );
    args.border_size = Some(
        merge_val(
            args.border_size,
            match user_config {
                Some(c) => c.border_size,
                None => None,
            },
            1,
        ),
    );
    args.font_size = Some(
        merge_val(
            args.font_size,
            match user_config {
                Some(c) => c.font_size,
                None => None,
            },
            25,
        ),
    );
    args.border_color = Some(
        merge_str(
            &args.border_color,
            match user_config {
                Some(c) => &c.border_color,
                None => &none_str,
            },
            "000000",
        ),
    );
    args.bar_color = Some(
        merge_str(
            &args.bar_color,
            match user_config {
                Some(c) => &c.bar_color,
                None => &none_str,
            },
            "FF0000",
        ),
    );
    args.text_color = Some(
        merge_str(
            &args.text_color,
            match user_config {
                Some(c) => &c.text_color,
                None => &none_str,
            },
            "FFFFFF",
        ),
    );
    args.background_color = Some(
        merge_str(
            &args.background_color,
            match user_config {
                Some(c) => &c.background_color,
                None => &none_str,
            },
            "000000",
        ),
    );
    match user_config {
        Some(c) => {
            if c.display_track_name.is_some() {
                args.track_name = c.display_track_name;
            }
            if c.display_gui.is_some() {
                args.display_gui = c.display_gui;
            }
        },
        None => {},
    }
}

/// Format a color as six uppercase hex digits, as written to the
/// configuration file.
pub fn convert_color_to_hex(c: &Rgb8) -> (r: String)
    ensures
        r@ == color_hex(*c),
{
    let mut out: String = String::new();
    out.append(nibble_str(c.r / 16));
    out.append(nibble_str(c.r % 16));
    out.append(nibble_str(c.g / 16));
    out.append(nibble_str(c.g % 16));
    out.append(nibble_str(c.b / 16));
    out.append(nibble_str(c.b % 16));
    proof {
        assert(out@ =~= color_hex(*c));
    }
    out
}

/// The color encoded by a six-hex-digit string, one byte per component.
pub open spec fn rgb_of(s: Seq<char>) -> Rgb8 {
    Rgb8 { r: hex_byte(s, 0) as u8, g: hex_byte(s, 1) as u8, b: hex_byte(s, 2) as u8 }
}

/// Resolve the parsed command line against the configuration file and the
/// defaults, validate the merged values, and parse the colors. Fails fast:
/// an out-of-range smoothness is reported first, then an out-of-range
/// frequency resolution, then a malformed color; otherwise every resolved
/// setting is carried over. Playback starts unpaused at the fixed analysis
/// rate.
pub fn cli_args_to_fft_args(cli_args: CLIArgs, user_config: Option<ConfigFFTArgs>) -> (r: Result<
    FFTArgs,
    ConfigError,
>)
    requires
        cli_args.track_name is Some,
        cli_args.display_gui is Some,
    ensures
        ({
            let m = merged_args(cli_args, user_config);
            match r {
                Ok(a) => {
                    &&& m.smoothness <= 3
                    &&& 10 <= m.freq_resolution <= 300
                    &&& hex_ok(m.border_color)
                    &&& hex_ok(m.bar_color)
                    &&& hex_ok(m.text_color)
                    &&& hex_ok(m.background_color)
                    &&& a.file_path == cli_args.file_path
                    &&& a.smoothness == m.smoothness
                    &&& a.freq_resolution == m.freq_resolution
                    &&& a.min_freq == m.min_freq
                    &&& a.max_freq == m.max_freq
                    &&& a.volume == m.volume
                    &&& a.window_width == m.window_width
                    &&& a.window_height == m.window_height
                    &&& a.border_size == m.border_size
                    &&& a.font_size == m.font_size
                    &&& a.track_name == m.track_name->0
                    &&& a.display_gui == m.display_gui->0
                    &&& a.border_color == rgb_of(m.border_color)
                    &&& a.bar_color == rgb_of(m.bar_color)
                    &&& a.text_color == rgb_of(m.text_color)
                    &&& a.background_color == rgb_of(m.background_color)
                    &&& a.paused == false
                    &&& a.fft_fps == FFT_FPS
                },
                Err(ConfigError::Smoothness) => m.smoothness > 3,
                Err(ConfigError::FreqResolution) => {
                    &&& m.smoothness <= 3
                    &&& !(10 <= m.freq_resolution <= 300)
                },
                Err(ConfigError::BadColor) => {
                    &&& m.smoothness <= 3
                    &&& 10 <= m.freq_resolution <= 300
                    &&& !(hex_ok(m.border_color) && hex_ok(m.bar_color) && hex_ok(m.text_color)
                        && hex_ok(m.background_color))
                },
            }
        }),
{
    let mut merged = cli_args;
    merge_config_with_cli_args(&mut merged, &user_config);
    let smoothness: u32 = merged.smoothness.unwrap();
    if !bar_smoothness_constraint(smoothness) {
        return Err(ConfigError::Smoothness);
    }
    let freq_resolution: u32 = merged.freq_resolution.unwrap();
    if !freq_resolution_constraint(freq_resolution) {
        return Err(ConfigError::FreqResolution);
    }
    let border_color: Rgb8 = match &merged.border_color {
        Some(s) => match parse_hex_color(s) {
            Ok(c) => c,
            Err(e) => {
                return Err(e);
            },
        },
        None => {
            return Err(ConfigError::BadColor);
        },
    };
    let bar_color: Rgb8 = match &merged.bar_color {
        Some(s) => match parse_hex_color(s) {
            Ok(c) => c,
            Err(e) => {
                return Err(e);
            },
        },
        None => {
            return Err(ConfigError::BadColor);
        },
    };
    let text_color: Rgb8 = match &merged.text_color {
        Some(s) => match parse_hex_color(s) {
            Ok(c) => c,
            Err(e) => {
                return Err(e);
            },
        },
        None => {
            return Err(ConfigError::BadColor);
        },
    };
    let background_color: Rgb8 = match &merged.background_color {
        Some(s) => match parse_hex_color(s) {
            Ok(c) => c,
            Err(e) => {
                return Err(e);
            },
        },
        None => {
            return Err(ConfigError::BadColor);
        },
    };
    Ok(
        FFTArgs {
            file_path: merged.file_path,
            border_size: merged.border_size.unwrap(),
            border_color,
            bar_color,
            track_name: merged.track_name.unwrap(),
            text_color,
            font_size: merged.font_size.unwrap(),
            background_color,
            smoothness,
            freq_resolution,
            window_height: merged.window_height.unwrap(),
            window_width: merged.window_width.unwrap(),
            min_freq: merged.min_freq.unwrap(),
            max_freq: merged.max_freq.unwrap(),
            display_gui: merged.display_gui.unwrap(),
            volume: merged.volume.unwrap(),
            paused: false,
            fft_fps: FFT_FPS,
        },
    )
}

/// The configuration-file record that saving an argument set produces:
/// every setting is written back, except the panel flag, which keeps its
/// default.
pub fn fftargs_to_config(args: &FFTArgs) -> (c: ConfigFFTArgs)
    ensures
        c.border_size == Some(args.border_size),
        opt_view(c.border_color) == Some(color_hex(args.border_color)),
        opt_view(c.bar_color) == Some(color_hex(args.bar_color)),
        c.display_track_name == Some(args.track_name),
        opt_view(c.text_color) == Some(color_hex(args.text_color)),
        c.font_size == Some(args.font_size),
        opt_view(c.background_color) == Some(color_hex(args.background_color)),
        c.smoothness == Some(args.smoothness),
        c.freq_resolution == Some(args.freq_resolution),
        c.window_width == Some(args.window_width),
        c.window_height == Some(args.window_height),
        c.min_freq == Some(args.min_freq),
        c.max_freq == Some(args.max_freq),
        c.display_gui == Some(false),
        c.volume == Some(args.volume),
{
    ConfigFFTArgs {
        border_size: Some(args.border_size),
        border_color: Some(convert_color_to_hex(&args.border_color)),
        bar_color: Some(convert_color_to_hex(&args.bar_color)),
        display_track_name: Some(args.track_name),
        text_color: Some(convert_color_to_hex(&args.text_color)),
        font_size: Some(args.font_size),
        background_color: Some(convert_color_to_hex(&args.background_color)),
        smoothness: Some(args.smoothness),
        freq_resolution: Some(args.freq_resolution),
        window_width: Some(args.window_width),
        window_height: Some(args.window_height),
        min_freq: Some(args.min_freq),
        max_freq: Some(args.max_freq),
        display_gui: Some(false),
        volume: Some(args.volume),
    }
}

/// Relies on std::path::Path::exists: true exactly when the path points at
/// an entity that exists on disk at the time of the call; nothing can be
/// promised about the result, as it depends on the filesystem.
#[verifier::external_body]
fn path_exists(path: &String) -> bool {
    std::path::Path::new(path.as_str()).exists()
}

/// Whether a configuration file is present at the given path.
pub fn config_exists(config_path: &String) -> bool {
    path_exists(config_path)
}

} // verus!
