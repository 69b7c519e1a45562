//! The fonts: the one mpv draws its on-screen text and subtitles with, and
//! the icon font of the interface.

use vstd::prelude::*;
use crate::text::{chars_of, extend_chars, extend_str, i64_decimal, int_decimal, owned, string_from};
use crate::vpn::{join_path, join_path_str};

verus! {

/// Style name of the bundled font.
pub const FONT_STYLE: &'static str = "Montserrat SemiBold";

/// File name of the bundled font.
pub const FONT_FILE: &'static str = "Montserrat[wght].ttf";

/// The mpv options that make OSD and subtitles use the bundled font found
/// in `dir`.
pub open spec fn mpv_font_args_spec(dir: Seq<char>) -> Seq<Seq<char>> {
    seq![
        "--osd-fonts-dir="@ + dir,
        "--sub-fonts-dir="@ + dir,
        "--osd-font="@ + FONT_STYLE@,
        "--osd-font-size=38"@,
        "--sub-font="@ + FONT_STYLE@,
    ]
}

/// mpv font options (readable OSD and subtitles) for the font directory `dir`.
pub fn mpv_font_args(dir: &str) -> (r: Vec<String>)
    ensures
        r@.map_values(|s: String| s@) == mpv_font_args_spec(dir@),
{
    let mut v: Vec<String> = Vec::new();
    let mut a = chars_of("--osd-fonts-dir=");
    extend_str(&mut a, dir);
    v.push(string_from(&a));
    let mut b = chars_of("--sub-fonts-dir=");
    extend_str(&mut b, dir);
    v.push(string_from(&b));
    let mut c = chars_of("--osd-font=");
    extend_str(&mut c, FONT_STYLE);
    v.push(string_from(&c));
    v.push(owned("--osd-font-size=38"));
    let mut d = chars_of("--sub-font=");
    extend_str(&mut d, FONT_STYLE);
    v.push(string_from(&d));
    assert(v@.map_values(|s: String| s@) =~= mpv_font_args_spec(dir@));
    v
}


/// The directory the bundled font is written to, under the temporary
/// directory `tmp`.
pub fn fonts_dir(tmp: &str) -> (r: String)
    ensures
        r@ == join_path(tmp@, "animecix-fonts"@),
{
    join_path_str(tmp, "animecix-fonts")
}

/// Where the icon font may be found, in the order tried: beside the
/// program (when its directory is known), in the user's data directory
/// (when there is a home), then in the system locations.
pub open spec fn icon_font_candidates_spec(exe_dir: Option<Seq<char>>, home: Option<Seq<char>>) -> Seq<Seq<char>> {
    (match exe_dir {
        Some(d) => seq![
            join_path(d, "usr/share/animecix/assets/lucide/lucide.ttf"@),
            join_path(d, "usr/share/animecix/assets/lucide.ttf"@),
            join_path(d, "assets/lucide/lucide.ttf"@),
            join_path(d, "../share/animecix/assets/lucide/lucide.ttf"@),
            join_path(d, "lucide.ttf"@),
        ],
        None => Seq::empty(),
    }) + (match home {
        Some(h) => seq![
            h + "/.local/share/animecix/assets/lucide/lucide.ttf"@,
            h + "/.local/share/animecix/assets/lucide.ttf"@,
        ],
        None => Seq::empty(),
    }) + seq!["/usr/share/animecix/assets/lucide/lucide.ttf"@, "/app/share/animecix/assets/lucide/lucide.ttf"@]
}

fn with_suffix(h: &str, rest: &str) -> (r: String)
    ensures
        r@ == h@ + rest@,
{
    let mut v = chars_of(h);
    extend_str(&mut v, rest);
    string_from(&v)
}

/// The places the icon font is looked for, in order.
pub fn icon_font_candidates(exe_dir: Option<&str>, home: Option<&str>) -> (r: Vec<String>)
    ensures
        r@.map_values(|s: String| s@) == icon_font_candidates_spec(
            match exe_dir { Some(d) => Some(d@), None => None },
            match home { Some(h) => Some(h@), None => None },
        ),
{
    let mut v: Vec<String> = Vec::new();
    if let Some(d) = exe_dir {
        v.push(join_path_str(d, "usr/share/animecix/assets/lucide/lucide.ttf"));
        v.push(join_path_str(d, "usr/share/animecix/assets/lucide.ttf"));
        v.push(join_path_str(d, "assets/lucide/lucide.ttf"));
        v.push(join_path_str(d, "../share/animecix/assets/lucide/lucide.ttf"));
        v.push(join_path_str(d, "lucide.ttf"));
    }
    let ghost a = v@.map_values(|s: String| s@);
    if let Some(h) = home {
        v.push(with_suffix(h, "/.local/share/animecix/assets/lucide/lucide.ttf"));
        v.push(with_suffix(h, "/.local/share/animecix/assets/lucide.ttf"));
    }
    let ghost b = v@.map_values(|s: String| s@);
    v.push(owned("/usr/share/animecix/assets/lucide/lucide.ttf"));
    v.push(owned("/app/share/animecix/assets/lucide/lucide.ttf"));
    proof {
        let hv = match home { Some(h) => Some(h@), None => None };
        assert(b =~= a + (match hv {
            Some(h) => seq![h + "/.local/share/animecix/assets/lucide/lucide.ttf"@, h + "/.local/share/animecix/assets/lucide.ttf"@],
            None => Seq::empty(),
        }));
    }
    assert(v@.map_values(|s: String| s@) =~= icon_font_candidates_spec(
        match exe_dir { Some(d) => Some(d@), None => None },
        match home { Some(h) => Some(h@), None => None },
    ));
    v
}

/// The style sheet that makes the icon font at `path` available.
pub fn icon_font_css(path: &str) -> (r: String)
    ensures
        r@ == "@font-face { font-family: 'Lucide'; src: url('file://"@ + path@ + "'); }\n"@,
{
    let mut v = chars_of("@font-face { font-family: 'Lucide'; src: url('file://");
    extend_str(&mut v, path);
    extend_str(&mut v, "'); }\n");
    string_from(&v)
}

/// The style of an icon label of `size` pixels.
pub fn icon_label_css(size: i32) -> (r: String)
    ensures
        r@ == "label { font-family: 'Lucide'; font-size: "@ + int_decimal(size as int) + "px; }"@,
{
    let mut v = chars_of("label { font-family: 'Lucide'; font-size: ");
    let d = i64_decimal(size as i64);
    extend_chars(&mut v, &d);
    extend_str(&mut v, "px; }");
    string_from(&v)
}

} // verus!
