//! Application settings and their defaults.

use vstd::prelude::*;
use crate::text::{chars_of, extend_str, owned, str_eq, string_from, trim, trim_bounds};

verus! {

/// Application settings.
pub struct Settings {
    /// `overlay` (floating) or `inline` loading indicator.
    pub loading_style: String,
    pub quick_search_enabled: bool,
    pub quick_search_shortcut: String,
    /// Shortcut of the title search.
    pub search_shortcut: String,
    pub auto_fullscreen: bool,
    pub aniskip_enabled: bool,
    /// Check for a new release at start and update the image.
    pub auto_update: bool,
    /// Say so at start when the release is current.
    pub notify_uptodate: bool,
}

/// Default loading indicator: `overlay`.
pub fn default_loading() -> (r: String)
    ensures
        r@ == "overlay"@,
{
    owned("overlay")
}

/// Quick search is on by default.
pub fn default_quick_search() -> (r: bool)
    ensures
        r,
{
    true
}

/// Default quick-search shortcut: `/`.
pub fn default_shortcut() -> (r: String)
    ensures
        r@ == "/"@,
{
    owned("/")
}

/// Default title-search shortcut: `Ctrl+S`.
pub fn default_search_shortcut() -> (r: String)
    ensures
        r@ == "Ctrl+S"@,
{
    owned("Ctrl+S")
}

/// The default of the switches that start on.
pub fn default_true() -> (r: bool)
    ensures
        r,
{
    true
}

impl Default for Settings {
    fn default() -> (r: Self)
        ensures
            r.loading_style@ == "overlay"@,
            r.quick_search_enabled,
            r.quick_search_shortcut@ == "/"@,
            r.search_shortcut@ == "Ctrl+S"@,
            r.auto_fullscreen && r.aniskip_enabled && r.auto_update && r.notify_uptodate,
    {
        Settings {
            loading_style: default_loading(),
            quick_search_enabled: default_quick_search(),
            quick_search_shortcut: default_shortcut(),
            search_shortcut: default_search_shortcut(),
            auto_fullscreen: default_true(),
            aniskip_enabled: default_true(),
            auto_update: default_true(),
            notify_uptodate: default_true(),
        }
    }
}


// ---------------------------------------------------------------------------
// The settings form: menus and their values
// ---------------------------------------------------------------------------

pub open spec fn strs(v: Seq<&str>) -> Seq<Seq<char>> {
    v.map_values(|s: &str| s@)
}

/// Position of the first option equal to `s`.
pub open spec fn option_pos(opts: Seq<Seq<char>>, s: Seq<char>) -> Option<int>
    decreases opts.len(),
{
    if opts.len() == 0 {
        None
    } else {
        match option_pos(opts.drop_last(), s) {
            Some(i) => Some(i),
            None => if opts.last() == s { Some(opts.len() - 1) } else { None },
        }
    }
}

/// The menu entry selected for value `s`: its option's position, the first
/// entry when it is not an option.
pub open spec fn option_index_spec(opts: Seq<Seq<char>>, s: Seq<char>) -> int {
    match option_pos(opts, s) {
        Some(i) => i,
        None => 0,
    }
}

/// The value of menu entry `i`: its option, the first option past the end.
pub open spec fn option_at_spec(opts: Seq<Seq<char>>, i: int) -> Seq<char> {
    if 0 <= i < opts.len() { opts[i] } else { opts[0] }
}

proof fn lemma_option_pos(opts: Seq<Seq<char>>, s: Seq<char>)
    ensures
        option_pos(opts, s) matches Some(i) ==> 0 <= i < opts.len() && opts[i] == s
            && forall|k: int| 0 <= k < i ==> opts[k] != s,
        option_pos(opts, s) is None ==> !opts.contains(s),
    decreases opts.len(),
{
    if opts.len() > 0 {
        let d = opts.drop_last();
        lemma_option_pos(d, s);
        assert forall|k: int| 0 <= k < d.len() implies opts[k] == d[k] by {}
        if option_pos(opts, s) is None && opts.contains(s) {
            let k = choose|k: int| 0 <= k < opts.len() && opts[k] == s;
            if k < d.len() {
                assert(d.contains(s));
            }
        }
    }
}

proof fn lemma_prefix_option_pos(opts: Seq<Seq<char>>, s: Seq<char>, n: int)
    requires
        0 <= n <= opts.len(),
        option_pos(opts.take(n), s) is Some,
    ensures
        option_pos(opts, s) == option_pos(opts.take(n), s),
    decreases opts.len() - n,
{
    if n < opts.len() {
        assert(opts.take(n + 1).drop_last() =~= opts.take(n));
        lemma_prefix_option_pos(opts, s, n + 1);
    } else {
        assert(opts.take(n) =~= opts);
    }
}

/// The menu entry to select for the value `current`.
pub fn option_index(options: &[&str], current: &str) -> (r: usize)
    ensures
        r == option_index_spec(strs(options@), current@),
{
    let ghost o = strs(options@);
    let mut i: usize = 0;
    while i < options.len()
        invariant
            i <= options@.len(),
            o == strs(options@),
            option_pos(o.take(i as int), current@) is None,
        decreases options@.len() - i,
    {
        assert(o.take(i as int + 1).drop_last() =~= o.take(i as int));
        assert(o.take(i as int + 1).last() == options@[i as int]@);
        if str_eq(options[i], current) {
            proof { lemma_prefix_option_pos(o, current@, i as int + 1); }
            return i;
        }
        i = i + 1;
    }
    assert(o.take(options@.len() as int) =~= o);
    0
}

/// The value of the selected menu entry.
pub fn option_at<'a>(options: &[&'a str], i: u32) -> (r: &'a str)
    requires
        options@.len() > 0,
    ensures
        r@ == option_at_spec(strs(options@), i as int),
{
    if (i as usize) < options.len() {
        options[i as usize]
    } else {
        options[0]
    }
}

/// Selecting the entry of a value and reading it back gives the value when
/// it is one of the options; and reading entry `i` back to its position
/// gives `i` when no option occurs twice.
pub proof fn lemma_option_round_trip(opts: Seq<Seq<char>>, s: Seq<char>, i: int)
    requires
        opts.len() > 0,
    ensures
        opts.contains(s) ==> option_at_spec(opts, option_index_spec(opts, s)) == s,
        !opts.contains(s) ==> option_at_spec(opts, option_index_spec(opts, s)) == opts[0],
        opts.no_duplicates() && 0 <= i < opts.len() ==> option_index_spec(opts, option_at_spec(opts, i)) == i,
{
    lemma_option_pos(opts, s);
    lemma_option_pos(opts, option_at_spec(opts, i));
    if opts.no_duplicates() && 0 <= i < opts.len() {
        assert(opts.contains(opts[i]));
    }
}

/// The quick-search shortcuts offered, in menu order.
pub fn episode_shortcuts() -> (r: Vec<&'static str>)
    ensures
        strs(r@) == seq!["/"@, "Ctrl+F"@, "F3"@, "Ctrl+K"@],
{
    let v = vec!["/", "Ctrl+F", "F3", "Ctrl+K"];
    assert(strs(v@) =~= seq!["/"@, "Ctrl+F"@, "F3"@, "Ctrl+K"@]);
    v
}

/// The title-search shortcuts offered, in menu order.
pub fn search_shortcuts() -> (r: Vec<&'static str>)
    ensures
        strs(r@) == seq!["Ctrl+S"@, "Ctrl+K"@, "F2"@, "/"@],
{
    let v = vec!["Ctrl+S", "Ctrl+K", "F2", "/"];
    assert(strs(v@) =~= seq!["Ctrl+S"@, "Ctrl+K"@, "F2"@, "/"@]);
    v
}

/// The picture upscaling modes, in menu order.
pub fn upscale_modes() -> (r: Vec<&'static str>)
    ensures
        strs(r@) == seq!["off"@, "sharp"@, "hafif"@, "ultra"@, "hafif_keskin"@],
{
    let v = vec!["off", "sharp", "hafif", "ultra", "hafif_keskin"];
    assert(strs(v@) =~= seq!["off"@, "sharp"@, "hafif"@, "ultra"@, "hafif_keskin"@]);
    v
}

/// The assistant's models, in menu order (the first is recommended).
pub fn assistant_models() -> (r: Vec<&'static str>)
    ensures
        strs(r@) == seq!["qwen/qwen3.8-27b"@, "qwen/qwen3-32b"@, "llama-3.3-70b-versatile"@, "llama-3.1-8b-instant"@],
{
    let v = vec!["qwen/qwen3.8-27b", "qwen/qwen3-32b", "llama-3.3-70b-versatile", "llama-3.1-8b-instant"];
    assert(strs(v@) =~= seq!["qwen/qwen3.8-27b"@, "qwen/qwen3-32b"@, "llama-3.3-70b-versatile"@, "llama-3.1-8b-instant"@]);
    v
}

/// The assistant key as saved: none for a blank entry, else the text as
/// typed.
pub fn api_key_value(text: &str) -> (r: Option<String>)
    ensures
        trim(text@).len() == 0 ==> r is None,
        trim(text@).len() > 0 ==> (r matches Some(k) && k@ == text@),
{
    let v = chars_of(text);
    let (a, b) = trim_bounds(&v, 0, v.len());
    assert(v@.subrange(0, v@.len() as int) =~= v@);
    if a == b {
        None
    } else {
        Some(owned(text))
    }
}

/// The warning of the reset dialog.
pub fn wipe_warning(remove_app: bool) -> (r: &'static str)
    ensures
        r@ == if remove_app {
            "Tüm izleme geçmişiniz, ayarlarınız, kapak önbelleği ve UYGULAMA DOSYALARI sisteminizden kalıcı olarak silinecek. Emin misiniz?"@
        } else {
            "Tüm izleme geçmişiniz, ayarlarınız ve kapak önbelleği sıfırlanacak. Emin misiniz?"@
        },
{
    if remove_app {
        "Tüm izleme geçmişiniz, ayarlarınız, kapak önbelleği ve UYGULAMA DOSYALARI sisteminizden kalıcı olarak silinecek. Emin misiniz?"
    } else {
        "Tüm izleme geçmişiniz, ayarlarınız ve kapak önbelleği sıfırlanacak. Emin misiniz?"
    }
}

/// The version line of the settings page.
pub fn version_line(version: &str) -> (r: String)
    ensures
        r@ == "AnimeciX Masaüstü İstemcisi  •  v"@ + version@,
{
    let mut v = chars_of("AnimeciX Masaüstü İstemcisi  •  v");
    extend_str(&mut v, version);
    string_from(&v)
}


/// No menu offers a value twice, so each entry reads back to itself.
pub proof fn lemma_menus_distinct()
    ensures
        seq!["/"@, "Ctrl+F"@, "F3"@, "Ctrl+K"@].no_duplicates(),
        seq!["Ctrl+S"@, "Ctrl+K"@, "F2"@, "/"@].no_duplicates(),
        seq!["off"@, "sharp"@, "hafif"@, "ultra"@, "hafif_keskin"@].no_duplicates(),
        seq!["qwen/qwen3.8-27b"@, "qwen/qwen3-32b"@, "llama-3.3-70b-versatile"@, "llama-3.1-8b-instant"@].no_duplicates(),
{
    reveal_strlit("/");
    reveal_strlit("Ctrl+F");
    reveal_strlit("F3");
    reveal_strlit("Ctrl+K");
    reveal_strlit("Ctrl+S");
    reveal_strlit("F2");
    reveal_strlit("off");
    reveal_strlit("sharp");
    reveal_strlit("hafif");
    reveal_strlit("ultra");
    reveal_strlit("hafif_keskin");
    reveal_strlit("qwen/qwen3.8-27b");
    reveal_strlit("qwen/qwen3-32b");
    reveal_strlit("llama-3.3-70b-versatile");
    reveal_strlit("llama-3.1-8b-instant");
    let a = seq!["/"@, "Ctrl+F"@, "F3"@, "Ctrl+K"@];
    let b = seq!["Ctrl+S"@, "Ctrl+K"@, "F2"@, "/"@];
    let c = seq!["off"@, "sharp"@, "hafif"@, "ultra"@, "hafif_keskin"@];
    let d = seq!["qwen/qwen3.8-27b"@, "qwen/qwen3-32b"@, "llama-3.3-70b-versatile"@, "llama-3.1-8b-instant"@];
    assert forall|i: int, j: int| 0 <= i < a.len() && 0 <= j < a.len() && i != j implies a[i] != a[j] by {
        assert(a[i].len() != a[j].len() || a[i][0] != a[j][0] || a[i][a[i].len() - 1] != a[j][a[j].len() - 1]);
    }
    assert forall|i: int, j: int| 0 <= i < b.len() && 0 <= j < b.len() && i != j implies b[i] != b[j] by {
        assert(b[i].len() != b[j].len() || b[i][0] != b[j][0] || b[i][b[i].len() - 1] != b[j][b[j].len() - 1]);
    }
    assert forall|i: int, j: int| 0 <= i < c.len() && 0 <= j < c.len() && i != j implies c[i] != c[j] by {
        assert(c[i].len() != c[j].len() || c[i][0] != c[j][0]);
    }
    assert forall|i: int, j: int| 0 <= i < d.len() && 0 <= j < d.len() && i != j implies d[i] != d[j] by {
        assert(d[i].len() != d[j].len() || d[i][0] != d[j][0]);
    }
}

} // verus!
