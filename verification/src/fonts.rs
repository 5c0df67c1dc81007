//! Where CJK fonts are looked for: bundled next to the executable, else in the system's
//! font directories.

use vstd::prelude::*;

use crate::text::{append_chars, chars_of, string_from_chars, string_views};

verus! {

broadcast use vstd::string::group_string_axioms;

/// Font files looked for in the `fonts` directory beside the executable, in order.
pub open spec fn bundled_font_names() -> Seq<Seq<char>> {
    seq![
        "NotoSansSC-Regular.otf"@,
        "NotoSansSC-Regular.ttf"@,
        "msyh.ttc"@,
        "msyhbd.ttc"@,
        "simhei.ttf"@,
    ]
}

/// `name` appended to the directory path `base` with separator `sep`: a name that starts with
/// the separator replaces the base, and no separator is doubled.
pub open spec fn joined(base: Seq<char>, name: Seq<char>, sep: char) -> Seq<char> {
    if name.len() > 0 && name[0] == sep {
        name
    } else if base.len() == 0 || base.last() == sep {
        base + name
    } else {
        base + seq![sep] + name
    }
}

/// Join a relative name onto a directory path.
pub fn join_path(base: &str, name: &str, sep: char) -> (r: String)
    ensures
        r@ == joined(base@, name@, sep),
{
    let b = chars_of(base);
    let n = chars_of(name);
    if n.len() > 0 && n[0] == sep {
        return string_from_chars(n.as_slice());
    }
    let mut out = b;
    if !(out.len() == 0 || out[out.len() - 1] == sep) {
        out.push(sep);
    }
    append_chars(&mut out, n.as_slice());
    string_from_chars(out.as_slice())
}

/// The bundled font paths in the `fonts` directory of `exe_dir`.
pub open spec fn bundled_paths(exe_dir: Seq<char>, sep: char) -> Seq<Seq<char>> {
    bundled_font_names().map_values(
        |name: Seq<char>| joined(joined(exe_dir, "fonts"@, sep), name, sep),
    )
}

/// Candidate paths of the bundled CJK fonts, for the directory of the executable.
pub fn bundled_font_paths(exe_dir: &str, sep: char) -> (r: Vec<String>)
    ensures
        string_views(r@) == bundled_paths(exe_dir@, sep),
{
    let names: [&'static str; 5] = [
        "NotoSansSC-Regular.otf",
        "NotoSansSC-Regular.ttf",
        "msyh.ttc",
        "msyhbd.ttc",
        "simhei.ttf",
    ];
    let font_dir = join_path(exe_dir, "fonts", sep);
    let mut out: Vec<String> = Vec::new();
    let mut i: usize = 0;
    while i < 5
        invariant
            i <= 5,
            names@.len() == 5,
            font_dir@ == joined(exe_dir@, "fonts"@, sep),
            forall|k: int| 0 <= k < 5 ==> (#[trigger] names@[k])@ == bundled_font_names()[k],
            string_views(out@) == bundled_paths(exe_dir@, sep).take(i as int),
        decreases 5 - i,
    {
        let ghost prev = string_views(out@);
        let p = join_path(font_dir.as_str(), names[i], sep);
        out.push(p);
        assert(string_views(out@) =~= prev.push(p@));
        assert(bundled_paths(exe_dir@, sep).take(i + 1) =~= bundled_paths(exe_dir@, sep).take(
            i as int,
        ).push(bundled_paths(exe_dir@, sep)[i as int]));
        i += 1;
    }
    assert(bundled_paths(exe_dir@, sep).take(5) =~= bundled_paths(exe_dir@, sep));
    out
}

/// Operating systems with known CJK font locations.
#[derive(Debug, Clone, Copy, PartialEq, Eq, Structural)]
pub enum Platform {
    Windows,
    MacOs,
    Linux,
    Other,
}

/// Fonts looked for in the Windows font directory, in order.
pub open spec fn windows_font_names() -> Seq<Seq<char>> {
    seq!["msyh.ttc"@, "msyhbd.ttc"@, "simhei.ttf"@, "simsun.ttc"@, "msjh.ttc"@]
}

pub open spec fn macos_font_paths() -> Seq<Seq<char>> {
    seq![
        "/System/Library/Fonts/PingFang.ttc"@,
        "/System/Library/Fonts/STHeiti Light.ttc"@,
        "/System/Library/Fonts/Supplemental/Arial Unicode.ttf"@,
    ]
}

pub open spec fn linux_font_paths() -> Seq<Seq<char>> {
    seq![
        "/usr/share/fonts/opentype/noto/NotoSansCJK-Regular.ttc"@,
        "/usr/share/fonts/noto-cjk/NotoSansCJK-Regular.ttc"@,
        "/usr/share/fonts/truetype/noto/NotoSansCJK-Regular.ttc"@,
        "/usr/share/fonts/truetype/wqy/wqy-microhei.ttc"@,
    ]
}

/// System CJK font paths of a platform; on Windows they lie in the `Fonts` directory of
/// `windir` (the `WINDIR` variable, `C:\Windows` when unset).
pub open spec fn system_paths(platform: Platform, windir: Seq<char>) -> Seq<Seq<char>> {
    match platform {
        Platform::Windows => windows_font_names().map_values(
            |name: Seq<char>| joined(joined(windir, "Fonts"@, '\\'), name, '\\'),
        ),
        Platform::MacOs => macos_font_paths(),
        Platform::Linux => linux_font_paths(),
        Platform::Other => Seq::empty(),
    }
}

fn strings_of(list: &[&'static str]) -> (r: Vec<String>)
    ensures
        string_views(r@) == list@.map_values(|s: &'static str| s@),
{
    let mut out: Vec<String> = Vec::new();
    let mut i: usize = 0;
    while i < list.len()
        invariant
            i <= list@.len(),
            string_views(out@) == list@.take(i as int).map_values(|s: &'static str| s@),
        decreases list@.len() - i,
    {
        let ghost prev = string_views(out@);
        let c = chars_of(list[i]);
        out.push(string_from_chars(c.as_slice()));
        assert(string_views(out@) =~= prev.push(list@[i as int]@));
        assert(list@.take(i + 1).map_values(|s: &'static str| s@) =~= list@.take(i as int).map_values(
            |s: &'static str| s@,
        ).push(list@[i as int]@));
        i += 1;
    }
    assert(list@.take(list@.len() as int) =~= list@);
    out
}

/// Candidate paths of system CJK fonts.
pub fn system_cjk_font_paths(platform: Platform, windir: &str) -> (r: Vec<String>)
    ensures
        string_views(r@) == system_paths(platform, windir@),
{
    match platform {
        Platform::Windows => {
            let names: [&'static str; 5] = [
                "msyh.ttc",
                "msyhbd.ttc",
                "simhei.ttf",
                "simsun.ttc",
                "msjh.ttc",
            ];
            let fonts = join_path(windir, "Fonts", '\\');
            let ghost target = system_paths(platform, windir@);
            let mut out: Vec<String> = Vec::new();
            let mut i: usize = 0;
            while i < 5
                invariant
                    i <= 5,
                    names@.len() == 5,
                    platform == Platform::Windows,
                    target == system_paths(platform, windir@),
                    fonts@ == joined(windir@, "Fonts"@, '\\'),
                    forall|k: int| 0 <= k < 5 ==> (#[trigger] names@[k])@ == windows_font_names()[k],
                    string_views(out@) == target.take(i as int),
                decreases 5 - i,
            {
                let ghost prev = string_views(out@);
                let p = join_path(fonts.as_str(), names[i], '\\');
                out.push(p);
                assert(string_views(out@) =~= prev.push(p@));
                assert(target.take(i + 1) =~= target.take(i as int).push(target[i as int]));
                i += 1;
            }
            assert(target.take(5) =~= target);
            out
        },
        Platform::MacOs => {
            let list: [&'static str; 3] = [
                "/System/Library/Fonts/PingFang.ttc",
                "/System/Library/Fonts/STHeiti Light.ttc",
                "/System/Library/Fonts/Supplemental/Arial Unicode.ttf",
            ];
            let r = strings_of(&list);
            assert(list@.map_values(|s: &'static str| s@) =~= macos_font_paths());
            r
        },
        Platform::Linux => {
            let list: [&'static str; 4] = [
                "/usr/share/fonts/opentype/noto/NotoSansCJK-Regular.ttc",
                "/usr/share/fonts/noto-cjk/NotoSansCJK-Regular.ttc",
                "/usr/share/fonts/truetype/noto/NotoSansCJK-Regular.ttc",
                "/usr/share/fonts/truetype/wqy/wqy-microhei.ttc",
            ];
            let r = strings_of(&list);
            assert(list@.map_values(|s: &'static str| s@) =~= linux_font_paths());
            r
        },
        Platform::Other => Vec::new(),
    }
}

} // verus!
