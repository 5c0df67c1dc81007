//! What registering the viewer as the handler of its file types writes: the program
//! identifier, its open command and icon, and the extensions claimed.

use vstd::prelude::*;

use crate::media::{extensions_for, image_extensions, model_extensions, video_extensions, views, MediaKind};
use crate::settings::FileAssociations;
use crate::text::{append_chars, chars_of, string_from_chars};

verus! {

broadcast use vstd::string::group_string_axioms;

/// Why file associations could not be changed.
#[derive(Debug)]
pub enum ShellError {
    UnsupportedPlatform,
    Io(std::io::Error),
}

/// Program identifier under which the viewer registers.
pub const PROG_ID: &'static str = "LookEveryting";

/// The extensions claimed for the chosen media kinds, images first, then videos, then models.
pub open spec fn claimed_extensions(prefs: FileAssociations) -> Seq<Seq<char>> {
    (if prefs.images {
        image_extensions()
    } else {
        Seq::empty()
    }) + (if prefs.videos {
        video_extensions()
    } else {
        Seq::empty()
    }) + (if prefs.models {
        model_extensions()
    } else {
        Seq::empty()
    })
}

/// The extensions to associate with the viewer.
pub fn associated_extensions(prefs: &FileAssociations) -> (r: Vec<&'static str>)
    ensures
        views(r@) == claimed_extensions(*prefs),
{
    let mut out: Vec<&'static str> = Vec::new();
    if prefs.images {
        let a = extensions_for(MediaKind::Image);
        out.extend_from_slice(a);
    }
    let ghost after_images = out@;
    if prefs.videos {
        let b = extensions_for(MediaKind::Video);
        out.extend_from_slice(b);
    }
    let ghost after_videos = out@;
    if prefs.models {
        let c = extensions_for(MediaKind::Model);
        out.extend_from_slice(c);
    }
    proof {
        let i_part = if prefs.images {
            image_extensions()
        } else {
            Seq::empty()
        };
        let v_part = if prefs.videos {
            video_extensions()
        } else {
            Seq::empty()
        };
        let m_part = if prefs.models {
            model_extensions()
        } else {
            Seq::empty()
        };
        assert(views(after_images) =~= i_part);
        assert(views(after_videos) =~= i_part + v_part) by {
            assert(views(after_videos) =~= views(after_images) + views(after_videos.skip(
                after_images.len() as int,
            )));
        }
        assert(views(out@) =~= i_part + v_part + m_part) by {
            assert(views(out@) =~= views(after_videos) + views(out@.skip(after_videos.len() as int)));
        }
    }
    out
}

/// The shell command that opens a file with the executable at `exe`.
pub open spec fn open_command_text(exe: Seq<char>) -> Seq<char> {
    "\""@ + exe + "\" \"%1\""@
}

/// The open command registered for the program identifier.
pub fn open_command(exe: &str) -> (r: String)
    ensures
        r@ == open_command_text(exe@),
{
    let mut v = chars_of("\"");
    let e = chars_of(exe);
    let tail = chars_of("\" \"%1\"");
    append_chars(&mut v, e.as_slice());
    append_chars(&mut v, tail.as_slice());
    string_from_chars(v.as_slice())
}

/// The icon registered for the program identifier: the executable's first icon.
pub fn default_icon(exe: &str) -> (r: String)
    ensures
        r@ == exe@ + ",0"@,
{
    let mut v = chars_of(exe);
    let tail = chars_of(",0");
    append_chars(&mut v, tail.as_slice());
    string_from_chars(v.as_slice())
}

/// The registry key of an extension: the extension behind a dot.
pub fn extension_key(ext: &str) -> (r: String)
    ensures
        r@ == "."@ + ext@,
{
    let mut v = chars_of(".");
    let e = chars_of(ext);
    append_chars(&mut v, e.as_slice());
    string_from_chars(v.as_slice())
}

} // verus!
