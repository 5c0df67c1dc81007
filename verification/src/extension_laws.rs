//! The extension tables of the media kinds agree with classification: every listed extension
//! is lower case and classifies back to its kind, and no extension is listed for two kinds.

use vstd::prelude::*;

use crate::media::{
    classify, image_extensions, kind_extensions, kind_of_extension, model_extensions,
    lemma_path_extension_of, path_extension, video_extensions, MediaKind,
};
use crate::text::lower;

verus! {

/// A text different from every listed image extension is not among them.
proof fn lemma_not_image_extension(e: Seq<char>)
    requires
        e != "jpg"@,
        e != "jpeg"@,
        e != "png"@,
        e != "gif"@,
        e != "webp"@,
        e != "bmp"@,
        e != "tif"@,
        e != "tiff"@,
        e != "ico"@,
        e != "avif"@,
        e != "cr2"@,
        e != "cr3"@,
        e != "nef"@,
        e != "arw"@,
        e != "dng"@,
        e != "orf"@,
        e != "rw2"@,
        e != "raf"@,
        e != "pef"@,
        e != "srw"@,
    ensures
        !image_extensions().contains(e),
{
    assert forall|j: int| 0 <= j < image_extensions().len() implies image_extensions()[j] != e by {
        if j == 0 {} else if j == 1 {} else if j == 2 {} else if j == 3 {} else if j == 4 {} else if j == 5 {} else if j == 6 {} else if j == 7 {} else if j == 8 {} else if j == 9 {} else if j == 10 {} else if j == 11 {} else if j == 12 {} else if j == 13 {} else if j == 14 {} else if j == 15 {} else if j == 16 {} else if j == 17 {} else if j == 18 {} else {}
    }
}

/// A text different from every listed video extension is not among them.
proof fn lemma_not_video_extension(e: Seq<char>)
    requires
        e != "mp4"@,
        e != "m4v"@,
        e != "mov"@,
        e != "mkv"@,
        e != "webm"@,
        e != "avi"@,
        e != "wmv"@,
        e != "flv"@,
        e != "mpg"@,
        e != "mpeg"@,
    ensures
        !video_extensions().contains(e),
{
    assert forall|j: int| 0 <= j < video_extensions().len() implies video_extensions()[j] != e by {
        if j == 0 {} else if j == 1 {} else if j == 2 {} else if j == 3 {} else if j == 4 {} else if j == 5 {} else if j == 6 {} else if j == 7 {} else if j == 8 {} else {}
    }
}

/// No listed video extension is a listed image extension.
proof fn lemma_video_not_image(i: int)
    requires
        0 <= i < video_extensions().len(),
    ensures
        !image_extensions().contains(video_extensions()[i]),
{
    reveal_strlit("mp4");
    reveal_strlit("m4v");
    reveal_strlit("mov");
    reveal_strlit("mkv");
    reveal_strlit("webm");
    reveal_strlit("avi");
    reveal_strlit("wmv");
    reveal_strlit("flv");
    reveal_strlit("mpg");
    reveal_strlit("mpeg");
    reveal_strlit("jpg");
    reveal_strlit("jpeg");
    reveal_strlit("png");
    reveal_strlit("gif");
    reveal_strlit("webp");
    reveal_strlit("bmp");
    reveal_strlit("tif");
    reveal_strlit("tiff");
    reveal_strlit("ico");
    reveal_strlit("avif");
    reveal_strlit("cr2");
    reveal_strlit("cr3");
    reveal_strlit("nef");
    reveal_strlit("arw");
    reveal_strlit("dng");
    reveal_strlit("orf");
    reveal_strlit("rw2");
    reveal_strlit("raf");
    reveal_strlit("pef");
    reveal_strlit("srw");
    assert("mp4"@.len() == 3 && "mp4"@[0] == 'm' && "mp4"@[1] == 'p' && "mp4"@[2] == '4');
    assert("m4v"@.len() == 3 && "m4v"@[0] == 'm' && "m4v"@[1] == '4' && "m4v"@[2] == 'v');
    assert("mov"@.len() == 3 && "mov"@[0] == 'm' && "mov"@[1] == 'o' && "mov"@[2] == 'v');
    assert("mkv"@.len() == 3 && "mkv"@[0] == 'm' && "mkv"@[1] == 'k' && "mkv"@[2] == 'v');
    assert("webm"@.len() == 4 && "webm"@[0] == 'w' && "webm"@[1] == 'e' && "webm"@[2] == 'b' && "webm"@[3] == 'm');
    assert("avi"@.len() == 3 && "avi"@[0] == 'a' && "avi"@[1] == 'v' && "avi"@[2] == 'i');
    assert("wmv"@.len() == 3 && "wmv"@[0] == 'w' && "wmv"@[1] == 'm' && "wmv"@[2] == 'v');
    assert("flv"@.len() == 3 && "flv"@[0] == 'f' && "flv"@[1] == 'l' && "flv"@[2] == 'v');
    assert("mpg"@.len() == 3 && "mpg"@[0] == 'm' && "mpg"@[1] == 'p' && "mpg"@[2] == 'g');
    assert("mpeg"@.len() == 4 && "mpeg"@[0] == 'm' && "mpeg"@[1] == 'p' && "mpeg"@[2] == 'e' && "mpeg"@[3] == 'g');
    assert("jpg"@.len() == 3 && "jpg"@[0] == 'j' && "jpg"@[1] == 'p' && "jpg"@[2] == 'g');
    assert("jpeg"@.len() == 4 && "jpeg"@[0] == 'j' && "jpeg"@[1] == 'p' && "jpeg"@[2] == 'e' && "jpeg"@[3] == 'g');
    assert("png"@.len() == 3 && "png"@[0] == 'p' && "png"@[1] == 'n' && "png"@[2] == 'g');
    assert("gif"@.len() == 3 && "gif"@[0] == 'g' && "gif"@[1] == 'i' && "gif"@[2] == 'f');
    assert("webp"@.len() == 4 && "webp"@[0] == 'w' && "webp"@[1] == 'e' && "webp"@[2] == 'b' && "webp"@[3] == 'p');
    assert("bmp"@.len() == 3 && "bmp"@[0] == 'b' && "bmp"@[1] == 'm' && "bmp"@[2] == 'p');
    assert("tif"@.len() == 3 && "tif"@[0] == 't' && "tif"@[1] == 'i' && "tif"@[2] == 'f');
    assert("tiff"@.len() == 4 && "tiff"@[0] == 't' && "tiff"@[1] == 'i' && "tiff"@[2] == 'f' && "tiff"@[3] == 'f');
    assert("ico"@.len() == 3 && "ico"@[0] == 'i' && "ico"@[1] == 'c' && "ico"@[2] == 'o');
    assert("avif"@.len() == 4 && "avif"@[0] == 'a' && "avif"@[1] == 'v' && "avif"@[2] == 'i' && "avif"@[3] == 'f');
    assert("cr2"@.len() == 3 && "cr2"@[0] == 'c' && "cr2"@[1] == 'r' && "cr2"@[2] == '2');
    assert("cr3"@.len() == 3 && "cr3"@[0] == 'c' && "cr3"@[1] == 'r' && "cr3"@[2] == '3');
    assert("nef"@.len() == 3 && "nef"@[0] == 'n' && "nef"@[1] == 'e' && "nef"@[2] == 'f');
    assert("arw"@.len() == 3 && "arw"@[0] == 'a' && "arw"@[1] == 'r' && "arw"@[2] == 'w');
    assert("dng"@.len() == 3 && "dng"@[0] == 'd' && "dng"@[1] == 'n' && "dng"@[2] == 'g');
    assert("orf"@.len() == 3 && "orf"@[0] == 'o' && "orf"@[1] == 'r' && "orf"@[2] == 'f');
    assert("rw2"@.len() == 3 && "rw2"@[0] == 'r' && "rw2"@[1] == 'w' && "rw2"@[2] == '2');
    assert("raf"@.len() == 3 && "raf"@[0] == 'r' && "raf"@[1] == 'a' && "raf"@[2] == 'f');
    assert("pef"@.len() == 3 && "pef"@[0] == 'p' && "pef"@[1] == 'e' && "pef"@[2] == 'f');
    assert("srw"@.len() == 3 && "srw"@[0] == 's' && "srw"@[1] == 'r' && "srw"@[2] == 'w');
    if i == 0 {
        lemma_not_image_extension("mp4"@);
    } else if i == 1 {
        lemma_not_image_extension("m4v"@);
    } else if i == 2 {
        lemma_not_image_extension("mov"@);
    } else if i == 3 {
        lemma_not_image_extension("mkv"@);
    } else if i == 4 {
        lemma_not_image_extension("webm"@);
    } else if i == 5 {
        lemma_not_image_extension("avi"@);
    } else if i == 6 {
        lemma_not_image_extension("wmv"@);
    } else if i == 7 {
        lemma_not_image_extension("flv"@);
    } else if i == 8 {
        lemma_not_image_extension("mpg"@);
    } else if i == 9 {
        lemma_not_image_extension("mpeg"@);
    }
}

/// No listed model extension is a listed image extension.
proof fn lemma_model_not_image(i: int)
    requires
        0 <= i < model_extensions().len(),
    ensures
        !image_extensions().contains(model_extensions()[i]),
{
    reveal_strlit("glb");
    reveal_strlit("gltf");
    reveal_strlit("obj");
    reveal_strlit("stl");
    reveal_strlit("fbx");
    reveal_strlit("ply");
    reveal_strlit("dae");
    reveal_strlit("3mf");
    reveal_strlit("max");
    reveal_strlit("jpg");
    reveal_strlit("jpeg");
    reveal_strlit("png");
    reveal_strlit("gif");
    reveal_strlit("webp");
    reveal_strlit("bmp");
    reveal_strlit("tif");
    reveal_strlit("tiff");
    reveal_strlit("ico");
    reveal_strlit("avif");
    reveal_strlit("cr2");
    reveal_strlit("cr3");
    reveal_strlit("nef");
    reveal_strlit("arw");
    reveal_strlit("dng");
    reveal_strlit("orf");
    reveal_strlit("rw2");
    reveal_strlit("raf");
    reveal_strlit("pef");
    reveal_strlit("srw");
    assert("glb"@.len() == 3 && "glb"@[0] == 'g' && "glb"@[1] == 'l' && "glb"@[2] == 'b');
    assert("gltf"@.len() == 4 && "gltf"@[0] == 'g' && "gltf"@[1] == 'l' && "gltf"@[2] == 't' && "gltf"@[3] == 'f');
    assert("obj"@.len() == 3 && "obj"@[0] == 'o' && "obj"@[1] == 'b' && "obj"@[2] == 'j');
    assert("stl"@.len() == 3 && "stl"@[0] == 's' && "stl"@[1] == 't' && "stl"@[2] == 'l');
    assert("fbx"@.len() == 3 && "fbx"@[0] == 'f' && "fbx"@[1] == 'b' && "fbx"@[2] == 'x');
    assert("ply"@.len() == 3 && "ply"@[0] == 'p' && "ply"@[1] == 'l' && "ply"@[2] == 'y');
    assert("dae"@.len() == 3 && "dae"@[0] == 'd' && "dae"@[1] == 'a' && "dae"@[2] == 'e');
    assert("3mf"@.len() == 3 && "3mf"@[0] == '3' && "3mf"@[1] == 'm' && "3mf"@[2] == 'f');
    assert("max"@.len() == 3 && "max"@[0] == 'm' && "max"@[1] == 'a' && "max"@[2] == 'x');
    assert("jpg"@.len() == 3 && "jpg"@[0] == 'j' && "jpg"@[1] == 'p' && "jpg"@[2] == 'g');
    assert("jpeg"@.len() == 4 && "jpeg"@[0] == 'j' && "jpeg"@[1] == 'p' && "jpeg"@[2] == 'e' && "jpeg"@[3] == 'g');
    assert("png"@.len() == 3 && "png"@[0] == 'p' && "png"@[1] == 'n' && "png"@[2] == 'g');
    assert("gif"@.len() == 3 && "gif"@[0] == 'g' && "gif"@[1] == 'i' && "gif"@[2] == 'f');
    assert("webp"@.len() == 4 && "webp"@[0] == 'w' && "webp"@[1] == 'e' && "webp"@[2] == 'b' && "webp"@[3] == 'p');
    assert("bmp"@.len() == 3 && "bmp"@[0] == 'b' && "bmp"@[1] == 'm' && "bmp"@[2] == 'p');
    assert("tif"@.len() == 3 && "tif"@[0] == 't' && "tif"@[1] == 'i' && "tif"@[2] == 'f');
    assert("tiff"@.len() == 4 && "tiff"@[0] == 't' && "tiff"@[1] == 'i' && "tiff"@[2] == 'f' && "tiff"@[3] == 'f');
    assert("ico"@.len() == 3 && "ico"@[0] == 'i' && "ico"@[1] == 'c' && "ico"@[2] == 'o');
    assert("avif"@.len() == 4 && "avif"@[0] == 'a' && "avif"@[1] == 'v' && "avif"@[2] == 'i' && "avif"@[3] == 'f');
    assert("cr2"@.len() == 3 && "cr2"@[0] == 'c' && "cr2"@[1] == 'r' && "cr2"@[2] == '2');
    assert("cr3"@.len() == 3 && "cr3"@[0] == 'c' && "cr3"@[1] == 'r' && "cr3"@[2] == '3');
    assert("nef"@.len() == 3 && "nef"@[0] == 'n' && "nef"@[1] == 'e' && "nef"@[2] == 'f');
    assert("arw"@.len() == 3 && "arw"@[0] == 'a' && "arw"@[1] == 'r' && "arw"@[2] == 'w');
    assert("dng"@.len() == 3 && "dng"@[0] == 'd' && "dng"@[1] == 'n' && "dng"@[2] == 'g');
    assert("orf"@.len() == 3 && "orf"@[0] == 'o' && "orf"@[1] == 'r' && "orf"@[2] == 'f');
    assert("rw2"@.len() == 3 && "rw2"@[0] == 'r' && "rw2"@[1] == 'w' && "rw2"@[2] == '2');
    assert("raf"@.len() == 3 && "raf"@[0] == 'r' && "raf"@[1] == 'a' && "raf"@[2] == 'f');
    assert("pef"@.len() == 3 && "pef"@[0] == 'p' && "pef"@[1] == 'e' && "pef"@[2] == 'f');
    assert("srw"@.len() == 3 && "srw"@[0] == 's' && "srw"@[1] == 'r' && "srw"@[2] == 'w');
    if i == 0 {
        lemma_not_image_extension("glb"@);
    } else if i == 1 {
        lemma_not_image_extension("gltf"@);
    } else if i == 2 {
        lemma_not_image_extension("obj"@);
    } else if i == 3 {
        lemma_not_image_extension("stl"@);
    } else if i == 4 {
        lemma_not_image_extension("fbx"@);
    } else if i == 5 {
        lemma_not_image_extension("ply"@);
    } else if i == 6 {
        lemma_not_image_extension("dae"@);
    } else if i == 7 {
        lemma_not_image_extension("3mf"@);
    } else if i == 8 {
        lemma_not_image_extension("max"@);
    }
}

/// No listed model extension is a listed video extension.
proof fn lemma_model_not_video(i: int)
    requires
        0 <= i < model_extensions().len(),
    ensures
        !video_extensions().contains(model_extensions()[i]),
{
    reveal_strlit("glb");
    reveal_strlit("gltf");
    reveal_strlit("obj");
    reveal_strlit("stl");
    reveal_strlit("fbx");
    reveal_strlit("ply");
    reveal_strlit("dae");
    reveal_strlit("3mf");
    reveal_strlit("max");
    reveal_strlit("mp4");
    reveal_strlit("m4v");
    reveal_strlit("mov");
    reveal_strlit("mkv");
    reveal_strlit("webm");
    reveal_strlit("avi");
    reveal_strlit("wmv");
    reveal_strlit("flv");
    reveal_strlit("mpg");
    reveal_strlit("mpeg");
    assert("glb"@.len() == 3 && "glb"@[0] == 'g' && "glb"@[1] == 'l' && "glb"@[2] == 'b');
    assert("gltf"@.len() == 4 && "gltf"@[0] == 'g' && "gltf"@[1] == 'l' && "gltf"@[2] == 't' && "gltf"@[3] == 'f');
    assert("obj"@.len() == 3 && "obj"@[0] == 'o' && "obj"@[1] == 'b' && "obj"@[2] == 'j');
    assert("stl"@.len() == 3 && "stl"@[0] == 's' && "stl"@[1] == 't' && "stl"@[2] == 'l');
    assert("fbx"@.len() == 3 && "fbx"@[0] == 'f' && "fbx"@[1] == 'b' && "fbx"@[2] == 'x');
    assert("ply"@.len() == 3 && "ply"@[0] == 'p' && "ply"@[1] == 'l' && "ply"@[2] == 'y');
    assert("dae"@.len() == 3 && "dae"@[0] == 'd' && "dae"@[1] == 'a' && "dae"@[2] == 'e');
    assert("3mf"@.len() == 3 && "3mf"@[0] == '3' && "3mf"@[1] == 'm' && "3mf"@[2] == 'f');
    assert("max"@.len() == 3 && "max"@[0] == 'm' && "max"@[1] == 'a' && "max"@[2] == 'x');
    assert("mp4"@.len() == 3 && "mp4"@[0] == 'm' && "mp4"@[1] == 'p' && "mp4"@[2] == '4');
    assert("m4v"@.len() == 3 && "m4v"@[0] == 'm' && "m4v"@[1] == '4' && "m4v"@[2] == 'v');
    assert("mov"@.len() == 3 && "mov"@[0] == 'm' && "mov"@[1] == 'o' && "mov"@[2] == 'v');
    assert("mkv"@.len() == 3 && "mkv"@[0] == 'm' && "mkv"@[1] == 'k' && "mkv"@[2] == 'v');
    assert("webm"@.len() == 4 && "webm"@[0] == 'w' && "webm"@[1] == 'e' && "webm"@[2] == 'b' && "webm"@[3] == 'm');
    assert("avi"@.len() == 3 && "avi"@[0] == 'a' && "avi"@[1] == 'v' && "avi"@[2] == 'i');
    assert("wmv"@.len() == 3 && "wmv"@[0] == 'w' && "wmv"@[1] == 'm' && "wmv"@[2] == 'v');
    assert("flv"@.len() == 3 && "flv"@[0] == 'f' && "flv"@[1] == 'l' && "flv"@[2] == 'v');
    assert("mpg"@.len() == 3 && "mpg"@[0] == 'm' && "mpg"@[1] == 'p' && "mpg"@[2] == 'g');
    assert("mpeg"@.len() == 4 && "mpeg"@[0] == 'm' && "mpeg"@[1] == 'p' && "mpeg"@[2] == 'e' && "mpeg"@[3] == 'g');
    if i == 0 {
        lemma_not_video_extension("glb"@);
    } else if i == 1 {
        lemma_not_video_extension("gltf"@);
    } else if i == 2 {
        lemma_not_video_extension("obj"@);
    } else if i == 3 {
        lemma_not_video_extension("stl"@);
    } else if i == 4 {
        lemma_not_video_extension("fbx"@);
    } else if i == 5 {
        lemma_not_video_extension("ply"@);
    } else if i == 6 {
        lemma_not_video_extension("dae"@);
    } else if i == 7 {
        lemma_not_video_extension("3mf"@);
    } else if i == 8 {
        lemma_not_video_extension("max"@);
    }
}

/// Every listed image extension is lower case and classified as Image.
proof fn lemma_image_extensions_classify(i: int)
    requires
        0 <= i < image_extensions().len(),
    ensures
        lower(image_extensions()[i]) == image_extensions()[i],
        kind_of_extension(image_extensions()[i]) == Some(MediaKind::Image),
        image_extensions()[i].len() > 0,
        forall|k: int| 0 <= k < image_extensions()[i].len() ==> image_extensions()[i][k] != '/' && image_extensions()[i][k] != '.',
{
    assert(image_extensions().contains(image_extensions()[i]));
    reveal_strlit("jpg");
    reveal_strlit("jpeg");
    reveal_strlit("png");
    reveal_strlit("gif");
    reveal_strlit("webp");
    reveal_strlit("bmp");
    reveal_strlit("tif");
    reveal_strlit("tiff");
    reveal_strlit("ico");
    reveal_strlit("avif");
    reveal_strlit("cr2");
    reveal_strlit("cr3");
    reveal_strlit("nef");
    reveal_strlit("arw");
    reveal_strlit("dng");
    reveal_strlit("orf");
    reveal_strlit("rw2");
    reveal_strlit("raf");
    reveal_strlit("pef");
    reveal_strlit("srw");
    if i == 0 {
        assert(lower("jpg"@) =~= "jpg"@);
    } else if i == 1 {
        assert(lower("jpeg"@) =~= "jpeg"@);
    } else if i == 2 {
        assert(lower("png"@) =~= "png"@);
    } else if i == 3 {
        assert(lower("gif"@) =~= "gif"@);
    } else if i == 4 {
        assert(lower("webp"@) =~= "webp"@);
    } else if i == 5 {
        assert(lower("bmp"@) =~= "bmp"@);
    } else if i == 6 {
        assert(lower("tif"@) =~= "tif"@);
    } else if i == 7 {
        assert(lower("tiff"@) =~= "tiff"@);
    } else if i == 8 {
        assert(lower("ico"@) =~= "ico"@);
    } else if i == 9 {
        assert(lower("avif"@) =~= "avif"@);
    } else if i == 10 {
        assert(lower("cr2"@) =~= "cr2"@);
    } else if i == 11 {
        assert(lower("cr3"@) =~= "cr3"@);
    } else if i == 12 {
        assert(lower("nef"@) =~= "nef"@);
    } else if i == 13 {
        assert(lower("arw"@) =~= "arw"@);
    } else if i == 14 {
        assert(lower("dng"@) =~= "dng"@);
    } else if i == 15 {
        assert(lower("orf"@) =~= "orf"@);
    } else if i == 16 {
        assert(lower("rw2"@) =~= "rw2"@);
    } else if i == 17 {
        assert(lower("raf"@) =~= "raf"@);
    } else if i == 18 {
        assert(lower("pef"@) =~= "pef"@);
    } else if i == 19 {
        assert(lower("srw"@) =~= "srw"@);
    }
}

/// Every listed video extension is lower case and classified as Video.
proof fn lemma_video_extensions_classify(i: int)
    requires
        0 <= i < video_extensions().len(),
    ensures
        lower(video_extensions()[i]) == video_extensions()[i],
        kind_of_extension(video_extensions()[i]) == Some(MediaKind::Video),
        video_extensions()[i].len() > 0,
        forall|k: int| 0 <= k < video_extensions()[i].len() ==> video_extensions()[i][k] != '/' && video_extensions()[i][k] != '.',
{
    lemma_video_not_image(i);
    assert(video_extensions().contains(video_extensions()[i]));
    reveal_strlit("mp4");
    reveal_strlit("m4v");
    reveal_strlit("mov");
    reveal_strlit("mkv");
    reveal_strlit("webm");
    reveal_strlit("avi");
    reveal_strlit("wmv");
    reveal_strlit("flv");
    reveal_strlit("mpg");
    reveal_strlit("mpeg");
    if i == 0 {
        assert(lower("mp4"@) =~= "mp4"@);
    } else if i == 1 {
        assert(lower("m4v"@) =~= "m4v"@);
    } else if i == 2 {
        assert(lower("mov"@) =~= "mov"@);
    } else if i == 3 {
        assert(lower("mkv"@) =~= "mkv"@);
    } else if i == 4 {
        assert(lower("webm"@) =~= "webm"@);
    } else if i == 5 {
        assert(lower("avi"@) =~= "avi"@);
    } else if i == 6 {
        assert(lower("wmv"@) =~= "wmv"@);
    } else if i == 7 {
        assert(lower("flv"@) =~= "flv"@);
    } else if i == 8 {
        assert(lower("mpg"@) =~= "mpg"@);
    } else if i == 9 {
        assert(lower("mpeg"@) =~= "mpeg"@);
    }
}

/// Every listed model extension is lower case and classified as Model.
proof fn lemma_model_extensions_classify(i: int)
    requires
        0 <= i < model_extensions().len(),
    ensures
        lower(model_extensions()[i]) == model_extensions()[i],
        kind_of_extension(model_extensions()[i]) == Some(MediaKind::Model),
        model_extensions()[i].len() > 0,
        forall|k: int| 0 <= k < model_extensions()[i].len() ==> model_extensions()[i][k] != '/' && model_extensions()[i][k] != '.',
{
    lemma_model_not_image(i);
    lemma_model_not_video(i);
    assert(model_extensions().contains(model_extensions()[i]));
    reveal_strlit("glb");
    reveal_strlit("gltf");
    reveal_strlit("obj");
    reveal_strlit("stl");
    reveal_strlit("fbx");
    reveal_strlit("ply");
    reveal_strlit("dae");
    reveal_strlit("3mf");
    reveal_strlit("max");
    if i == 0 {
        assert(lower("glb"@) =~= "glb"@);
    } else if i == 1 {
        assert(lower("gltf"@) =~= "gltf"@);
    } else if i == 2 {
        assert(lower("obj"@) =~= "obj"@);
    } else if i == 3 {
        assert(lower("stl"@) =~= "stl"@);
    } else if i == 4 {
        assert(lower("fbx"@) =~= "fbx"@);
    } else if i == 5 {
        assert(lower("ply"@) =~= "ply"@);
    } else if i == 6 {
        assert(lower("dae"@) =~= "dae"@);
    } else if i == 7 {
        assert(lower("3mf"@) =~= "3mf"@);
    } else if i == 8 {
        assert(lower("max"@) =~= "max"@);
    }
}

/// Every extension listed for a kind is in lower case and is classified as that kind, in
/// any ASCII case of the path.
pub proof fn law_listed_extensions_classify_as_their_kind(kind: MediaKind, i: int, path: Seq<char>)
    requires
        0 <= i < kind_extensions(kind).len(),
        path_extension(path) matches Some(x) && lower(x) == kind_extensions(kind)[i],
    ensures
        kind != MediaKind::Unknown,
        lower(kind_extensions(kind)[i]) == kind_extensions(kind)[i],
        kind_of_extension(kind_extensions(kind)[i]) == Some(kind),
        classify(path) == Some(kind),
        kind_extensions(kind)[i].len() > 0,
        forall|k: int|
            0 <= k < kind_extensions(kind)[i].len() ==> kind_extensions(kind)[i][k] != '/'
                && kind_extensions(kind)[i][k] != '.',
{
    match kind {
        MediaKind::Image => lemma_image_extensions_classify(i),
        MediaKind::Video => lemma_video_extensions_classify(i),
        MediaKind::Model => lemma_model_extensions_classify(i),
        MediaKind::Unknown => {},
    }
}

/// The unknown kind lists no extension.
pub proof fn law_unknown_lists_nothing()
    ensures
        kind_extensions(MediaKind::Unknown).len() == 0,
{
}

/// Law: a file `stem.e` in any directory, whose extension `e` is, in any ASCII case, one
/// listed for a kind, is classified as that kind.
pub proof fn law_listed_file_names_classify(
    kind: MediaKind,
    i: int,
    dir: Seq<char>,
    stem: Seq<char>,
    e: Seq<char>,
)
    requires
        0 <= i < kind_extensions(kind).len(),
        lower(e) == kind_extensions(kind)[i],
        dir.len() == 0 || dir.last() == '/',
        stem.len() > 0,
        forall|k: int| 0 <= k < stem.len() ==> stem[k] != '/',
    ensures
        classify(dir + stem + seq!['.'] + e) == Some(kind),
{
    let listed = kind_extensions(kind)[i];
    match kind {
        MediaKind::Image => lemma_image_extensions_classify(i),
        MediaKind::Video => lemma_video_extensions_classify(i),
        MediaKind::Model => lemma_model_extensions_classify(i),
        MediaKind::Unknown => {},
    }
    assert forall|k: int| 0 <= k < e.len() implies e[k] != '/' && e[k] != '.' by {
        assert(lower(e)[k] == crate::text::lower_char(e[k]));
    }
    lemma_path_extension_of(dir, stem, e);
}

} // verus!
