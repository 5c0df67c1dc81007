//! 3D model metadata, loader dispatch, texture expansion and preview simplification.
//!
//! Geometry itself (floating-point positions) is read by the caller with the format
//! crates; what is decided on integers and text is verified here.

use vstd::prelude::*;

use crate::media::path_extension;
use crate::text::{
    append_chars, chars_eq_str, chars_of, ends_with, lower, lower_chars,
    string_from_chars, upper, upper_chars,
};
use crate::subtitles::{replace, replace_chars};

verus! {

broadcast use vstd::string::group_string_axioms;

#[verifier::external_type_specification]
#[verifier::external_body]
pub struct ExGltfError(::gltf::Error);

/// Why a model could not be read.
#[derive(Debug)]
pub enum ModelError {
    UnsupportedFormat,
    Io(std::io::Error),
    Parse(::gltf::Error),
    Message(String),
}

/// Summary information about a 3D asset.
#[derive(Debug, Clone)]
pub struct ModelInfo {
    pub format: String,
    pub mesh_count: usize,
    pub material_count: usize,
    pub node_count: usize,
    pub vertex_count: usize,
    pub triangle_count: usize,
    pub has_textures: bool,
    pub notes: String,
}

impl ModelInfo {
    /// Whether this is the empty summary with the given format and notes.
    pub open spec fn is_summary(self, format: Seq<char>, notes: Seq<char>) -> bool {
        &&& self.format@ == format
        &&& self.notes@ == notes
        &&& self.mesh_count == 0
        &&& self.material_count == 0
        &&& self.node_count == 0
        &&& self.vertex_count == 0
        &&& self.triangle_count == 0
        &&& !self.has_textures
    }
}

impl Default for ModelInfo {
    fn default() -> (r: Self)
        ensures
            r.is_summary(Seq::empty(), Seq::empty()),
    {
        ModelInfo {
            format: String::new(),
            mesh_count: 0,
            material_count: 0,
            node_count: 0,
            vertex_count: 0,
            triangle_count: 0,
            has_textures: false,
            notes: String::new(),
        }
    }
}

/// RGBA8 texture map (albedo or normal).
#[derive(Debug, Clone)]
pub struct TextureMap {
    pub width: u32,
    pub height: u32,
    pub rgba: Vec<u8>,
}

// ---------------------------------------------------------------------------
// Extensions and loader dispatch.
// ---------------------------------------------------------------------------

/// The lower-cased extension of a path, when it has one.
pub open spec fn lower_ext(path: Seq<char>) -> Option<Seq<char>> {
    match path_extension(path) {
        Some(e) => Some(lower(e)),
        None => None,
    }
}

fn lower_extension(path: &str) -> (r: Option<Vec<char>>)
    ensures
        match r {
            Some(e) => lower_ext(path@) == Some(e@),
            None => lower_ext(path@) is None,
        },
{
    let chars = chars_of(path);
    match crate::media::extension_of(chars.as_slice()) {
        Some(e) => Some(lower_chars(e.as_slice())),
        None => None,
    }
}

/// The geometry readers.
#[derive(Debug, Clone, Copy, PartialEq, Eq, Structural)]
pub enum MeshFormat {
    Obj,
    Stl,
    Gltf,
    Fbx,
    ThreeMf,
}

pub open spec fn max_message() -> Seq<char> {
    "3ds Max (.max) is proprietary. Export to FBX, OBJ, or GLTF."@
}

pub open spec fn max_format_note() -> Seq<char> {
    "3ds Max (.max) is proprietary. Export to FBX, OBJ, or GLTF to preview."@
}

/// The message for a format that is recognised but not previewed.
pub open spec fn not_implemented_message(ext: Seq<char>) -> Seq<char> {
    upper(ext) + " preview is not implemented yet. Export to OBJ, STL, GLTF, FBX, or 3MF."@
}

pub open spec fn no_geometry_message() -> Seq<char> {
    "No geometry found in file."@
}

/// The reader for a path's (lower-cased) extension.
pub open spec fn mesh_format_of(ext: Seq<char>) -> Option<MeshFormat> {
    if ext == "obj"@ {
        Some(MeshFormat::Obj)
    } else if ext == "stl"@ {
        Some(MeshFormat::Stl)
    } else if ext == "glb"@ || ext == "gltf"@ {
        Some(MeshFormat::Gltf)
    } else if ext == "fbx"@ {
        Some(MeshFormat::Fbx)
    } else if ext == "3mf"@ {
        Some(MeshFormat::ThreeMf)
    } else {
        None
    }
}

fn message(text: &[char]) -> (r: ModelError)
    ensures
        r matches ModelError::Message(m) && m@ == text@,
{
    ModelError::Message(string_from_chars(text))
}

/// Choose the geometry reader for a model file: `.max` and `.ply`/`.dae` are recognised but
/// refused with a message, other extensions are unsupported.
pub fn mesh_format(path: &str) -> (r: Result<MeshFormat, ModelError>)
    ensures
        match lower_ext(path@) {
            None => r matches Err(ModelError::UnsupportedFormat),
            Some(e) => match mesh_format_of(e) {
                Some(f) => r == Ok::<MeshFormat, ModelError>(f),
                None => if e == "max"@ {
                    r matches Err(ModelError::Message(m)) && m@ == max_message()
                } else if e == "ply"@ || e == "dae"@ {
                    r matches Err(ModelError::Message(m)) && m@ == not_implemented_message(e)
                } else {
                    r matches Err(ModelError::UnsupportedFormat)
                },
            },
        },
{
    let ext = match lower_extension(path) {
        Some(e) => e,
        None => return Err(ModelError::UnsupportedFormat),
    };
    proof {
        reveal_strlit("obj");
        reveal_strlit("stl");
        reveal_strlit("glb");
        reveal_strlit("gltf");
        reveal_strlit("fbx");
        reveal_strlit("3mf");
        reveal_strlit("max");
        reveal_strlit("ply");
        reveal_strlit("dae");
    }
    let e = ext.as_slice();
    if chars_eq_str(e, "obj") {
        Ok(MeshFormat::Obj)
    } else if chars_eq_str(e, "stl") {
        Ok(MeshFormat::Stl)
    } else if chars_eq_str(e, "glb") || chars_eq_str(e, "gltf") {
        Ok(MeshFormat::Gltf)
    } else if chars_eq_str(e, "fbx") {
        Ok(MeshFormat::Fbx)
    } else if chars_eq_str(e, "3mf") {
        Ok(MeshFormat::ThreeMf)
    } else if chars_eq_str(e, "max") {
        let m = chars_of("3ds Max (.max) is proprietary. Export to FBX, OBJ, or GLTF.");
        Err(message(m.as_slice()))
    } else if chars_eq_str(e, "ply") || chars_eq_str(e, "dae") {
        let mut m = upper_chars(e);
        let tail = chars_of(" preview is not implemented yet. Export to OBJ, STL, GLTF, FBX, or 3MF.");
        append_chars(&mut m, tail.as_slice());
        Err(message(m.as_slice()))
    } else {
        Err(ModelError::UnsupportedFormat)
    }
}

/// A loaded mesh is refused when it has no vertices.
pub fn check_geometry(vertex_count: usize) -> (r: Result<(), ModelError>)
    ensures
        vertex_count == 0 ==> (r matches Err(ModelError::Message(m)) && m@ == no_geometry_message()),
        vertex_count > 0 ==> r is Ok,
{
    if vertex_count == 0 {
        let m = chars_of("No geometry found in file.");
        return Err(message(m.as_slice()));
    }
    Ok(())
}

// ---------------------------------------------------------------------------
// Model summaries.
// ---------------------------------------------------------------------------

/// What a model summary reads of a loaded mesh.
#[derive(Debug, Clone, Copy, PartialEq, Eq, Structural)]
pub struct MeshStats {
    pub mesh_count: usize,
    pub material_count: usize,
    pub vertex_count: usize,
    pub index_count: usize,
    pub has_albedo: bool,
    pub has_normal_map: bool,
}

/// Triangles of a mesh: from its indices, or from its vertices when it has none.
pub open spec fn triangles(vertex_count: nat, index_count: nat) -> nat {
    if index_count == 0 {
        vertex_count / 3
    } else {
        index_count / 3
    }
}

/// Triangle count of a mesh with the given vertex and index counts.
pub fn triangle_count(vertex_count: usize, index_count: usize) -> (r: usize)
    ensures
        r == triangles(vertex_count as nat, index_count as nat),
{
    if index_count == 0 {
        vertex_count / 3
    } else {
        index_count / 3
    }
}

pub open spec fn loaded_note() -> Seq<char> {
    "Loaded for in-app preview."@
}

/// The summary of a loaded mesh.
pub open spec fn mesh_info(ext: Seq<char>, mesh: MeshStats, info: ModelInfo) -> bool {
    &&& info.format@ == upper(ext)
    &&& info.mesh_count == if mesh.mesh_count >= 1 {
        mesh.mesh_count
    } else {
        1
    }
    &&& info.material_count == mesh.material_count
    &&& info.node_count == 0
    &&& info.vertex_count == mesh.vertex_count
    &&& info.triangle_count == triangles(mesh.vertex_count as nat, mesh.index_count as nat)
    &&& info.has_textures == (mesh.has_albedo || mesh.has_normal_map)
    &&& info.notes@ == loaded_note()
}

/// Summary of a loaded mesh.
pub fn info_from_mesh(ext: &str, mesh: &MeshStats) -> (r: ModelInfo)
    ensures
        mesh_info(ext@, *mesh, r),
{
    let e = chars_of(ext);
    let up = upper_chars(e.as_slice());
    ModelInfo {
        format: string_from_chars(up.as_slice()),
        mesh_count: if mesh.mesh_count >= 1 {
            mesh.mesh_count
        } else {
            1
        },
        material_count: mesh.material_count,
        node_count: 0,
        vertex_count: mesh.vertex_count,
        triangle_count: triangle_count(mesh.vertex_count, mesh.index_count),
        has_textures: mesh.has_albedo || mesh.has_normal_map,
        notes: String::from_str("Loaded for in-app preview."),
    }
}

/// What reading a model's metadata needs.
#[derive(Debug, Clone, Copy, PartialEq, Eq, Structural)]
pub enum ModelSource {
    /// Load the mesh, then the glTF document for its counts.
    Gltf,
    /// Load the mesh.
    Mesh,
}

/// The next step of reading a model's metadata.
#[derive(Debug, Clone)]
pub enum ModelPlan {
    /// Load the model; `ext` is its lower-cased extension.
    Load { ext: String, source: ModelSource },
    /// The summary is known without loading anything.
    Ready(ModelInfo),
}

/// Extensions (lower case) whose summary comes from a mesh load.
pub open spec fn mesh_extensions() -> Seq<Seq<char>> {
    seq!["obj"@, "stl"@, "fbx"@, "ply"@, "dae"@, "3mf"@, "max"@]
}

impl ModelInfo {
    /// Decide, from the path, how to read a model's metadata: `.glb`/`.gltf` through the glTF
    /// document, the mesh formats through a mesh load; `.max`, `.ply` and `.dae`, which are not
    /// previewed, with a fixed note and no read.
    pub fn from_path(path: &str) -> (r: Result<ModelPlan, ModelError>)
        ensures
            match lower_ext(path@) {
                None => r matches Err(ModelError::UnsupportedFormat),
                Some(e) => if e == "glb"@ || e == "gltf"@ {
                    r matches Ok(ModelPlan::Load { ext, source }) && ext@ == e && source
                        == ModelSource::Gltf
                } else if e == "max"@ {
                    r matches Ok(ModelPlan::Ready(info)) && info.is_summary(
                        "MAX"@,
                        max_format_note(),
                    )
                } else if e == "ply"@ || e == "dae"@ {
                    r matches Ok(ModelPlan::Ready(info)) && info.is_summary(
                        upper(e),
                        not_implemented_message(e),
                    )
                } else if mesh_extensions().contains(e) {
                    r matches Ok(ModelPlan::Load { ext, source }) && ext@ == e && source
                        == ModelSource::Mesh
                } else {
                    r matches Err(ModelError::UnsupportedFormat)
                },
            },
    {
        let ext = match lower_extension(path) {
            Some(e) => e,
            None => return Err(ModelError::UnsupportedFormat),
        };
        proof {
            reveal_strlit("glb");
            reveal_strlit("gltf");
            reveal_strlit("max");
        }
        let e = ext.as_slice();
        if chars_eq_str(e, "glb") || chars_eq_str(e, "gltf") {
            return Ok(ModelPlan::Load { ext: string_from_chars(e), source: ModelSource::Gltf });
        }
        if chars_eq_str(e, "max") {
            let mut info = ModelInfo::default();
            info.format = String::from_str("MAX");
            info.notes = String::from_str(
                "3ds Max (.max) is proprietary. Export to FBX, OBJ, or GLTF to preview.",
            );
            return Ok(ModelPlan::Ready(info));
        }
        proof {
            reveal_strlit("ply");
            reveal_strlit("dae");
        }
        if chars_eq_str(e, "ply") || chars_eq_str(e, "dae") {
            let mut m = upper_chars(e);
            let tail = chars_of(" preview is not implemented yet. Export to OBJ, STL, GLTF, FBX, or 3MF.");
            append_chars(&mut m, tail.as_slice());
            let mut info = ModelInfo::default();
            info.format = string_from_chars(upper_chars(e).as_slice());
            info.notes = string_from_chars(m.as_slice());
            return Ok(ModelPlan::Ready(info));
        }
        let list: [&'static str; 7] = ["obj", "stl", "fbx", "ply", "dae", "3mf", "max"];
        let mut i: usize = 0;
        while i < 7
            invariant
                i <= 7,
                list@.len() == 7,
                e@ == ext@,
                ext@ != "glb"@ && ext@ != "gltf"@ && ext@ != "max"@,
                ext@ != "ply"@ && ext@ != "dae"@,
                lower_ext(path@) == Some(ext@),
                forall|k: int| 0 <= k < 7 ==> (#[trigger] list@[k])@ == mesh_extensions()[k],
                forall|k: int| 0 <= k < i ==> mesh_extensions()[k] != ext@,
            decreases 7 - i,
        {
            if chars_eq_str(e, list[i]) {
                assert(mesh_extensions()[i as int] == ext@);
                return Ok(ModelPlan::Load { ext: string_from_chars(e), source: ModelSource::Mesh });
            }
            i += 1;
        }
        Err(ModelError::UnsupportedFormat)
    }

    /// The summary of a mesh-format model from the outcome of loading it: a refusal with a
    /// message becomes a summary carrying that message as its note.
    pub fn from_mesh_load(ext: &str, loaded: Result<MeshStats, ModelError>) -> (r: Result<
        ModelInfo,
        ModelError,
    >)
        ensures
            match loaded {
                Ok(m) => r matches Ok(info) && mesh_info(ext@, m, info),
                Err(ModelError::Message(msg)) => r matches Ok(info) && info.is_summary(
                    upper(ext@),
                    msg@,
                ),
                Err(e) => r == Err::<ModelInfo, ModelError>(e),
            },
    {
        match loaded {
            Ok(mesh) => Ok(info_from_mesh(ext, &mesh)),
            Err(ModelError::Message(msg)) => {
                let e = chars_of(ext);
                let up = upper_chars(e.as_slice());
                let mut info = ModelInfo::default();
                info.format = string_from_chars(up.as_slice());
                info.notes = msg;
                Ok(info)
            },
            Err(err) => Err(err),
        }
    }

    /// The summary of a glTF model from its mesh load and its document's counts of
    /// materials, nodes, textures and images.
    pub fn from_gltf(ext: &str, loaded: Result<MeshStats, ModelError>, document: Result<
        GltfCounts,
        ModelError,
    >) -> (r: Result<ModelInfo, ModelError>)
        ensures
            match (loaded, document) {
                (Ok(m), Ok(d)) => r matches Ok(info) && {
                    &&& info.format@ == upper(ext@)
                    &&& info.mesh_count == if m.mesh_count >= 1 {
                        m.mesh_count
                    } else {
                        1
                    }
                    &&& info.vertex_count == m.vertex_count
                    &&& info.triangle_count == triangles(m.vertex_count as nat, m.index_count as nat)
                    &&& info.notes@ == loaded_note()
                    &&& info.material_count == d.materials
                    &&& info.node_count == d.nodes
                    &&& info.has_textures == (d.textures > 0 || d.images > 0)
                },
                (Err(e), _) => r == Err::<ModelInfo, ModelError>(e),
                (Ok(_), Err(e)) => r == Err::<ModelInfo, ModelError>(e),
            },
    {
        let mesh = match loaded {
            Ok(m) => m,
            Err(e) => return Err(e),
        };
        let mut info = info_from_mesh(ext, &mesh);
        let doc = match document {
            Ok(d) => d,
            Err(e) => return Err(e),
        };
        info.material_count = doc.materials;
        info.node_count = doc.nodes;
        info.has_textures = doc.textures > 0 || doc.images > 0;
        Ok(info)
    }
}

/// What a model summary reads of a glTF document.
#[derive(Debug, Clone, Copy, PartialEq, Eq, Structural)]
pub struct GltfCounts {
    pub materials: usize,
    pub nodes: usize,
    pub textures: usize,
    pub images: usize,
}

// ---------------------------------------------------------------------------
// Textures.
// ---------------------------------------------------------------------------

/// Pixel layouts of embedded glTF images, as far as the preview reads them.
#[derive(Debug, Clone, Copy, PartialEq, Eq, Structural)]
pub enum PixelLayout {
    R8,
    Rg8,
    Rgb8,
    Rgba8,
    /// Any other layout (16-bit or float channels).
    Other,
}

/// Bytes per pixel of the 8-bit layouts.
pub open spec fn layout_bytes(layout: PixelLayout) -> nat {
    match layout {
        PixelLayout::R8 => 1,
        PixelLayout::Rg8 => 2,
        PixelLayout::Rgb8 => 3,
        PixelLayout::Rgba8 => 4,
        PixelLayout::Other => 1,
    }
}

/// One pixel, given by its first bytes, as RGBA: gray is replicated, missing blue is zero,
/// missing alpha is opaque.
pub open spec fn pixel_rgba(layout: PixelLayout, p: Seq<u8>) -> Seq<u8> {
    match layout {
        PixelLayout::R8 => seq![p[0], p[0], p[0], 255u8],
        PixelLayout::Rg8 => seq![p[0], p[1], 0u8, 255u8],
        PixelLayout::Rgb8 => seq![p[0], p[1], p[2], 255u8],
        _ => seq![p[0], p[1], p[2], p[3]],
    }
}

/// The RGBA bytes of pixel data in an 8-bit layout, pixel by pixel.
pub open spec fn expand_rgba(layout: PixelLayout, px: Seq<u8>) -> Seq<u8>
    decreases px.len(),
{
    let n = layout_bytes(layout);
    if px.len() < n || n == 0 {
        Seq::empty()
    } else {
        pixel_rgba(layout, px.take(n as int)) + expand_rgba(layout, px.skip(n as int))
    }
}

/// The texture of an embedded image: the RGBA expansion of its pixels, none for other
/// layouts or empty data.
pub open spec fn texture_pixels(layout: PixelLayout, px: Seq<u8>) -> Option<Seq<u8>> {
    if layout == PixelLayout::Other {
        None
    } else {
        let out = if layout == PixelLayout::Rgba8 {
            px
        } else {
            expand_rgba(layout, px)
        };
        if out.len() == 0 {
            None
        } else {
            Some(out)
        }
    }
}

proof fn lemma_expand_step(layout: PixelLayout, px: Seq<u8>, i: int)
    requires
        layout_bytes(layout) > 0,
        0 <= i,
        i + layout_bytes(layout) <= px.len(),
    ensures
        expand_rgba(layout, px.skip(i)) == pixel_rgba(layout, px.subrange(i, i + layout_bytes(
            layout,
        ))) + expand_rgba(layout, px.skip(i + layout_bytes(layout))),
{
    let n = layout_bytes(layout) as int;
    assert(px.skip(i).take(n) =~= px.subrange(i, i + n));
    assert(px.skip(i).skip(n) =~= px.skip(i + n));
}

/// The RGBA8 texture of an embedded image with the given layout, when the preview can use it.
pub fn texture_from_pixels(width: u32, height: u32, layout: PixelLayout, pixels: &[u8]) -> (r:
    Option<TextureMap>)
    requires
        layout != PixelLayout::Other ==> pixels@.len() % layout_bytes(layout) == 0,
    ensures
        match texture_pixels(layout, pixels@) {
            None => r is None,
            Some(out) => r matches Some(t) && t.width == width && t.height == height && t.rgba@
                == out,
        },
{
    if layout == PixelLayout::Other {
        return None;
    }
    let mut out: Vec<u8> = Vec::new();
    if layout == PixelLayout::Rgba8 {
        let mut i: usize = 0;
        while i < pixels.len()
            invariant
                i <= pixels@.len(),
                out@ == pixels@.take(i as int),
            decreases pixels@.len() - i,
        {
            out.push(pixels[i]);
            assert(pixels@.take(i + 1) =~= pixels@.take(i as int).push(pixels@[i as int]));
            i += 1;
        }
        assert(pixels@.take(pixels@.len() as int) =~= pixels@);
    } else {
        let n: usize = match layout {
            PixelLayout::R8 => 1,
            PixelLayout::Rg8 => 2,
            _ => 3,
        };
        let ghost len = pixels@.len();
        let mut i: usize = 0;
        assert(pixels@.skip(0) =~= pixels@);
        while i < pixels.len()
            invariant
                n == layout_bytes(layout),
                layout != PixelLayout::Other && layout != PixelLayout::Rgba8,
                len == pixels@.len(),
                len % (n as nat) == 0,
                i <= len,
                i % n == 0,
                out@ + expand_rgba(layout, pixels@.skip(i as int)) == expand_rgba(layout, pixels@),
            decreases len - i,
        {
            assert(i + n <= len) by (nonlinear_arith)
                requires
                    i < len,
                    i % n == 0,
                    len % (n as nat) == 0,
                    n >= 1,
            {
                assert(len - i >= 1);
                vstd::arithmetic::div_mod::lemma_sub_mod_noop(len as int, i as int, n as int);
                assert(len >= i + n);
            }
            proof {
                lemma_expand_step(layout, pixels@, i as int);
            }
            let ghost before = out@;
            match layout {
                PixelLayout::R8 => {
                    out.push(pixels[i]);
                    out.push(pixels[i]);
                    out.push(pixels[i]);
                    out.push(255);
                },
                PixelLayout::Rg8 => {
                    out.push(pixels[i]);
                    out.push(pixels[i + 1]);
                    out.push(0);
                    out.push(255);
                },
                _ => {
                    out.push(pixels[i]);
                    out.push(pixels[i + 1]);
                    out.push(pixels[i + 2]);
                    out.push(255);
                },
            }
            assert(out@ =~= before + pixel_rgba(layout, pixels@.subrange(i as int, i + n)));
            assert(i + n <= len);
            assert((i + n) as int % (n as int) == 0) by {
                vstd::arithmetic::div_mod::lemma_add_mod_noop(i as int, n as int, n as int);
                vstd::arithmetic::div_mod::lemma_mod_self_0(n as int);
                vstd::arithmetic::div_mod::lemma_small_mod(0, n as nat);
            }
            i += n;
        }
        assert(pixels@.skip(i as int) =~= Seq::<u8>::empty());
        assert(out@ =~= expand_rgba(layout, pixels@));
    }
    if out.len() == 0 {
        return None;
    }
    Some(TextureMap { width, height, rgba: out })
}

// ---------------------------------------------------------------------------
// Preview simplification.
// ---------------------------------------------------------------------------

/// Triangle budget of the real-time preview.
pub const MAX_TRIANGLES: usize = 120_000;

/// The index chunks of three (the last may be shorter) whose position, counted from `k`, is a
/// multiple of `step`, in order and flattened.
pub open spec fn kept_chunks(s: Seq<u32>, step: nat, k: nat) -> Seq<u32>
    decreases s.len(),
{
    if s.len() == 0 {
        Seq::empty()
    } else {
        let n: int = if s.len() < 3 {
            s.len() as int
        } else {
            3
        };
        (if k % step == 0 {
            s.take(n)
        } else {
            Seq::empty()
        }) + kept_chunks(s.skip(n), step, k + 1)
    }
}

/// `ceil(a / b)`.
pub open spec fn div_ceil(a: nat, b: nat) -> nat {
    ((a + b - 1) as int / (b as int)) as nat
}

/// Indices kept for the preview: all when the mesh has no indices or at most
/// [`MAX_TRIANGLES`] triangles, else every `step`-th triangle with
/// `step = ceil(triangles / MAX_TRIANGLES)`.
pub open spec fn preview_indices(s: Seq<u32>) -> Seq<u32> {
    let tri = s.len() / 3;
    if s.len() == 0 || tri <= MAX_TRIANGLES {
        s
    } else {
        kept_chunks(s, div_ceil(tri, MAX_TRIANGLES as nat), 0)
    }
}

/// Reduce triangle count for real-time preview.
pub fn simplify_for_preview(indices: &mut Vec<u32>)
    ensures
        final(indices)@ == preview_indices(old(indices)@),
{
    if indices.len() == 0 {
        return;
    }
    let tri_count = indices.len() / 3;
    if tri_count <= MAX_TRIANGLES {
        return;
    }
    let step = (tri_count + MAX_TRIANGLES - 1) / MAX_TRIANGLES;
    assert(step >= 1);
    let ghost s = indices@;
    let mut out: Vec<u32> = Vec::new();
    let mut i: usize = 0;
    let mut k: usize = 0;
    assert(s.skip(0) =~= s);
    while i < indices.len()
        invariant
            indices@ == s,
            step == div_ceil((s.len() / 3) as nat, MAX_TRIANGLES as nat),
            step >= 1,
            i <= s.len(),
            k <= i,
            out@ + kept_chunks(s.skip(i as int), step as nat, k as nat) == kept_chunks(s, step as nat, 0),
        decreases s.len() - i,
    {
        let n: usize = if indices.len() - i < 3 {
            indices.len() - i
        } else {
            3
        };
        assert(s.skip(i as int).take(n as int) =~= s.subrange(i as int, i + n));
        assert(s.skip(i as int).skip(n as int) =~= s.skip(i + n));
        if k % step == 0 {
            let piece = copy_u32(indices.as_slice(), i, i + n);
            let ghost before = out@;
            append_u32(&mut out, piece.as_slice());
        }
        i += n;
        k += 1;
    }
    assert(s.skip(i as int) =~= Seq::<u32>::empty());
    assert(out@ =~= kept_chunks(s, step as nat, 0));
    *indices = out;
}

fn copy_u32(s: &[u32], a: usize, b: usize) -> (r: Vec<u32>)
    requires
        a <= b <= s@.len(),
    ensures
        r@ == s@.subrange(a as int, b as int),
{
    let mut r: Vec<u32> = Vec::new();
    let mut i: usize = a;
    while i < b
        invariant
            a <= i <= b <= s@.len(),
            r@ == s@.subrange(a as int, i as int),
        decreases b - i,
    {
        r.push(s[i]);
        assert(s@.subrange(a as int, i + 1) =~= s@.subrange(a as int, i as int).push(s@[i as int]));
        i += 1;
    }
    r
}

fn append_u32(v: &mut Vec<u32>, t: &[u32])
    ensures
        final(v)@ == old(v)@ + t@,
{
    let mut i: usize = 0;
    while i < t.len()
        invariant
            i <= t@.len(),
            v@ == old(v)@ + t@.take(i as int),
        decreases t@.len() - i,
    {
        v.push(t[i]);
        assert(old(v)@ + t@.take(i + 1) =~= (old(v)@ + t@.take(i as int)).push(t@[i as int]));
        i += 1;
    }
    assert(t@.take(t@.len() as int) =~= t@);
}

// ---------------------------------------------------------------------------
// 3MF packages.
// ---------------------------------------------------------------------------

/// Preference of a 3MF model document: the standard `3dmodel.model` first, then documents
/// under `3d/`, then the rest.
pub open spec fn model_rank(name: Seq<char>) -> nat {
    let l = lower(name);
    if crate::text::contains(l, "3dmodel.model"@) {
        0
    } else if crate::text::starts_with(l, "3d/"@) {
        1
    } else {
        2
    }
}

/// The names of the given rank, in order.
pub open spec fn names_of_rank(names: Seq<Seq<char>>, rank: nat) -> Seq<Seq<char>>
    decreases names.len(),
{
    if names.len() == 0 {
        Seq::empty()
    } else {
        let p = names_of_rank(names.drop_last(), rank);
        if model_rank(names.last()) == rank {
            p.push(names.last())
        } else {
            p
        }
    }
}

/// The model document names in reading order (a stable sort by rank).
pub open spec fn ordered_model_names(names: Seq<Seq<char>>) -> Seq<Seq<char>> {
    names_of_rank(names, 0) + names_of_rank(names, 1) + names_of_rank(names, 2)
}

/// The entry name of a 3MF package member with `\` made `/`, when it is a model document
/// (its name ends in `.model`, in any ASCII case).
pub open spec fn model_entry(name: Seq<char>) -> Option<Seq<char>> {
    let n = replace(name, "\\"@, "/"@);
    if ends_with(lower(n), ".model"@) {
        Some(n)
    } else {
        None
    }
}

/// The normalized name of a package entry when it is a model document.
pub fn model_entry_name(name: &str) -> (r: Option<String>)
    ensures
        match r {
            Some(n) => model_entry(name@) == Some(n@),
            None => model_entry(name@) is None,
        },
{
    let chars = chars_of(name);
    let backslash = chars_of("\\");
    let slash = chars_of("/");
    proof {
        reveal_strlit("\\");
    }
    let n = replace_chars(chars.as_slice(), backslash.as_slice(), slash.as_slice());
    let l = lower_chars(n.as_slice());
    let suffix = chars_of(".model");
    if l.len() >= suffix.len() && crate::text::matches_at(l.as_slice(), l.len() - suffix.len(), suffix.as_slice()) {
        Some(string_from_chars(n.as_slice()))
    } else {
        None
    }
}

fn rank_of(name: &str) -> (r: u8)
    ensures
        r as nat == model_rank(name@),
{
    let chars = chars_of(name);
    let l = lower_chars(chars.as_slice());
    let std_name = chars_of("3dmodel.model");
    let dir = chars_of("3d/");
    if crate::text::contains_chars(l.as_slice(), std_name.as_slice()) {
        0
    } else if crate::text::starts_with_chars(l.as_slice(), dir.as_slice()) {
        1
    } else {
        2
    }
}

fn append_rank(out: &mut Vec<String>, names: &Vec<String>, rank: u8)
    ensures
        crate::text::string_views(final(out)@) == crate::text::string_views(old(out)@)
            + names_of_rank(crate::text::string_views(names@), rank as nat),
{
    let ghost start = crate::text::string_views(out@);
    let mut i: usize = 0;
    while i < names.len()
        invariant
            i <= names@.len(),
            crate::text::string_views(out@) == start + names_of_rank(
                crate::text::string_views(names@).take(i as int),
                rank as nat,
            ),
        decreases names@.len() - i,
    {
        let ghost w = crate::text::string_views(names@);
        assert(w.take(i + 1).drop_last() =~= w.take(i as int));
        if rank_of(names[i].as_str()) == rank {
            let c = chars_of(names[i].as_str());
            let ghost prev = crate::text::string_views(out@);
            out.push(string_from_chars(c.as_slice()));
            assert(crate::text::string_views(out@) =~= prev.push(w[i as int]));
        }
        i += 1;
    }
    assert(crate::text::string_views(names@).take(names@.len() as int) =~= crate::text::string_views(
        names@,
    ));
}

/// Order model document names for reading: standard name first, then `3d/` documents, then
/// the rest, each group in its original order.
pub fn order_model_names(names: &Vec<String>) -> (r: Vec<String>)
    ensures
        crate::text::string_views(r@) == ordered_model_names(crate::text::string_views(names@)),
{
    let mut out: Vec<String> = Vec::new();
    append_rank(&mut out, names, 0);
    append_rank(&mut out, names, 1);
    append_rank(&mut out, names, 2);
    out
}


// ---------------------------------------------------------------------------
// The triangle budget.
// ---------------------------------------------------------------------------

/// Number of positions `j` in `k .. k + m` with `j % step == 0`.
pub open spec fn multiples_in(k: nat, m: nat, step: nat) -> nat
    decreases m,
{
    if m == 0 {
        0
    } else {
        (if k % step == 0 {
            1nat
        } else {
            0nat
        }) + multiples_in(k + 1, (m - 1) as nat, step)
    }
}

proof fn lemma_multiples_extend(k: nat, m: nat, step: nat)
    ensures
        multiples_in(k, m + 1, step) == multiples_in(k, m, step) + (if (k + m) % step == 0 {
            1nat
        } else {
            0nat
        }),
    decreases m,
{
    if m > 0 {
        lemma_multiples_extend(k + 1, (m - 1) as nat, step);
        assert(multiples_in(k, m + 1, step) == (if k % step == 0 {
            1nat
        } else {
            0nat
        }) + multiples_in(k + 1, m, step));
        assert(multiples_in(k, m, step) == (if k % step == 0 {
            1nat
        } else {
            0nat
        }) + multiples_in(k + 1, (m - 1) as nat, step));
        assert(k + 1 + (m - 1) == k + m);
    } else {
        assert(multiples_in(k + 1, 0, step) == 0);
        assert(multiples_in(k, 1, step) == (if k % step == 0 {
            1nat
        } else {
            0nat
        }) + multiples_in(k + 1, 0, step));
    }
}

proof fn lemma_ceil_step(x: int, d: int)
    requires
        x >= 0,
        d >= 1,
    ensures
        (x + d) / d - (x + d - 1) / d == if x % d == 0 {
            1int
        } else {
            0int
        },
{
    let q = x / d;
    let r = x % d;
    vstd::arithmetic::div_mod::lemma_fundamental_div_mod(x, d);
    assert(x == q * d + r) by (nonlinear_arith)
        requires
            x == d * q + r,
    ;
    assert((q + 1) * d == q * d + d) by (nonlinear_arith);
    if r == 0 {
        vstd::arithmetic::div_mod::lemma_fundamental_div_mod_converse_div(x + d - 1, d, q, d - 1);
        vstd::arithmetic::div_mod::lemma_fundamental_div_mod_converse_div(x + d, d, q + 1, 0);
    } else {
        vstd::arithmetic::div_mod::lemma_fundamental_div_mod_converse_div(x + d - 1, d, q + 1, r - 1);
        vstd::arithmetic::div_mod::lemma_fundamental_div_mod_converse_div(x + d, d, q + 1, r);
    }
}

proof fn lemma_multiples_from_zero(m: nat, step: nat)
    requires
        step >= 1,
    ensures
        multiples_in(0, m, step) == (m + step - 1) / (step as int),
    decreases m,
{
    if m == 0 {
        vstd::arithmetic::div_mod::lemma_fundamental_div_mod_converse_div(
            step - 1,
            step as int,
            0,
            step - 1,
        );
    } else {
        lemma_multiples_from_zero((m - 1) as nat, step);
        lemma_multiples_extend(0, (m - 1) as nat, step);
        lemma_ceil_step(m - 1, step as int);
    }
}

proof fn lemma_kept_len(s: Seq<u32>, step: nat, k: nat)
    requires
        step >= 1,
    ensures
        kept_chunks(s, step, k).len() <= 3 * multiples_in(k, s.len() / 3, step) + s.len() % 3,
    decreases s.len(),
{
    if s.len() >= 3 {
        lemma_kept_len(s.skip(3), step, k + 1);
        assert(s.skip(3).len() / 3 == s.len() / 3 - 1);
        assert(s.skip(3).len() % 3 == s.len() % 3);
        assert(multiples_in(k, s.len() / 3, step) == (if k % step == 0 {
            1nat
        } else {
            0nat
        }) + multiples_in(k + 1, (s.len() / 3 - 1) as nat, step));
    } else if s.len() > 0 {
        assert(s.skip(s.len() as int).len() == 0);
        assert(kept_chunks(s.skip(s.len() as int), step, k + 1).len() == 0);
        assert(s.len() / 3 == 0);
        assert(s.len() % 3 == s.len());
    }
}

/// The preview keeps at most [`MAX_TRIANGLES`] whole triangles.
pub proof fn law_preview_within_budget(s: Seq<u32>)
    ensures
        preview_indices(s).len() / 3 <= MAX_TRIANGLES,
{
    let tri = s.len() / 3;
    if s.len() > 0 && tri > MAX_TRIANGLES {
        let m = MAX_TRIANGLES as int;
        let step = div_ceil(tri, MAX_TRIANGLES as nat);
        let q = (tri + m - 1) / m;
        vstd::arithmetic::div_mod::lemma_fundamental_div_mod(tri + m - 1, m);
        assert(step as int == q);
        assert(m * q >= tri) by (nonlinear_arith)
            requires
                tri + m - 1 == m * q + (tri + m - 1) % m,
                (tri + m - 1) % m < m,
        ;
        assert(step >= 1) by (nonlinear_arith)
            requires
                m * q >= tri,
                tri > m,
                m > 0,
                step as int == q,
        ;
        lemma_kept_len(s, step, 0);
        lemma_multiples_from_zero(tri, step);
        let mult = multiples_in(0, tri, step);
        assert(mult <= m) by {
            vstd::arithmetic::div_mod::lemma_fundamental_div_mod_converse_div(
                m * step + step - 1,
                step as int,
                m,
                step - 1,
            );
            assert(m * step + step - 1 == m * (step as int) + (step - 1));
            vstd::arithmetic::div_mod::lemma_div_is_ordered(
                tri + step - 1,
                m * step + step - 1,
                step as int,
            );
        }
        let kept = preview_indices(s).len();
        assert(kept <= 3 * mult + s.len() % 3);
        assert(kept / 3 <= mult);
    }
}


// ---------------------------------------------------------------------------
// Polygon triangulation.
// ---------------------------------------------------------------------------

/// The corner positions of the fan triangulation of a polygon whose `count` corners start at
/// position `begin` of an index list holding `available` entries: triangles
/// `(begin, begin + t, begin + t + 1)` for `t` in `1 .. count - 1`, flattened; none when the
/// polygon has fewer than three corners or runs past the list.
pub open spec fn fan_corners(begin: nat, count: nat, available: nat) -> Seq<usize> {
    if count < 3 || begin + count > available {
        Seq::empty()
    } else {
        Seq::new(
            (3 * (count - 2)) as nat,
            |i: int|
                if i % 3 == 0 {
                    begin as usize
                } else {
                    (begin + i / 3 + i % 3) as usize
                },
        )
    }
}

/// Fan triangulation of one polygon of a mesh.
pub fn fan_triangulate(begin: u32, count: u32, available: usize) -> (r: Vec<usize>)
    ensures
        r@ == fan_corners(begin as nat, count as nat, available as nat),
{
    let mut out: Vec<usize> = Vec::new();
    if count < 3 || (begin as u64) + (count as u64) > available as u64 {
        assert(out@ =~= fan_corners(begin as nat, count as nat, available as nat));
        return out;
    }
    let b = begin as usize;
    let mut t: usize = 1;
    let ghost target = fan_corners(begin as nat, count as nat, available as nat);
    while t + 1 < count as usize
        invariant
            3 <= count,
            b == begin,
            begin + count <= available,
            1 <= t <= count - 1,
            target == fan_corners(begin as nat, count as nat, available as nat),
            out@ == target.take(3 * (t - 1)),
        decreases count - t,
    {
        assert(target.take(3 * t) =~= target.take(3 * (t - 1)).push(b).push((b + t) as usize).push((b + t + 1) as usize)) by {
            assert(target[3 * (t - 1)] == b);
            assert((3 * (t - 1) + 1) / 3 == t - 1 && (3 * (t - 1) + 1) % 3 == 1);
            assert((3 * (t - 1) + 2) / 3 == t - 1 && (3 * (t - 1) + 2) % 3 == 2);
            assert((3 * (t - 1)) % 3 == 0);
        }
        out.push(b);
        out.push(b + t);
        out.push(b + t + 1);
        t += 1;
    }
    assert(target.take(3 * (t - 1)) =~= target);
    out
}

} // verus!
