use look_everyting::model::{
    check_geometry, fan_triangulate, info_from_mesh, mesh_format, model_entry_name, order_model_names,
    simplify_for_preview, texture_from_pixels, triangle_count, GltfCounts, MeshFormat, MeshStats,
    ModelError, ModelInfo, ModelPlan, ModelSource, PixelLayout, MAX_TRIANGLES,
};
use look_everyting::video::{
    audio_track_info, fallback_video_format, path_to_file_url, pcm_float_layout, select_audio_stream, video_format_info,
    AudioDecoder, AudioError, AudioFormat, MfAudio, VideoError,
};
use look_everyting::shell::{associated_extensions, default_icon, extension_key, open_command, PROG_ID};
use look_everyting::settings::FileAssociations;

#[test]
fn rejects_unknown_extension() {
    let err = ModelInfo::from_path("mesh.xyz").unwrap_err();
    assert!(matches!(err, ModelError::UnsupportedFormat));
}

#[test]
fn stub_for_max() {
    let info = match ModelInfo::from_path("scene.max").unwrap() {
        ModelPlan::Ready(info) => info,
        ModelPlan::Load { .. } => panic!("a .max file is summarised without loading"),
    };
    assert_eq!(info.format, "MAX");
}

#[test]
fn model_plans() {
    match ModelInfo::from_path("/m/Car.GLB").unwrap() {
        ModelPlan::Load { ext, source } => {
            assert_eq!(ext, "glb");
            assert_eq!(source, ModelSource::Gltf);
        }
        ModelPlan::Ready(_) => panic!("glTF is loaded"),
    }
    match ModelInfo::from_path("part.PLY").unwrap() {
        ModelPlan::Ready(info) => {
            assert_eq!(info.format, "PLY");
            assert_eq!(
                info.notes,
                "PLY preview is not implemented yet. Export to OBJ, STL, GLTF, FBX, or 3MF."
            );
            assert_eq!(info.vertex_count, 0);
            assert_eq!(info.triangle_count, 0);
        },
        ModelPlan::Load { .. } => panic!("ply is summarised without loading"),
    }
    match ModelInfo::from_path("x.stl").unwrap() {
        ModelPlan::Load { source, .. } => assert_eq!(source, ModelSource::Mesh),
        ModelPlan::Ready(_) => panic!("stl goes through the mesh loader"),
    }
    assert!(matches!(ModelInfo::from_path("noext"), Err(ModelError::UnsupportedFormat)));
}

#[test]
fn mesh_dispatch_and_summaries() {
    assert_eq!(mesh_format("a.OBJ").unwrap(), MeshFormat::Obj);
    assert_eq!(mesh_format("a.gltf").unwrap(), MeshFormat::Gltf);
    assert_eq!(mesh_format("a.3mf").unwrap(), MeshFormat::ThreeMf);
    match mesh_format("a.dae") {
        Err(ModelError::Message(m)) => {
            assert_eq!(m, "DAE preview is not implemented yet. Export to OBJ, STL, GLTF, FBX, or 3MF.")
        }
        _ => panic!("dae is refused with a message"),
    }
    assert!(matches!(mesh_format("a.max"), Err(ModelError::Message(_))));
    assert!(matches!(mesh_format("a.txt"), Err(ModelError::UnsupportedFormat)));
    assert!(matches!(check_geometry(0), Err(ModelError::Message(_))));
    assert!(check_geometry(3).is_ok());

    let stats = MeshStats { mesh_count: 0, material_count: 2, vertex_count: 9, index_count: 0, has_albedo: false, has_normal_map: true };
    let info = info_from_mesh("stl", &stats);
    assert_eq!(info.format, "STL");
    assert_eq!(info.mesh_count, 1);
    assert_eq!(info.triangle_count, 3);
    assert!(info.has_textures);
    assert_eq!(info.notes, "Loaded for in-app preview.");
    let noted = ModelInfo::from_mesh_load("ply", Err(ModelError::Message("later".to_string()))).unwrap();
    assert_eq!((noted.format.as_str(), noted.notes.as_str()), ("PLY", "later"));
    let g = ModelInfo::from_gltf("glb", Ok(stats), Ok(GltfCounts { materials: 4, nodes: 7, textures: 0, images: 1 })).unwrap();
    assert_eq!((g.material_count, g.node_count, g.has_textures), (4, 7, true));
    assert_eq!(triangle_count(7, 12), 4);
}

#[test]
fn textures_expand_to_rgba() {
    let t = texture_from_pixels(2, 1, PixelLayout::Rgb8, &[1, 2, 3, 4, 5, 6]).unwrap();
    assert_eq!(t.rgba, vec![1, 2, 3, 255, 4, 5, 6, 255]);
    let g = texture_from_pixels(1, 1, PixelLayout::R8, &[9]).unwrap();
    assert_eq!(g.rgba, vec![9, 9, 9, 255]);
    let rg = texture_from_pixels(1, 1, PixelLayout::Rg8, &[7, 8]).unwrap();
    assert_eq!(rg.rgba, vec![7, 8, 0, 255]);
    assert!(texture_from_pixels(0, 0, PixelLayout::Rgba8, &[]).is_none());
    assert!(texture_from_pixels(1, 1, PixelLayout::Other, &[1, 2]).is_none());
}

#[test]
fn simplification_keeps_every_step_th_triangle() {
    let mut small: Vec<u32> = (0..30).collect();
    simplify_for_preview(&mut small);
    assert_eq!(small.len(), 30);
    let tris = MAX_TRIANGLES * 2 + 1;
    let mut big: Vec<u32> = (0..(tris * 3) as u32).collect();
    simplify_for_preview(&mut big);
    // step = ceil(tris / MAX) = 3
    assert_eq!(&big[0..6], &[0, 1, 2, 9, 10, 11]);
    assert!(big.len() / 3 <= MAX_TRIANGLES);
}

#[test]
fn threemf_entries() {
    assert_eq!(model_entry_name("3D\\3dmodel.MODEL"), Some("3D/3dmodel.MODEL".to_string()));
    assert_eq!(model_entry_name("Metadata/thumb.png"), None);
    let names = vec!["other.model".to_string(), "3d/b.model".to_string(), "3D/3dmodel.model".to_string(), "x.model".to_string()];
    assert_eq!(order_model_names(&names), vec!["3D/3dmodel.model", "3d/b.model", "other.model", "x.model"]);
}

#[test]
fn video_format_information() {
    let info = video_format_info("clip.mp4").unwrap();
    assert_eq!(info.format, "MP4");
    assert!(info.playable_in_app);
    assert_eq!(info.notes, "Press Play for in-app playback.");
    let flv = video_format_info("old.FLV").unwrap();
    assert_eq!(flv.format, "FLV");
    assert!(!flv.playable_in_app);
    assert!(matches!(video_format_info("a.png"), Err(VideoError::UnsupportedFormat)));
}

#[test]
fn file_urls_are_utf16() {
    let url = path_to_file_url("\\\\?\\C:\\Videos\\a b.mp4");
    let text: String = String::from_utf16(&url[..url.len() - 1]).unwrap();
    assert_eq!(text, "file:///C:/Videos/a b.mp4");
    assert_eq!(*url.last().unwrap(), 0);
    let unc: Vec<u16> = path_to_file_url("//server/share/x.mkv");
    assert_eq!(String::from_utf16(&unc[..unc.len() - 1]).unwrap(), "file://server/share/x.mkv");
    let wide = path_to_file_url("/𝄞.mp4");
    assert_eq!(&wide[9..11], &[0xD834, 0xDD1E]);
}

#[test]
fn audio_decisions() {
    assert!(matches!(select_audio_stream(&[], 0), Err(AudioError::NoAudio)));
    assert_eq!(select_audio_stream(&[2, 5, 7], 1).unwrap(), 5);
    assert_eq!(select_audio_stream(&[2, 5, 7], 9).unwrap(), 7);
    let l = pcm_float_layout(Some(6), Some(4000));
    assert_eq!(l.format, AudioFormat { sample_rate: 8000, channels: 2 });
    assert_eq!((l.block_align, l.avg_bytes_per_sec), (8, 64000));
    let d = pcm_float_layout(None, None);
    assert_eq!((d.format.channels, d.format.sample_rate), (2, 48000));
    let t = audio_track_info(2, 4, Some(6), None);
    assert_eq!(t.label, "Track 2 (6ch 48000Hz)");
    let dec = AudioDecoder::open("movie.mp4").unwrap();
    assert!(!dec.has_audio());
    assert!(AudioDecoder::list_tracks("movie.mp4").is_empty());
    let opened = AudioDecoder::from_opened(Ok(MfAudio::new(3, AudioFormat { sample_rate: 44100, channels: 2 }))).unwrap();
    assert_eq!(opened.format(), Some(AudioFormat { sample_rate: 44100, channels: 2 }));
    assert!(!AudioDecoder::from_opened(Err(AudioError::NoAudio)).unwrap().has_audio());
}

#[test]
fn association_values() {
    let prefs = FileAssociations { images: false, videos: true, models: true };
    let exts = associated_extensions(&prefs);
    assert_eq!(exts.len(), 19);
    assert_eq!(exts[0], "mp4");
    assert_eq!(open_command("C:\\LE\\le.exe"), "\"C:\\LE\\le.exe\" \"%1\"");
    assert_eq!(default_icon("le.exe"), "le.exe,0");
    assert_eq!(extension_key("png"), ".png");
    assert_eq!(PROG_ID, "LookEveryting");
}

#[test]
fn polygons_fan_out_into_triangles() {
    assert_eq!(fan_triangulate(4, 5, 20), vec![4, 5, 6, 4, 6, 7, 4, 7, 8]);
    assert_eq!(fan_triangulate(0, 3, 3), vec![0, 1, 2]);
    assert!(fan_triangulate(0, 2, 10).is_empty());
    assert!(fan_triangulate(8, 4, 10).is_empty());
}

#[test]
fn unreadable_videos_fall_back_to_their_extension() {
    let f = fallback_video_format("/v/clip.webm");
    assert_eq!(f.format, "WEBM");
    assert!(f.playable_in_app);
    assert!(f.notes.is_empty());
    assert_eq!(fallback_video_format("/v/clip").format, "VIDEO");
}
