//! Lightweight runtime localization.

use vstd::prelude::*;

use crate::text::str_eq;

verus! {

broadcast use vstd::string::group_string_axioms;

/// Locales supported by the app.
#[derive(Debug, Clone, Copy, PartialEq, Eq, Structural)]
pub enum Locale {
    EnUs,
    ZhHans,
}

/// A translation table: key and text pairs.
pub type Table = Seq<(Seq<char>, Seq<char>)>;

pub open spec fn pair_views(v: Seq<(&'static str, &'static str)>) -> Table {
    v.map_values(|p: (&'static str, &'static str)| (p.0@, p.1@))
}

/// Text for `key` in `t`; a key listed twice takes its last text.
pub open spec fn table_lookup(t: Table, key: Seq<char>) -> Option<Seq<char>>
    decreases t.len(),
{
    if t.len() == 0 {
        None
    } else if t.last().0 == key {
        Some(t.last().1)
    } else {
        table_lookup(t.drop_last(), key)
    }
}

/// Text shown for `key`: its translation, or the key itself when it has none.
pub open spec fn translate(t: Table, key: Seq<char>) -> Seq<char> {
    match table_lookup(t, key) {
        Some(text) => text,
        None => key,
    }
}

/// English strings.
pub open spec fn en_us_table() -> Table {
    seq![
        ("app-title"@, "LookEveryting"@),
        ("empty-title"@, "Drop files here"@),
        ("empty-subtitle"@, "or press Ctrl+O to open"@),
        ("empty-open-button"@, "Open File"@),
        ("toolbar-prev"@, "Previous"@),
        ("toolbar-next"@, "Next"@),
        ("toolbar-fit"@, "Fit"@),
        ("toolbar-actual-size"@, "100%"@),
        ("toolbar-zoom-in"@, "Zoom In"@),
        ("toolbar-zoom-out"@, "Zoom Out"@),
        ("toolbar-info"@, "Info"@),
        ("video-play"@, "Play"@),
        ("video-pause"@, "Pause"@),
        ("video-loading"@, "Loading video…"@),
        ("model-solid"@, "Solid"@),
        ("model-wireframe"@, "Wireframe"@),
        ("browse-grid"@, "Grid"@),
        ("browse-list"@, "List"@),
        ("settings-title"@, "Settings"@),
        ("settings-language"@, "Language"@),
        ("settings-theme"@, "Theme"@),
        ("settings-density"@, "UI Density"@),
        ("settings-toolbar-auto-hide"@, "Auto-hide toolbar"@),
        ("common-open"@, "Open"@),
        ("common-close"@, "Close"@),
        ("panel-file-info"@, "File Info"@),
        ("panel-model-info"@, "Model Info"@),
        ("toast-open-failed"@, "Failed to open file"@),
        ("mode-image"@, "Image"@),
        ("mode-video"@, "Video"@),
        ("mode-model"@, "3D Model"@),
        ("counter"@, "{current} / {total}"@),
        ("browse-thumbnails"@, "Files in folder"@),
        ("settings-associations"@, "Open with LookEveryting"@),
        ("settings-associations-hint"@, "Register as default handler for selected file types (Windows)."@),
        ("settings-assoc-images"@, "Images (jpg, png, webp…)"@),
        ("settings-assoc-videos"@, "Videos (mp4, mkv, mov…)"@),
        ("settings-assoc-models"@, "3D models (fbx, obj, gltf, stl…)"@),
        ("settings-assoc-apply"@, "Apply associations"@),
        ("settings-assoc-success"@, "File associations updated."@),
        ("settings-assoc-failed"@, "Failed: {error}"@),
        ("video-external-hint"@, "Embedded playback coming soon — click to open in system player"@),
        ("model-hint"@, "Drag: rotate · Scroll: zoom"@),
        ("toast-file-not-supported"@, "Unsupported file format"@)
    ]
}

/// Simplified Chinese strings.
pub open spec fn zh_hans_table() -> Table {
    seq![
        ("app-title"@, "LookEveryting"@),
        ("empty-title"@, "拖放文件到此处"@),
        ("empty-subtitle"@, "或按 Ctrl+O 打开"@),
        ("empty-open-button"@, "打开文件"@),
        ("toolbar-prev"@, "上一张"@),
        ("toolbar-next"@, "下一张"@),
        ("toolbar-fit"@, "适应"@),
        ("toolbar-actual-size"@, "100%"@),
        ("toolbar-zoom-in"@, "放大"@),
        ("toolbar-zoom-out"@, "缩小"@),
        ("toolbar-info"@, "信息"@),
        ("video-play"@, "播放"@),
        ("video-pause"@, "暂停"@),
        ("video-loading"@, "正在加载视频…"@),
        ("model-solid"@, "实体"@),
        ("model-wireframe"@, "线框"@),
        ("browse-grid"@, "网格"@),
        ("browse-list"@, "列表"@),
        ("settings-title"@, "设置"@),
        ("settings-language"@, "语言"@),
        ("settings-theme"@, "主题"@),
        ("settings-density"@, "界面密度"@),
        ("settings-toolbar-auto-hide"@, "工具栏自动隐藏"@),
        ("common-open"@, "打开"@),
        ("common-close"@, "关闭"@),
        ("panel-file-info"@, "文件信息"@),
        ("panel-model-info"@, "模型信息"@),
        ("toast-open-failed"@, "打开文件失败"@),
        ("mode-image"@, "图片"@),
        ("mode-video"@, "视频"@),
        ("mode-model"@, "3D 模型"@),
        ("counter"@, "第 {current} 张，共 {total} 张"@),
        ("browse-thumbnails"@, "文件夹"@),
        ("settings-associations"@, "关联打开"@),
        ("settings-associations-hint"@, "将选中的文件类型注册为用本软件打开（Windows）。"@),
        ("settings-assoc-images"@, "图片（jpg、png、webp 等）"@),
        ("settings-assoc-videos"@, "视频（mp4、mkv、mov 等）"@),
        ("settings-assoc-models"@, "3D 模型（fbx、obj、gltf、stl 等）"@),
        ("settings-assoc-apply"@, "应用关联"@),
        ("settings-assoc-success"@, "文件关联已更新。"@),
        ("settings-assoc-failed"@, "设置失败：{error}"@),
        ("video-external-hint"@, "内嵌播放即将支持 — 点击用系统播放器打开"@),
        ("model-hint"@, "拖动旋转 · 滚轮缩放"@),
        ("toast-file-not-supported"@, "不支持的文件格式"@)
    ]
}

pub open spec fn locale_table(locale: Locale) -> Table {
    match locale {
        Locale::EnUs => en_us_table(),
        Locale::ZhHans => zh_hans_table(),
    }
}

fn en_us() -> (r: Vec<(&'static str, &'static str)>)
    ensures
        pair_views(r@) == en_us_table(),
{
    let r = vec![
        ("app-title", "LookEveryting"),
        ("empty-title", "Drop files here"),
        ("empty-subtitle", "or press Ctrl+O to open"),
        ("empty-open-button", "Open File"),
        ("toolbar-prev", "Previous"),
        ("toolbar-next", "Next"),
        ("toolbar-fit", "Fit"),
        ("toolbar-actual-size", "100%"),
        ("toolbar-zoom-in", "Zoom In"),
        ("toolbar-zoom-out", "Zoom Out"),
        ("toolbar-info", "Info"),
        ("video-play", "Play"),
        ("video-pause", "Pause"),
        ("video-loading", "Loading video…"),
        ("model-solid", "Solid"),
        ("model-wireframe", "Wireframe"),
        ("browse-grid", "Grid"),
        ("browse-list", "List"),
        ("settings-title", "Settings"),
        ("settings-language", "Language"),
        ("settings-theme", "Theme"),
        ("settings-density", "UI Density"),
        ("settings-toolbar-auto-hide", "Auto-hide toolbar"),
        ("common-open", "Open"),
        ("common-close", "Close"),
        ("panel-file-info", "File Info"),
        ("panel-model-info", "Model Info"),
        ("toast-open-failed", "Failed to open file"),
        ("mode-image", "Image"),
        ("mode-video", "Video"),
        ("mode-model", "3D Model"),
        ("counter", "{current} / {total}"),
        ("browse-thumbnails", "Files in folder"),
        ("settings-associations", "Open with LookEveryting"),
        ("settings-associations-hint", "Register as default handler for selected file types (Windows)."),
        ("settings-assoc-images", "Images (jpg, png, webp…)"),
        ("settings-assoc-videos", "Videos (mp4, mkv, mov…)"),
        ("settings-assoc-models", "3D models (fbx, obj, gltf, stl…)"),
        ("settings-assoc-apply", "Apply associations"),
        ("settings-assoc-success", "File associations updated."),
        ("settings-assoc-failed", "Failed: {error}"),
        ("video-external-hint", "Embedded playback coming soon — click to open in system player"),
        ("model-hint", "Drag: rotate · Scroll: zoom"),
        ("toast-file-not-supported", "Unsupported file format")
    ];
    assert(pair_views(r@) =~= en_us_table());
    r
}

fn zh_hans() -> (r: Vec<(&'static str, &'static str)>)
    ensures
        pair_views(r@) == zh_hans_table(),
{
    let r = vec![
        ("app-title", "LookEveryting"),
        ("empty-title", "拖放文件到此处"),
        ("empty-subtitle", "或按 Ctrl+O 打开"),
        ("empty-open-button", "打开文件"),
        ("toolbar-prev", "上一张"),
        ("toolbar-next", "下一张"),
        ("toolbar-fit", "适应"),
        ("toolbar-actual-size", "100%"),
        ("toolbar-zoom-in", "放大"),
        ("toolbar-zoom-out", "缩小"),
        ("toolbar-info", "信息"),
        ("video-play", "播放"),
        ("video-pause", "暂停"),
        ("video-loading", "正在加载视频…"),
        ("model-solid", "实体"),
        ("model-wireframe", "线框"),
        ("browse-grid", "网格"),
        ("browse-list", "列表"),
        ("settings-title", "设置"),
        ("settings-language", "语言"),
        ("settings-theme", "主题"),
        ("settings-density", "界面密度"),
        ("settings-toolbar-auto-hide", "工具栏自动隐藏"),
        ("common-open", "打开"),
        ("common-close", "关闭"),
        ("panel-file-info", "文件信息"),
        ("panel-model-info", "模型信息"),
        ("toast-open-failed", "打开文件失败"),
        ("mode-image", "图片"),
        ("mode-video", "视频"),
        ("mode-model", "3D 模型"),
        ("counter", "第 {current} 张，共 {total} 张"),
        ("browse-thumbnails", "文件夹"),
        ("settings-associations", "关联打开"),
        ("settings-associations-hint", "将选中的文件类型注册为用本软件打开（Windows）。"),
        ("settings-assoc-images", "图片（jpg、png、webp 等）"),
        ("settings-assoc-videos", "视频（mp4、mkv、mov 等）"),
        ("settings-assoc-models", "3D 模型（fbx、obj、gltf、stl 等）"),
        ("settings-assoc-apply", "应用关联"),
        ("settings-assoc-success", "文件关联已更新。"),
        ("settings-assoc-failed", "设置失败：{error}"),
        ("video-external-hint", "内嵌播放即将支持 — 点击用系统播放器打开"),
        ("model-hint", "拖动旋转 · 滚轮缩放"),
        ("toast-file-not-supported", "不支持的文件格式")
    ];
    assert(pair_views(r@) =~= zh_hans_table());
    r
}

impl Locale {
    /// Every supported locale.
    pub const ALL: [Locale; 2] = [Locale::EnUs, Locale::ZhHans];

    /// BCP 47 identifier.
    pub fn id(self) -> (r: &'static str)
        ensures
            r@ == match self {
                Locale::EnUs => "en-US"@,
                Locale::ZhHans => "zh-Hans"@,
            },
    {
        match self {
            Locale::EnUs => "en-US",
            Locale::ZhHans => "zh-Hans",
        }
    }

    /// Name of the language in that language.
    pub fn display_name(self) -> (r: &'static str)
        ensures
            r@ == match self {
                Locale::EnUs => "English"@,
                Locale::ZhHans => "简体中文"@,
            },
    {
        match self {
            Locale::EnUs => "English",
            Locale::ZhHans => "简体中文",
        }
    }

    /// The locale named by `id` (`en-US` or `en`; `zh-Hans`, `zh-CN` or `zh`).
    pub fn from_id(id: &str) -> (r: Option<Self>)
        ensures
            r == if id@ == "en-US"@ || id@ == "en"@ {
                Some(Locale::EnUs)
            } else if id@ == "zh-Hans"@ || id@ == "zh-CN"@ || id@ == "zh"@ {
                Some(Locale::ZhHans)
            } else {
                None
            },
    {
        if str_eq(id, "en-US") || str_eq(id, "en") {
            Some(Locale::EnUs)
        } else if str_eq(id, "zh-Hans") || str_eq(id, "zh-CN") || str_eq(id, "zh") {
            Some(Locale::ZhHans)
        } else {
            None
        }
    }

    /// Locale used when none is configured.
    pub fn fallback() -> (r: Self)
        ensures
            r == Locale::EnUs,
    {
        Locale::EnUs
    }

    /// Translation bundle of this locale.
    pub fn bundle(self) -> (r: Bundle)
        ensures
            r.table() == locale_table(self),
    {
        let strings = match self {
            Locale::EnUs => en_us(),
            Locale::ZhHans => zh_hans(),
        };
        Bundle { strings }
    }
}

/// Translation bundle for one locale.
#[derive(Debug, Clone)]
pub struct Bundle {
    strings: Vec<(&'static str, &'static str)>,
}

impl Default for Bundle {
    fn default() -> (r: Self)
        ensures
            r.table() == Seq::<(Seq<char>, Seq<char>)>::empty(),
    {
        let r = Bundle { strings: Vec::new() };
        assert(r.table() =~= Seq::<(Seq<char>, Seq<char>)>::empty());
        r
    }
}

impl Bundle {
    /// The key and text pairs of the bundle.
    pub closed spec fn table(&self) -> Table {
        pair_views(self.strings@)
    }

    /// Text for `key`, or `key` itself when the bundle has none.
    pub fn get<'a>(&'a self, key: &'a str) -> (r: &'a str)
        ensures
            r@ == translate(self.table(), key@),
    {
        let mut i: usize = self.strings.len();
        assert(self.strings@.take(i as int) =~= self.strings@);
        while i > 0
            invariant
                i <= self.strings@.len(),
                table_lookup(self.table(), key@) == table_lookup(pair_views(self.strings@.take(i as int)), key@),
            decreases i,
        {
            let ghost t = pair_views(self.strings@.take(i as int));
            assert(t.drop_last() =~= pair_views(self.strings@.take(i - 1)));
            if str_eq(self.strings[i - 1].0, key) {
                return self.strings[i - 1].1;
            }
            i -= 1;
        }
        assert(pair_views(self.strings@.take(0)) =~= Seq::<(Seq<char>, Seq<char>)>::empty());
        key
    }
}

/// Active localization context.
#[derive(Debug, Clone)]
pub struct I18n {
    locale: Locale,
    bundle: Bundle,
}

impl I18n {
    pub closed spec fn spec_locale(&self) -> Locale {
        self.locale
    }

    /// The strings in use.
    pub closed spec fn table(&self) -> Table {
        self.bundle.table()
    }

    /// Context showing the strings of `locale`.
    pub fn new(locale: Locale) -> (r: Self)
        ensures
            r.spec_locale() == locale,
            r.table() == locale_table(locale),
    {
        I18n { bundle: locale.bundle(), locale }
    }

    pub fn locale(&self) -> (r: Locale)
        ensures
            r == self.spec_locale(),
    {
        self.locale
    }

    /// Switches to `locale` and its strings.
    pub fn set_locale(&mut self, locale: Locale)
        ensures
            final(self).spec_locale() == locale,
            final(self).table() == locale_table(locale),
    {
        self.locale = locale;
        self.bundle = locale.bundle();
    }

    /// Translation of `key` in the active locale, or `key` itself.
    pub fn t<'a>(&'a self, key: &'a str) -> (r: &'a str)
        ensures
            r@ == translate(self.table(), key@),
    {
        self.bundle.get(key)
    }
}


/// The keys of a table, in order.
pub open spec fn table_keys(t: Table) -> Seq<Seq<char>> {
    t.map_values(|p: (Seq<char>, Seq<char>)| p.0)
}

proof fn lemma_same_keys_lookup(t1: Table, t2: Table, key: Seq<char>)
    requires
        table_keys(t1) == table_keys(t2),
    ensures
        (table_lookup(t1, key) is Some) == (table_lookup(t2, key) is Some),
    decreases t1.len(),
{
    assert(table_keys(t1).len() == t1.len());
    assert(table_keys(t2).len() == t2.len());
    if t1.len() > 0 {
        assert(t1.last().0 == table_keys(t1)[t1.len() - 1]);
        assert(t2.last().0 == table_keys(t2)[t2.len() - 1]);
        assert(table_keys(t1.drop_last()) =~= table_keys(t1).drop_last());
        assert(table_keys(t2.drop_last()) =~= table_keys(t2).drop_last());
        lemma_same_keys_lookup(t1.drop_last(), t2.drop_last(), key);
    }
}

/// Both locales translate the same keys: a key has an English text exactly when it has a
/// Chinese one.
pub proof fn law_locales_translate_same_keys(key: Seq<char>)
    ensures
        (table_lookup(locale_table(Locale::EnUs), key) is Some) == (table_lookup(
            locale_table(Locale::ZhHans),
            key,
        ) is Some),
{
    assert(table_keys(en_us_table()) =~= table_keys(zh_hans_table()));
    lemma_same_keys_lookup(en_us_table(), zh_hans_table(), key);
}

/// No english text is its own key.
proof fn lemma_english_texts_differ_from_keys()
    ensures
        forall|i: int| 0 <= i < en_us_table().len() ==> #[trigger] en_us_table()[i].1 != en_us_table()[i].0,
{
    reveal_strlit("app-title");
    reveal_strlit("LookEveryting");
    reveal_strlit("empty-title");
    reveal_strlit("Drop files here");
    reveal_strlit("empty-subtitle");
    reveal_strlit("or press Ctrl+O to open");
    reveal_strlit("empty-open-button");
    reveal_strlit("Open File");
    reveal_strlit("toolbar-prev");
    reveal_strlit("Previous");
    reveal_strlit("toolbar-next");
    reveal_strlit("Next");
    reveal_strlit("toolbar-fit");
    reveal_strlit("Fit");
    reveal_strlit("toolbar-actual-size");
    reveal_strlit("100%");
    reveal_strlit("toolbar-zoom-in");
    reveal_strlit("Zoom In");
    reveal_strlit("toolbar-zoom-out");
    reveal_strlit("Zoom Out");
    reveal_strlit("toolbar-info");
    reveal_strlit("Info");
    reveal_strlit("video-play");
    reveal_strlit("Play");
    reveal_strlit("video-pause");
    reveal_strlit("Pause");
    reveal_strlit("video-loading");
    reveal_strlit("Loading video…");
    reveal_strlit("model-solid");
    reveal_strlit("Solid");
    reveal_strlit("model-wireframe");
    reveal_strlit("Wireframe");
    reveal_strlit("browse-grid");
    reveal_strlit("Grid");
    reveal_strlit("browse-list");
    reveal_strlit("List");
    reveal_strlit("settings-title");
    reveal_strlit("Settings");
    reveal_strlit("settings-language");
    reveal_strlit("Language");
    reveal_strlit("settings-theme");
    reveal_strlit("Theme");
    reveal_strlit("settings-density");
    reveal_strlit("UI Density");
    reveal_strlit("settings-toolbar-auto-hide");
    reveal_strlit("Auto-hide toolbar");
    reveal_strlit("common-open");
    reveal_strlit("Open");
    reveal_strlit("common-close");
    reveal_strlit("Close");
    reveal_strlit("panel-file-info");
    reveal_strlit("File Info");
    reveal_strlit("panel-model-info");
    reveal_strlit("Model Info");
    reveal_strlit("toast-open-failed");
    reveal_strlit("Failed to open file");
    reveal_strlit("mode-image");
    reveal_strlit("Image");
    reveal_strlit("mode-video");
    reveal_strlit("Video");
    reveal_strlit("mode-model");
    reveal_strlit("3D Model");
    reveal_strlit("counter");
    reveal_strlit("{current} / {total}");
    reveal_strlit("browse-thumbnails");
    reveal_strlit("Files in folder");
    reveal_strlit("settings-associations");
    reveal_strlit("Open with LookEveryting");
    reveal_strlit("settings-associations-hint");
    reveal_strlit("Register as default handler for selected file types (Windows).");
    reveal_strlit("settings-assoc-images");
    reveal_strlit("Images (jpg, png, webp…)");
    reveal_strlit("settings-assoc-videos");
    reveal_strlit("Videos (mp4, mkv, mov…)");
    reveal_strlit("settings-assoc-models");
    reveal_strlit("3D models (fbx, obj, gltf, stl…)");
    reveal_strlit("settings-assoc-apply");
    reveal_strlit("Apply associations");
    reveal_strlit("settings-assoc-success");
    reveal_strlit("File associations updated.");
    reveal_strlit("settings-assoc-failed");
    reveal_strlit("Failed: {error}");
    reveal_strlit("video-external-hint");
    reveal_strlit("Embedded playback coming soon — click to open in system player");
    reveal_strlit("model-hint");
    reveal_strlit("Drag: rotate · Scroll: zoom");
    reveal_strlit("toast-file-not-supported");
    reveal_strlit("Unsupported file format");
    assert("app-title"@.len() == 9 && "app-title"@[0] == 'a');
    assert("LookEveryting"@.len() == 13 && "LookEveryting"@[0] == 'L');
    assert("empty-title"@.len() == 11 && "empty-title"@[0] == 'e');
    assert("Drop files here"@.len() == 15 && "Drop files here"@[0] == 'D');
    assert("empty-subtitle"@.len() == 14 && "empty-subtitle"@[0] == 'e');
    assert("or press Ctrl+O to open"@.len() == 23 && "or press Ctrl+O to open"@[0] == 'o');
    assert("empty-open-button"@.len() == 17 && "empty-open-button"@[0] == 'e');
    assert("Open File"@.len() == 9 && "Open File"@[0] == 'O');
    assert("toolbar-prev"@.len() == 12 && "toolbar-prev"@[0] == 't');
    assert("Previous"@.len() == 8 && "Previous"@[0] == 'P');
    assert("toolbar-next"@.len() == 12 && "toolbar-next"@[0] == 't');
    assert("Next"@.len() == 4 && "Next"@[0] == 'N');
    assert("toolbar-fit"@.len() == 11 && "toolbar-fit"@[0] == 't');
    assert("Fit"@.len() == 3 && "Fit"@[0] == 'F');
    assert("toolbar-actual-size"@.len() == 19 && "toolbar-actual-size"@[0] == 't');
    assert("100%"@.len() == 4 && "100%"@[0] == '1');
    assert("toolbar-zoom-in"@.len() == 15 && "toolbar-zoom-in"@[0] == 't');
    assert("Zoom In"@.len() == 7 && "Zoom In"@[0] == 'Z');
    assert("toolbar-zoom-out"@.len() == 16 && "toolbar-zoom-out"@[0] == 't');
    assert("Zoom Out"@.len() == 8 && "Zoom Out"@[0] == 'Z');
    assert("toolbar-info"@.len() == 12 && "toolbar-info"@[0] == 't');
    assert("Info"@.len() == 4 && "Info"@[0] == 'I');
    assert("video-play"@.len() == 10 && "video-play"@[0] == 'v');
    assert("Play"@.len() == 4 && "Play"@[0] == 'P');
    assert("video-pause"@.len() == 11 && "video-pause"@[0] == 'v');
    assert("Pause"@.len() == 5 && "Pause"@[0] == 'P');
    assert("video-loading"@.len() == 13 && "video-loading"@[0] == 'v');
    assert("Loading video…"@.len() == 14 && "Loading video…"@[0] == 'L');
    assert("model-solid"@.len() == 11 && "model-solid"@[0] == 'm');
    assert("Solid"@.len() == 5 && "Solid"@[0] == 'S');
    assert("model-wireframe"@.len() == 15 && "model-wireframe"@[0] == 'm');
    assert("Wireframe"@.len() == 9 && "Wireframe"@[0] == 'W');
    assert("browse-grid"@.len() == 11 && "browse-grid"@[0] == 'b');
    assert("Grid"@.len() == 4 && "Grid"@[0] == 'G');
    assert("browse-list"@.len() == 11 && "browse-list"@[0] == 'b');
    assert("List"@.len() == 4 && "List"@[0] == 'L');
    assert("settings-title"@.len() == 14 && "settings-title"@[0] == 's');
    assert("Settings"@.len() == 8 && "Settings"@[0] == 'S');
    assert("settings-language"@.len() == 17 && "settings-language"@[0] == 's');
    assert("Language"@.len() == 8 && "Language"@[0] == 'L');
    assert("settings-theme"@.len() == 14 && "settings-theme"@[0] == 's');
    assert("Theme"@.len() == 5 && "Theme"@[0] == 'T');
    assert("settings-density"@.len() == 16 && "settings-density"@[0] == 's');
    assert("UI Density"@.len() == 10 && "UI Density"@[0] == 'U');
    assert("settings-toolbar-auto-hide"@.len() == 26 && "settings-toolbar-auto-hide"@[0] == 's');
    assert("Auto-hide toolbar"@.len() == 17 && "Auto-hide toolbar"@[0] == 'A');
    assert("common-open"@.len() == 11 && "common-open"@[0] == 'c');
    assert("Open"@.len() == 4 && "Open"@[0] == 'O');
    assert("common-close"@.len() == 12 && "common-close"@[0] == 'c');
    assert("Close"@.len() == 5 && "Close"@[0] == 'C');
    assert("panel-file-info"@.len() == 15 && "panel-file-info"@[0] == 'p');
    assert("File Info"@.len() == 9 && "File Info"@[0] == 'F');
    assert("panel-model-info"@.len() == 16 && "panel-model-info"@[0] == 'p');
    assert("Model Info"@.len() == 10 && "Model Info"@[0] == 'M');
    assert("toast-open-failed"@.len() == 17 && "toast-open-failed"@[0] == 't');
    assert("Failed to open file"@.len() == 19 && "Failed to open file"@[0] == 'F');
    assert("mode-image"@.len() == 10 && "mode-image"@[0] == 'm');
    assert("Image"@.len() == 5 && "Image"@[0] == 'I');
    assert("mode-video"@.len() == 10 && "mode-video"@[0] == 'm');
    assert("Video"@.len() == 5 && "Video"@[0] == 'V');
    assert("mode-model"@.len() == 10 && "mode-model"@[0] == 'm');
    assert("3D Model"@.len() == 8 && "3D Model"@[0] == '3');
    assert("counter"@.len() == 7 && "counter"@[0] == 'c');
    assert("{current} / {total}"@.len() == 19 && "{current} / {total}"@[0] == '{');
    assert("browse-thumbnails"@.len() == 17 && "browse-thumbnails"@[0] == 'b');
    assert("Files in folder"@.len() == 15 && "Files in folder"@[0] == 'F');
    assert("settings-associations"@.len() == 21 && "settings-associations"@[0] == 's');
    assert("Open with LookEveryting"@.len() == 23 && "Open with LookEveryting"@[0] == 'O');
    assert("settings-associations-hint"@.len() == 26 && "settings-associations-hint"@[0] == 's');
    assert("Register as default handler for selected file types (Windows)."@.len() == 62 && "Register as default handler for selected file types (Windows)."@[0] == 'R');
    assert("settings-assoc-images"@.len() == 21 && "settings-assoc-images"@[0] == 's');
    assert("Images (jpg, png, webp…)"@.len() == 24 && "Images (jpg, png, webp…)"@[0] == 'I');
    assert("settings-assoc-videos"@.len() == 21 && "settings-assoc-videos"@[0] == 's');
    assert("Videos (mp4, mkv, mov…)"@.len() == 23 && "Videos (mp4, mkv, mov…)"@[0] == 'V');
    assert("settings-assoc-models"@.len() == 21 && "settings-assoc-models"@[0] == 's');
    assert("3D models (fbx, obj, gltf, stl…)"@.len() == 32 && "3D models (fbx, obj, gltf, stl…)"@[0] == '3');
    assert("settings-assoc-apply"@.len() == 20 && "settings-assoc-apply"@[0] == 's');
    assert("Apply associations"@.len() == 18 && "Apply associations"@[0] == 'A');
    assert("settings-assoc-success"@.len() == 22 && "settings-assoc-success"@[0] == 's');
    assert("File associations updated."@.len() == 26 && "File associations updated."@[0] == 'F');
    assert("settings-assoc-failed"@.len() == 21 && "settings-assoc-failed"@[0] == 's');
    assert("Failed: {error}"@.len() == 15 && "Failed: {error}"@[0] == 'F');
    assert("video-external-hint"@.len() == 19 && "video-external-hint"@[0] == 'v');
    assert("Embedded playback coming soon — click to open in system player"@.len() == 62 && "Embedded playback coming soon — click to open in system player"@[0] == 'E');
    assert("model-hint"@.len() == 10 && "model-hint"@[0] == 'm');
    assert("Drag: rotate · Scroll: zoom"@.len() == 27 && "Drag: rotate · Scroll: zoom"@[0] == 'D');
    assert("toast-file-not-supported"@.len() == 24 && "toast-file-not-supported"@[0] == 't');
    assert("Unsupported file format"@.len() == 23 && "Unsupported file format"@[0] == 'U');
    assert forall|i: int| 0 <= i < en_us_table().len() implies #[trigger] en_us_table()[i].1 != en_us_table()[i].0 by {
        if i == 0 {} else if i == 1 {} else if i == 2 {} else if i == 3 {} else if i == 4 {} else if i == 5 {} else if i == 6 {} else if i == 7 {} else if i == 8 {} else if i == 9 {} else if i == 10 {} else if i == 11 {} else if i == 12 {} else if i == 13 {} else if i == 14 {} else if i == 15 {} else if i == 16 {} else if i == 17 {} else if i == 18 {} else if i == 19 {} else if i == 20 {} else if i == 21 {} else if i == 22 {} else if i == 23 {} else if i == 24 {} else if i == 25 {} else if i == 26 {} else if i == 27 {} else if i == 28 {} else if i == 29 {} else if i == 30 {} else if i == 31 {} else if i == 32 {} else if i == 33 {} else if i == 34 {} else if i == 35 {} else if i == 36 {} else if i == 37 {} else if i == 38 {} else if i == 39 {} else if i == 40 {} else if i == 41 {} else if i == 42 {} else {}
    }
}

/// No chinese text is its own key.
proof fn lemma_chinese_texts_differ_from_keys()
    ensures
        forall|i: int| 0 <= i < zh_hans_table().len() ==> #[trigger] zh_hans_table()[i].1 != zh_hans_table()[i].0,
{
    reveal_strlit("app-title");
    reveal_strlit("LookEveryting");
    reveal_strlit("empty-title");
    reveal_strlit("拖放文件到此处");
    reveal_strlit("empty-subtitle");
    reveal_strlit("或按 Ctrl+O 打开");
    reveal_strlit("empty-open-button");
    reveal_strlit("打开文件");
    reveal_strlit("toolbar-prev");
    reveal_strlit("上一张");
    reveal_strlit("toolbar-next");
    reveal_strlit("下一张");
    reveal_strlit("toolbar-fit");
    reveal_strlit("适应");
    reveal_strlit("toolbar-actual-size");
    reveal_strlit("100%");
    reveal_strlit("toolbar-zoom-in");
    reveal_strlit("放大");
    reveal_strlit("toolbar-zoom-out");
    reveal_strlit("缩小");
    reveal_strlit("toolbar-info");
    reveal_strlit("信息");
    reveal_strlit("video-play");
    reveal_strlit("播放");
    reveal_strlit("video-pause");
    reveal_strlit("暂停");
    reveal_strlit("video-loading");
    reveal_strlit("正在加载视频…");
    reveal_strlit("model-solid");
    reveal_strlit("实体");
    reveal_strlit("model-wireframe");
    reveal_strlit("线框");
    reveal_strlit("browse-grid");
    reveal_strlit("网格");
    reveal_strlit("browse-list");
    reveal_strlit("列表");
    reveal_strlit("settings-title");
    reveal_strlit("设置");
    reveal_strlit("settings-language");
    reveal_strlit("语言");
    reveal_strlit("settings-theme");
    reveal_strlit("主题");
    reveal_strlit("settings-density");
    reveal_strlit("界面密度");
    reveal_strlit("settings-toolbar-auto-hide");
    reveal_strlit("工具栏自动隐藏");
    reveal_strlit("common-open");
    reveal_strlit("打开");
    reveal_strlit("common-close");
    reveal_strlit("关闭");
    reveal_strlit("panel-file-info");
    reveal_strlit("文件信息");
    reveal_strlit("panel-model-info");
    reveal_strlit("模型信息");
    reveal_strlit("toast-open-failed");
    reveal_strlit("打开文件失败");
    reveal_strlit("mode-image");
    reveal_strlit("图片");
    reveal_strlit("mode-video");
    reveal_strlit("视频");
    reveal_strlit("mode-model");
    reveal_strlit("3D 模型");
    reveal_strlit("counter");
    reveal_strlit("第 {current} 张，共 {total} 张");
    reveal_strlit("browse-thumbnails");
    reveal_strlit("文件夹");
    reveal_strlit("settings-associations");
    reveal_strlit("关联打开");
    reveal_strlit("settings-associations-hint");
    reveal_strlit("将选中的文件类型注册为用本软件打开（Windows）。");
    reveal_strlit("settings-assoc-images");
    reveal_strlit("图片（jpg、png、webp 等）");
    reveal_strlit("settings-assoc-videos");
    reveal_strlit("视频（mp4、mkv、mov 等）");
    reveal_strlit("settings-assoc-models");
    reveal_strlit("3D 模型（fbx、obj、gltf、stl 等）");
    reveal_strlit("settings-assoc-apply");
    reveal_strlit("应用关联");
    reveal_strlit("settings-assoc-success");
    reveal_strlit("文件关联已更新。");
    reveal_strlit("settings-assoc-failed");
    reveal_strlit("设置失败：{error}");
    reveal_strlit("video-external-hint");
    reveal_strlit("内嵌播放即将支持 — 点击用系统播放器打开");
    reveal_strlit("model-hint");
    reveal_strlit("拖动旋转 · 滚轮缩放");
    reveal_strlit("toast-file-not-supported");
    reveal_strlit("不支持的文件格式");
    assert("app-title"@.len() == 9 && "app-title"@[0] == 'a');
    assert("LookEveryting"@.len() == 13 && "LookEveryting"@[0] == 'L');
    assert("empty-title"@.len() == 11 && "empty-title"@[0] == 'e');
    assert("拖放文件到此处"@.len() == 7 && "拖放文件到此处"@[0] == '拖');
    assert("empty-subtitle"@.len() == 14 && "empty-subtitle"@[0] == 'e');
    assert("或按 Ctrl+O 打开"@.len() == 12 && "或按 Ctrl+O 打开"@[0] == '或');
    assert("empty-open-button"@.len() == 17 && "empty-open-button"@[0] == 'e');
    assert("打开文件"@.len() == 4 && "打开文件"@[0] == '打');
    assert("toolbar-prev"@.len() == 12 && "toolbar-prev"@[0] == 't');
    assert("上一张"@.len() == 3 && "上一张"@[0] == '上');
    assert("toolbar-next"@.len() == 12 && "toolbar-next"@[0] == 't');
    assert("下一张"@.len() == 3 && "下一张"@[0] == '下');
    assert("toolbar-fit"@.len() == 11 && "toolbar-fit"@[0] == 't');
    assert("适应"@.len() == 2 && "适应"@[0] == '适');
    assert("toolbar-actual-size"@.len() == 19 && "toolbar-actual-size"@[0] == 't');
    assert("100%"@.len() == 4 && "100%"@[0] == '1');
    assert("toolbar-zoom-in"@.len() == 15 && "toolbar-zoom-in"@[0] == 't');
    assert("放大"@.len() == 2 && "放大"@[0] == '放');
    assert("toolbar-zoom-out"@.len() == 16 && "toolbar-zoom-out"@[0] == 't');
    assert("缩小"@.len() == 2 && "缩小"@[0] == '缩');
    assert("toolbar-info"@.len() == 12 && "toolbar-info"@[0] == 't');
    assert("信息"@.len() == 2 && "信息"@[0] == '信');
    assert("video-play"@.len() == 10 && "video-play"@[0] == 'v');
    assert("播放"@.len() == 2 && "播放"@[0] == '播');
    assert("video-pause"@.len() == 11 && "video-pause"@[0] == 'v');
    assert("暂停"@.len() == 2 && "暂停"@[0] == '暂');
    assert("video-loading"@.len() == 13 && "video-loading"@[0] == 'v');
    assert("正在加载视频…"@.len() == 7 && "正在加载视频…"@[0] == '正');
    assert("model-solid"@.len() == 11 && "model-solid"@[0] == 'm');
    assert("实体"@.len() == 2 && "实体"@[0] == '实');
    assert("model-wireframe"@.len() == 15 && "model-wireframe"@[0] == 'm');
    assert("线框"@.len() == 2 && "线框"@[0] == '线');
    assert("browse-grid"@.len() == 11 && "browse-grid"@[0] == 'b');
    assert("网格"@.len() == 2 && "网格"@[0] == '网');
    assert("browse-list"@.len() == 11 && "browse-list"@[0] == 'b');
    assert("列表"@.len() == 2 && "列表"@[0] == '列');
    assert("settings-title"@.len() == 14 && "settings-title"@[0] == 's');
    assert("设置"@.len() == 2 && "设置"@[0] == '设');
    assert("settings-language"@.len() == 17 && "settings-language"@[0] == 's');
    assert("语言"@.len() == 2 && "语言"@[0] == '语');
    assert("settings-theme"@.len() == 14 && "settings-theme"@[0] == 's');
    assert("主题"@.len() == 2 && "主题"@[0] == '主');
    assert("settings-density"@.len() == 16 && "settings-density"@[0] == 's');
    assert("界面密度"@.len() == 4 && "界面密度"@[0] == '界');
    assert("settings-toolbar-auto-hide"@.len() == 26 && "settings-toolbar-auto-hide"@[0] == 's');
    assert("工具栏自动隐藏"@.len() == 7 && "工具栏自动隐藏"@[0] == '工');
    assert("common-open"@.len() == 11 && "common-open"@[0] == 'c');
    assert("打开"@.len() == 2 && "打开"@[0] == '打');
    assert("common-close"@.len() == 12 && "common-close"@[0] == 'c');
    assert("关闭"@.len() == 2 && "关闭"@[0] == '关');
    assert("panel-file-info"@.len() == 15 && "panel-file-info"@[0] == 'p');
    assert("文件信息"@.len() == 4 && "文件信息"@[0] == '文');
    assert("panel-model-info"@.len() == 16 && "panel-model-info"@[0] == 'p');
    assert("模型信息"@.len() == 4 && "模型信息"@[0] == '模');
    assert("toast-open-failed"@.len() == 17 && "toast-open-failed"@[0] == 't');
    assert("打开文件失败"@.len() == 6 && "打开文件失败"@[0] == '打');
    assert("mode-image"@.len() == 10 && "mode-image"@[0] == 'm');
    assert("图片"@.len() == 2 && "图片"@[0] == '图');
    assert("mode-video"@.len() == 10 && "mode-video"@[0] == 'm');
    assert("视频"@.len() == 2 && "视频"@[0] == '视');
    assert("mode-model"@.len() == 10 && "mode-model"@[0] == 'm');
    assert("3D 模型"@.len() == 5 && "3D 模型"@[0] == '3');
    assert("counter"@.len() == 7 && "counter"@[0] == 'c');
    assert("第 {current} 张，共 {total} 张"@.len() == 25 && "第 {current} 张，共 {total} 张"@[0] == '第');
    assert("browse-thumbnails"@.len() == 17 && "browse-thumbnails"@[0] == 'b');
    assert("文件夹"@.len() == 3 && "文件夹"@[0] == '文');
    assert("settings-associations"@.len() == 21 && "settings-associations"@[0] == 's');
    assert("关联打开"@.len() == 4 && "关联打开"@[0] == '关');
    assert("settings-associations-hint"@.len() == 26 && "settings-associations-hint"@[0] == 's');
    assert("将选中的文件类型注册为用本软件打开（Windows）。"@.len() == 27 && "将选中的文件类型注册为用本软件打开（Windows）。"@[0] == '将');
    assert("settings-assoc-images"@.len() == 21 && "settings-assoc-images"@[0] == 's');
    assert("图片（jpg、png、webp 等）"@.len() == 18 && "图片（jpg、png、webp 等）"@[0] == '图');
    assert("settings-assoc-videos"@.len() == 21 && "settings-assoc-videos"@[0] == 's');
    assert("视频（mp4、mkv、mov 等）"@.len() == 17 && "视频（mp4、mkv、mov 等）"@[0] == '视');
    assert("settings-assoc-models"@.len() == 21 && "settings-assoc-models"@[0] == 's');
    assert("3D 模型（fbx、obj、gltf、stl 等）"@.len() == 25 && "3D 模型（fbx、obj、gltf、stl 等）"@[0] == '3');
    assert("settings-assoc-apply"@.len() == 20 && "settings-assoc-apply"@[0] == 's');
    assert("应用关联"@.len() == 4 && "应用关联"@[0] == '应');
    assert("settings-assoc-success"@.len() == 22 && "settings-assoc-success"@[0] == 's');
    assert("文件关联已更新。"@.len() == 8 && "文件关联已更新。"@[0] == '文');
    assert("settings-assoc-failed"@.len() == 21 && "settings-assoc-failed"@[0] == 's');
    assert("设置失败：{error}"@.len() == 12 && "设置失败：{error}"@[0] == '设');
    assert("video-external-hint"@.len() == 19 && "video-external-hint"@[0] == 'v');
    assert("内嵌播放即将支持 — 点击用系统播放器打开"@.len() == 21 && "内嵌播放即将支持 — 点击用系统播放器打开"@[0] == '内');
    assert("model-hint"@.len() == 10 && "model-hint"@[0] == 'm');
    assert("拖动旋转 · 滚轮缩放"@.len() == 11 && "拖动旋转 · 滚轮缩放"@[0] == '拖');
    assert("toast-file-not-supported"@.len() == 24 && "toast-file-not-supported"@[0] == 't');
    assert("不支持的文件格式"@.len() == 8 && "不支持的文件格式"@[0] == '不');
    assert forall|i: int| 0 <= i < zh_hans_table().len() implies #[trigger] zh_hans_table()[i].1 != zh_hans_table()[i].0 by {
        if i == 0 {} else if i == 1 {} else if i == 2 {} else if i == 3 {} else if i == 4 {} else if i == 5 {} else if i == 6 {} else if i == 7 {} else if i == 8 {} else if i == 9 {} else if i == 10 {} else if i == 11 {} else if i == 12 {} else if i == 13 {} else if i == 14 {} else if i == 15 {} else if i == 16 {} else if i == 17 {} else if i == 18 {} else if i == 19 {} else if i == 20 {} else if i == 21 {} else if i == 22 {} else if i == 23 {} else if i == 24 {} else if i == 25 {} else if i == 26 {} else if i == 27 {} else if i == 28 {} else if i == 29 {} else if i == 30 {} else if i == 31 {} else if i == 32 {} else if i == 33 {} else if i == 34 {} else if i == 35 {} else if i == 36 {} else if i == 37 {} else if i == 38 {} else if i == 39 {} else if i == 40 {} else if i == 41 {} else if i == 42 {} else {}
    }
}

/// In a table where no text is its own key, a key is shown changed exactly when it has a
/// text.
proof fn lemma_translated_iff_listed(t: Table, key: Seq<char>)
    requires
        forall|i: int| 0 <= i < t.len() ==> #[trigger] t[i].1 != t[i].0,
    ensures
        (translate(t, key) != key) == (table_lookup(t, key) is Some),
    decreases t.len(),
{
    if t.len() > 0 {
        assert(t.last() == t[t.len() - 1]);
        if t.last().0 != key {
            assert forall|i: int| 0 <= i < t.drop_last().len() implies #[trigger] t.drop_last()[i].1
                != t.drop_last()[i].0 by {
                assert(t.drop_last()[i] == t[i]);
            }
            lemma_translated_iff_listed(t.drop_last(), key);
        }
    }
}

/// Both locales change the same keys: a key is shown as something other than itself in
/// English exactly when it is in Chinese.
pub proof fn law_locales_change_same_keys(key: Seq<char>)
    ensures
        (translate(locale_table(Locale::EnUs), key) != key) == (translate(
            locale_table(Locale::ZhHans),
            key,
        ) != key),
{
    lemma_english_texts_differ_from_keys();
    lemma_chinese_texts_differ_from_keys();
    lemma_translated_iff_listed(en_us_table(), key);
    lemma_translated_iff_listed(zh_hans_table(), key);
    law_locales_translate_same_keys(key);
}

} // verus!
