//! Application settings and their labels.
use vstd::prelude::*;

verus! {

/// How the GPU allocator sizes its memory blocks.
#[derive(PartialEq, Eq, Structural, Clone, Copy, Debug)]
pub enum GpuMemoryMode {
    /// Default allocator blocks (about 256 MB). Highest navigation speed,
    /// largest GPU memory footprint.
    Performance,
    /// 64 MB device / 32 MB host blocks. Recommended balance.
    Balanced,
    /// 8 MB device / 4 MB host blocks. Lowest GPU memory, but a 4K texture
    /// no longer fits in a single block.
    LowMemory,
}

impl Default for GpuMemoryMode {
    fn default() -> (m: Self)
        ensures
            m == GpuMemoryMode::Balanced,
    {
        GpuMemoryMode::Balanced
    }
}

/// Key by which the images of a directory are sorted.
#[derive(PartialEq, Eq, Structural, Clone, Copy, Debug)]
pub enum ImageSortKey {
    Name,
    Modified,
    Created,
    Size,
    Extension,
}

impl Default for ImageSortKey {
    fn default() -> (k: Self)
        ensures
            k == ImageSortKey::Name,
    {
        ImageSortKey::Name
    }
}

impl ImageSortKey {
    /// Text shown for the key in the settings.
    pub fn label(self) -> (s: &'static str)
        ensures
            s@ == match self {
                ImageSortKey::Name => "Name"@,
                ImageSortKey::Modified => "Modified Date"@,
                ImageSortKey::Created => "Created Date"@,
                ImageSortKey::Size => "File Size"@,
                ImageSortKey::Extension => "Extension"@,
            },
    {
        match self {
            ImageSortKey::Name => "Name",
            ImageSortKey::Modified => "Modified Date",
            ImageSortKey::Created => "Created Date",
            ImageSortKey::Size => "File Size",
            ImageSortKey::Extension => "Extension",
        }
    }
}

/// Direction of the image sort.
#[derive(PartialEq, Eq, Structural, Clone, Copy, Debug)]
pub enum SortDirection {
    Ascending,
    Descending,
}

impl Default for SortDirection {
    fn default() -> (d: Self)
        ensures
            d == SortDirection::Ascending,
    {
        SortDirection::Ascending
    }
}

impl SortDirection {
    /// Text shown for the direction in the settings.
    pub fn label(self) -> (s: &'static str)
        ensures
            s@ == match self {
                SortDirection::Ascending => "Ascending"@,
                SortDirection::Descending => "Descending"@,
            },
    {
        match self {
            SortDirection::Ascending => "Ascending",
            SortDirection::Descending => "Descending",
        }
    }
}

/// Sort order of the images of a directory.
#[derive(PartialEq, Eq, Structural, Clone, Copy, Debug)]
pub struct ImageSortOrder {
    pub key: ImageSortKey,
    pub direction: SortDirection,
}

impl Default for ImageSortOrder {
    fn default() -> (o: Self)
        ensures
            o == (ImageSortOrder { key: ImageSortKey::Name, direction: SortDirection::Ascending }),
    {
        ImageSortOrder { key: ImageSortKey::Name, direction: SortDirection::Ascending }
    }
}

/// How the images of a directory are found and ordered.
#[derive(PartialEq, Eq, Structural, Clone, Copy, Debug)]
pub struct ImageDiscoveryOptions {
    pub sort_order: ImageSortOrder,
    pub include_hidden: bool,
    pub recursive: bool,
}

impl Default for ImageDiscoveryOptions {
    fn default() -> (o: Self)
        ensures
            o == (ImageDiscoveryOptions {
                sort_order: ImageSortOrder {
                    key: ImageSortKey::Name,
                    direction: SortDirection::Ascending,
                },
                include_hidden: false,
                recursive: false,
            }),
    {
        ImageDiscoveryOptions {
            sort_order: ImageSortOrder::default(),
            include_hidden: false,
            recursive: false,
        }
    }
}

/// Persisted application settings.
#[derive(PartialEq, Eq, Structural, Clone, Copy, Debug)]
pub struct AppSettings {
    pub show_footer: bool,
    pub show_fps: bool,
    pub show_cache_overlay: bool,
    pub sync_zoom_pan: bool,
    pub cache_count: usize,
    pub lru_budget_mb: usize,
    pub decode_threads: usize,
    pub gpu_memory_mode: GpuMemoryMode,
    pub mouse_wheel_zoom: bool,
    pub reset_zoom_pan_on_navigation: bool,
    pub slider_preview: bool,
    pub preview_budget_mb: usize,
    pub image_discovery_options: ImageDiscoveryOptions,
}

/// The default settings.
pub open spec fn default_settings() -> AppSettings {
    AppSettings {
        show_footer: true,
        show_fps: true,
        show_cache_overlay: false,
        sync_zoom_pan: true,
        cache_count: 5,
        lru_budget_mb: 1024,
        decode_threads: 10,
        gpu_memory_mode: GpuMemoryMode::Balanced,
        mouse_wheel_zoom: false,
        reset_zoom_pan_on_navigation: true,
        slider_preview: true,
        preview_budget_mb: 200,
        image_discovery_options: ImageDiscoveryOptions {
            sort_order: ImageSortOrder { key: ImageSortKey::Name, direction: SortDirection::Ascending },
            include_hidden: false,
            recursive: false,
        },
    }
}

impl Default for AppSettings {
    fn default() -> (s: Self)
        ensures
            s == default_settings(),
    {
        AppSettings {
            show_footer: true,
            show_fps: true,
            show_cache_overlay: false,
            sync_zoom_pan: true,
            cache_count: 5,
            lru_budget_mb: 1024,
            decode_threads: 10,
            gpu_memory_mode: GpuMemoryMode::default(),
            mouse_wheel_zoom: false,
            reset_zoom_pan_on_navigation: true,
            slider_preview: true,
            preview_budget_mb: 200,
            image_discovery_options: ImageDiscoveryOptions::default(),
        }
    }
}

/// Whether the settings that panes and their caches depend on differ.
pub open spec fn pane_settings_differ(before: AppSettings, after: AppSettings) -> bool {
    after.cache_count != before.cache_count || after.lru_budget_mb != before.lru_budget_mb
        || after.decode_threads != before.decode_threads || after.mouse_wheel_zoom
        != before.mouse_wheel_zoom || after.reset_zoom_pan_on_navigation
        != before.reset_zoom_pan_on_navigation || after.preview_budget_mb != before.preview_budget_mb
        || after.image_discovery_options != before.image_discovery_options
}

/// Which groups of settings changed in the settings modal.
#[derive(PartialEq, Eq, Structural, Clone, Copy, Debug)]
pub struct SettingsChanges {
    pub pane_settings: bool,
}

impl Default for SettingsChanges {
    fn default() -> (c: Self)
        ensures
            !c.pane_settings,
    {
        SettingsChanges { pane_settings: false }
    }
}

impl SettingsChanges {
    /// The changes from `before` to `after`: `pane_settings` is set when a
    /// setting used by the panes changed.
    pub fn between(before: &AppSettings, after: &AppSettings) -> (c: Self)
        ensures
            c.pane_settings == pane_settings_differ(*before, *after),
    {
        SettingsChanges {
            pane_settings: after.cache_count != before.cache_count || after.lru_budget_mb
                != before.lru_budget_mb || after.decode_threads != before.decode_threads
                || after.mouse_wheel_zoom != before.mouse_wheel_zoom
                || after.reset_zoom_pan_on_navigation != before.reset_zoom_pan_on_navigation
                || after.preview_budget_mb != before.preview_budget_mb
                || after.image_discovery_options != before.image_discovery_options,
        }
    }
}

/// Tabs of the settings modal.
#[derive(PartialEq, Eq, Structural, Clone, Copy, Debug, Hash)]
pub enum SettingsTab {
    General,
    Performance,
}

impl Default for SettingsTab {
    fn default() -> (t: Self)
        ensures
            t == SettingsTab::General,
    {
        SettingsTab::General
    }
}

impl SettingsTab {
    /// Title of the tab.
    pub fn label(self) -> (s: &'static str)
        ensures
            s@ == match self {
                SettingsTab::General => "General"@,
                SettingsTab::Performance => "Performance"@,
            },
    {
        match self {
            SettingsTab::General => "General",
            SettingsTab::Performance => "Performance",
        }
    }
}

/// Saving the settings unchanged reports no change to the panes.
pub proof fn law_settings_unchanged(s: AppSettings)
    ensures
        !pane_settings_differ(s, s),
{
}

} // verus!
