use xtreme::editor::panels::asset_browser::{AssetAction, AssetBrowser, AssetType};
use xtreme::editor::prefab::overrides::{PropertyOverrides, PropertyPath};
use xtreme::editor::viewport::{shader_uses_texture, ShaderCache};
use xtreme::editor::prefab::resolver::{
    inherited_properties, overrides_from_differences, PropertyMask,
};

#[test]
fn asset_types_ignore_letter_case() {
    assert_eq!(AssetType::from_extension("PNG"), AssetType::Texture);
    assert_eq!(AssetType::from_extension("Ron"), AssetType::Scene);
    assert_eq!(AssetType::from_extension("json"), AssetType::Scene);
    assert_eq!(AssetType::from_extension("PREFAB"), AssetType::Prefab);
    assert_eq!(AssetType::from_extension("jpeg"), AssetType::Texture);
    assert_eq!(AssetType::from_extension("txt"), AssetType::Unknown);
    assert_eq!(AssetType::from_extension(""), AssetType::Unknown);
    assert_eq!(AssetType::Directory.icon(), "[D]");
    assert_eq!(AssetType::Texture.icon(), "[T]");
    assert_eq!(AssetType::Unknown.icon(), "[?]");
}

#[test]
fn browser_starts_at_root_and_needs_listing() {
    let browser = AssetBrowser::new("assets".to_string());
    assert_eq!(browser.current_path(), "assets");
    assert!(browser.needs_refresh());
    assert!(browser.entries().is_empty());
}

#[test]
fn go_up_stops_at_root() {
    let mut browser = AssetBrowser::new("assets".to_string());
    browser.go_up();
    assert_eq!(browser.current_path(), "assets");

    browser.navigate_to("assets/textures/ui".to_string());
    assert_eq!(browser.current_path(), "assets/textures/ui");
    browser.go_up();
    assert_eq!(browser.current_path(), "assets/textures");
    browser.go_up();
    assert_eq!(browser.current_path(), "assets");
    browser.go_up();
    assert_eq!(browser.current_path(), "assets");
}

#[test]
fn listing_puts_directories_first_sorted_and_hides_dotfiles() {
    let mut browser = AssetBrowser::new("assets".to_string());
    let listing = vec![
        ("assets/zeta.png".to_string(), false),
        ("assets/Models".to_string(), true),
        ("assets/.hidden".to_string(), false),
        ("assets/alpha.RON".to_string(), false),
        ("assets/.git".to_string(), true),
        ("assets/audio".to_string(), true),
        ("assets/Beta.prefab".to_string(), false),
        ("assets/notes".to_string(), false),
    ];
    browser.apply_listing(listing);
    assert!(!browser.needs_refresh());
    let entries = browser.entries();
    let names: Vec<&str> = entries.iter().map(|e| e.name.as_str()).collect();
    assert_eq!(names, vec!["audio", "Models", "alpha.RON", "Beta.prefab", "notes", "zeta.png"]);
    let types: Vec<AssetType> = entries.iter().map(|e| e.asset_type).collect();
    assert_eq!(
        types,
        vec![
            AssetType::Directory,
            AssetType::Directory,
            AssetType::Scene,
            AssetType::Prefab,
            AssetType::Unknown,
            AssetType::Texture,
        ]
    );
    assert_eq!(entries[2].path, "assets/alpha.RON");

    browser.request_refresh();
    assert!(browser.needs_refresh());
}

#[test]
fn listing_keeps_order_of_equal_names() {
    let mut browser = AssetBrowser::new("a".to_string());
    browser.apply_listing(vec![
        ("a/B.txt".to_string(), false),
        ("a/b.txt".to_string(), false),
        ("a/A.txt".to_string(), false),
    ]);
    let names: Vec<&str> = browser.entries().iter().map(|e| e.name.as_str()).collect();
    assert_eq!(names, vec!["A.txt", "B.txt", "b.txt"]);
}

#[test]
fn inherited_properties_skip_overridden_ones() {
    let mut overrides = PropertyOverrides::new();
    overrides.set_override(PropertyPath::new("position"));
    overrides.set_override(PropertyPath::new("color.r"));
    overrides.set_override(PropertyPath::new("name_tag"));
    let m = inherited_properties(&overrides);
    assert_eq!(
        m,
        PropertyMask {
            name: true,
            position: false,
            rotation: true,
            scale: true,
            color: true,
            visible: true,
            camera: true,
        }
    );

    let none = inherited_properties(&PropertyOverrides::new());
    assert!(none.name && none.position && none.rotation && none.scale);
    assert!(none.color && none.visible && none.camera);
}

#[test]
fn differences_become_overrides() {
    let d = PropertyMask {
        name: false,
        position: true,
        rotation: false,
        scale: true,
        color: false,
        visible: false,
        camera: false,
    };
    let o = overrides_from_differences(d);
    assert_eq!(o.count(), 2);
    assert!(o.is_overridden(&PropertyPath::new("position")));
    assert!(o.is_overridden(&PropertyPath::new("scale")));
    assert!(!o.is_overridden(&PropertyPath::new("name")));

    let back = inherited_properties(&o);
    assert_eq!(
        back,
        PropertyMask {
            name: true,
            position: false,
            rotation: true,
            scale: false,
            color: true,
            visible: true,
            camera: true,
        }
    );
}

#[test]
fn name_filter_and_opening_entries() {
    let mut browser = AssetBrowser::new("assets".to_string());
    browser.apply_listing(vec![
        ("assets/Level.ron".to_string(), false),
        ("assets/levels".to_string(), true),
        ("assets/crate.prefab".to_string(), false),
        ("assets/logo.png".to_string(), false),
    ]);
    // Order: levels/, crate.prefab, Level.ron, logo.png
    assert_eq!(browser.visible_entries(), vec![0, 1, 2, 3]);
    browser.set_filter("LEV".to_string());
    assert_eq!(browser.filter(), "LEV");
    assert_eq!(browser.visible_entries(), vec![0, 2]);
    browser.set_filter("zzz".to_string());
    assert!(browser.visible_entries().is_empty());
    browser.set_filter(String::new());

    browser.select(3);
    assert_eq!(browser.selected(), Some(3));
    match browser.open_entry(2) {
        AssetAction::OpenScene(p) => assert_eq!(p, "assets/Level.ron"),
        other => panic!("unexpected {:?}", other),
    }
    match browser.open_entry(1) {
        AssetAction::LoadPrefab(p) => assert_eq!(p, "assets/crate.prefab"),
        other => panic!("unexpected {:?}", other),
    }
    assert!(matches!(browser.open_entry(3), AssetAction::NoAction));
    assert_eq!(browser.selected(), Some(3));
    assert!(matches!(browser.open_entry(0), AssetAction::NoAction));
    assert_eq!(browser.current_path(), "assets/levels");
    assert_eq!(browser.selected(), None);
    assert!(browser.needs_refresh());
}

#[test]
fn shader_cache_compiles_each_shader_once() {
    let mut cache: ShaderCache<u32> = ShaderCache::new();
    assert!(cache.needs_compile("a.wgsl"));
    cache.store_compiled("a.wgsl".to_string(), 1);
    assert_eq!(cache.get("a.wgsl"), Some(&1));
    assert!(!cache.needs_compile("a.wgsl"));

    cache.store_error("b.wgsl".to_string(), "parse error".to_string());
    assert!(!cache.needs_compile("b.wgsl"));
    assert_eq!(cache.get("b.wgsl"), None);
    assert_eq!(cache.get_error("b.wgsl"), Some("parse error"));
    assert_eq!(cache.get_error("a.wgsl"), None);

    cache.store_compiled("a.wgsl".to_string(), 2);
    assert_eq!(cache.get("a.wgsl"), Some(&2));

    cache.reload("b.wgsl");
    assert!(cache.needs_compile("b.wgsl"));
    assert_eq!(cache.get_error("b.wgsl"), None);
    assert_eq!(cache.get("a.wgsl"), Some(&2));

    cache.clear();
    assert!(cache.needs_compile("a.wgsl"));
}

#[test]
fn shaders_that_sample_textures() {
    assert!(shader_uses_texture("@group(1) @binding(0) var t: texture_2d<f32>;"));
    assert!(shader_uses_texture("var t_diffuse: sampler;"));
    assert!(shader_uses_texture("@group(1) @binding(0) var s: sampler;"));
    assert!(!shader_uses_texture("@group(0) @binding(0) var<uniform> u: U;"));
    assert!(!shader_uses_texture(""));
}
