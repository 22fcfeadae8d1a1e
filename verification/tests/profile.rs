use me3_mod::game::{loose_param_files, regulation_file_property, should_disable_arxan, Game};
use me3_mod::item::{AsItem, Item};
use me3_mod::native::{
    initializer_symbol_cstring, Native, NativeInitializerCondition, NativeInitializerDelay,
    NativeLoadError,
};
use me3_mod::package::Package;
use me3_mod::profile::v2::{
    dependency_kind, DependencyKind, ModProfileV2, ModProfileV2Layout, ProfileDependency,
    ProfileGame,
};

#[test]
fn item_name_is_lowercase_stem_and_fnv1a_of_path() {
    let item = Item::new("mods/Foo.dll");
    assert_eq!(item.name, "foo-3ba4a6d5");
    assert_eq!(item.path, "mods/Foo.dll");
    assert!(item.enabled);
    assert!(!item.optional);
}

#[test]
fn item_name_of_path_without_extension() {
    let item = Item::new("Packages/MyMod");
    assert_eq!(item.name, "mymod-3a95f601");
}

#[test]
fn item_name_of_empty_path_has_empty_stem() {
    let item = Item::from_path(String::new());
    assert_eq!(item.name, "-811c9dc5");
}

#[test]
fn item_hash_changes_with_the_whole_path() {
    let a = Item::new("a/x.dll");
    let b = Item::new("b/x.dll");
    assert!(a.name.starts_with("x-"));
    assert!(b.name.starts_with("x-"));
    assert_ne!(a.name, b.name);
}

#[test]
fn item_defaults_and_skip_rules() {
    assert!(Item::enabled_default());
    assert!(!Item::optional_default());
    assert!(Item::enabled_skip_if_default(&true));
    assert!(!Item::enabled_skip_if_default(&false));
    assert!(Item::optional_skip_if_default(&false));
    assert!(!Item::optional_skip_if_default(&true));
    let mut item = Item::new("x");
    assert!(item.is_default());
    item.optional = true;
    assert!(!item.is_default());
}

#[test]
fn item_make_absolute_joins_relative_paths_only() {
    let mut rel = Item::new("mods/a.dll");
    assert!(rel.is_relative());
    rel.make_absolute("/games/er");
    assert_eq!(rel.path, "/games/er/mods/a.dll");
    assert!(!rel.is_relative());
    assert_eq!(rel.name, Item::new("mods/a.dll").name);

    let mut abs = Item::new("/opt/b.dll");
    abs.make_absolute("/games/er");
    assert_eq!(abs.path, "/opt/b.dll");
}

#[test]
fn as_item_gives_the_wrapped_item() {
    let mut native = Native::new("n.dll");
    assert_eq!(native.item().path, "n.dll");
    native.item_mut().enabled = false;
    assert!(!native.inner.enabled);
    let package = Package::new("pkg");
    assert_eq!(package.item().name, package.0.name);
}

#[test]
fn native_is_default_only_without_initializer() {
    let mut native = Native::new("mods/Foo.dll");
    assert_eq!(native.inner.name, "foo-3ba4a6d5");
    assert!(native.is_default());
    native.initializer = Some(NativeInitializerCondition { delay: None, function: None });
    assert!(!native.is_default());
}

#[test]
fn native_load_plan_follows_the_initializer() {
    let plain = Native::new("a.dll");
    let plan = plain.load_plan();
    assert_eq!(plan.delay_ms, None);
    assert_eq!(plan.initializer_symbol, None);
    assert!(plan.modengine_fallback);

    let mut delayed = Native::new("b.dll");
    delayed.initializer = Some(NativeInitializerCondition {
        delay: Some(NativeInitializerDelay { ms: 500 }),
        function: Some("init".to_string()),
    });
    let plan = delayed.load_plan();
    assert_eq!(plan.delay_ms, Some(500));
    assert_eq!(plan.initializer_symbol.as_deref(), Some("init"));
    assert!(!plan.modengine_fallback);
}

#[test]
fn initializer_symbol_is_nul_terminated() {
    assert_eq!(initializer_symbol_cstring("init"), Ok(vec![b'i', b'n', b'i', b't', 0]));
    assert_eq!(initializer_symbol_cstring(""), Ok(vec![0]));
    assert_eq!(initializer_symbol_cstring("a\0b\0"), Err(NativeLoadError::NulInSymbol(1)));
}

#[test]
fn dependencies_sort_by_file_name() {
    assert_eq!(dependency_kind("mods/Foo.DLL"), DependencyKind::Native);
    assert_eq!(dependency_kind("C:/Games/ER/mod.ME3.toml"), DependencyKind::Profile);
    assert_eq!(dependency_kind("other.me3"), DependencyKind::Profile);
    assert_eq!(dependency_kind("other.me3.json"), DependencyKind::Profile);
    assert_eq!(dependency_kind("mods/assets"), DependencyKind::Package);
    assert_eq!(dependency_kind("x.toml"), DependencyKind::Package);
    assert_eq!(dependency_kind(""), DependencyKind::Package);
    assert_eq!(dependency_kind("dir.dll/.."), DependencyKind::Package);
}

fn dep(path: &str, initializer: Option<NativeInitializerCondition>) -> ProfileDependency {
    let mut d = ProfileDependency::from(Item::new(path));
    d.initializer = initializer;
    d
}

#[test]
fn profile_reads_layout_into_lists() {
    let layout = ModProfileV2Layout {
        game: ProfileGame {
            launch: Some(Game::EldenRing),
            savefile: Some("me3.sl2".to_string()),
            start_online: Some(false),
            disable_arxan: None,
        },
        dependencies: vec![
            dep("pkg1", None),
            dep("a.dll", Some(NativeInitializerCondition { delay: None, function: Some("go".to_string()) })),
            dep("nested.me3", None),
            dep("pkg2", Some(NativeInitializerCondition { delay: None, function: None })),
            dep("b.DLL", None),
        ],
    };
    let profile = ModProfileV2::from_layout(layout);
    assert_eq!(profile.supports, Some(Game::EldenRing));
    assert_eq!(profile.savefile.as_deref(), Some("me3.sl2"));
    assert_eq!(profile.start_online, Some(false));
    assert_eq!(profile.disable_arxan, None);
    let natives: Vec<&str> = profile.natives.iter().map(|n| n.inner.path.as_str()).collect();
    assert_eq!(natives, vec!["a.dll", "b.DLL"]);
    assert_eq!(
        profile.natives[0].initializer.as_ref().and_then(|c| c.function.as_deref()),
        Some("go")
    );
    let packages: Vec<&str> = profile.packages.iter().map(|p| p.0.path.as_str()).collect();
    assert_eq!(packages, vec!["pkg1", "pkg2"]);
    let profiles: Vec<&str> = profile.profiles.iter().map(|i| i.path.as_str()).collect();
    assert_eq!(profiles, vec!["nested.me3"]);
}

#[test]
fn profile_writes_natives_then_packages_then_profiles() {
    let mut profile = ModProfileV2::empty();
    profile.supports = Some(Game::Nightreign);
    profile.disable_arxan = Some(true);
    profile.profiles.push(Item::new("base.me3.toml"));
    profile.packages.push(Package::new("assets"));
    profile.natives.push(Native::new("x.dll"));
    let layout = ModProfileV2Layout::from_profile(profile);
    assert_eq!(layout.game.launch, Some(Game::Nightreign));
    assert_eq!(layout.game.disable_arxan, Some(true));
    let paths: Vec<&str> = layout.dependencies.iter().map(|d| d.inner.path.as_str()).collect();
    assert_eq!(paths, vec!["x.dll", "assets", "base.me3.toml"]);
}

#[test]
fn profile_round_trip_keeps_well_sorted_profile() {
    let mut profile = ModProfileV2::empty();
    let mut native = Native::new("x.dll");
    native.initializer = Some(NativeInitializerCondition {
        delay: Some(NativeInitializerDelay { ms: 10 }),
        function: None,
    });
    profile.natives.push(native);
    profile.natives.push(Native::new("y.dll"));
    profile.packages.push(Package::new("assets"));
    profile.profiles.push(Item::new("base.me3"));
    profile.savefile = Some("s".to_string());
    let back = ModProfileV2::from_layout(ModProfileV2Layout::from_profile(profile));
    let natives: Vec<&str> = back.natives.iter().map(|n| n.inner.path.as_str()).collect();
    assert_eq!(natives, vec!["x.dll", "y.dll"]);
    assert_eq!(back.natives[0].initializer.as_ref().and_then(|c| c.delay.as_ref()).map(|d| d.ms), Some(10));
    assert_eq!(back.packages.len(), 1);
    assert_eq!(back.profiles.len(), 1);
    assert_eq!(back.savefile.as_deref(), Some("s"));
}

#[test]
fn push_dependency_sorts_one_entry() {
    let mut profile = ModProfileV2::empty();
    profile.push_dependency(dep("lib.Dll", None));
    profile.push_dependency(dep("folder", None));
    assert_eq!(profile.natives.len(), 1);
    assert_eq!(profile.packages.len(), 1);
    assert_eq!(profile.profiles.len(), 0);
}

#[test]
fn conversions_keep_items_and_initializers() {
    let native = Native::from(dep("q.dll", Some(NativeInitializerCondition { delay: None, function: None })));
    assert!(native.initializer.is_some());
    let back = ProfileDependency::from(native);
    assert!(back.initializer.is_some());
    let package = Package::from(dep("p", Some(NativeInitializerCondition { delay: None, function: None })));
    assert!(ProfileDependency::from(package).initializer.is_none());
    let item = Item::from(dep("i.me3", None));
    assert_eq!(item.path, "i.me3");
}

#[test]
fn game_decisions() {
    assert!(Game::DarkSouls3.is_before(Game::Sekiro));
    assert!(!Game::Nightreign.is_before(Game::ArmoredCore6));
    assert!(!Game::Sekiro.has_wwise());
    assert!(Game::EldenRing.has_wwise());
    assert!(Game::Nightreign.has_wwise());
    assert!(Game::DarkSouls3.uses_msvc2012_layout());
    assert!(!Game::EldenRing.uses_msvc2012_layout());
    assert!(Game::DarkSouls3.has_dlc_mounts());
    assert!(!Game::Sekiro.has_dlc_mounts());
    assert!(!Game::ArmoredCore6.has_dlc_mounts());
    assert!(Game::Nightreign.has_dlc_mounts());
    assert!(Game::EldenRing.overrides_bool_properties());
    assert!(!Game::ArmoredCore6.overrides_bool_properties());
    assert!(Game::DarkSouls3.supports_loose_params());
    assert!(!Game::EldenRing.supports_loose_params());
    assert_eq!(Game::Nightreign.rank(), 4);
}

#[test]
fn arxan_is_disabled_on_request_or_for_dark_souls_3() {
    assert!(should_disable_arxan(true, Game::EldenRing));
    assert!(should_disable_arxan(false, Game::DarkSouls3));
    assert!(!should_disable_arxan(false, Game::EldenRing));
}

#[test]
fn loose_params_and_regulation_property() {
    let files = loose_param_files();
    assert_eq!(files.len(), 3);
    assert_eq!(files[1], "data1:/param/gameparam/gameparam_dlc1.parambnd.dcx");
    assert_eq!(regulation_file_property(), "Game.Debug.EnableRegulationFile");
}
