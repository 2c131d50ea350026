use leeklaunch::routes::extraction_root;

#[test]
fn every_package_has_its_directory() {
    let table = [
        ("RobloxApp.zip", "./"),
        ("redist.zip", "./"),
        ("shaders.zip", "./shaders"),
        ("ssl.zip", "./ssl"),
        ("WebView2.zip", "./"),
        ("WebView2RuntimeInstaller.zip", "./WebView2RuntimeInstaller"),
        ("content-avatar.zip", "./content/avatar"),
        ("content-configs.zip", "./content/configs"),
        ("content-fonts.zip", "./content/fonts"),
        ("content-sky.zip", "./content/sky"),
        ("content-sounds.zip", "./content/sounds"),
        ("content-textures2.zip", "./content/textures"),
        ("content-models.zip", "./content/models"),
        ("content-platform-fonts.zip", "./PlatformContent/pc/fonts"),
        (
            "content-platform-dictionaries.zip",
            "./PlatformContent/pc/shared_compression_dictionaries",
        ),
        ("content-terrain.zip", "./PlatformContent/pc/terrain"),
        ("content-textures3.zip", "./PlatformContent/pc/textures"),
        ("extracontent-places.zip", "./ExtraContent/places"),
        ("extracontent-luapackages.zip", "./ExtraContent/LuaPackages"),
        ("extracontent-translations.zip", "./ExtraContent/translations"),
        ("extracontent-models.zip", "./ExtraContent/models"),
        ("extracontent-textures.zip", "./ExtraContent/textures"),
    ];
    for (name, root) in table {
        assert_eq!(extraction_root(name), root, "{}", name);
    }
}

#[test]
fn other_names_go_to_the_install_directory() {
    assert_eq!(extraction_root("fileA.zip"), "./");
    assert_eq!(extraction_root(""), "./");
    assert_eq!(extraction_root("RobloxPlayerInstaller.exe"), "./");
}

#[test]
fn names_are_matched_exactly() {
    assert_eq!(extraction_root("Shaders.zip"), "./");
    assert_eq!(extraction_root("shaders.zip "), "./");
    assert_eq!(extraction_root("shaders"), "./");
    assert_eq!(extraction_root("content-textures.zip"), "./");
    assert_eq!(extraction_root("./shaders.zip"), "./");
}
