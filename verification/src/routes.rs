//! Where the files of a package are unpacked.
//!
//! Each package that is an archive has a directory of its own below the
//! install directory. A file that the table does not name goes to the
//! install directory itself.

use crate::text::same_text;
use vstd::prelude::*;

verus! {

/// The table of packages: for each archive's file name the directory, below
/// the install directory, into which its members go.
pub open spec fn extraction_routes() -> Map<Seq<char>, Seq<char>> {
    map![
        "RobloxApp.zip"@ => "./"@,
        "redist.zip"@ => "./"@,
        "shaders.zip"@ => "./shaders"@,
        "ssl.zip"@ => "./ssl"@,
        "WebView2.zip"@ => "./"@,
        "WebView2RuntimeInstaller.zip"@ => "./WebView2RuntimeInstaller"@,
        "content-avatar.zip"@ => "./content/avatar"@,
        "content-configs.zip"@ => "./content/configs"@,
        "content-fonts.zip"@ => "./content/fonts"@,
        "content-sky.zip"@ => "./content/sky"@,
        "content-sounds.zip"@ => "./content/sounds"@,
        "content-textures2.zip"@ => "./content/textures"@,
        "content-models.zip"@ => "./content/models"@,
        "content-platform-fonts.zip"@ => "./PlatformContent/pc/fonts"@,
        "content-platform-dictionaries.zip"@ => "./PlatformContent/pc/shared_compression_dictionaries"@,
        "content-terrain.zip"@ => "./PlatformContent/pc/terrain"@,
        "content-textures3.zip"@ => "./PlatformContent/pc/textures"@,
        "extracontent-places.zip"@ => "./ExtraContent/places"@,
        "extracontent-luapackages.zip"@ => "./ExtraContent/LuaPackages"@,
        "extracontent-translations.zip"@ => "./ExtraContent/translations"@,
        "extracontent-models.zip"@ => "./ExtraContent/models"@,
        "extracontent-textures.zip"@ => "./ExtraContent/textures"@,
    ]
}

/// The directory for files that the table does not name: the install
/// directory itself.
pub open spec fn default_root() -> Seq<char> {
    "./"@
}

/// The directory, below the install directory, into which the members of the
/// archive `filename` go.
pub open spec fn route_for(filename: Seq<char>) -> Seq<char> {
    if extraction_routes().dom().contains(filename) {
        extraction_routes()[filename]
    } else {
        default_root()
    }
}

/// Looks `filename` up in the table of packages.
pub fn extraction_root(filename: &str) -> (root: &'static str)
    ensures
        root@ == route_for(filename@),
{
    proof {
        reveal_strlit("RobloxApp.zip");
        assert("RobloxApp.zip"@.len() == 13);
        reveal_strlit("redist.zip");
        assert("redist.zip"@.len() == 10);
        reveal_strlit("shaders.zip");
        assert("shaders.zip"@.len() == 11);
        reveal_strlit("ssl.zip");
        assert("ssl.zip"@.len() == 7);
        reveal_strlit("WebView2.zip");
        assert("WebView2.zip"@.len() == 12);
        reveal_strlit("WebView2RuntimeInstaller.zip");
        assert("WebView2RuntimeInstaller.zip"@.len() == 28);
        assert("WebView2RuntimeInstaller.zip"@[0] == 'W');
        reveal_strlit("content-avatar.zip");
        assert("content-avatar.zip"@.len() == 18);
        assert("content-avatar.zip"@[8] == 'a');
        reveal_strlit("content-configs.zip");
        assert("content-configs.zip"@.len() == 19);
        assert("content-configs.zip"@[8] == 'c');
        reveal_strlit("content-fonts.zip");
        assert("content-fonts.zip"@.len() == 17);
        reveal_strlit("content-sky.zip");
        assert("content-sky.zip"@.len() == 15);
        reveal_strlit("content-sounds.zip");
        assert("content-sounds.zip"@.len() == 18);
        assert("content-sounds.zip"@[8] == 's');
        reveal_strlit("content-textures2.zip");
        assert("content-textures2.zip"@.len() == 21);
        assert("content-textures2.zip"@[16] == '2');
        reveal_strlit("content-models.zip");
        assert("content-models.zip"@.len() == 18);
        assert("content-models.zip"@[8] == 'm');
        reveal_strlit("content-platform-fonts.zip");
        assert("content-platform-fonts.zip"@.len() == 26);
        reveal_strlit("content-platform-dictionaries.zip");
        assert("content-platform-dictionaries.zip"@.len() == 33);
        reveal_strlit("content-terrain.zip");
        assert("content-terrain.zip"@.len() == 19);
        assert("content-terrain.zip"@[8] == 't');
        reveal_strlit("content-textures3.zip");
        assert("content-textures3.zip"@.len() == 21);
        assert("content-textures3.zip"@[16] == '3');
        reveal_strlit("extracontent-places.zip");
        assert("extracontent-places.zip"@.len() == 23);
        assert("extracontent-places.zip"@[13] == 'p');
        reveal_strlit("extracontent-luapackages.zip");
        assert("extracontent-luapackages.zip"@.len() == 28);
        assert("extracontent-luapackages.zip"@[0] == 'e');
        reveal_strlit("extracontent-translations.zip");
        assert("extracontent-translations.zip"@.len() == 29);
        reveal_strlit("extracontent-models.zip");
        assert("extracontent-models.zip"@.len() == 23);
        assert("extracontent-models.zip"@[13] == 'm');
        reveal_strlit("extracontent-textures.zip");
        assert("extracontent-textures.zip"@.len() == 25);
    }
    if same_text(filename, "RobloxApp.zip") {
        "./"
    } else if same_text(filename, "redist.zip") {
        "./"
    } else if same_text(filename, "shaders.zip") {
        "./shaders"
    } else if same_text(filename, "ssl.zip") {
        "./ssl"
    } else if same_text(filename, "WebView2.zip") {
        "./"
    } else if same_text(filename, "WebView2RuntimeInstaller.zip") {
        "./WebView2RuntimeInstaller"
    } else if same_text(filename, "content-avatar.zip") {
        "./content/avatar"
    } else if same_text(filename, "content-configs.zip") {
        "./content/configs"
    } else if same_text(filename, "content-fonts.zip") {
        "./content/fonts"
    } else if same_text(filename, "content-sky.zip") {
        "./content/sky"
    } else if same_text(filename, "content-sounds.zip") {
        "./content/sounds"
    } else if same_text(filename, "content-textures2.zip") {
        "./content/textures"
    } else if same_text(filename, "content-models.zip") {
        "./content/models"
    } else if same_text(filename, "content-platform-fonts.zip") {
        "./PlatformContent/pc/fonts"
    } else if same_text(filename, "content-platform-dictionaries.zip") {
        "./PlatformContent/pc/shared_compression_dictionaries"
    } else if same_text(filename, "content-terrain.zip") {
        "./PlatformContent/pc/terrain"
    } else if same_text(filename, "content-textures3.zip") {
        "./PlatformContent/pc/textures"
    } else if same_text(filename, "extracontent-places.zip") {
        "./ExtraContent/places"
    } else if same_text(filename, "extracontent-luapackages.zip") {
        "./ExtraContent/LuaPackages"
    } else if same_text(filename, "extracontent-translations.zip") {
        "./ExtraContent/translations"
    } else if same_text(filename, "extracontent-models.zip") {
        "./ExtraContent/models"
    } else if same_text(filename, "extracontent-textures.zip") {
        "./ExtraContent/textures"
    } else {
        "./"
    }
}

} // verus!
