use tj::paths::{
    cache_path, data_file_path, display_below, path_extension_str, path_file_name_str, path_file_stem,
    path_parent, relative_path,
};

#[test]
fn cache_path_under_home_or_here() {
    assert_eq!(cache_path(Some("/home/dj")), "/home/dj/.local/share/tj/cache.json");
    assert_eq!(cache_path(None), "./.local/share/tj/cache.json");
    assert_eq!(data_file_path(Some("/home/dj"), "panic.log"), "/home/dj/.local/share/tj/panic.log");
}

#[test]
fn relative_path_forms() {
    assert_eq!(relative_path("/a/b", "/a/b/c/d.mp3"), "./c/d.mp3");
    assert_eq!(relative_path("/a/b", "/a/b"), "./");
    assert_eq!(relative_path("/a/b/c", "/a/x/y.mp3"), "../../x/y.mp3");
    assert_eq!(relative_path("/a//b/", "/a/b/c"), "./c");
}

#[test]
fn display_below_root() {
    assert_eq!(display_below("/ws/artist/song.flac", "/ws"), "artist/song.flac");
    assert_eq!(display_below("/elsewhere/song.flac", "/ws"), "/elsewhere/song.flac");
}

#[test]
fn parent_like_std() {
    assert_eq!(path_parent("/a/b"), Some("/a".to_string()));
    assert_eq!(path_parent("/a"), Some("/".to_string()));
    assert_eq!(path_parent("/"), None);
    assert_eq!(path_parent("a"), Some("".to_string()));
    assert_eq!(path_parent(""), None);
}

#[test]
fn name_stem_extension_like_std() {
    assert_eq!(path_file_name_str("/m/a.b.flac"), Some("a.b.flac".to_string()));
    assert_eq!(path_file_stem("/m/a.b.flac"), Some("a.b".to_string()));
    assert_eq!(path_extension_str("/m/a.b.flac"), Some("flac".to_string()));
    assert_eq!(path_file_stem("/m/.hidden"), Some(".hidden".to_string()));
    assert_eq!(path_extension_str("/m/.hidden"), None);
    assert_eq!(path_file_name_str("/m/.."), None);
    assert_eq!(path_file_name_str("/"), None);
}

// Lexically applies `rel` (split on `/`) from the components of `base`.
fn resolve_from(base: &str, rel: &str) -> String {
    let mut at: Vec<&str> = base.split('/').filter(|c| !c.is_empty()).collect();
    for c in rel.split('/').filter(|c| !c.is_empty() && *c != ".") {
        if c == ".." {
            at.pop();
        } else {
            at.push(c);
        }
    }
    format!("/{}", at.join("/"))
}

#[test]
fn relative_path_leads_back_to_target() {
    let cases = [
        ("/a/b", "/a/b/c/d.mp3"),
        ("/a/b", "/a/b"),
        ("/a/b/c", "/a/x/y.mp3"),
        ("/music/x/y/z", "/other/t.flac"),
        ("/a/b/c", "/a"),
    ];
    for (base, target) in cases {
        let r = relative_path(base, target);
        assert_eq!(resolve_from(base, &r), target, "{base} -> {target} via {r}");
        assert_eq!(r.starts_with("./"), std::path::Path::new(target).starts_with(base));
    }
}

#[test]
fn relative_path_keeps_the_remaining_text() {
    assert_eq!(relative_path("/a/b", "/a/b/c//d"), "./c//d");
    assert_eq!(relative_path("/a/b", "/a/b/c/./d"), "./c/./d");
    assert_eq!(relative_path("/a/b", "/a/b//./c/"), "./c");
    assert_eq!(relative_path("/a/b/", "/a/b/c/."), "./c");
    assert_eq!(relative_path("/", "//x//y"), "./x//y");
    assert_eq!(relative_path("", "/x/"), ".//x");
    assert_eq!(relative_path("/a/x", "/a/b//c"), "../b/c");
}

#[test]
fn display_below_keeps_the_remaining_text() {
    assert_eq!(display_below("/ws/artist//song.flac", "/ws"), "artist//song.flac");
    assert_eq!(display_below("/ws/./artist/song.flac", "/ws/"), "artist/song.flac");
}
