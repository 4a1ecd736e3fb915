use cargo_screeps::deploy::{is_deployable, select_deployable, stale_files};
use cargo_screeps::locate::{locate, ArtifactKind, ArtifactSet, DiscoveryError};
use cargo_screeps::paths::{file_stem, has_extension, with_extension};

fn names(v: &[&str]) -> Vec<String> {
    v.iter().map(|s| s.to_string()).collect()
}

#[test]
fn locate_finds_one_of_each() {
    let r = locate(&names(&["package.json", "bot.js", "bot.d.ts", "bot_bg.wasm", "bot_bg.wasm.d.ts"]));
    assert_eq!(r, Ok(ArtifactSet { loader: "bot.js".to_string(), module: "bot_bg.wasm".to_string() }));
}

#[test]
fn locate_rejects_two_loaders() {
    let r = locate(&names(&["a.js", "b.js", "a_bg.wasm"]));
    assert_eq!(r, Err(DiscoveryError::Ambiguous(ArtifactKind::Loader)));
}

#[test]
fn locate_rejects_missing_loader() {
    let r = locate(&names(&["a_bg.wasm"]));
    assert_eq!(r, Err(DiscoveryError::Missing(ArtifactKind::Loader)));
}

#[test]
fn locate_rejects_two_modules() {
    let r = locate(&names(&["a.js", "a_bg.wasm", "b_bg.wasm"]));
    assert_eq!(r, Err(DiscoveryError::Ambiguous(ArtifactKind::Module)));
}

#[test]
fn locate_rejects_missing_module() {
    let r = locate(&names(&["a.js", "a.wasmorig"]));
    assert_eq!(r, Err(DiscoveryError::Missing(ArtifactKind::Module)));
}

#[test]
fn locate_rejects_empty_listing() {
    assert_eq!(locate(&Vec::new()), Err(DiscoveryError::Missing(ArtifactKind::Loader)));
}

#[test]
fn locate_ignores_hidden_name_without_extension() {
    let r = locate(&names(&[".js", "a.js", "a_bg.wasm"]));
    assert_eq!(r, Ok(ArtifactSet { loader: "a.js".to_string(), module: "a_bg.wasm".to_string() }));
}

#[test]
fn extension_rules() {
    assert!(has_extension("a.tar.js", "js"));
    assert!(!has_extension("a.js.map", "js"));
    assert!(!has_extension(".js", "js"));
    assert!(!has_extension("js", "js"));
    assert!(has_extension("a.", ""));
    assert!(!has_extension("..", ""));
}

#[test]
fn stem_and_replaced_extension() {
    assert_eq!(file_stem("bot_bg.wasm"), "bot_bg");
    assert_eq!(file_stem("a.b.c"), "a.b");
    assert_eq!(file_stem(".hidden"), ".hidden");
    assert_eq!(file_stem("plain"), "plain");
    assert_eq!(file_stem(".."), "..");
    assert_eq!(with_extension("bot.js", "jsorig"), "bot.jsorig");
    assert_eq!(with_extension("bot_bg.wasm", "wasmorig"), "bot_bg.wasmorig");
    assert_eq!(with_extension("plain", "js"), "plain.js");
}

#[test]
fn deployable_extensions() {
    assert!(is_deployable("main.mjs"));
    assert!(is_deployable("bot.js"));
    assert!(is_deployable("bot_bg.wasm"));
    assert!(!is_deployable("bot.jsorig"));
    assert!(!is_deployable("bot.d.ts"));
    assert!(!is_deployable("package.json"));
}

#[test]
fn copy_with_prune_removes_stale_loader() {
    let output = names(&["a.wasm", "a.js", "a.d.ts", "package.json"]);
    let deployed = select_deployable(&output);
    assert_eq!(deployed, names(&["a.wasm", "a.js"]));
    let destination_after_copy = names(&["old.js", "a.wasm", "a.js"]);
    let stale = stale_files(&destination_after_copy, &deployed);
    assert_eq!(stale, names(&["old.js"]));
    let remaining: Vec<String> =
        destination_after_copy.into_iter().filter(|n| !stale.contains(n)).collect();
    assert!(remaining.contains(&"a.wasm".to_string()));
    assert!(remaining.contains(&"a.js".to_string()));
    assert!(!remaining.contains(&"old.js".to_string()));
}

#[test]
fn prune_with_nothing_stale() {
    let deployed = names(&["main.mjs"]);
    assert!(stale_files(&names(&["main.mjs"]), &deployed).is_empty());
    assert!(stale_files(&Vec::new(), &deployed).is_empty());
}
