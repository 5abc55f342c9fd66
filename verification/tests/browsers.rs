use text2img::browser::{
    browser_candidates, has_prefix, is_browser_directory, join_path, linux_variant_list,
    mac_variant_list, system_path_list,
};

#[test]
fn chromium_directories_are_known_by_their_names() {
    for name in ["chromium-1091", "chromium_headless_shell-1148", "chromium-", "chromium_headless_shell"] {
        assert!(is_browser_directory(name), "{name:?}");
    }
    for name in ["", "chromium", "firefox-1429", "webkit-2035", "Chromium-1", "chromium_headless", " chromium-1"] {
        assert!(!is_browser_directory(name), "{name:?}");
    }
}

#[test]
fn prefixes_agree_with_the_standard_library() {
    for text in ["", "a", "ab", "abc", "xabc", "äb"] {
        for prefix in ["", "a", "ab", "abc", "abcd", "ä", "b"] {
            assert_eq!(has_prefix(text, prefix), text.starts_with(prefix), "{text:?} {prefix:?}");
        }
    }
}

fn names(list: &[&str]) -> Vec<String> {
    list.iter().map(|n| n.to_string()).collect()
}

#[test]
fn without_caches_only_the_system_browsers_are_candidates() {
    let paths = browser_candidates("/home/u", &Vec::new(), &Vec::new());
    assert_eq!(
        paths,
        vec![
            "/Applications/Google Chrome.app/Contents/MacOS/Google Chrome",
            "/Applications/Chromium.app/Contents/MacOS/Chromium",
            "/usr/bin/google-chrome",
            "/usr/bin/google-chrome-stable",
            "/usr/bin/chromium",
            "/usr/bin/chromium-browser",
            "/snap/bin/chromium",
        ]
    );
    assert_eq!(paths, system_path_list());
}

#[test]
fn cached_builds_come_first_in_the_order_of_the_listing() {
    let mac = names(&["firefox-1429", "chromium_headless_shell-1148", "chromium-1091"]);
    let linux = names(&["chromium-900", "webkit-2035"]);
    let paths = browser_candidates("/Users/u", &mac, &linux);
    assert_eq!(paths.len(), 2 * 7 + 3 + 7);
    assert_eq!(
        paths[0],
        "/Users/u/Library/Caches/ms-playwright/chromium_headless_shell-1148/chrome-headless-shell-mac-arm64/chrome-headless-shell"
    );
    assert_eq!(
        paths[6],
        "/Users/u/Library/Caches/ms-playwright/chromium_headless_shell-1148/chrome-mac/Chromium.app/Contents/MacOS/Chromium"
    );
    assert_eq!(
        paths[7],
        "/Users/u/Library/Caches/ms-playwright/chromium-1091/chrome-headless-shell-mac-arm64/chrome-headless-shell"
    );
    assert_eq!(
        &paths[14..17],
        &[
            "/Users/u/.cache/ms-playwright/chromium-900/chrome-headless-shell-linux-x64/chrome-headless-shell",
            "/Users/u/.cache/ms-playwright/chromium-900/chrome-headless-shell-linux-arm64/chrome-headless-shell",
            "/Users/u/.cache/ms-playwright/chromium-900/chrome-linux/chrome",
        ]
    );
    assert_eq!(paths[17], "/Applications/Google Chrome.app/Contents/MacOS/Google Chrome");
    assert!(paths.iter().all(|p| !p.contains("firefox") && !p.contains("webkit")));
}

#[test]
fn paths_are_joined_with_a_slash() {
    assert_eq!(join_path("/home/u", ".cache/ms-playwright"), "/home/u/.cache/ms-playwright");
    assert_eq!(join_path("", "x"), "/x");
    assert_eq!(mac_variant_list().len(), 7);
    assert_eq!(linux_variant_list(), vec![
        "chrome-headless-shell-linux-x64/chrome-headless-shell",
        "chrome-headless-shell-linux-arm64/chrome-headless-shell",
        "chrome-linux/chrome",
    ]);
}
