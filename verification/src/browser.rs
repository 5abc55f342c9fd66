use vstd::prelude::*;
use vstd::string::StringExecFns;
use crate::text::chars_of;

verus! {

/// Whether a directory of a browser cache, by its name, holds a Chromium
/// build: its name begins with `chromium_headless_shell` or with
/// `chromium-`.
pub open spec fn is_browser_dir(name: Seq<char>) -> bool {
    "chromium_headless_shell"@.is_prefix_of(name) || "chromium-"@.is_prefix_of(name)
}

/// Tells whether `text` begins with `prefix`.
pub fn has_prefix(text: &str, prefix: &str) -> (b: bool)
    ensures
        b == prefix@.is_prefix_of(text@),
{
    let t = chars_of(text);
    let p = chars_of(prefix);
    if p.len() > t.len() {
        return false;
    }
    let mut k: usize = 0;
    while k < p.len()
        invariant
            k <= p.len() <= t.len(),
            t@ == text@,
            p@ == prefix@,
            forall|i: int| 0 <= i < k ==> t@[i] == p@[i],
        decreases p.len() - k,
    {
        if t[k] != p[k] {
            proof {
                assert(text@.subrange(0, prefix@.len() as int)[k as int] != prefix@[k as int]);
            }
            return false;
        }
        k += 1;
    }
    proof {
        assert(prefix@ =~= text@.subrange(0, prefix@.len() as int));
    }
    true
}

/// Tells whether a directory of a browser cache holds a Chromium build.
pub fn is_browser_directory(name: &str) -> (b: bool)
    ensures
        b == is_browser_dir(name@),
{
    has_prefix(name, "chromium_headless_shell") || has_prefix(name, "chromium-")
}

/// The path of `name` in the directory `dir`.
pub open spec fn joined(dir: Seq<char>, name: Seq<char>) -> Seq<char> {
    dir + seq!['/'] + name
}

/// The texts of a list of string slices.
pub open spec fn texts(list: Seq<&'static str>) -> Seq<Seq<char>> {
    Seq::new(list.len(), |k: int| list[k]@)
}

/// Where a Chromium build of the cache under `Library/Caches` may have
/// its binary, the first choice first.
pub open spec fn mac_variants() -> Seq<Seq<char>> {
    seq![
        "chrome-headless-shell-mac-arm64/chrome-headless-shell"@,
        "chrome-headless-shell-mac-x64/chrome-headless-shell"@,
        "chrome-headless-shell-linux-x64/chrome-headless-shell"@,
        "chrome-headless-shell-linux-arm64/chrome-headless-shell"@,
        "chrome-linux/chrome"@,
        "chrome-mac-arm64/Chromium.app/Contents/MacOS/Chromium"@,
        "chrome-mac/Chromium.app/Contents/MacOS/Chromium"@,
    ]
}

/// Where a Chromium build of the cache under `.cache` may have its
/// binary, the first choice first.
pub open spec fn linux_variants() -> Seq<Seq<char>> {
    seq![
        "chrome-headless-shell-linux-x64/chrome-headless-shell"@,
        "chrome-headless-shell-linux-arm64/chrome-headless-shell"@,
        "chrome-linux/chrome"@,
    ]
}

/// Where a browser that the system has installed may be, the first
/// choice first.
pub open spec fn system_paths() -> Seq<Seq<char>> {
    seq![
        "/Applications/Google Chrome.app/Contents/MacOS/Google Chrome"@,
        "/Applications/Chromium.app/Contents/MacOS/Chromium"@,
        "/usr/bin/google-chrome"@,
        "/usr/bin/google-chrome-stable"@,
        "/usr/bin/chromium"@,
        "/usr/bin/chromium-browser"@,
        "/snap/bin/chromium"@,
    ]
}

/// Each of `variants` in the directory `dir`.
pub open spec fn under(dir: Seq<char>, variants: Seq<Seq<char>>) -> Seq<Seq<char>> {
    Seq::new(variants.len(), |k: int| joined(dir, variants[k]))
}

/// The places to look at in a browser cache: for each entry of the cache
/// that holds a Chromium build, in the order of the listing, each of
/// `variants` in it.
pub open spec fn cache_candidates(
    cache: Seq<char>,
    entries: Seq<Seq<char>>,
    variants: Seq<Seq<char>>,
) -> Seq<Seq<char>>
    decreases entries.len(),
{
    if entries.len() == 0 {
        Seq::empty()
    } else {
        let before = cache_candidates(cache, entries.drop_last(), variants);
        if is_browser_dir(entries.last()) {
            before + under(joined(cache, entries.last()), variants)
        } else {
            before
        }
    }
}

/// All the places where a browser is looked for, the first choice first:
/// the Chromium builds of the cache under `Library/Caches/ms-playwright`
/// in the home directory, then those of the cache under
/// `.cache/ms-playwright`, then the browsers that the system has
/// installed. `mac_cache` and `linux_cache` are the listings of the two
/// caches.
pub open spec fn candidates(
    home: Seq<char>,
    mac_cache: Seq<Seq<char>>,
    linux_cache: Seq<Seq<char>>,
) -> Seq<Seq<char>> {
    cache_candidates(joined(home, "Library/Caches/ms-playwright"@), mac_cache, mac_variants())
        + cache_candidates(joined(home, ".cache/ms-playwright"@), linux_cache, linux_variants())
        + system_paths()
}

/// The path of `name` in the directory `dir`.
pub fn join_path(dir: &str, name: &str) -> (path: String)
    ensures
        path@ == joined(dir@, name@),
{
    let mut path = String::from_str(dir);
    path.append("/");
    path.append(name);
    proof {
        reveal_strlit("/");
        assert("/"@ =~= seq!['/']);
    }
    path
}

/// Where a Chromium build of the cache under `Library/Caches` may have
/// its binary.
pub fn mac_variant_list() -> (list: Vec<&'static str>)
    ensures
        texts(list@) == mac_variants(),
{
    let mut list: Vec<&'static str> = Vec::new();
    list.push("chrome-headless-shell-mac-arm64/chrome-headless-shell");
    list.push("chrome-headless-shell-mac-x64/chrome-headless-shell");
    list.push("chrome-headless-shell-linux-x64/chrome-headless-shell");
    list.push("chrome-headless-shell-linux-arm64/chrome-headless-shell");
    list.push("chrome-linux/chrome");
    list.push("chrome-mac-arm64/Chromium.app/Contents/MacOS/Chromium");
    list.push("chrome-mac/Chromium.app/Contents/MacOS/Chromium");
    proof {
        assert(texts(list@) =~= mac_variants());
    }
    list
}

/// Where a Chromium build of the cache under `.cache` may have its
/// binary.
pub fn linux_variant_list() -> (list: Vec<&'static str>)
    ensures
        texts(list@) == linux_variants(),
{
    let mut list: Vec<&'static str> = Vec::new();
    list.push("chrome-headless-shell-linux-x64/chrome-headless-shell");
    list.push("chrome-headless-shell-linux-arm64/chrome-headless-shell");
    list.push("chrome-linux/chrome");
    proof {
        assert(texts(list@) =~= linux_variants());
    }
    list
}

/// Where a browser that the system has installed may be.
pub fn system_path_list() -> (list: Vec<&'static str>)
    ensures
        texts(list@) == system_paths(),
{
    let mut list: Vec<&'static str> = Vec::new();
    list.push("/Applications/Google Chrome.app/Contents/MacOS/Google Chrome");
    list.push("/Applications/Chromium.app/Contents/MacOS/Chromium");
    list.push("/usr/bin/google-chrome");
    list.push("/usr/bin/google-chrome-stable");
    list.push("/usr/bin/chromium");
    list.push("/usr/bin/chromium-browser");
    list.push("/snap/bin/chromium");
    proof {
        assert(texts(list@) =~= system_paths());
    }
    list
}

/// Appends to `paths` the places to look at in one browser cache.
fn push_cache_candidates(
    cache: &str,
    entries: &Vec<String>,
    variants: &Vec<&'static str>,
    paths: &mut Vec<String>,
)
    ensures
        final(paths).deep_view() == old(paths).deep_view() + cache_candidates(
            cache@,
            entries.deep_view(),
            texts(variants@),
        ),
{
    let ghost start = paths.deep_view();
    let ghost names = entries.deep_view();
    let ghost kinds = texts(variants@);
    let mut i: usize = 0;
    proof {
        assert(start + cache_candidates(cache@, names.take(0), kinds) =~= start);
    }
    while i < entries.len()
        invariant
            i <= entries.len(),
            names == entries.deep_view(),
            kinds == texts(variants@),
            paths.deep_view() == start + cache_candidates(cache@, names.take(i as int), kinds),
        decreases entries.len() - i,
    {
        proof {
            assert(names.take(i + 1).drop_last() =~= names.take(i as int));
            assert(names.take(i + 1).last() == entries@[i as int]@);
        }
        if is_browser_directory(entries[i].as_str()) {
            let dir = join_path(cache, entries[i].as_str());
            let ghost held = paths.deep_view();
            let mut k: usize = 0;
            while k < variants.len()
                invariant
                    k <= variants.len(),
                    kinds == texts(variants@),
                    paths.deep_view() == held + under(dir@, kinds).take(k as int),
                decreases variants.len() - k,
            {
                let ghost before = paths.deep_view();
                let path = join_path(dir.as_str(), variants[k]);
                paths.push(path);
                proof {
                    assert(paths.deep_view() =~= before.push(path@));
                    assert(path@ == under(dir@, kinds)[k as int]);
                    assert(paths.deep_view() =~= held + under(dir@, kinds).take(k + 1));
                }
                k += 1;
            }
            proof {
                assert(under(dir@, kinds).take(k as int) =~= under(dir@, kinds));
                assert(paths.deep_view() =~= start + cache_candidates(
                    cache@,
                    names.take(i + 1),
                    kinds,
                ));
            }
        }
        i += 1;
    }
    proof {
        assert(names.take(i as int) =~= names);
    }
}

/// All the places where a browser is looked for, the first choice first.
/// `mac_cache` and `linux_cache` are the names of the entries of the two
/// browser caches in the home directory, as they are listed; a cache that
/// is not there has no entries.
pub fn browser_candidates(home: &str, mac_cache: &Vec<String>, linux_cache: &Vec<String>) -> (paths:
    Vec<String>)
    ensures
        paths.deep_view() == candidates(home@, mac_cache.deep_view(), linux_cache.deep_view()),
{
    let mut paths: Vec<String> = Vec::new();
    let mac = join_path(home, "Library/Caches/ms-playwright");
    let mac_list = mac_variant_list();
    push_cache_candidates(mac.as_str(), mac_cache, &mac_list, &mut paths);
    let linux = join_path(home, ".cache/ms-playwright");
    let linux_list = linux_variant_list();
    push_cache_candidates(linux.as_str(), linux_cache, &linux_list, &mut paths);
    let system = system_path_list();
    let ghost held = paths.deep_view();
    let mut k: usize = 0;
    while k < system.len()
        invariant
            k <= system.len(),
            texts(system@) == system_paths(),
            paths.deep_view() == held + system_paths().take(k as int),
        decreases system.len() - k,
    {
        let ghost before = paths.deep_view();
        let path = String::from_str(system[k]);
        paths.push(path);
        proof {
            assert(path@ == texts(system@)[k as int]);
            assert(paths.deep_view() =~= before.push(path@));
            assert(paths.deep_view() =~= held + system_paths().take(k + 1));
        }
        k += 1;
    }
    proof {
        assert(system_paths().take(k as int) =~= system_paths());
        assert(held =~= Seq::<Seq<char>>::empty() + cache_candidates(
            mac@,
            mac_cache.deep_view(),
            mac_variants(),
        ) + cache_candidates(linux@, linux_cache.deep_view(), linux_variants()));
    }
    paths
}

} // verus!
