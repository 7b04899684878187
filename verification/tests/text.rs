use local_models::path::{component_count, join, path_components, paths_equal, safe_path, PathComponent};
use local_models::text::{decimal_chars, parse_u64_range, string_of_range};
use std::path::{Component, Path, PathBuf};

fn std_components(p: &str) -> Vec<String> {
    Path::new(p)
        .components()
        .map(|c| match c {
            Component::RootDir => "/".to_owned(),
            Component::CurDir => ".".to_owned(),
            Component::ParentDir => "..".to_owned(),
            Component::Normal(n) => format!("n:{}", n.to_str().unwrap()),
            Component::Prefix(_) => "prefix".to_owned(),
        })
        .collect()
}

fn our_components(p: &str) -> Vec<String> {
    path_components(p)
        .into_iter()
        .map(|c| match c {
            PathComponent::RootDir => "/".to_owned(),
            PathComponent::CurDir => ".".to_owned(),
            PathComponent::ParentDir => "..".to_owned(),
            PathComponent::Normal(n) => format!("n:{}", n.into_iter().collect::<String>()),
        })
        .collect()
}

const PATHS: [&str; 14] = [
    "", "/", "//", "a", "./a", "a/./b", "a//b/", "../a", "/..", ".", "./", "a/..", "/a/.b/c.", "./.",
];

#[test]
fn components_agree_with_the_standard_library() {
    for p in PATHS {
        assert_eq!(our_components(p), std_components(p), "{p:?}");
        assert_eq!(component_count(p), std_components(p).len(), "{p:?}");
    }
}

#[test]
fn joining_agrees_with_path_buf_push() {
    for root in ["", "/", "/m", "/m/", "rel"] {
        for name in ["a", "a/b", "/abs", "", "./x"] {
            let mut expected = PathBuf::from(root);
            expected.push(name);
            assert_eq!(join(root, name), expected.to_str().unwrap(), "{root:?} {name:?}");
        }
    }
}

#[test]
fn equality_is_by_components() {
    for a in PATHS {
        for b in PATHS {
            assert_eq!(paths_equal(a, b), Path::new(a) == Path::new(b), "{a:?} {b:?}");
        }
    }
}

#[test]
fn safe_paths_are_relative_and_stay_inside() {
    assert!(safe_path("model.safetensors"));
    assert!(safe_path("sub/dir/file"));
    assert!(!safe_path("../escape"));
    assert!(!safe_path("/abs"));
    assert!(!safe_path("a/../b"));
    assert!(!safe_path(""));
}

#[test]
fn decimal_text_reads_back() {
    for n in [0u64, 7, 10, 32_768, u64::MAX] {
        let text: Vec<char> = decimal_chars(n);
        assert_eq!(text.iter().collect::<String>(), n.to_string());
        assert_eq!(parse_u64_range(&text, 0, text.len()), Some(n));
    }
    let over: Vec<char> = "18446744073709551616".chars().collect();
    assert_eq!(parse_u64_range(&over, 0, over.len()), None);
    let plus: Vec<char> = "+12".chars().collect();
    assert_eq!(parse_u64_range(&plus, 0, 3), Some(12));
    assert_eq!(string_of_range(&plus, 1, 3), "12");
}
