use hob::paths;
use std::path::Path;

#[test]
fn paths_are_taken_apart_and_joined_as_the_standard_library_does() {
    let parts = [
        "", "/", "//", "a", "b.c", ".", "..", "/a", "a/", "a//", "/.", "./", "../", "a/.",
        "a/..", "./a", "../a", "a/b", "/a/b", "a//b", "a/./b", "a/../b", "a/b/", "a/b/.",
        "a/b/..", "///a", "/./a", "/../a", ".a", "a.", "...", "a/...", "/a/./", "./.", "././a",
        "a/.//", "//.", "/a//./.",
    ];
    let mut bad = vec![];
    for p in parts {
        let e = Path::new(p).file_name().map(|n| n.to_string_lossy().into_owned());
        if paths::file_name(p) != e {
            bad.push(format!("file_name({:?}) = {:?}, std {:?}", p, paths::file_name(p), e));
        }
        let e = Path::new(p).parent().map(|n| n.to_string_lossy().into_owned());
        if paths::parent(p) != e {
            bad.push(format!("parent({:?}) = {:?}, std {:?}", p, paths::parent(p), e));
        }
        for q in parts {
            let e = Path::new(p).join(q).to_string_lossy().into_owned();
            if paths::join(p, q) != e {
                bad.push(format!("join({:?},{:?}) = {:?}, std {:?}", p, q, paths::join(p, q), e));
            }
        }
    }
    assert!(bad.is_empty(), "{}", bad.join("\n"));
}
