use hob::definition::build_style::{BuildStyle, BuildStyleType, BuildStyleVariables};
use hob::definition::{Recipe, RecipeOptions, Side};
use hob::engine::build_state::{BuildState, BuildTime};
use hob::engine::extractor::{guess_format, Archive, Compression, Extraction, Extractor, Unpack};
use hob::engine::fetcher::FetchedArtifact;
use hob::engine::hooks::package::TimeVal;
use hob::engine::hooks::{CollectElf, FixPermissions, PinTimestamps, StripBinaries};
use hob::engine::{Command, EngineSettings, Operation};
use hob::utils::elf::ElfHeader;
use hob::utils::{FileWalker, WalkEvent};
use std::sync::Arc;

fn strings(values: &[&str]) -> Vec<String> {
    values.iter().map(|v| v.to_string()).collect()
}

fn recipe(strip: Option<bool>, sides: &[&str]) -> Recipe {
    Recipe {
        name: "foo".to_string(),
        version: "1.0".to_string(),
        source_dir: "foo-1.0".to_string(),
        revision: 0,
        description: "".to_string(),
        home: None,
        license: vec![],
        maintainers: vec![],
        depends: vec![],
        provides: vec![],
        artifacts: vec![],
        style: BuildStyle { style: BuildStyleType::Noop, vars: BuildStyleVariables::default() },
        sides: sides
            .iter()
            .map(|name| Side {
                name: name.to_string(),
                description: "".to_string(),
                depends: vec![],
                claims: vec![],
            })
            .collect(),
        options: RecipeOptions { strip },
        playbooks: vec![],
    }
}

fn elf(class: u8, object_type: u16, machine: u16) -> Vec<u8> {
    let mut h = vec![0u8; if class == 2 { 64 } else { 52 }];
    h[..4].copy_from_slice(b"\x7FELF");
    h[4] = class;
    h[5] = 1;
    h[16..18].copy_from_slice(&object_type.to_le_bytes());
    h[18..20].copy_from_slice(&machine.to_le_bytes());
    h
}

fn strip(args: &[&str]) -> Operation {
    Operation::Run {
        command: Command { program: "strip".to_string(), args: strings(args), current_dir: None },
        failure: None,
    }
}

#[test]
fn the_head_of_a_file_is_56_bytes() {
    assert_eq!(CollectElf::HEAD_LEN, 56);
}

#[test]
fn only_regular_files_are_looked_at() {
    assert!(CollectElf::wants(true, false));
    assert!(!CollectElf::wants(true, true));
    assert!(!CollectElf::wants(false, false));
    assert!(!CollectElf::wants(false, true));
}

#[test]
fn archives_and_elf_files_are_collected() {
    let recipe = recipe(None, &[]);
    let mut state = BuildState::new(&recipe, BuildTime { secs: 0, micros: 0 });
    CollectElf::inspect(&mut state, "/d/lib/libx.a".to_string(), b"!<arch>\nlibx.o/");
    CollectElf::inspect(&mut state, "/d/bin/x".to_string(), &elf(2, 2, 0x3E));
    CollectElf::inspect(&mut state, "/d/share/readme".to_string(), b"hello, this is a readme");
    CollectElf::inspect(&mut state, "/d/empty".to_string(), b"");
    CollectElf::inspect(&mut state, "/d/short".to_string(), b"!<arch>");
    CollectElf::inspect(&mut state, "/d/lib/bare.a".to_string(), b"!<arch>\n");
    assert_eq!(state.archives, strings(&["/d/lib/libx.a", "/d/lib/bare.a"]));
    assert_eq!(
        state.elf_headers,
        vec![("/d/bin/x".to_string(), ElfHeader::parse(&elf(2, 2, 0x3E)).unwrap())]
    );
}

#[test]
fn a_file_that_is_collected_twice_is_entered_once() {
    let recipe = recipe(None, &[]);
    let mut state = BuildState::new(&recipe, BuildTime { secs: 0, micros: 0 });
    CollectElf::inspect(&mut state, "/d/a".to_string(), &elf(1, 2, 3));
    CollectElf::inspect(&mut state, "/d/b".to_string(), &elf(1, 3, 3));
    CollectElf::inspect(&mut state, "/d/a".to_string(), &elf(1, 3, 40));
    assert_eq!(
        state.elf_headers,
        vec![
            ("/d/a".to_string(), ElfHeader::parse(&elf(1, 3, 40)).unwrap()),
            ("/d/b".to_string(), ElfHeader::parse(&elf(1, 3, 3)).unwrap()),
        ]
    );
}

#[test]
fn an_executable_and_an_archive_are_stripped() {
    let recipe = recipe(None, &[]);
    let mut state = BuildState::new(&recipe, BuildTime { secs: 0, micros: 0 });
    CollectElf::inspect(&mut state, "/d/bin/x".to_string(), &elf(1, 2, 3));
    CollectElf::inspect(&mut state, "/d/lib/libx.a".to_string(), b"!<arch>\nlibx.o/");
    assert_eq!(
        StripBinaries::run(&state),
        vec![strip(&["/d/bin/x"]), strip(&["--strip-debug", "/d/lib/libx.a"])]
    );
}

#[test]
fn binaries_libraries_and_archives_are_stripped_each_in_their_way() {
    let recipe = recipe(Some(true), &[]);
    let mut state = BuildState::new(&recipe, BuildTime { secs: 0, micros: 0 });
    CollectElf::inspect(&mut state, "/d/lib/liby.so".to_string(), &elf(2, 3, 0x3E));
    CollectElf::inspect(&mut state, "/d/bin/x".to_string(), &elf(2, 2, 0x3E));
    CollectElf::inspect(&mut state, "/d/bin/y".to_string(), &elf(1, 2, 3));
    CollectElf::inspect(&mut state, "/d/lib/none.so".to_string(), &elf(2, 3, 0));
    CollectElf::inspect(&mut state, "/d/bin/none".to_string(), &elf(2, 2, 0));
    CollectElf::inspect(&mut state, "/d/lib/x.o".to_string(), &elf(2, 1, 0x3E));
    CollectElf::inspect(&mut state, "/d/lib/libx.a".to_string(), b"!<arch>\nlibx.o/");
    assert_eq!(
        StripBinaries::run(&state),
        vec![
            strip(&["/d/bin/x", "/d/bin/y"]),
            strip(&["--strip-unneeded", "/d/lib/liby.so"]),
            strip(&["--strip-debug", "/d/lib/libx.a"]),
        ]
    );
}

#[test]
fn nothing_is_stripped_where_the_recipe_says_so() {
    let recipe = recipe(Some(false), &[]);
    let mut state = BuildState::new(&recipe, BuildTime { secs: 0, micros: 0 });
    CollectElf::inspect(&mut state, "/d/bin/x".to_string(), &elf(2, 2, 0x3E));
    CollectElf::inspect(&mut state, "/d/lib/liby.so".to_string(), &elf(2, 3, 0x3E));
    CollectElf::inspect(&mut state, "/d/lib/libx.a".to_string(), b"!<arch>\nlibx.o/");
    assert_eq!(StripBinaries::run(&state), vec![]);
}

#[test]
fn nothing_is_stripped_where_nothing_was_collected() {
    let recipe = recipe(None, &[]);
    let state = BuildState::new(&recipe, BuildTime { secs: 0, micros: 0 });
    assert_eq!(StripBinaries::run(&state), vec![]);
}

#[test]
fn the_times_of_the_recipe_and_its_sides_are_pinned() {
    let recipe = recipe(None, &["side1", "side2"]);
    let state = BuildState::new(&recipe, BuildTime { secs: 1_700_000_000, micros: 123_456 });
    assert_eq!(
        PinTimestamps::roots(&EngineSettings::standard(), &recipe),
        strings(&[
            "/tmp/hob/root/.hob/dest/foo",
            "/tmp/hob/root/.hob/dest/side1",
            "/tmp/hob/root/.hob/dest/side2",
        ])
    );
    assert_eq!(
        PinTimestamps::time(&state),
        TimeVal { tv_sec: 1_700_000_000, tv_usec: 123_456 }
    );
}

#[test]
fn a_time_beyond_what_the_system_counts_is_cut() {
    let recipe = recipe(None, &[]);
    let late = BuildState::new(&recipe, BuildTime { secs: u64::MAX, micros: 999_999 });
    assert_eq!(PinTimestamps::time(&late), TimeVal { tv_sec: i64::MAX, tv_usec: 999_999 });
    let edge = BuildState::new(&recipe, BuildTime { secs: i64::MAX as u64, micros: 0 });
    assert_eq!(PinTimestamps::time(&edge), TimeVal { tv_sec: i64::MAX, tv_usec: 0 });
    let start = BuildState::new(&recipe, BuildTime { secs: 0, micros: 0 });
    assert_eq!(PinTimestamps::time(&start), TimeVal { tv_sec: 0, tv_usec: 0 });
}

#[test]
fn fixing_permissions_does_nothing_yet() {
    assert_eq!(FixPermissions::run(), vec![]);
}

fn entry(path: &str, is_dir: bool) -> WalkEvent {
    WalkEvent::Entry { path: path.to_string(), is_dir }
}

#[test]
fn a_walk_goes_into_directories_and_leaves_them_out() {
    let mut walker = FileWalker::new("/d".to_string());
    assert!(walker.omit_directories);
    assert_eq!(walker.next(), Some("/d"));
    assert_eq!(walker.advance(entry("/d/a.txt", false)), Some("/d/a.txt".to_string()));
    assert_eq!(walker.next(), Some("/d"));
    assert_eq!(walker.advance(entry("/d/sub", true)), None);
    assert_eq!(walker.next(), Some("/d/sub"));
    assert_eq!(walker.advance(entry("/d/sub/b.txt", false)), Some("/d/sub/b.txt".to_string()));
    assert_eq!(walker.advance(WalkEvent::Exhausted), None);
    assert_eq!(walker.next(), Some("/d"));
    assert_eq!(walker.advance(WalkEvent::Exhausted), None);
    assert_eq!(walker.next(), None);
    assert_eq!(walker.stack, strings(&[]));
}

#[test]
fn a_walk_with_directories_hands_them_out() {
    let mut walker = FileWalker::empty(true);
    assert!(!walker.omit_directories);
    assert_eq!(walker.next(), None);
    walker.push("/one".to_string());
    walker.push("/two".to_string());
    assert_eq!(walker.next(), Some("/two"));
    assert_eq!(walker.advance(entry("/two/sub", true)), Some("/two/sub".to_string()));
    assert_eq!(walker.stack, strings(&["/one", "/two", "/two/sub"]));
    assert_eq!(walker.advance(WalkEvent::Exhausted), None);
    assert_eq!(walker.advance(WalkEvent::Exhausted), None);
    assert_eq!(walker.next(), Some("/one"));
    assert!(FileWalker::empty(false).omit_directories);
}

#[test]
fn the_ending_of_a_name_tells_the_kind_of_archive() {
    assert_eq!(guess_format("x.tar.gz"), Some((Archive::Tar, Compression::Gzip)));
    assert_eq!(guess_format("x.tar.xz"), Some((Archive::Tar, Compression::Xz)));
    assert_eq!(guess_format("x.tar.bz"), Some((Archive::Tar, Compression::Bz)));
    assert_eq!(guess_format("x.tar"), Some((Archive::Tar, Compression::Uncompressed)));
    assert_eq!(guess_format("x.zip"), Some((Archive::Zip, Compression::Uncompressed)));
    assert_eq!(guess_format(".zip"), Some((Archive::Zip, Compression::Uncompressed)));
    assert_eq!(guess_format("x.zip.tar.gz"), Some((Archive::Tar, Compression::Gzip)));
    assert_eq!(guess_format("x.tar.bz2"), None);
    assert_eq!(guess_format("x.tgz"), None);
    assert_eq!(guess_format("x.gz"), None);
    assert_eq!(guess_format("x.TAR"), None);
    assert_eq!(guess_format("tar"), None);
    assert_eq!(guess_format(""), None);
    assert_eq!(guess_format("x.zip "), None);
}

#[test]
fn an_archive_is_unpacked_into_the_source_directory() {
    let recipe = recipe(None, &[]);
    let extractor = Extractor::new(Arc::new(EngineSettings::standard()));
    let artifact = hob::definition::Artifact {
        source: hob::definition::ArtifactSource::Fetch(hob::definition::FetchArtifact {
            url: "http://x/a.tar.gz".to_string(),
            file_name: "a.tar.gz".to_string(),
        }),
        verification: hob::definition::Verification { sha256: None },
    };
    let fetched = FetchedArtifact { artifact: &artifact, path: "/c/00-a.tar.gz".to_string() };
    assert_eq!(
        extractor.extract(&fetched, &recipe.name),
        Extraction {
            target: "/tmp/hob/root/.hob/src/foo".to_string(),
            unpack: Some(Unpack {
                source: "/c/00-a.tar.gz".to_string(),
                archive: Archive::Tar,
                compression: Compression::Gzip,
            }),
            failure: None,
        }
    );
    assert_eq!(
        Extractor::entry_path("/tmp/hob/root/.hob/src/foo", "a/b.txt"),
        "/tmp/hob/root/.hob/src/foo/a/b.txt"
    );
    let odd = FetchedArtifact { artifact: &artifact, path: "/c/dir.zip/..".to_string() };
    assert_eq!(
        extractor.extract(&odd, "foo"),
        Extraction {
            target: "/tmp/hob/root/.hob/src/foo".to_string(),
            unpack: None,
            failure: Some("couldn't guess archive type"),
        }
    );
    let slash = FetchedArtifact { artifact: &artifact, path: "/c/x.zip/".to_string() };
    assert_eq!(
        extractor.extract(&slash, "foo").unpack.map(|u| (u.archive, u.compression)),
        Some((Archive::Zip, Compression::Uncompressed))
    );
}
