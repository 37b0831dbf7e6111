use hob::definition::{Artifact, ArtifactSource, FetchArtifact, Verification};
use hob::engine::fetcher::{
    DigestPool, FailedHash, FetchEnd, FetchStep, FetchedArtifact, Fetcher, HobFetchAffected,
    HobFetchError, HobFetchErrorKind,
};
use hob::engine::EngineSettings;
use std::sync::Arc;

const HELLO_SHA: &str = "5891b5b522d5df086d0ff0b110fbd9d21bb4fc7163af34d08286a2e846f6be03";

fn digest_of(data: &[u8]) -> Vec<u8> {
    ring::digest::digest(&ring::digest::SHA256, data).as_ref().to_vec()
}

fn sha(hex_text: &str) -> [u8; 32] {
    let bytes = hex::decode(hex_text).unwrap();
    let mut out = [0u8; 32];
    out.copy_from_slice(&bytes);
    out
}

fn artifact(url: &str, name: &str, sha256: Option<[u8; 32]>) -> Artifact {
    Artifact {
        source: ArtifactSource::Fetch(FetchArtifact {
            url: url.to_string(),
            file_name: name.to_string(),
        }),
        verification: Verification { sha256 },
    }
}

fn fetcher() -> Fetcher {
    Fetcher::new(Arc::new(EngineSettings::standard()))
}

#[test]
fn the_identity_of_an_artifact_is_the_digest_of_method_and_source() {
    let a = artifact("http://x/file.tar.gz", "file.tar.gz", None);
    assert_eq!(a.source.method_name(), b"fetch");
    assert_eq!(a.source.hash_data(), b"http://x/file.tar.gz");
    assert_eq!(a.source.file_name(), "file.tar.gz");
    assert_eq!(a.file_name(), "file.tar.gz");
    assert!(a.hashable());
    assert_eq!(a.hash_id().to_vec(), digest_of(b"fetchhttp://x/file.tar.gz"));
    assert_eq!(
        hex::encode(a.hash_id()),
        hex::encode(digest_of(b"fetchhttp://x/file.tar.gz"))
    );
}

#[test]
fn the_identity_does_not_depend_on_the_verification() {
    let plain = artifact("http://x/file.tar.gz", "file.tar.gz", None);
    let checked = artifact("http://x/file.tar.gz", "other-name", Some(sha(HELLO_SHA)));
    let other = artifact("http://x/file.tar.xz", "file.tar.gz", None);
    assert_eq!(plain.hash_id(), checked.hash_id());
    assert_ne!(plain.hash_id(), other.hash_id());
    assert_ne!(plain.hash_id(), [0u8; 32]);
}

#[test]
fn the_file_of_an_artifact_is_kept_under_its_identity_and_name() {
    let a = artifact("http://x/file.tar.gz", "file.tar.gz", Some(sha(HELLO_SHA)));
    let expected = format!(
        "/tmp/hob/cache/{}-file.tar.gz",
        hex::encode(digest_of(b"fetchhttp://x/file.tar.gz"))
    );
    assert_eq!(fetcher().create_artifact_path(&a), expected);
    assert_eq!(expected.len(), "/tmp/hob/cache/".len() + 64 + "-file.tar.gz".len());
}

#[test]
fn an_artifact_that_is_not_cached_is_downloaded() {
    let a = artifact("http://x/file.tar.gz", "file.tar.gz", None);
    let path = fetcher().create_artifact_path(&a);
    assert_eq!(
        fetcher().fetch(&a, false),
        FetchStep::Download { url: "http://x/file.tar.gz".to_string(), path }
    );
}

#[test]
fn a_cached_artifact_is_checked_and_not_fetched_again() {
    let a = artifact("http://x/file.tar.gz", "file.tar.gz", Some(sha(HELLO_SHA)));
    let fetcher = fetcher();
    let path = fetcher.create_artifact_path(&a);
    let first = fetcher.fetch_downloaded(&a, Ok(()));
    assert_eq!(first, FetchEnd::Keep(FetchedArtifact { artifact: &a, path: path.clone() }));
    assert_eq!(fetcher.fetch(&a, true), FetchStep::VerifyCached { path: path.clone() });
    assert_eq!(fetcher.fetch_cached(&a, Ok(())), Ok(FetchedArtifact { artifact: &a, path }));
}

fn failed() -> Vec<FailedHash> {
    vec![FailedHash { algo: "sha256", found: digest_of(b"other"), expected: sha(HELLO_SHA).to_vec() }]
}

#[test]
fn a_bad_cached_file_fails_the_fetch_and_stays() {
    let a = artifact("http://x/file.tar.gz", "file.tar.gz", Some(sha(HELLO_SHA)));
    let fetcher = fetcher();
    let path = fetcher.create_artifact_path(&a);
    assert_eq!(
        fetcher.fetch_cached(&a, Err(failed())),
        Err(HobFetchError {
            kind: HobFetchErrorKind::VerificationFailed { hashes: failed() },
            affected: Some(HobFetchAffected::Cache(path)),
            artifact: a.duplicate(),
            inner: None,
        })
    );
}

#[test]
fn a_bad_download_is_removed() {
    let a = artifact("http://x/file.tar.gz", "file.tar.gz", Some(sha(HELLO_SHA)));
    let fetcher = fetcher();
    let path = fetcher.create_artifact_path(&a);
    assert_eq!(
        fetcher.fetch_downloaded(&a, Err(failed())),
        FetchEnd::Discard {
            remove: path,
            error: HobFetchError {
                kind: HobFetchErrorKind::VerificationFailed { hashes: failed() },
                affected: Some(HobFetchAffected::Fetched),
                artifact: a.duplicate(),
                inner: None,
            },
        }
    );
}

#[test]
fn a_streamed_digest_is_the_digest_of_the_whole() {
    assert_eq!(hex::encode(digest_of(b"hello\n")), HELLO_SHA);
    let verification = Verification { sha256: Some(sha(HELLO_SHA)) };
    let mut pool = DigestPool::from_verification(&verification);
    pool.update(b"hel");
    pool.update(b"");
    pool.update(b"lo\n");
    assert!(pool.within_limit());
    assert_eq!(pool.finish(), Ok(()));

    let mut whole = DigestPool::from_verification(&verification);
    whole.update(b"hello\n");
    assert_eq!(whole.check(), Some(Ok(())));

    let bytes: Vec<u8> = (0..=255u8).cycle().take(10_000).collect();
    let expected: [u8; 32] = digest_of(&bytes).try_into().unwrap();
    let mut pool = DigestPool::from_verification(&Verification { sha256: Some(expected) });
    for chunk in bytes.chunks(97) {
        pool.update(chunk);
    }
    assert_eq!(pool.finish(), Ok(()));
}

#[test]
fn a_digest_that_differs_is_told_with_what_was_found() {
    let verification = Verification { sha256: Some(sha(HELLO_SHA)) };
    let mut pool = DigestPool::from_verification(&verification);
    pool.update(b"hello");
    assert_eq!(
        pool.finish(),
        Err(vec![FailedHash {
            algo: "sha256",
            found: digest_of(b"hello"),
            expected: sha(HELLO_SHA).to_vec(),
        }])
    );
    let empty = DigestPool::from_verification(&verification);
    assert_eq!(
        empty.finish(),
        Err(vec![FailedHash {
            algo: "sha256",
            found: digest_of(b""),
            expected: sha(HELLO_SHA).to_vec(),
        }])
    );
}

#[test]
fn without_expected_digests_every_file_is_good() {
    let mut pool = DigestPool::from_verification(&Verification { sha256: None });
    assert_eq!(pool.pool.len(), 0);
    pool.update(b"anything");
    assert_eq!(pool.finish(), Ok(()));
    assert_eq!(
        Fetcher::verify_file(&vec![b"x".to_vec()], &Verification { sha256: None }),
        Some(Ok(()))
    );
}

#[test]
fn a_file_is_checked_chunk_by_chunk() {
    let verification = Verification { sha256: Some(sha(HELLO_SHA)) };
    let chunks = vec![b"he".to_vec(), b"llo".to_vec(), vec![], b"\n".to_vec()];
    assert_eq!(Fetcher::verify_file(&chunks, &verification), Some(Ok(())));
    assert_eq!(Fetcher::verify_file(&vec![b"hello\n".to_vec()], &verification), Some(Ok(())));
    assert_eq!(
        Fetcher::verify_file(&vec![], &verification),
        Some(Err(vec![FailedHash {
            algo: "sha256",
            found: digest_of(b""),
            expected: sha(HELLO_SHA).to_vec(),
        }]))
    );
}
