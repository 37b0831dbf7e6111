//! Fetching artifacts into the cache, and checking them.
//!
//! The file of an artifact is kept in the cache under a name made of the
//! artifact's identity and its file name. The engine's driver does the
//! reading, writing and downloading; this module decides what is to be done
//! and checks digests.

use crate::definition::{Artifact, ArtifactSource, ArtifactSourceView, ArtifactView, Verification, VerificationView};
use crate::digest::{
    hasher_finish, hasher_input, hasher_update, hex_encode, hex_encoded, input_limit, sha256,
    sha256_hasher, Sha256Hasher,
};
use crate::engine::{EngineSettings, EngineSettingsView};
use crate::paths;
use crate::text::{bytes_equal, concat3};
use std::sync::Arc;
use vstd::prelude::*;

verus! {

/// An artifact that is in the cache, and the path of its file.
#[derive(Debug, PartialEq, Eq)]
pub struct FetchedArtifact<'a> {
    pub artifact: &'a Artifact,
    pub path: String,
}

pub struct FetchedArtifactView {
    pub artifact: ArtifactView,
    pub path: Seq<char>,
}

impl<'a> View for FetchedArtifact<'a> {
    type V = FetchedArtifactView;

    open spec fn view(&self) -> FetchedArtifactView {
        FetchedArtifactView { artifact: self.artifact@, path: self.path@ }
    }
}

impl<'a> DeepView for FetchedArtifact<'a> {
    type V = FetchedArtifactView;

    open spec fn deep_view(&self) -> FetchedArtifactView {
        self@
    }
}

/// A digest that was not the expected one.
#[derive(Debug, PartialEq, Eq)]
pub struct FailedHash {
    pub algo: &'static str,
    pub found: Vec<u8>,
    pub expected: Vec<u8>,
}

pub struct FailedHashView {
    pub algo: Seq<char>,
    pub found: Seq<u8>,
    pub expected: Seq<u8>,
}

impl View for FailedHash {
    type V = FailedHashView;

    open spec fn view(&self) -> FailedHashView {
        FailedHashView { algo: self.algo@, found: self.found@, expected: self.expected@ }
    }
}

impl DeepView for FailedHash {
    type V = FailedHashView;

    open spec fn deep_view(&self) -> FailedHashView {
        self@
    }
}

/// The file that a fetch error is about.
#[derive(Debug, PartialEq, Eq)]
pub enum HobFetchAffected {
    /// The file that was just fetched.
    Fetched,
    /// The file that was in the cache, at this path.
    Cache(String),
}

pub enum HobFetchAffectedView {
    Fetched,
    Cache(Seq<char>),
}

impl View for HobFetchAffected {
    type V = HobFetchAffectedView;

    open spec fn view(&self) -> HobFetchAffectedView {
        match self {
            HobFetchAffected::Fetched => HobFetchAffectedView::Fetched,
            HobFetchAffected::Cache(p) => HobFetchAffectedView::Cache(p@),
        }
    }
}

impl DeepView for HobFetchAffected {
    type V = HobFetchAffectedView;

    open spec fn deep_view(&self) -> HobFetchAffectedView {
        self@
    }
}

/// What went wrong in a fetch.
#[derive(Debug, PartialEq, Eq)]
pub enum HobFetchErrorKind {
    VerificationFailed { hashes: Vec<FailedHash> },
    _Other,
}

pub enum HobFetchErrorKindView {
    VerificationFailed { hashes: Seq<FailedHashView> },
    _Other,
}

impl View for HobFetchErrorKind {
    type V = HobFetchErrorKindView;

    open spec fn view(&self) -> HobFetchErrorKindView {
        match self {
            HobFetchErrorKind::VerificationFailed { hashes } => {
                HobFetchErrorKindView::VerificationFailed { hashes: hashes.deep_view() }
            },
            HobFetchErrorKind::_Other => HobFetchErrorKindView::_Other,
        }
    }
}

/// A fetch that failed. `inner` holds the words of the error that caused it,
/// where another error did.
#[derive(Debug, PartialEq, Eq)]
pub struct HobFetchError {
    pub kind: HobFetchErrorKind,
    pub affected: Option<HobFetchAffected>,
    pub artifact: Artifact,
    pub inner: Option<String>,
}

pub struct HobFetchErrorView {
    pub kind: HobFetchErrorKindView,
    pub affected: Option<HobFetchAffectedView>,
    pub artifact: ArtifactView,
    pub inner: Option<Seq<char>>,
}

impl View for HobFetchError {
    type V = HobFetchErrorView;

    open spec fn view(&self) -> HobFetchErrorView {
        HobFetchErrorView {
            kind: self.kind@,
            affected: self.affected.deep_view(),
            artifact: self.artifact@,
            inner: self.inner.deep_view(),
        }
    }
}

impl DeepView for HobFetchError {
    type V = HobFetchErrorView;

    open spec fn deep_view(&self) -> HobFetchErrorView {
        self@
    }
}

/// The words for one failed digest.
pub open spec fn failed_hash_text(hash: FailedHashView) -> Seq<char> {
    hash.algo + " expected "@ + hex_encoded(hash.expected) + " but found "@ + hex_encoded(
        hash.found,
    )
}

/// The words for the failed digests `hashes`, with `, ` between them.
pub open spec fn failed_hashes_text(hashes: Seq<FailedHashView>) -> Seq<char>
    decreases hashes.len(),
{
    if hashes.len() == 0 {
        Seq::empty()
    } else if hashes.len() == 1 {
        failed_hash_text(hashes[0])
    } else {
        failed_hashes_text(hashes.drop_last()) + ", "@ + failed_hash_text(hashes.last())
    }
}

/// The words for a source.
pub open spec fn source_text(source: ArtifactSourceView) -> Seq<char> {
    match source {
        ArtifactSourceView::Fetch(f) => "Fetch(FetchArtifact { url: \""@ + f.url
            + "\", file_name: \""@ + f.file_name + "\" })"@,
    }
}

/// The words for a fetch error: what went wrong, for which source, and with
/// which file.
pub open spec fn fetch_error_text(error: HobFetchErrorView) -> Seq<char> {
    (match error.kind {
        HobFetchErrorKindView::VerificationFailed { hashes } => "verification failed ("@
            + failed_hashes_text(hashes) + ")"@,
        HobFetchErrorKindView::_Other => "unknown error occurred"@,
    }) + " for "@ + source_text(error.artifact.source) + (match error.affected {
        Some(HobFetchAffectedView::Fetched) => " with fetched file"@,
        Some(HobFetchAffectedView::Cache(p)) => " with cached file ("@ + p + ")"@,
        None => Seq::empty(),
    })
}

impl HobFetchError {
    /// The error in words.
    pub fn to_text(&self) -> (r: String)
        ensures
            r@ == fetch_error_text(self@),
    {
        let mut r = String::new();
        assert(r@ =~= Seq::<char>::empty());
        match &self.kind {
            HobFetchErrorKind::VerificationFailed { hashes } => {
                r.append("verification failed (");
                let ghost head = r@;
                let mut i: usize = 0;
                while i < hashes.len()
                    invariant
                        i <= hashes.len(),
                        r@ == head + failed_hashes_text(hashes.deep_view().take(i as int)),
                    decreases hashes.len() - i,
                {
                    proof {
                        let next = hashes.deep_view().take(i + 1);
                        assert(next.drop_last() =~= hashes.deep_view().take(i as int));
                        assert(next.last() == hashes@[i as int]@);
                        if i == 0 {
                            assert(next[0] == hashes@[0]@);
                        }
                    }
                    let ghost sofar = r@;
                    if i > 0 {
                        r.append(", ");
                    }
                    let hash = &hashes[i];
                    r.append(hash.algo);
                    r.append(" expected ");
                    r.append(hex_encode(hash.expected.as_slice()).as_str());
                    r.append(" but found ");
                    r.append(hex_encode(hash.found.as_slice()).as_str());
                    proof {
                        let t = failed_hash_text(hash@);
                        if i > 0 {
                            assert(r@ =~= sofar + ", "@ + t);
                        } else {
                            assert(r@ =~= sofar + t);
                        }
                        assert(r@ =~= head + failed_hashes_text(hashes.deep_view().take(i + 1)));
                    }
                    i += 1;
                }
                proof {
                    assert(hashes.deep_view().take(i as int) =~= hashes.deep_view());
                }
                r.append(")");
            },
            HobFetchErrorKind::_Other => {
                r.append("unknown error occurred");
            },
        }
        let ghost what = r@;
        r.append(" for ");
        match &self.artifact.source {
            ArtifactSource::Fetch(f) => {
                r.append("Fetch(FetchArtifact { url: \"");
                r.append(f.url.as_str());
                r.append("\", file_name: \"");
                r.append(f.file_name.as_str());
                r.append("\" })");
            },
        }
        assert(r@ =~= what + " for "@ + source_text(self@.artifact.source));
        let ghost sofar = r@;
        match &self.affected {
            Some(HobFetchAffected::Fetched) => {
                r.append(" with fetched file");
            },
            Some(HobFetchAffected::Cache(p)) => {
                r.append(" with cached file (");
                r.append(p.as_str());
                r.append(")");
                assert(r@ =~= sofar + (" with cached file ("@ + p@ + ")"@));
            },
            None => {
                assert(r@ =~= sofar + Seq::<char>::empty());
            },
        }
        r
    }
}

/// One digest that is being taken, and what it must come to.
pub struct DigestEntry {
    pub hasher: Sha256Hasher,
    pub expected: Vec<u8>,
    pub algo: &'static str,
}

/// The digests that are taken of one stream of bytes, in the order in which
/// they are checked.
pub struct DigestPool {
    pub pool: Vec<DigestEntry>,
    /// How many bytes the pool has been given, as far as a digest can be
    /// taken of them.
    pub given: u64,
    pub fed: Ghost<Seq<u8>>,
}

/// What a digest in a pool is checked against.
pub struct ExpectedDigest {
    pub expected: Seq<u8>,
    pub algo: Seq<char>,
}

/// The digests that `verification` asks for: SHA-256 where it gives one.
pub open spec fn expected_digests(verification: VerificationView) -> Seq<ExpectedDigest> {
    match verification.sha256 {
        Some(d) => seq![ExpectedDigest { expected: d, algo: "sha256"@ }],
        None => Seq::empty(),
    }
}

/// The digests of `data` that are not as `expected` says, in order.
pub open spec fn failed_hashes(expected: Seq<ExpectedDigest>, data: Seq<u8>) -> Seq<
    FailedHashView,
>
    decreases expected.len(),
{
    if expected.len() == 0 {
        Seq::empty()
    } else {
        let before = failed_hashes(expected.drop_last(), data);
        let last = expected.last();
        if sha256(data) != last.expected {
            before.push(
                FailedHashView { algo: last.algo, found: sha256(data), expected: last.expected },
            )
        } else {
            before
        }
    }
}

/// What checking `data` against `verification` comes to: nothing where every
/// digest is as expected, else the digests that are not.
pub open spec fn verified(verification: VerificationView, data: Seq<u8>) -> Result<
    (),
    Seq<FailedHashView>,
> {
    let failed = failed_hashes(expected_digests(verification), data);
    if failed.len() == 0 {
        Ok(())
    } else {
        Err(failed)
    }
}

/// All the bytes of `chunks`, one chunk after another.
pub open spec fn concatenated(chunks: Seq<Seq<u8>>) -> Seq<u8>
    decreases chunks.len(),
{
    if chunks.len() == 0 {
        Seq::empty()
    } else {
        concatenated(chunks.drop_last()) + chunks.last()
    }
}

impl DigestPool {
    /// The bytes that the pool has been given so far.
    pub open spec fn fed(&self) -> Seq<u8> {
        self.fed@
    }

    /// What the digests of the pool are checked against.
    pub open spec fn expected(&self) -> Seq<ExpectedDigest> {
        Seq::new(
            self.pool@.len(),
            |i: int| ExpectedDigest { expected: self.pool@[i].expected@, algo: self.pool@[i].algo@ },
        )
    }

    /// Every digest of the pool has been given the same bytes, and the pool
    /// knows how many.
    pub open spec fn well_formed(&self) -> bool {
        &&& forall|i: int|
            0 <= i < self.pool@.len() ==> hasher_input((#[trigger] self.pool@[i]).hasher)
                == self.fed()
        &&& self.given == if self.fed().len() < input_limit() {
            self.fed().len()
        } else {
            input_limit()
        }
    }

    /// The pool of the digests that `verification` asks for, given nothing yet.
    pub fn from_verification(verification: &Verification) -> (r: DigestPool)
        ensures
            r.well_formed(),
            r.fed() == Seq::<u8>::empty(),
            r.expected() == expected_digests(verification@),
    {
        let mut pool: Vec<DigestEntry> = Vec::new();
        match &verification.sha256 {
            Some(sha) => {
                let mut expected: Vec<u8> = Vec::new();
                let mut k: usize = 0;
                while k < 32
                    invariant
                        k <= 32,
                        expected@ == sha@.take(k as int),
                    decreases 32 - k,
                {
                    expected.push(sha[k]);
                    assert(sha@.take(k + 1) =~= sha@.take(k as int).push(sha@[k as int]));
                    k += 1;
                }
                assert(sha@.take(32) =~= sha@);
                pool.push(DigestEntry { hasher: sha256_hasher(), expected, algo: "sha256" });
            },
            None => {},
        }
        let r = DigestPool { pool, given: 0, fed: Ghost(Seq::empty()) };
        assert(r.expected() =~= expected_digests(verification@));
        r
    }

    /// Gives `data` to every digest of the pool.
    pub fn update(&mut self, data: &[u8])
        requires
            old(self).well_formed(),
        ensures
            final(self).well_formed(),
            final(self).fed() == old(self).fed() + data@,
            final(self).expected() == old(self).expected(),
    {
        let ghost before = self.fed();
        let mut i: usize = 0;
        while i < self.pool.len()
            invariant
                i <= self.pool.len(),
                self.pool@.len() == old(self).pool@.len(),
                self.fed == old(self).fed,
                self.given == old(self).given,
                before == old(self).fed(),
                self.expected() == old(self).expected(),
                forall|k: int|
                    0 <= k < i ==> hasher_input((#[trigger] self.pool@[k]).hasher) == before
                        + data@,
                forall|k: int|
                    i <= k < self.pool@.len() ==> hasher_input((#[trigger] self.pool@[k]).hasher)
                        == before,
            decreases self.pool.len() - i,
        {
            let ghost pool_before = self.pool@;
            let ghost expected_before = self.expected();
            hasher_update(&mut self.pool[i].hasher, data);
            proof {
                assert(self.expected() =~= expected_before);
            }
            i += 1;
        }
        let limit: u64 = 0x2000_0000_0000_0000;
        let more = data.len() as u64;
        self.given = if more >= limit - self.given {
            limit
        } else {
            self.given + more
        };
        self.fed = Ghost(before + data@);
    }

    /// Whether the pool has been given so little that its digests can be
    /// taken.
    pub fn within_limit(&self) -> (r: bool)
        requires
            self.well_formed(),
        ensures
            r == (self.fed().len() < input_limit()),
    {
        self.given < 0x2000_0000_0000_0000
    }

    /// Takes the digests and checks them: nothing where every digest is as
    /// expected, else the digests that are not, in order.
    pub fn finish(self) -> (r: Result<(), Vec<FailedHash>>)
        requires
            self.well_formed(),
            self.fed().len() < input_limit(),
        ensures
            r is Ok <==> failed_hashes(self.expected(), self.fed()).len() == 0,
            r matches Err(failed) ==> failed.deep_view() == failed_hashes(
                self.expected(),
                self.fed(),
            ),
    {
        let ghost expected = self.expected();
        let ghost fed = self.fed();
        let mut pool = self.pool;
        let mut failed_hash: Vec<FailedHash> = Vec::new();
        assert(failed_hash.deep_view() =~= Seq::empty());
        let total = pool.len();
        let ghost n = pool@.len();
        let mut i: usize = 0;
        while pool.len() > 0
            invariant
                n == total,
                i + pool@.len() == n,
                n == expected.len(),
                forall|k: int|
                    0 <= k < pool@.len() ==> {
                        &&& hasher_input((#[trigger] pool@[k]).hasher) == fed
                        &&& pool@[k].expected@ == expected[i + k].expected
                        &&& pool@[k].algo@ == expected[i + k].algo
                    },
                fed.len() < input_limit(),
                failed_hash.deep_view() == failed_hashes(expected.take(i as int), fed),
            decreases pool.len(),
        {
            let ghost held = pool@;
            let entry = pool.remove(0);
            proof {
                assert(entry == held[0]);
                assert forall|k: int| 0 <= k < pool@.len() implies {
                    &&& hasher_input((#[trigger] pool@[k]).hasher) == fed
                    &&& pool@[k].expected@ == expected[i + 1 + k].expected
                    &&& pool@[k].algo@ == expected[i + 1 + k].algo
                } by {
                    assert(pool@[k] == held[k + 1]);
                }
                let next = expected.take(i + 1);
                assert(next.drop_last() =~= expected.take(i as int));
                assert(next.last() == expected[i as int]);
            }
            let digest = hasher_finish(entry.hasher);
            if !bytes_equal(digest.as_slice(), entry.expected.as_slice()) {
                let mut found: Vec<u8> = Vec::new();
                let mut k: usize = 0;
                while k < 32
                    invariant
                        k <= 32,
                        found@ == digest@.take(k as int),
                    decreases 32 - k,
                {
                    found.push(digest[k]);
                    assert(digest@.take(k + 1) =~= digest@.take(k as int).push(digest@[k as int]));
                    k += 1;
                }
                assert(digest@.take(32) =~= digest@);
                let ghost before = failed_hash;
                let failure = FailedHash { algo: entry.algo, found, expected: entry.expected };
                failed_hash.push(failure);
                assert(failed_hash.deep_view() =~= before.deep_view().push(failure@));
            }
            i += 1;
        }
        proof {
            assert(expected.take(i as int) =~= expected);
        }
        if failed_hash.len() == 0 {
            Ok(())
        } else {
            Err(failed_hash)
        }
    }

    /// Takes the digests and checks them, where the pool has been given so
    /// little that they can be taken.
    pub fn check(self) -> (r: Option<Result<(), Vec<FailedHash>>>)
        requires
            self.well_formed(),
        ensures
            r is Some <==> self.fed().len() < input_limit(),
            r matches Some(Ok(_)) ==> failed_hashes(self.expected(), self.fed()).len() == 0,
            r matches Some(Err(failed)) ==> failed.len() > 0 && failed.deep_view()
                == failed_hashes(self.expected(), self.fed()),
    {
        if self.within_limit() {
            Some(self.finish())
        } else {
            None
        }
    }
}

/// What is to be done first for an artifact.
#[derive(Debug, PartialEq, Eq)]
pub enum FetchStep {
    /// The file is in the cache at `path`: check it, and fetch nothing.
    VerifyCached { path: String },
    /// Fetch `url` into the file `path`, and take its digests on the way.
    Download { url: String, path: String },
}

pub enum FetchStepView {
    VerifyCached { path: Seq<char> },
    Download { url: Seq<char>, path: Seq<char> },
}

impl View for FetchStep {
    type V = FetchStepView;

    open spec fn view(&self) -> FetchStepView {
        match self {
            FetchStep::VerifyCached { path } => FetchStepView::VerifyCached { path: path@ },
            FetchStep::Download { url, path } => FetchStepView::Download {
                url: url@,
                path: path@,
            },
        }
    }
}

/// How the download of an artifact ends.
#[derive(Debug, PartialEq, Eq)]
pub enum FetchEnd<'a> {
    /// The file is good: write it out to disk for good.
    Keep(FetchedArtifact<'a>),
    /// The file is not what was expected: remove it, and fail.
    Discard { remove: String, error: HobFetchError },
}

/// The path of the file of an artifact in the cache: the identity of the
/// artifact in hexadecimal, a hyphen, and the file name.
pub open spec fn cache_path_of(settings: EngineSettingsView, source: ArtifactSourceView) -> Seq<
    char,
> {
    paths::joined(
        settings.cache_path,
        hex_encoded(source.hash_id()) + "-"@ + source.file_name(),
    )
}

/// The error of an artifact whose digests `hashes` are not as expected.
pub open spec fn verification_failed(
    artifact: ArtifactView,
    hashes: Seq<FailedHashView>,
    affected: HobFetchAffectedView,
) -> HobFetchErrorView {
    HobFetchErrorView {
        kind: HobFetchErrorKindView::VerificationFailed { hashes },
        affected: Some(affected),
        artifact,
        inner: None,
    }
}

pub enum FetchEndView {
    Keep(FetchedArtifactView),
    Discard { remove: Seq<char>, error: HobFetchErrorView },
}

impl<'a> View for FetchEnd<'a> {
    type V = FetchEndView;

    open spec fn view(&self) -> FetchEndView {
        match self {
            FetchEnd::Keep(fetched) => FetchEndView::Keep(fetched@),
            FetchEnd::Discard { remove, error } => FetchEndView::Discard {
                remove: remove@,
                error: error@,
            },
        }
    }
}

/// What is to be done first for `artifact`, given whether its file is in the
/// cache: a file that is there is checked, and nothing is fetched.
pub open spec fn first_step(
    settings: EngineSettingsView,
    artifact: ArtifactView,
    cached: bool,
) -> FetchStepView {
    if cached {
        FetchStepView::VerifyCached { path: cache_path_of(settings, artifact.source) }
    } else {
        match artifact.source {
            ArtifactSourceView::Fetch(f) => FetchStepView::Download {
                url: f.url,
                path: cache_path_of(settings, artifact.source),
            },
        }
    }
}

/// The artifact with its file in the cache.
pub open spec fn in_cache(settings: EngineSettingsView, artifact: ArtifactView) -> FetchedArtifactView {
    FetchedArtifactView { artifact, path: cache_path_of(settings, artifact.source) }
}

/// How a fetch ends once the cached file was checked with the result
/// `outcome`: a good file is the artifact's file; a bad file is an error that
/// names the file.
pub open spec fn cached_end(
    settings: EngineSettingsView,
    artifact: ArtifactView,
    outcome: Result<(), Seq<FailedHashView>>,
) -> Result<FetchedArtifactView, HobFetchErrorView> {
    match outcome {
        Ok(_) => Ok(in_cache(settings, artifact)),
        Err(hashes) => Err(
            verification_failed(
                artifact,
                hashes,
                HobFetchAffectedView::Cache(cache_path_of(settings, artifact.source)),
            ),
        ),
    }
}

/// How a fetch ends once the file was downloaded and its digests taken with
/// the result `outcome`: a good file is kept; a bad file is removed, and the
/// fetch fails.
pub open spec fn downloaded_end(
    settings: EngineSettingsView,
    artifact: ArtifactView,
    outcome: Result<(), Seq<FailedHashView>>,
) -> FetchEndView {
    match outcome {
        Ok(_) => FetchEndView::Keep(in_cache(settings, artifact)),
        Err(hashes) => FetchEndView::Discard {
            remove: cache_path_of(settings, artifact.source),
            error: verification_failed(artifact, hashes, HobFetchAffectedView::Fetched),
        },
    }
}

/// The result of a check as it is seen from outside.
pub open spec fn outcome_view(outcome: Result<(), Vec<FailedHash>>) -> Result<
    (),
    Seq<FailedHashView>,
> {
    match outcome {
        Ok(_) => Ok(()),
        Err(hashes) => Err(hashes.deep_view()),
    }
}

/// Decides how artifacts are fetched.
#[derive(Debug, PartialEq, Eq)]
pub struct Fetcher {
    pub settings: Arc<EngineSettings>,
}

impl View for Fetcher {
    type V = EngineSettingsView;

    open spec fn view(&self) -> EngineSettingsView {
        self.settings@
    }
}

impl Fetcher {
    /// A fetcher with the settings `settings`.
    pub fn new(settings: Arc<EngineSettings>) -> (r: Fetcher)
        ensures
            r@ == settings@,
    {
        Fetcher { settings }
    }

    /// The path of the file of `artifact` in the cache.
    pub fn create_artifact_path(&self, artifact: &Artifact) -> (r: String)
        requires
            artifact@.source.hashable(),
        ensures
            r@ == cache_path_of(self@, artifact@.source),
    {
        let name = artifact.file_name();
        let hash = artifact.hash_id();
        let file_name = concat3(hex_encode(hash.as_slice()).as_str(), "-", name);
        paths::join(self.settings.cache_path(), file_name.as_str())
    }

    /// What is to be done first for `artifact`, given whether its file is in
    /// the cache: a file that is there is checked and nothing is fetched.
    pub fn fetch(&self, artifact: &Artifact, cached: bool) -> (r: FetchStep)
        requires
            artifact@.source.hashable(),
        ensures
            r@ == first_step(self@, artifact@, cached),
    {
        let path = self.create_artifact_path(artifact);
        if cached {
            FetchStep::VerifyCached { path }
        } else {
            match &artifact.source {
                ArtifactSource::Fetch(fetch) => FetchStep::Download {
                    url: fetch.url.clone(),
                    path,
                },
            }
        }
    }

    /// How the fetch of `artifact` ends once its cached file was checked with
    /// the result `outcome`: a good file is the artifact's file; a bad file is
    /// an error that names the file, and the file stays where it is.
    pub fn fetch_cached<'a>(
        &self,
        artifact: &'a Artifact,
        outcome: Result<(), Vec<FailedHash>>,
    ) -> (r: Result<FetchedArtifact<'a>, HobFetchError>)
        requires
            artifact@.source.hashable(),
        ensures
            match cached_end(self@, artifact@, outcome_view(outcome)) {
                Ok(fetched) => r matches Ok(f) && f@ == fetched,
                Err(error) => r matches Err(e) && e@ == error,
            },
    {
        let path = self.create_artifact_path(artifact);
        match outcome {
            Err(hashes) => Err(
                HobFetchError {
                    kind: HobFetchErrorKind::VerificationFailed { hashes },
                    affected: Some(HobFetchAffected::Cache(path)),
                    artifact: artifact.duplicate(),
                    inner: None,
                },
            ),
            Ok(()) => Ok(FetchedArtifact { artifact, path }),
        }
    }

    /// How the fetch of `artifact` ends once its file was downloaded and its
    /// digests taken with the result `outcome`: a good file is kept; a bad
    /// file is removed, and the fetch fails.
    pub fn fetch_downloaded<'a>(
        &self,
        artifact: &'a Artifact,
        outcome: Result<(), Vec<FailedHash>>,
    ) -> (r: FetchEnd<'a>)
        requires
            artifact@.source.hashable(),
        ensures
            r@ == downloaded_end(self@, artifact@, outcome_view(outcome)),
    {
        let path = self.create_artifact_path(artifact);
        match outcome {
            Err(hashes) => FetchEnd::Discard {
                remove: path,
                error: HobFetchError {
                    kind: HobFetchErrorKind::VerificationFailed { hashes },
                    affected: Some(HobFetchAffected::Fetched),
                    artifact: artifact.duplicate(),
                    inner: None,
                },
            },
            Ok(()) => FetchEnd::Keep(FetchedArtifact { artifact, path }),
        }
    }

    /// Checks the bytes of a file, given as the chunks in which it was read,
    /// against `verification`. Gives nothing where the file is too long for a
    /// digest to be taken of it.
    pub fn verify_file(chunks: &Vec<Vec<u8>>, verification: &Verification) -> (r: Option<
        Result<(), Vec<FailedHash>>,
    >)
        ensures
            r is Some <==> concatenated(chunks.deep_view()).len() < input_limit(),
            r matches Some(Ok(_)) ==> verified(verification@, concatenated(chunks.deep_view()))
                is Ok,
            r matches Some(Err(failed)) ==> verified(
                verification@,
                concatenated(chunks.deep_view()),
            ) == Err::<(), Seq<FailedHashView>>(failed.deep_view()),
    {
        let mut pool = DigestPool::from_verification(verification);
        let mut i: usize = 0;
        assert(chunks.deep_view().take(0) =~= Seq::empty());
        while i < chunks.len()
            invariant
                i <= chunks.len(),
                pool.well_formed(),
                pool.expected() == expected_digests(verification@),
                pool.fed() == concatenated(chunks.deep_view().take(i as int)),
            decreases chunks.len() - i,
        {
            proof {
                let next = chunks.deep_view().take(i + 1);
                assert(next.drop_last() =~= chunks.deep_view().take(i as int));
                assert(next.last() == chunks@[i as int]@);
            }
            pool.update(chunks[i].as_slice());
            i += 1;
        }
        proof {
            assert(chunks.deep_view().take(i as int) =~= chunks.deep_view());
        }
        pool.check()
    }
}

/// After an artifact was fetched, fetching it again asks for nothing from the
/// network: the file that the first fetch kept is the file that the second
/// one checks, and where that file is good the second fetch gives what the
/// first one gave.
pub proof fn lemma_refetch_uses_cache(settings: EngineSettingsView, artifact: ArtifactView)
    ensures
        first_step(settings, artifact, false) is Download,
        downloaded_end(settings, artifact, Ok(())) is Keep,
        first_step(settings, artifact, true) == (FetchStepView::VerifyCached {
            path: first_step(settings, artifact, false)->Download_path,
        }),
        cached_end(settings, artifact, Ok(())) == Ok::<FetchedArtifactView, HobFetchErrorView>(
            downloaded_end(settings, artifact, Ok(()))->Keep_0,
        ),
{
}

/// A cached file whose digests are not as expected fails the fetch with an
/// error that names the cached file, and nothing is removed; a downloaded
/// file whose digests are not as expected is removed, and the fetch fails
/// with an error that names the fetched file.
pub proof fn lemma_mismatch_policy(
    settings: EngineSettingsView,
    artifact: ArtifactView,
    hashes: Seq<FailedHashView>,
)
    ensures
        cached_end(settings, artifact, Err(hashes)) matches Err(error) && error.affected == Some(
            HobFetchAffectedView::Cache(cache_path_of(settings, artifact.source)),
        ) && error.kind == (HobFetchErrorKindView::VerificationFailed { hashes }),
        downloaded_end(settings, artifact, Err(hashes)) matches FetchEndView::Discard {
            remove,
            error,
        } && remove == cache_path_of(settings, artifact.source) && error.affected == Some(
            HobFetchAffectedView::Fetched,
        ) && error.kind == (HobFetchErrorKindView::VerificationFailed { hashes }),
{
}

/// Taking the digests of a file chunk by chunk is taking them of the whole
/// file: what checking comes to depends on the bytes alone, not on how they
/// are cut into chunks.
pub proof fn lemma_chunks_do_not_matter(
    verification: VerificationView,
    a: Seq<Seq<u8>>,
    b: Seq<Seq<u8>>,
)
    requires
        concatenated(a) == concatenated(b),
    ensures
        verified(verification, concatenated(a)) == verified(verification, concatenated(b)),
        verified(verification, concatenated(seq![concatenated(a)])) == verified(
            verification,
            concatenated(a),
        ),
{
    let whole = seq![concatenated(a)];
    assert(whole.drop_last() =~= Seq::<Seq<u8>>::empty());
    assert(concatenated(whole.drop_last()) =~= Seq::<u8>::empty());
    assert(concatenated(whole) =~= concatenated(a));
}

} // verus!
