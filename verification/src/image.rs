//! The pristine Debian cloud image: which one is used, and when it is
//! downloaded.
use vstd::prelude::*;
use vstd::string::*;

use crate::foreign::{
    hex_encode, lower_hex, readable, sha512_absorbed, sha512_digest, sha512_finalize, sha512_new,
    sha512_update, text_of,
};
use crate::path::UnixPath;
use crate::paths::{below, cache_dir_of, Paths};
use crate::text::{
    chars_of, is_white, lines, lines_of, pieces, reads, same_str, string_of, sub_text, text_view, trim,
    trimmed, white,
};

verus! {

/// The list of checksums.
pub const SUMS_URL: &'static str =
    "https://cloud.debian.org/images/cloud/trixie/latest/SHA512SUMS";

/// The archive with the disk image.
pub const TARBALL_URL: &'static str =
    "https://cloud.debian.org/images/cloud/trixie/latest/debian-13-genericcloud-arm64.tar.xz";

pub const TARBALL: &'static str = "debian-13-genericcloud-arm64.tar.xz";

/// An unpacked Debian raw disk image.
#[derive(Debug)]
pub struct DebianImage {
    pub path: UnixPath,
    /// SHA-512 of the tarball it was unpacked from.
    pub sha512: String,
}

/// An unpacked Debian raw disk image, as a mathematical value.
pub struct DebianImageView {
    pub path: Seq<u8>,
    pub sha512: Seq<char>,
}

impl View for DebianImage {
    type V = DebianImageView;

    open spec fn view(&self) -> DebianImageView {
        DebianImageView { path: self.path@, sha512: self.sha512@ }
    }
}

/// The directory of downloaded images.
pub open spec fn downloads_dir_of(home: Seq<u8>) -> Seq<u8> {
    below(cache_dir_of(home), "downloads")
}

/// The unpacked disk image.
pub open spec fn raw_of(home: Seq<u8>) -> Seq<u8> {
    below(downloads_dir_of(home), "debian-13-genericcloud-arm64.raw")
}

/// The files of the Debian image.
#[derive(Debug)]
pub struct ImageFiles {
    pub dir: UnixPath,
    pub tarball: UnixPath,
    /// Where the tarball is downloaded to before it is complete.
    pub part: UnixPath,
    pub raw: UnixPath,
    /// Records the checksum of the tarball `raw` was unpacked from.
    pub stamp: UnixPath,
    pub unpack_dir: UnixPath,
    /// The disk image in the unpacked tarball.
    pub unpacked: UnixPath,
}

impl ImageFiles {
    pub fn new(paths: &Paths) -> (f: Self)
        ensures
            f.dir@ == downloads_dir_of(paths@),
            f.tarball@ == below(downloads_dir_of(paths@), TARBALL),
            f.part@ == below(downloads_dir_of(paths@), "debian-13-genericcloud-arm64.tar.part"),
            f.raw@ == raw_of(paths@),
            f.stamp@ == below(
                downloads_dir_of(paths@),
                "debian-13-genericcloud-arm64.raw.sha512",
            ),
            f.unpack_dir@ == below(downloads_dir_of(paths@), "unpack"),
            f.unpacked@ == below(below(downloads_dir_of(paths@), "unpack"), "disk.raw"),
    {
        let dir = paths.downloads_dir();
        let unpack_dir = dir.join_text("unpack");
        ImageFiles {
            tarball: dir.join_text(TARBALL),
            part: dir.join_text("debian-13-genericcloud-arm64.tar.part"),
            raw: dir.join_text("debian-13-genericcloud-arm64.raw"),
            stamp: dir.join_text("debian-13-genericcloud-arm64.raw.sha512"),
            unpacked: unpack_dir.join_text("disk.raw"),
            unpack_dir,
            dir,
        }
    }
}

// ---------------------------------------------------------------------------
// The list of checksums
// ---------------------------------------------------------------------------

/// How many characters of `s` come before the first white space; all of them
/// if there is none.
pub open spec fn find_white(s: Seq<char>) -> nat
    decreases s.len(),
{
    if s.len() == 0 || is_white(s[0]) {
        0
    } else {
        1 + find_white(s.skip(1))
    }
}

/// The checksum that `line` gives for the file `name`.
pub open spec fn line_sum(line: Seq<char>, name: Seq<char>) -> Option<Seq<char>> {
    let at = find_white(line) as int;
    if at < line.len() && trim(line.skip(at + 1)) == name {
        Some(line.take(at))
    } else {
        None
    }
}

/// The checksum that the first of `list` that has one for `name` gives.
pub open spec fn first_sum(list: Seq<Seq<char>>, name: Seq<char>) -> Option<Seq<char>>
    decreases list.len(),
{
    if list.len() == 0 {
        None
    } else {
        match line_sum(list[0], name) {
            Some(sum) => Some(sum),
            None => first_sum(list.skip(1), name),
        }
    }
}

/// The checksum that a list gives for the file `name`.
pub open spec fn listed_sum(text: Seq<char>, name: Seq<char>) -> Option<Seq<char>> {
    first_sum(lines(text), name)
}

pub proof fn lemma_find_white(s: Seq<char>, at: int)
    requires
        0 <= at <= s.len(),
        forall|i: int| 0 <= i < at ==> !is_white(#[trigger] s[i]),
        at < s.len() ==> is_white(s[at]),
    ensures
        find_white(s) == at,
    decreases s.len(),
{
    if at > 0 {
        assert(!is_white(s[0]));
        let rest = s.skip(1);
        assert forall|i: int| 0 <= i < at - 1 implies !is_white(#[trigger] rest[i]) by {
            assert(rest[i] == s[i + 1]);
        }
        lemma_find_white(rest, at - 1);
    }
}

fn sum_in_line(line: &Vec<char>, name: &str) -> (r: Option<String>)
    ensures
        text_view(r) == line_sum(line@, name@),
{
    let mut at: usize = 0;
    while at < line.len() && !white(line[at])
        invariant
            at <= line@.len(),
            forall|i: int| 0 <= i < at ==> !is_white(#[trigger] line@[i]),
        decreases line.len() - at,
    {
        at += 1;
    }
    proof {
        lemma_find_white(line@, at as int);
    }
    if at >= line.len() {
        return None;
    }
    let rest = sub_text(line.as_slice(), at + 1, line.len());
    assert(rest@ == line@.skip(at + 1));
    if !reads(trimmed(rest.as_slice()).as_slice(), name) {
        return None;
    }
    let sum = sub_text(line.as_slice(), 0, at);
    assert(sum@ == line@.take(at as int));
    Some(string_of(sum.as_slice()))
}

/// Looks up the checksum of the file `name` in a list.
pub fn find_sum(text: &str, name: &str) -> (r: Option<String>)
    ensures
        text_view(r) == listed_sum(text@, name@),
{
    let chars = chars_of(text);
    let list = lines_of(chars.as_slice());
    let ghost all = pieces(list@);
    let mut i: usize = 0;
    assert(all.skip(0) == all);
    while i < list.len()
        invariant
            i <= list@.len(),
            all == pieces(list@),
            all == lines(text@),
            first_sum(all, name@) == first_sum(all.skip(i as int), name@),
        decreases list.len() - i,
    {
        assert(all.skip(i as int)[0] == list@[i as int]@);
        assert(all.skip(i as int).skip(1) == all.skip(i + 1));
        match sum_in_line(&list[i], name) {
            Some(sum) => {
                return Some(sum);
            },
            None => {},
        }
        i += 1;
    }
    None
}

/// Why there is no Debian image.
#[derive(Debug)]
pub enum ImageError {
    /// The list of checksums could not be fetched, for this reason.
    Unreachable(String),
    /// The list doesn't have the tarball.
    NotListed,
    /// The downloaded tarball is not the listed one.
    Mismatch { expected: String, actual: String },
    /// The tarball has no disk image.
    NoDisk,
}

/// Why there is no Debian image, as a mathematical value.
pub enum ImageFault {
    Unreachable(Seq<char>),
    NotListed,
    Mismatch { expected: Seq<char>, actual: Seq<char> },
    NoDisk,
}

impl View for ImageError {
    type V = ImageFault;

    open spec fn view(&self) -> ImageFault {
        match self {
            ImageError::Unreachable(reason) => ImageFault::Unreachable(reason@),
            ImageError::NotListed => ImageFault::NotListed,
            ImageError::Mismatch { expected, actual } => ImageFault::Mismatch {
                expected: expected@,
                actual: actual@,
            },
            ImageError::NoDisk => ImageFault::NoDisk,
        }
    }
}

/// The words for a fault.
pub open spec fn image_fault_text(f: ImageFault) -> Seq<char> {
    match f {
        ImageFault::Unreachable(_) => "fetching "@ + SUMS_URL@,
        ImageFault::NotListed => TARBALL@ + " is not listed in "@ + SUMS_URL@,
        ImageFault::Mismatch { expected, actual } => "checksum mismatch for "@ + TARBALL@
            + ": expected "@ + expected + ", got "@ + actual,
        ImageFault::NoDisk => "the image archive did not contain disk.raw"@,
    }
}

impl ImageError {
    /// What went wrong, for people.
    pub fn message(&self) -> (s: String)
        ensures
            s@ == image_fault_text(self@),
    {
        match self {
            ImageError::Unreachable(_) => "fetching ".to_owned().concat(SUMS_URL),
            ImageError::NotListed => TARBALL.to_owned().concat(" is not listed in ").concat(
                SUMS_URL,
            ),
            ImageError::Mismatch { expected, actual } => "checksum mismatch for ".to_owned().concat(
                TARBALL,
            ).concat(": expected ").concat(expected.as_str()).concat(", got ").concat(
                actual.as_str(),
            ),
            ImageError::NoDisk => "the image archive did not contain disk.raw".to_owned(),
        }
    }
}

/// The expected checksum, given what fetching the list gave.
pub open spec fn expected_sum(sums: Result<Seq<u8>, Seq<char>>) -> Result<Seq<char>, ImageFault> {
    match sums {
        Err(reason) => Err(ImageFault::Unreachable(reason)),
        Ok(bytes) => match listed_sum(text_of(bytes), TARBALL@) {
            Some(sum) => Ok(sum),
            None => Err(ImageFault::NotListed),
        },
    }
}

/// The checksum that the tarball should have, given the list.
pub fn fetch_checksum(sums: Result<Vec<u8>, String>) -> (r: Result<String, ImageError>)
    ensures
        (match r {
            Ok(sum) => Ok(sum@),
            Err(error) => Err(error@),
        }) == expected_sum(
            match sums {
                Ok(bytes) => Ok(bytes@),
                Err(reason) => Err(reason@),
            },
        ),
{
    match sums {
        Err(reason) => Err(ImageError::Unreachable(reason)),
        Ok(bytes) => {
            let text = readable(bytes.as_slice());
            match find_sum(text.as_str(), TARBALL) {
                Some(sum) => Ok(sum),
                None => Err(ImageError::NotListed),
            }
        },
    }
}

// ---------------------------------------------------------------------------
// Hashing
// ---------------------------------------------------------------------------

/// The SHA-512 of a file that is read piece by piece.
pub struct FileHash {
    pub hasher: sha2::Sha512,
}

impl View for FileHash {
    type V = Seq<u8>;

    /// What was read so far.
    open spec fn view(&self) -> Seq<u8> {
        sha512_absorbed(self.hasher)
    }
}

impl FileHash {
    pub fn new() -> (h: Self)
        ensures
            h@ == Seq::<u8>::empty(),
    {
        FileHash { hasher: sha512_new() }
    }

    /// Takes in the next piece.
    pub fn update(&mut self, piece: &[u8])
        ensures
            final(self)@ == old(self)@ + piece@,
    {
        sha512_update(&mut self.hasher, piece);
    }

    /// The checksum of all pieces together, in hex.
    pub fn finish(self) -> (s: String)
        ensures
            s@ == lower_hex(sha512_digest(self@)),
            s@.len() == 128,
    {
        let digest = sha512_finalize(self.hasher);
        hex_encode(digest.as_slice())
    }
}

// ---------------------------------------------------------------------------
// Getting the image
// ---------------------------------------------------------------------------

/// What is to be done next to get the image.
#[derive(Clone, Copy, Debug, PartialEq, Eq, Structural)]
pub enum Want {
    /// Fetch the list of checksums.
    Sums,
    /// Look for the cached image and its stamp.
    Cache,
    /// Hash the tarball, if there is one.
    Hash,
    /// Download the tarball.
    Download,
    /// Hash the tarball that was downloaded.
    Rehash,
    /// Delete the tarball.
    Remove,
    /// Unpack the tarball.
    Unpack,
    /// Deallocate the zero blocks of the unpacked image, put it in its place
    /// and record its checksum.
    Install,
}

/// What became of it.
#[derive(Debug)]
pub enum Told {
    Sums(Result<Vec<u8>, String>),
    /// The stamp, if it can be read, and whether the image is there.
    Cache(Option<String>, bool),
    /// The checksum of the tarball, if there is one.
    Hash(Option<String>),
    Downloaded,
    Removed,
    /// Whether the tarball had a disk image.
    Unpacked(bool),
    Installed,
}

/// What became of it, as a mathematical value.
pub enum ToldView {
    Sums(Result<Seq<u8>, Seq<char>>),
    Cache(Option<Seq<char>>, bool),
    Hash(Option<Seq<char>>),
    Downloaded,
    Removed,
    Unpacked(bool),
    Installed,
}

impl View for Told {
    type V = ToldView;

    open spec fn view(&self) -> ToldView {
        match self {
            Told::Sums(Ok(bytes)) => ToldView::Sums(Ok(bytes@)),
            Told::Sums(Err(reason)) => ToldView::Sums(Err(reason@)),
            Told::Cache(stamp, raw) => ToldView::Cache(text_view(*stamp), *raw),
            Told::Hash(sum) => ToldView::Hash(text_view(*sum)),
            Told::Downloaded => ToldView::Downloaded,
            Told::Removed => ToldView::Removed,
            Told::Unpacked(disk) => ToldView::Unpacked(*disk),
            Told::Installed => ToldView::Installed,
        }
    }
}

/// How far getting the image has come.
#[derive(Debug)]
pub enum Phase {
    Sums,
    /// The expected checksum, or why there is none.
    Cache(Result<String, ImageError>),
    Check(String),
    Download(String),
    Recheck(String),
    Remove { expected: String, actual: String },
    Unpack(String),
    Install(String),
}

/// How far getting the image has come, as a mathematical value.
pub enum PhaseView {
    Sums,
    Cache(Result<Seq<char>, ImageFault>),
    Check(Seq<char>),
    Download(Seq<char>),
    Recheck(Seq<char>),
    Remove { expected: Seq<char>, actual: Seq<char> },
    Unpack(Seq<char>),
    Install(Seq<char>),
}

impl View for Phase {
    type V = PhaseView;

    open spec fn view(&self) -> PhaseView {
        match self {
            Phase::Sums => PhaseView::Sums,
            Phase::Cache(Ok(expected)) => PhaseView::Cache(Ok(expected@)),
            Phase::Cache(Err(error)) => PhaseView::Cache(Err(error@)),
            Phase::Check(expected) => PhaseView::Check(expected@),
            Phase::Download(expected) => PhaseView::Download(expected@),
            Phase::Recheck(expected) => PhaseView::Recheck(expected@),
            Phase::Remove { expected, actual } => PhaseView::Remove {
                expected: expected@,
                actual: actual@,
            },
            Phase::Unpack(expected) => PhaseView::Unpack(expected@),
            Phase::Install(expected) => PhaseView::Install(expected@),
        }
    }
}

/// Where getting the image stands.
#[derive(Debug)]
pub enum Progress {
    /// There is more to do.
    Next(Phase),
    /// This is the image.
    Ready(DebianImage),
    /// This is the cached image; whether there is a newer one is not known.
    Unchecked(DebianImage),
    Failed(ImageError),
}

/// Where getting the image stands, as a mathematical value.
pub enum ProgressView {
    Next(PhaseView),
    Ready(DebianImageView),
    Unchecked(DebianImageView),
    Failed(ImageFault),
}

impl View for Progress {
    type V = ProgressView;

    open spec fn view(&self) -> ProgressView {
        match self {
            Progress::Next(phase) => ProgressView::Next(phase@),
            Progress::Ready(image) => ProgressView::Ready(image@),
            Progress::Unchecked(image) => ProgressView::Unchecked(image@),
            Progress::Failed(error) => ProgressView::Failed(error@),
        }
    }
}

/// The warning that goes with an image that could not be checked.
pub const UNCHECKED: &'static str =
    "warning: could not check for a newer Debian image; using the cached one";

/// What is to be done in a phase.
pub open spec fn want_of(phase: PhaseView) -> Want {
    match phase {
        PhaseView::Sums => Want::Sums,
        PhaseView::Cache(_) => Want::Cache,
        PhaseView::Check(_) => Want::Hash,
        PhaseView::Download(_) => Want::Download,
        PhaseView::Recheck(_) => Want::Rehash,
        PhaseView::Remove { .. } => Want::Remove,
        PhaseView::Unpack(_) => Want::Unpack,
        PhaseView::Install(_) => Want::Install,
    }
}

/// The cached image, if there is one.
pub open spec fn cached(raw: Seq<u8>, stamp: Option<Seq<char>>, there: bool) -> Option<
    DebianImageView,
> {
    if stamp is Some && there {
        Some(DebianImageView { path: raw, sha512: trim(stamp->0) })
    } else {
        None
    }
}

/// Where things stand after `told` in `phase`, the unpacked image being
/// `raw`. News that was not asked for changes nothing.
pub open spec fn after(raw: Seq<u8>, phase: PhaseView, told: ToldView) -> ProgressView {
    match (phase, told) {
        (PhaseView::Sums, ToldView::Sums(sums)) => ProgressView::Next(
            PhaseView::Cache(expected_sum(sums)),
        ),
        (PhaseView::Cache(Err(fault)), ToldView::Cache(stamp, there)) => match cached(
            raw,
            stamp,
            there,
        ) {
            Some(image) => ProgressView::Unchecked(image),
            None => ProgressView::Failed(fault),
        },
        (PhaseView::Cache(Ok(expected)), ToldView::Cache(stamp, there)) => match cached(
            raw,
            stamp,
            there,
        ) {
            Some(image) => if image.sha512 == expected {
                ProgressView::Ready(image)
            } else {
                ProgressView::Next(PhaseView::Check(expected))
            },
            None => ProgressView::Next(PhaseView::Check(expected)),
        },
        (PhaseView::Check(expected), ToldView::Hash(sum)) => if sum == Some(expected) {
            ProgressView::Next(PhaseView::Unpack(expected))
        } else {
            ProgressView::Next(PhaseView::Download(expected))
        },
        (PhaseView::Download(expected), ToldView::Downloaded) => ProgressView::Next(
            PhaseView::Recheck(expected),
        ),
        (PhaseView::Recheck(expected), ToldView::Hash(Some(actual))) => if actual == expected {
            ProgressView::Next(PhaseView::Unpack(expected))
        } else {
            ProgressView::Next(PhaseView::Remove { expected, actual })
        },
        (PhaseView::Remove { expected, actual }, ToldView::Removed) => ProgressView::Failed(
            ImageFault::Mismatch { expected, actual },
        ),
        (PhaseView::Unpack(expected), ToldView::Unpacked(disk)) => if disk {
            ProgressView::Next(PhaseView::Install(expected))
        } else {
            ProgressView::Failed(ImageFault::NoDisk)
        },
        (PhaseView::Install(expected), ToldView::Installed) => ProgressView::Ready(
            DebianImageView { path: raw, sha512: expected },
        ),
        _ => ProgressView::Next(phase),
    }
}

fn cached_image(files: &ImageFiles, stamp: Option<String>, there: bool) -> (r: Option<DebianImage>)
    ensures
        match r {
            Some(image) => cached(files.raw@, text_view(stamp), there) == Some(image@),
            None => cached(files.raw@, text_view(stamp), there) is None,
        },
{
    match stamp {
        None => None,
        Some(stamp) => {
            if !there {
                return None;
            }
            let chars = chars_of(stamp.as_str());
            let sha512 = string_of(trimmed(chars.as_slice()).as_slice());
            Some(DebianImage { path: files.raw.clone(), sha512 })
        },
    }
}

impl Phase {
    /// What is to be done.
    pub fn want(&self) -> (w: Want)
        ensures
            w == want_of(self@),
    {
        match self {
            Phase::Sums => Want::Sums,
            Phase::Cache(_) => Want::Cache,
            Phase::Check(_) => Want::Hash,
            Phase::Download(_) => Want::Download,
            Phase::Recheck(_) => Want::Rehash,
            Phase::Remove { .. } => Want::Remove,
            Phase::Unpack(_) => Want::Unpack,
            Phase::Install(_) => Want::Install,
        }
    }
}

/// The first thing to do to get the unpacked, checksum-verified Debian raw
/// disk image, which is downloaded if the cached copy is missing or outdated.
/// The cached image has to do when the list of checksums can't be fetched
/// (e.g. offline).
pub fn debian_image() -> (phase: Phase)
    ensures
        phase@ == PhaseView::Sums,
{
    Phase::Sums
}

/// Where getting the image stands after `told`.
pub fn advance(files: &ImageFiles, phase: Phase, told: Told) -> (p: Progress)
    ensures
        p@ == after(files.raw@, phase@, told@),
{
    match (phase, told) {
        (Phase::Sums, Told::Sums(sums)) => Progress::Next(Phase::Cache(fetch_checksum(sums))),
        (Phase::Cache(Err(error)), Told::Cache(stamp, there)) => match cached_image(
            files,
            stamp,
            there,
        ) {
            Some(image) => Progress::Unchecked(image),
            None => Progress::Failed(error),
        },
        (Phase::Cache(Ok(expected)), Told::Cache(stamp, there)) => match cached_image(
            files,
            stamp,
            there,
        ) {
            Some(image) => if same_str(image.sha512.as_str(), expected.as_str()) {
                Progress::Ready(image)
            } else {
                Progress::Next(Phase::Check(expected))
            },
            None => Progress::Next(Phase::Check(expected)),
        },
        (Phase::Check(expected), Told::Hash(sum)) => {
            let good = match &sum {
                Some(sum) => same_str(sum.as_str(), expected.as_str()),
                None => false,
            };
            if good {
                Progress::Next(Phase::Unpack(expected))
            } else {
                Progress::Next(Phase::Download(expected))
            }
        },
        (Phase::Download(expected), Told::Downloaded) => Progress::Next(Phase::Recheck(expected)),
        (Phase::Recheck(expected), Told::Hash(Some(actual))) => if same_str(
            actual.as_str(),
            expected.as_str(),
        ) {
            Progress::Next(Phase::Unpack(expected))
        } else {
            Progress::Next(Phase::Remove { expected, actual })
        },
        (Phase::Remove { expected, actual }, Told::Removed) => Progress::Failed(
            ImageError::Mismatch { expected, actual },
        ),
        (Phase::Unpack(expected), Told::Unpacked(disk)) => if disk {
            Progress::Next(Phase::Install(expected))
        } else {
            Progress::Failed(ImageError::NoDisk)
        },
        (Phase::Install(expected), Told::Installed) => Progress::Ready(
            DebianImage { path: files.raw.clone(), sha512: expected },
        ),
        (phase, _) => Progress::Next(phase),
    }
}

// ---------------------------------------------------------------------------
// Laws
// ---------------------------------------------------------------------------

/// Where things stand after the first `n` of `news`.
pub open spec fn stand(raw: Seq<u8>, news: Seq<ToldView>, n: nat) -> ProgressView
    decreases n,
{
    if n == 0 {
        ProgressView::Next(PhaseView::Sums)
    } else {
        match stand(raw, news, (n - 1) as nat) {
            ProgressView::Next(phase) => after(raw, phase, news[n - 1]),
            other => other,
        }
    }
}

/// Whether the list of checksums was fetched and gave `sum`.
pub open spec fn listed_by(news: Seq<ToldView>, sum: Seq<char>) -> bool {
    exists|i: int|
        0 <= i < news.len() && (#[trigger] news[i]) is Sums && expected_sum(news[i]->Sums_0) == Ok::<
            Seq<char>,
            ImageFault,
        >(sum)
}

/// Whether the list of checksums was asked for in vain, with this fault.
pub open spec fn not_listed_by(news: Seq<ToldView>, fault: ImageFault) -> bool {
    exists|i: int|
        0 <= i < news.len() && (#[trigger] news[i]) is Sums && expected_sum(news[i]->Sums_0) == Err::<
            Seq<char>,
            ImageFault,
        >(fault)
}

/// Whether the tarball was hashed and had the checksum `sum`.
pub open spec fn hashed_to(news: Seq<ToldView>, sum: Seq<char>) -> bool {
    exists|i: int| 0 <= i < news.len() && #[trigger] news[i] == ToldView::Hash(Some(sum))
}

/// Whether the cached image `image` was seen.
pub open spec fn seen_cached(news: Seq<ToldView>, image: DebianImageView) -> bool {
    exists|i: int|
        0 <= i < news.len() && (#[trigger] news[i]) is Cache && cached(
            image.path,
            news[i]->Cache_0,
            news[i]->Cache_1,
        ) == Some(image)
}

/// What is known in each phase.
spec fn known(raw: Seq<u8>, news: Seq<ToldView>, p: ProgressView) -> bool {
    match p {
        ProgressView::Next(PhaseView::Sums) => true,
        ProgressView::Next(PhaseView::Cache(Ok(sum))) => listed_by(news, sum),
        ProgressView::Next(PhaseView::Cache(Err(fault))) => not_listed_by(news, fault),
        ProgressView::Next(PhaseView::Check(sum)) => listed_by(news, sum),
        ProgressView::Next(PhaseView::Download(sum)) => listed_by(news, sum),
        ProgressView::Next(PhaseView::Recheck(sum)) => listed_by(news, sum),
        ProgressView::Next(PhaseView::Remove { expected, actual }) => listed_by(news, expected)
            && hashed_to(news, actual) && actual != expected,
        ProgressView::Next(PhaseView::Unpack(sum)) => listed_by(news, sum) && hashed_to(news, sum),
        ProgressView::Next(PhaseView::Install(sum)) => listed_by(news, sum) && hashed_to(news, sum),
        ProgressView::Ready(image) => image.path == raw && listed_by(news, image.sha512) && (
        seen_cached(news, image) || hashed_to(news, image.sha512)),
        ProgressView::Unchecked(image) => image.path == raw && seen_cached(news, image) && exists|
            fault: ImageFault,
        | not_listed_by(news, fault),
        ProgressView::Failed(_) => true,
    }
}

proof fn lemma_known(raw: Seq<u8>, news: Seq<ToldView>, n: nat)
    requires
        n <= news.len(),
    ensures
        known(raw, news, stand(raw, news, n)),
    decreases n,
{
    if n > 0 {
        lemma_known(raw, news, (n - 1) as nat);
        let told = news[n - 1];
        let before = stand(raw, news, (n - 1) as nat);
        match before {
            ProgressView::Next(phase) => {
                match (phase, told) {
                    (PhaseView::Cache(Err(fault)), ToldView::Cache(stamp, there)) => {
                        assert(news[n - 1] is Cache);
                        assert(not_listed_by(news, fault));
                    },
                    _ => {},
                }
            },
            _ => {},
        }
    }
}

/// An image is only used with its checksum known: it was unpacked from a
/// tarball with the listed checksum, by an earlier run or this one, or it is
/// the cached one because the list could not be had.
pub proof fn law_image_is_verified(raw: Seq<u8>, news: Seq<ToldView>)
    ensures
        match stand(raw, news, news.len()) {
            ProgressView::Ready(image) => image.path == raw && listed_by(news, image.sha512) && (
            seen_cached(news, image) || hashed_to(news, image.sha512)),
            ProgressView::Unchecked(image) => image.path == raw && seen_cached(news, image)
                && exists|fault: ImageFault| not_listed_by(news, fault),
            _ => true,
        },
{
    lemma_known(raw, news, news.len());
}

/// A tarball whose checksum is not the listed one is deleted and never
/// unpacked: the only way on is to delete it, and then to fail.
pub proof fn law_mismatch_fails(raw: Seq<u8>, expected: Seq<char>, actual: Seq<char>)
    requires
        actual != expected,
    ensures
        after(raw, PhaseView::Recheck(expected), ToldView::Hash(Some(actual)))
            == ProgressView::Next(PhaseView::Remove { expected, actual }),
        want_of(PhaseView::Remove { expected, actual }) == Want::Remove,
        after(raw, PhaseView::Remove { expected, actual }, ToldView::Removed)
            == ProgressView::Failed(ImageFault::Mismatch { expected, actual }),
{
}

} // verus!
