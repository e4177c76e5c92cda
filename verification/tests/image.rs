use sendit::disk::{allocated, grow_disk, Hole, ZeroRuns, BLOCK};
use sendit::image::{
    advance, debian_image, find_sum, FileHash, ImageFiles, Phase, Progress, Told, Want, SUMS_URL,
    TARBALL, TARBALL_URL,
};
use sendit::path::UnixPath;
use sendit::paths::Paths;
use sendit::size::ByteSize;

/// The holes of a file with these contents.
fn holes(data: &[u8]) -> Vec<Hole> {
    let mut runs = ZeroRuns::new();
    let mut holes = Vec::new();
    let mut at = 0;
    loop {
        let block = &data[at..data.len().min(at + BLOCK)];
        holes.extend(runs.step(block));
        if block.len() < BLOCK {
            return holes;
        }
        at += BLOCK;
    }
}

#[test]
fn punches_zero_blocks() {
    let mut data = vec![0u8; 4 << 20];
    data[100] = 1;
    data[3 << 20] = 2;
    data.extend_from_slice(&[0; 1000]); // partial tail block

    let holes = holes(&data);
    // Writing zeros where the holes are leaves the file as it was.
    let mut punched = data.clone();
    for hole in &holes {
        punched[hole.start as usize..(hole.start + hole.len) as usize].fill(0);
    }
    assert_eq!(punched, data);
    let allocated = data.len() as u64 - holes.iter().map(|hole| hole.len).sum::<u64>();
    assert!(allocated <= 256 << 10, "allocated {allocated} bytes");
    let block = BLOCK as u64;
    assert_eq!(
        holes,
        [
            Hole {
                start: block,
                len: (3 << 20) - block
            },
            Hole {
                start: (3 << 20) + block,
                len: (1 << 20) - block
            },
        ]
    );
}

#[test]
fn only_whole_zero_blocks_are_holes() {
    assert_eq!(holes(&[]), []);
    assert_eq!(holes(&vec![0; BLOCK - 1]), []);
    assert_eq!(
        holes(&vec![0; BLOCK]),
        [Hole {
            start: 0,
            len: BLOCK as u64
        }]
    );
    let mut data = vec![0; 2 * BLOCK];
    data[BLOCK - 1] = 1;
    data[2 * BLOCK - 1] = 1;
    assert_eq!(holes(&data), []);
}

#[test]
fn disks_only_grow() {
    assert_eq!(grow_disk(10, ByteSize(20)), Some(20));
    assert_eq!(grow_disk(20, ByteSize(20)), None);
    assert_eq!(grow_disk(30, ByteSize(20)), None);
}

#[test]
fn disks_take_up_their_blocks() {
    assert_eq!(allocated(Some(8)), ByteSize(4096));
    assert_eq!(allocated(None), ByteSize(0));
}

fn files() -> ImageFiles {
    ImageFiles::new(&Paths::new(UnixPath::from_text("/home/me")))
}

#[test]
fn files_are_in_the_downloads() {
    let files = files();
    let dir = "/home/me/.cache/sendit/downloads";
    let name = "debian-13-genericcloud-arm64";
    assert_eq!(files.dir.display(), dir);
    assert_eq!(files.tarball.display(), format!("{dir}/{name}.tar.xz"));
    assert_eq!(files.part.display(), format!("{dir}/{name}.tar.part"));
    assert_eq!(files.raw.display(), format!("{dir}/{name}.raw"));
    assert_eq!(files.stamp.display(), format!("{dir}/{name}.raw.sha512"));
    assert_eq!(files.unpack_dir.display(), format!("{dir}/unpack"));
    assert_eq!(files.unpacked.display(), format!("{dir}/unpack/disk.raw"));
    assert_eq!(TARBALL, format!("{name}.tar.xz"));
    let url = "https://cloud.debian.org/images/cloud/trixie/latest";
    assert_eq!(TARBALL_URL, format!("{url}/{name}.tar.xz"));
    assert_eq!(SUMS_URL, format!("{url}/SHA512SUMS"));
}

fn sums(sum: &str) -> Told {
    let text = format!("0000  other.tar.xz\n{sum}  {TARBALL}\n1111  {TARBALL}\n");
    Told::Sums(Ok(text.into_bytes()))
}

fn cache(stamp: Option<&str>, raw: bool) -> Told {
    Told::Cache(stamp.map(str::to_string), raw)
}

fn hash(sum: Option<&str>) -> Told {
    Told::Hash(sum.map(str::to_string))
}

fn next(phase: Phase, told: Told) -> Phase {
    match advance(&files(), phase, told) {
        Progress::Next(phase) => phase,
        other => panic!("{other:?}"),
    }
}

fn failure(phase: Phase, told: Told) -> String {
    match advance(&files(), phase, told) {
        Progress::Failed(error) => error.message(),
        other => panic!("{other:?}"),
    }
}

#[test]
fn a_current_image_is_used_as_it_is() {
    let phase = debian_image();
    assert_eq!(phase.want(), Want::Sums);
    let phase = next(phase, sums("abcd"));
    assert_eq!(phase.want(), Want::Cache);
    match advance(&files(), phase, cache(Some("abcd\n"), true)) {
        Progress::Ready(image) => {
            assert_eq!(image.path, files().raw);
            assert_eq!(image.sha512, "abcd");
        }
        other => panic!("{other:?}"),
    }
}

#[test]
fn an_outdated_image_is_downloaded_and_checked() {
    let phase = next(next(debian_image(), sums("abcd")), cache(Some("old"), true));
    assert_eq!(phase.want(), Want::Hash);
    let phase = next(phase, hash(Some("old")));
    assert_eq!(phase.want(), Want::Download);
    let phase = next(phase, Told::Downloaded);
    assert_eq!(phase.want(), Want::Rehash);
    let phase = next(phase, hash(Some("abcd")));
    assert_eq!(phase.want(), Want::Unpack);
    let phase = next(phase, Told::Unpacked(true));
    assert_eq!(phase.want(), Want::Install);
    match advance(&files(), phase, Told::Installed) {
        Progress::Ready(image) => assert_eq!(image.sha512, "abcd"),
        other => panic!("{other:?}"),
    }
}

#[test]
fn a_good_tarball_is_not_downloaded_again() {
    let phase = next(next(debian_image(), sums("abcd")), cache(Some("abcd"), false));
    assert_eq!(next(phase, hash(Some("abcd"))).want(), Want::Unpack);
    let phase = next(next(debian_image(), sums("abcd")), cache(None, true));
    assert_eq!(next(phase, hash(None)).want(), Want::Download);
}

#[test]
fn a_bad_tarball_is_deleted() {
    let phase = next(next(debian_image(), sums("abcd")), cache(None, false));
    let phase = next(next(phase, hash(None)), Told::Downloaded);
    let phase = next(phase, hash(Some("beef")));
    assert_eq!(phase.want(), Want::Remove);
    assert_eq!(
        failure(phase, Told::Removed),
        "checksum mismatch for debian-13-genericcloud-arm64.tar.xz: expected abcd, got beef"
    );
}

#[test]
fn the_cached_image_has_to_do_offline() {
    let offline = || Told::Sums(Err("curl failed".to_string()));
    let phase = next(debian_image(), offline());
    assert_eq!(phase.want(), Want::Cache);
    match advance(&files(), phase, cache(Some(" old "), true)) {
        Progress::Unchecked(image) => assert_eq!(image.sha512, "old"),
        other => panic!("{other:?}"),
    }
    let phase = next(debian_image(), offline());
    assert_eq!(
        failure(phase, cache(Some("old"), false)),
        format!("fetching {SUMS_URL}")
    );
    let phase = next(debian_image(), Told::Sums(Ok(b"abcd  other\n".to_vec())));
    assert_eq!(
        failure(phase, cache(None, true)),
        format!("{TARBALL} is not listed in {SUMS_URL}")
    );
}

#[test]
fn an_archive_needs_a_disk() {
    let phase = next(next(debian_image(), sums("abcd")), cache(None, false));
    let phase = next(phase, hash(Some("abcd")));
    assert_eq!(
        failure(phase, Told::Unpacked(false)),
        "the image archive did not contain disk.raw"
    );
    // What was not asked for changes nothing.
    let phase = next(debian_image(), Told::Installed);
    assert_eq!(phase.want(), Want::Sums);
}

#[test]
fn finds_sums_in_a_list() {
    let text = "a1 *x\r\nb2\tfile name \nc3  x\n  x\nd4";
    assert_eq!(find_sum(text, "x").as_deref(), Some("c3"));
    assert_eq!(find_sum(text, "file name").as_deref(), Some("b2"));
    assert_eq!(find_sum(text, "*x").as_deref(), Some("a1"));
    assert_eq!(find_sum(text, "d4"), None);
    assert_eq!(find_sum("\u{2003}x", "x").as_deref(), Some(""));
    // Lists that are not UTF-8 can still be read.
    let mut bytes = b"\xff\xfe junk\n".to_vec();
    bytes.extend_from_slice(format!("abcd  {TARBALL}\n").as_bytes());
    let phase = next(debian_image(), Told::Sums(Ok(bytes)));
    assert!(matches!(phase, Phase::Cache(Ok(sum)) if sum == "abcd"));
}

#[test]
fn hashes_pieces_like_the_whole() {
    let expected = "ddaf35a193617abacc417349ae20413112e6fa4e89a97ea20a9eeee64b55d39a\
                    2192992a274fc1a836ba3c23a3feebbd454d4423643ce80e2a9ac94fa54ca49f";
    for pieces in [vec!["abc"], vec!["a", "bc"], vec!["", "ab", "", "c"]] {
        let mut hash = FileHash::new();
        for piece in pieces {
            hash.update(piece.as_bytes());
        }
        assert_eq!(hash.finish(), expected);
    }
    assert!(FileHash::new().finish().starts_with("cf83e1357eefb8bd"));
}
