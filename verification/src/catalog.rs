//! The catalog: which files of a scanned directory become paths to show, and
//! in what order.

use crate::error::ImageFilepathError;
use rand::seq::SliceRandom;
use vstd::prelude::*;

verus! {

/// Width and height of the display window, in pixels.
#[derive(Clone, Copy, Debug, PartialEq, Eq, Structural)]
pub struct WindowSize(pub usize, pub usize);

impl WindowSize {
    /// Whether an image of `width` by `height` pixels is larger than the
    /// window in either direction.
    pub open spec fn exceeded_by_spec(self, width: u32, height: u32) -> bool {
        width > self.0 || height > self.1
    }

    /// Whether an image of `width` by `height` pixels has to be downsized to
    /// fit the window.
    pub fn exceeded_by(&self, width: u32, height: u32) -> (oversized: bool)
        ensures
            oversized == self.exceeded_by_spec(width, height),
    {
        width as usize > self.0 || height as usize > self.1
    }
}

/// What the scan found out about one file that matched the pattern.
#[derive(Debug)]
pub struct ScanEntry {
    /// Path of the file; none when the listing failed on it or it has no
    /// file name.
    pub path: Option<String>,
    /// Width and height of the image; none when the file could not be
    /// decoded.
    pub dimensions: Option<(u32, u32)>,
    /// Path of the downsized copy; none when no copy was saved.
    pub resized: Option<String>,
}

/// What the scan found out about a directory.
#[derive(Debug)]
pub struct DirectoryScan {
    /// Whether the path names a directory.
    pub is_directory: bool,
    /// Whether the scan pattern for it can be written as text.
    pub pattern_is_text: bool,
    /// What is wrong with the scan pattern; none when it is well-formed.
    pub pattern_fault: Option<String>,
    /// The files that matched, in the order of the listing.
    pub entries: Vec<ScanEntry>,
}

/// The path under which an entry enters the catalog: its own when the image
/// fits the window, that of its downsized copy when it does not, and none
/// when the file is unreadable or the copy is missing.
pub open spec fn usable(entry: ScanEntry, window: WindowSize) -> Option<String> {
    match (entry.path, entry.dimensions) {
        (Some(path), Some((width, height))) => if window.exceeded_by_spec(width, height) {
            entry.resized
        } else {
            Some(path)
        },
        _ => None,
    }
}

/// The paths of the usable entries, in the order of the entries.
pub open spec fn kept(entries: Seq<ScanEntry>, window: WindowSize) -> Seq<String>
    decreases entries.len(),
{
    if entries.len() == 0 {
        seq![]
    } else {
        let before = kept(entries.drop_last(), window);
        match usable(entries.last(), window) {
            Some(path) => before.push(path),
            None => before,
        }
    }
}

/// How many of the entries are usable.
pub open spec fn usable_count(entries: Seq<ScanEntry>, window: WindowSize) -> nat
    decreases entries.len(),
{
    if entries.len() == 0 {
        0
    } else {
        usable_count(entries.drop_last(), window) + if usable(entries.last(), window) is Some {
            1nat
        } else {
            0nat
        }
    }
}

/// The catalog holds one path for each usable entry and none for any other:
/// its length is the number of usable entries, and every path in it is that
/// of a usable entry.
pub proof fn lemma_kept_counts_usable(entries: Seq<ScanEntry>, window: WindowSize)
    ensures
        kept(entries, window).len() == usable_count(entries, window),
        kept(entries, window).len() <= entries.len(),
        forall|j: int|
            0 <= j < kept(entries, window).len() ==> exists|i: int|
                0 <= i < entries.len() && usable(entries[i], window) == Some(
                    #[trigger] kept(entries, window)[j],
                ),
    decreases entries.len(),
{
    if entries.len() > 0 {
        let before = entries.drop_last();
        lemma_kept_counts_usable(before, window);
        let all = kept(entries, window);
        assert forall|j: int| 0 <= j < all.len() implies exists|i: int|
            0 <= i < entries.len() && usable(entries[i], window) == Some(#[trigger] all[j]) by {
            if j < kept(before, window).len() {
                assert(all[j] == kept(before, window)[j]);
                let i = choose|i: int|
                    0 <= i < before.len() && usable(before[i], window) == Some(
                        kept(before, window)[j],
                    );
                assert(before[i] == entries[i]);
            } else {
                assert(usable(entries[entries.len() - 1], window) == Some(all[j]));
            }
        }
    }
}

/// Where every entry is usable the catalog has one path per entry, in the
/// order of the entries.
pub proof fn lemma_kept_all_usable(entries: Seq<ScanEntry>, window: WindowSize)
    requires
        forall|i: int| 0 <= i < entries.len() ==> usable(#[trigger] entries[i], window) is Some,
    ensures
        kept(entries, window).len() == entries.len(),
        forall|i: int|
            0 <= i < entries.len() ==> Some(#[trigger] kept(entries, window)[i]) == usable(
                entries[i],
                window,
            ),
    decreases entries.len(),
{
    if entries.len() > 0 {
        let before = entries.drop_last();
        assert forall|i: int| 0 <= i < before.len() implies usable(
            #[trigger] before[i],
            window,
        ) is Some by {
            assert(before[i] == entries[i]);
        }
        lemma_kept_all_usable(before, window);
        assert(usable(entries[entries.len() - 1], window) is Some);
        assert forall|i: int| 0 <= i < entries.len() implies Some(
            #[trigger] kept(entries, window)[i],
        ) == usable(entries[i], window) by {
            if i < before.len() {
                assert(before[i] == entries[i]);
                assert(kept(entries, window)[i] == kept(before, window)[i]);
            }
        }
    }
}

/// An entry that is not usable adds nothing to the catalog.
pub proof fn lemma_kept_skips_unusable(
    entries: Seq<ScanEntry>,
    entry: ScanEntry,
    window: WindowSize,
)
    requires
        usable(entry, window) is None,
    ensures
        kept(entries.push(entry), window) == kept(entries, window),
{
    assert(entries.push(entry).drop_last() == entries);
}

/// The path under which `entry` enters the catalog, if it does.
pub fn usable_path(entry: &ScanEntry, window: WindowSize) -> (path: Option<String>)
    ensures
        path == usable(*entry, window),
{
    match (&entry.path, entry.dimensions) {
        (Some(path), Some((width, height))) => if window.exceeded_by(width, height) {
            entry.resized.clone()
        } else {
            Some(path.clone())
        },
        _ => None,
    }
}

/// Builds the catalog from what a scan found. The scan is rejected when the
/// path is no directory, when the pattern cannot be written as text or is
/// malformed, in this order, and when no entry is usable. Otherwise the
/// catalog holds the paths of the usable entries in the order of the scan.
pub fn get_scaled_img_filepath_array(scan: &DirectoryScan, window_size: WindowSize) -> (out: Result<
    Vec<String>,
    ImageFilepathError,
>)
    ensures
        !scan.is_directory ==> out == Err::<Vec<String>, ImageFilepathError>(
            ImageFilepathError::InvalidDirectory,
        ),
        scan.is_directory && !scan.pattern_is_text ==> out == Err::<
            Vec<String>,
            ImageFilepathError,
        >(ImageFilepathError::InvalidCharset),
        scan.is_directory && scan.pattern_is_text ==> match scan.pattern_fault {
            Some(fault) => out == Err::<Vec<String>, ImageFilepathError>(
                ImageFilepathError::InvalidGlobPattern(fault),
            ),
            None => if kept(scan.entries@, window_size).len() == 0 {
                out == Err::<Vec<String>, ImageFilepathError>(ImageFilepathError::NoImageFileFound)
            } else {
                out matches Ok(paths) && paths@ == kept(scan.entries@, window_size)
            },
        },
{
    if !scan.is_directory {
        return Err(ImageFilepathError::InvalidDirectory);
    }
    if !scan.pattern_is_text {
        return Err(ImageFilepathError::InvalidCharset);
    }
    if let Some(fault) = &scan.pattern_fault {
        return Err(ImageFilepathError::InvalidGlobPattern(fault.clone()));
    }
    let mut paths: Vec<String> = Vec::new();
    let mut i: usize = 0;
    while i < scan.entries.len()
        invariant
            i <= scan.entries@.len(),
            paths@ == kept(scan.entries@.take(i as int), window_size),
        decreases scan.entries@.len() - i,
    {
        proof {
            assert(scan.entries@.take(i + 1).drop_last() == scan.entries@.take(i as int));
        }
        match usable_path(&scan.entries[i], window_size) {
            Some(path) => paths.push(path),
            None => {},
        }
        i = i + 1;
    }
    proof {
        assert(scan.entries@.take(i as int) == scan.entries@);
    }
    if paths.len() == 0 {
        Err(ImageFilepathError::NoImageFileFound)
    } else {
        Ok(paths)
    }
}

/// Puts the paths in a random order, in place.
///
/// Calls rand's `SliceRandom::shuffle` with the thread's generator from
/// `rand::rng`. rand shuffles by exchanging elements, so the contract claims
/// that the same paths are there afterwards, each as often as before, and
/// nothing about their order.
#[verifier::external_body]
fn shuffle_in_place(paths: &mut Vec<String>)
    ensures
        final(paths)@.to_multiset() == old(paths)@.to_multiset(),
{
    paths.shuffle(&mut rand::rng());
}

/// Shuffles the catalog: the result holds the same paths, each as often as
/// before, in an order that differs from run to run.
pub fn shuffled(paths: Vec<String>) -> (out: Vec<String>)
    ensures
        out@.to_multiset() == paths@.to_multiset(),
        out@.len() == paths@.len(),
        forall|i: int| 0 <= i < out@.len() ==> paths@.contains(#[trigger] out@[i]),
        forall|i: int| 0 <= i < paths@.len() ==> out@.contains(#[trigger] paths@[i]),
{
    let mut out = paths;
    shuffle_in_place(&mut out);
    proof {
        out@.to_multiset_ensures();
        paths@.to_multiset_ensures();
        assert forall|i: int| 0 <= i < out@.len() implies paths@.contains(#[trigger] out@[i]) by {
            assert(out@.contains(out@[i]));
            assert(out@.to_multiset().count(out@[i]) > 0);
            assert(paths@.to_multiset().count(out@[i]) > 0);
        }
        assert forall|i: int| 0 <= i < paths@.len() implies out@.contains(
            #[trigger] paths@[i],
        ) by {
            assert(paths@.contains(paths@[i]));
            assert(paths@.to_multiset().count(paths@[i]) > 0);
            assert(out@.to_multiset().count(paths@[i]) > 0);
        }
    }
    out
}

} // verus!
