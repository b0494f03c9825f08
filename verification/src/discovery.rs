//! Discovery of candidate images: the extension filter over a walked
//! directory tree.
//!
//! The caller walks the tree and hands every path over; the filter
//! keeps exactly those whose file name carries one of the accepted
//! extensions — a case-sensitive match, never case-folded — and
//! freezes the survivors, in the order they arrived, as the
//! canonical processing order of the run.

use vstd::prelude::*;

use vstd::string::StringSliceAdditionalSpecFns;

verus! {

/// The byte value of `.`.
pub const DOT_BYTE: u8 = 46;

/// The byte value of `/`, the path separator.
pub const SLASH_BYTE: u8 = 47;

/// A path ends in a three-byte extension: a dot, the three bytes,
/// and at least one file-name byte before the dot.
pub open spec fn has_ext3(s: Seq<u8>, e0: u8, e1: u8, e2: u8) -> bool {
    let n = s.len() as int;
    &&& n >= 5
    &&& s[n - 4] == DOT_BYTE
    &&& s[n - 3] == e0
    &&& s[n - 2] == e1
    &&& s[n - 1] == e2
    &&& s[n - 5] != SLASH_BYTE
}

/// A path ends in a four-byte extension, under the same rules.
pub open spec fn has_ext4(s: Seq<u8>, e0: u8, e1: u8, e2: u8, e3: u8) -> bool {
    let n = s.len() as int;
    &&& n >= 6
    &&& s[n - 5] == DOT_BYTE
    &&& s[n - 4] == e0
    &&& s[n - 3] == e1
    &&& s[n - 2] == e2
    &&& s[n - 1] == e3
    &&& s[n - 6] != SLASH_BYTE
}

/// Whether a path's UTF-8 bytes end in one of the accepted image
/// extensions: `jpg`, `jpeg` or `png`, lower case only.  The byte
/// before the dot must exist and not be a separator, so a bare
/// dot-file does not count as having an extension.
pub open spec fn accepted_path(s: Seq<u8>) -> bool {
    ||| has_ext3(s, 106, 112, 103)  // j p g
    ||| has_ext4(s, 106, 112, 101, 103)  // j p e g
    ||| has_ext3(s, 112, 110, 103)  // p n g
}

/// A discovered candidate: its path and its position in the frozen
/// discovery order.
pub struct ImagePath {
    /// The file's path.
    pub path: String,
    /// The path's position in the frozen discovery order.
    pub index: usize,
}

/// The subsequence of paths that pass the extension filter, in
/// arrival order.
pub open spec fn spec_discovered(paths: Seq<Seq<char>>) -> Seq<Seq<char>>
    decreases paths.len(),
{
    if paths.len() == 0 {
        Seq::empty()
    } else {
        let rest = spec_discovered(paths.drop_last());
        if accepted_path(vstd::utf8::encode_utf8(paths.last())) {
            rest.push(paths.last())
        } else {
            rest
        }
    }
}

/// Decides the extension filter for one path.
pub fn has_accepted_extension(path: &str) -> (r: bool)
    ensures
        r == accepted_path(path.spec_bytes()),
{
    let b: &[u8] = path.as_bytes();
    let n: usize = b.len();
    let jpg: bool = n >= 5 && b[n - 4] == DOT_BYTE && b[n - 3] == 106 && b[n - 2] == 112 && b[n
        - 1] == 103 && b[n - 5] != SLASH_BYTE;
    let jpeg: bool = n >= 6 && b[n - 5] == DOT_BYTE && b[n - 4] == 106 && b[n - 3] == 112 && b[n
        - 2] == 101 && b[n - 1] == 103 && b[n - 6] != SLASH_BYTE;
    let png: bool = n >= 5 && b[n - 4] == DOT_BYTE && b[n - 3] == 112 && b[n - 2] == 110 && b[n
        - 1] == 103 && b[n - 5] != SLASH_BYTE;
    jpg || jpeg || png
}

/// Filters the walked paths down to the accepted candidates and
/// freezes them, with their positions, as the run's canonical order.
/// Keeps exactly the accepted paths, in arrival order; an empty
/// result is not an error.
pub fn filter_image_paths(paths: &Vec<String>) -> (r: Vec<ImagePath>)
    ensures
        r@.map_values(|ip: ImagePath| ip.path@) == spec_discovered(
            paths@.map_values(|s: String| s@),
        ),
        forall|k: int| 0 <= k < r@.len() ==> (#[trigger] r@[k]).index == k,
{
    let mut r: Vec<ImagePath> = Vec::new();
    let n: usize = paths.len();
    let mut i: usize = 0;
    while i < n
        invariant
            n == paths@.len(),
            i <= n,
            r@.map_values(|ip: ImagePath| ip.path@) == spec_discovered(
                paths@.take(i as int).map_values(|s: String| s@),
            ),
            forall|k: int| 0 <= k < r@.len() ==> (#[trigger] r@[k]).index == k,
        decreases n - i,
    {
        let ghost prev = r@.map_values(|ip: ImagePath| ip.path@);
        let p: &String = &paths[i];
        if has_accepted_extension(p.as_str()) {
            let idx: usize = r.len();
            r.push(ImagePath { path: p.clone(), index: idx });
        }
        proof {
            let pv = paths@.take(i + 1).map_values(|s: String| s@);
            assert(pv.drop_last() =~= paths@.take(i as int).map_values(|s: String| s@));
            assert(pv.last() == paths@[i as int]@);
            if accepted_path(vstd::utf8::encode_utf8(paths@[i as int]@)) {
                assert(r@.map_values(|ip: ImagePath| ip.path@) =~= prev.push(paths@[i as int]@));
            } else {
                assert(r@.map_values(|ip: ImagePath| ip.path@) =~= prev);
            }
        }
        i += 1;
    }
    proof {
        assert(paths@.take(n as int).map_values(|s: String| s@) =~= paths@.map_values(
            |s: String| s@,
        ));
    }
    r
}

} // verus!
