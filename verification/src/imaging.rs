//! Decoding and resizing, and the assembly of a decoded batch.
//!
//! The byte-level work — guessing an image format, decompressing it,
//! resampling it to the model's input resolution — is done by the
//! `image` crate behind the two trusted wrappers below.  Both calls
//! compute from their arguments alone, so each result is named by an
//! uninterpreted function and everything downstream is stated over
//! those names.
//!
//! Batch assembly is verified: a file that could not be read or whose
//! bytes do not decode is dropped and the batch shrinks; the
//! surviving images keep their relative discovery order.

use vstd::prelude::*;

verus! {

/// A decoded image: its discovery index, its file name (carried into
/// the record's metadata), its dimensions, and its interleaved
/// three-channel rows.
pub struct DecodedImage {
    /// Position of the image's path in the frozen discovery order.
    pub index: usize,
    /// File name written into the record payload.
    pub name: String,
    /// Width in pixels.
    pub width: u32,
    /// Height in pixels.
    pub height: u32,
    /// Interleaved rows: three bytes per pixel.
    pub pixels: Vec<u8>,
}

impl DecodedImage {
    /// Dimensions are nonzero and the pixel buffer holds exactly
    /// three bytes per pixel.
    pub open spec fn wf(&self) -> bool {
        &&& self.width >= 1
        &&& self.height >= 1
        &&& self.pixels@.len() == 3 * self.width * self.height
    }

    /// The image's content as plain values: discovery index, name,
    /// width, height, pixel bytes.
    pub open spec fn content(&self) -> (int, Seq<char>, int, int, Seq<u8>) {
        (self.index as int, self.name@, self.width as int, self.height as int, self.pixels@)
    }
}

/// One file handed over by the reader: its discovery index, its file
/// name, and its bytes — `None` when the read itself failed.
pub struct LoadedFile {
    /// Position of the file's path in the frozen discovery order.
    pub index: usize,
    /// File name, kept for the record payload.
    pub name: String,
    /// The file's bytes, or `None` for an unreadable file.
    pub bytes: Option<Vec<u8>>,
}

/// What decoding a byte sequence yields: `None` when the bytes are
/// not a decodable image, else width, height and interleaved
/// three-channel rows.
pub uninterp spec fn decoded_of(bytes: Seq<u8>) -> Option<(u32, u32, Seq<u8>)>;

/// Relies on `image::load_from_memory` and
/// `image::DynamicImage::to_rgb8`: format detection and decoding are
/// functions of the bytes alone, and the returned buffer holds
/// exactly three bytes per pixel.
#[verifier::external_body]
fn decode_rgb(bytes: &Vec<u8>) -> (r: Option<(u32, u32, Vec<u8>)>)
    ensures
        match r {
            Some(t) => decoded_of(bytes@) == Some((t.0, t.1, t.2@)) && t.2@.len() == 3 * t.0
                * t.1,
            None => decoded_of(bytes@) is None,
        },
{
    match image::load_from_memory(bytes.as_slice()) {
        Ok(img) => {
            let rgb = img.to_rgb8();
            let w = rgb.width();
            let h = rgb.height();
            Some((w, h, rgb.into_raw()))
        },
        Err(_) => None,
    }
}

/// What resampling a three-channel image to a new resolution yields:
/// a function of the source bytes and the four dimensions alone.
pub uninterp spec fn resized_of(p: Seq<u8>, sw: u32, sh: u32, dw: u32, dh: u32) -> Seq<u8>;

/// Relies on `image::imageops::resize` with the Catmull-Rom filter: a
/// quality-preserving resampling that is a function of its arguments
/// alone, returning a buffer of the requested dimensions.
#[verifier::external_body]
pub(crate) fn resize_rgb(pixels: &Vec<u8>, sw: u32, sh: u32, dw: u32, dh: u32) -> (r: Vec<u8>)
    requires
        sw >= 1,
        sh >= 1,
        dw >= 1,
        dh >= 1,
        pixels@.len() == 3 * sw * sh,
        3 * dw * dh <= usize::MAX,
    ensures
        r@ == resized_of(pixels@, sw, sh, dw, dh),
        r@.len() == 3 * dw * dh,
{
    let img: image::RgbImage = image::ImageBuffer::from_raw(sw, sh, pixels.clone()).unwrap();
    image::imageops::resize(&img, dw, dh, image::imageops::FilterType::CatmullRom).into_raw()
}

/// Whether a loaded file makes it into the batch: its read succeeded,
/// its bytes decode, and the decoded dimensions are nonzero.
pub open spec fn survives(f: LoadedFile) -> bool {
    match f.bytes {
        Some(b) => match decoded_of(b@) {
            Some(t) => t.0 >= 1 && t.1 >= 1,
            None => false,
        },
        None => false,
    }
}

/// The content of the decoded image a surviving file yields.
pub open spec fn decoded_content_of(f: LoadedFile) -> (int, Seq<char>, int, int, Seq<u8>)
    recommends
        survives(f),
{
    match f.bytes {
        Some(b) => match decoded_of(b@) {
            Some(t) => (f.index as int, f.name@, t.0 as int, t.1 as int, t.2),
            None => (0, Seq::empty(), 0, 0, Seq::empty()),
        },
        None => (0, Seq::empty(), 0, 0, Seq::empty()),
    }
}

/// The decoded batch a sequence of loaded files assembles into: the
/// surviving files' decoded contents, in order.
pub open spec fn spec_assemble(fs: Seq<LoadedFile>) -> Seq<(int, Seq<char>, int, int, Seq<u8>)>
    decreases fs.len(),
{
    if fs.len() == 0 {
        Seq::empty()
    } else {
        let rest = spec_assemble(fs.drop_last());
        if survives(fs.last()) {
            rest.push(decoded_content_of(fs.last()))
        } else {
            rest
        }
    }
}

/// Assembly keeps discovery order: every survivor's index is one of
/// the input indices, and when the input indices strictly increase,
/// so do the survivors'.  This is what lets the assembled batch feed
/// the coordinator, which insists on discovery order.
pub proof fn lemma_assemble_preserves_order(fs: Seq<LoadedFile>)
    requires
        forall|k1: int, k2: int|
            0 <= k1 < k2 < fs.len() ==> (#[trigger] fs[k1]).index < (#[trigger] fs[k2]).index,
    ensures
        forall|k: int|
            0 <= k < spec_assemble(fs).len() ==> exists|j: int|
                0 <= j < fs.len() && (#[trigger] spec_assemble(fs)[k]).0 == (
                #[trigger] fs[j]).index as int,
        forall|k1: int, k2: int|
            0 <= k1 < k2 < spec_assemble(fs).len() ==> (#[trigger] spec_assemble(fs)[k1]).0 < (
            #[trigger] spec_assemble(fs)[k2]).0,
    decreases fs.len(),
{
    if fs.len() != 0 {
        lemma_assemble_preserves_order(fs.drop_last());
        let rest = spec_assemble(fs.drop_last());
        let whole = spec_assemble(fs);
        assert forall|k: int| 0 <= k < whole.len() implies exists|j: int|
            0 <= j < fs.len() && (#[trigger] whole[k]).0 == (#[trigger] fs[j]).index as int by {
            if k < rest.len() {
                assert(whole[k] == rest[k]);
                let j0 = choose|j0: int|
                    0 <= j0 < fs.drop_last().len() && rest[k].0 == fs.drop_last()[j0].index as int;
                assert(fs[j0] == fs.drop_last()[j0]);
                assert(whole[k].0 == fs[j0].index as int);
            } else {
                assert(survives(fs.last()));
                assert(whole[k] == decoded_content_of(fs.last()));
                assert(whole[k].0 == fs[fs.len() - 1].index as int);
            }
        };
        assert forall|k1: int, k2: int| 0 <= k1 < k2 < whole.len() implies (
        #[trigger] whole[k1]).0 < (#[trigger] whole[k2]).0 by {
            if k2 < rest.len() {
                assert(whole[k1] == rest[k1] && whole[k2] == rest[k2]);
            } else {
                assert(whole[k1] == rest[k1]);
                let j0 = choose|j0: int|
                    0 <= j0 < fs.drop_last().len() && rest[k1].0 == fs.drop_last()[j0].index as int;
                assert(fs[j0] == fs.drop_last()[j0]);
                assert(fs[j0].index < fs[fs.len() - 1].index);
                assert(whole[k2].0 == fs[fs.len() - 1].index as int);
            }
        };
    }
}

/// Decodes one batch of loaded files.  Unreadable files, undecodable
/// bytes and degenerate zero-sized images are dropped — the batch
/// shrinks and the run goes on — and the survivors keep their
/// relative order.  An empty result is valid.
pub fn assemble_batch(files: &Vec<LoadedFile>) -> (r: Vec<DecodedImage>)
    ensures
        r@.map_values(|d: DecodedImage| d.content()) == spec_assemble(files@),
        forall|i: int| 0 <= i < r@.len() ==> (#[trigger] r@[i]).wf(),
{
    let mut r: Vec<DecodedImage> = Vec::new();
    let n: usize = files.len();
    let mut i: usize = 0;
    while i < n
        invariant
            n == files@.len(),
            i <= n,
            r@.map_values(|d: DecodedImage| d.content()) == spec_assemble(files@.take(i as int)),
            forall|j: int| 0 <= j < r@.len() ==> (#[trigger] r@[j]).wf(),
        decreases n - i,
    {
        let f: &LoadedFile = &files[i];
        let ghost prev = r@.map_values(|d: DecodedImage| d.content());
        match &f.bytes {
            Some(b) => {
                match decode_rgb(b) {
                    Some((w, h, pixels)) => {
                        if w >= 1 && h >= 1 {
                            let img = DecodedImage {
                                index: f.index,
                                name: f.name.clone(),
                                width: w,
                                height: h,
                                pixels,
                            };
                            r.push(img);
                        }
                    },
                    None => {},
                }
            },
            None => {},
        }
        proof {
            assert(files@.take(i + 1).drop_last() =~= files@.take(i as int));
            assert(files@.take(i + 1).last() == files@[i as int]);
            if survives(files@[i as int]) {
                assert(r@.map_values(|d: DecodedImage| d.content()) =~= prev.push(
                    decoded_content_of(files@[i as int]),
                ));
            } else {
                assert(r@.map_values(|d: DecodedImage| d.content()) =~= prev);
            }
        }
        i += 1;
    }
    proof {
        assert(files@.take(n as int) =~= files@);
    }
    r
}

} // verus!
