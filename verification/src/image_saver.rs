//! What is written when frames are saved: the bytes of each frame of an
//! animation, the size of the animation and the names of separate files.
use vstd::prelude::*;
use vstd::string::{StrSliceExecFns, StringExecFns};
use crate::frame::{raw, Frame, Frames};
use crate::text::{decimal, decimal_padded, zero_padded};

verus! {

/// The raw bytes of a frame with the colour of every fully transparent pixel
/// set to black: byte `k` belongs to the pixel whose alpha is the last byte of
/// its group of four.
pub open spec fn alpha_hacked(data: Seq<u8>) -> Seq<u8> {
    Seq::new(
        data.len(),
        |k: int|
            if data[k - k % 4 + 3] == 0 {
                0u8
            } else {
                data[k]
            },
    )
}

/// What is left of `text` when every occurrence of `pattern` is taken out,
/// searching from the front and going on behind each occurrence.
pub open spec fn removed(text: Seq<char>, pattern: Seq<char>) -> Seq<char>
    decreases text.len(),
{
    if pattern.len() == 0 || text.len() < pattern.len() {
        text
    } else if text.subrange(0, pattern.len() as int) == pattern {
        removed(text.subrange(pattern.len() as int, text.len() as int), pattern)
    } else {
        seq![text[0]] + removed(text.subrange(1, text.len() as int), pattern)
    }
}

/// The extension of the files that frames are saved to.
pub open spec fn extension() -> Seq<char> {
    seq!['.', 'p', 'n', 'g']
}

/// The name of the file that frame `index` is saved to: the base name
/// without any extension in it, the index in at least four digits, and the
/// extension.
pub open spec fn frame_filename(base: Seq<char>, index: nat) -> Seq<char> {
    removed(base, extension()) + zero_padded(decimal(index), 4) + extension()
}

/// The generator of what is saved.
pub struct ImageSaver {}

impl ImageSaver {
    /// Sets the colour of every fully transparent pixel to black, in raw
    /// bytes of four per pixel with the alpha last.
    pub fn alpha_hack(raw_pixels: &mut Vec<u8>)
        requires
            old(raw_pixels)@.len() % 4 == 0,
        ensures
            final(raw_pixels)@ == alpha_hacked(old(raw_pixels)@),
    {
        let ghost before = raw_pixels@;
        let len: usize = raw_pixels.len();
        let mut i: usize = 0;
        while i < len
            invariant
                i <= len,
                i % 4 == 0,
                len % 4 == 0,
                len == before.len(),
                raw_pixels@.len() == len,
                forall|k: int| 0 <= k < i ==> raw_pixels@[k] == alpha_hacked(before)[k],
                forall|k: int| i <= k < len ==> raw_pixels@[k] == before[k],
            decreases len - i,
        {
            if raw_pixels[i + 3] == 0 {
                raw_pixels.set(i, 0);
                raw_pixels.set(i + 1, 0);
                raw_pixels.set(i + 2, 0);
            }
            i += 4;
        }
    }

    /// The bytes of a frame as they go into an animation: its raw bytes with
    /// the colour of every fully transparent pixel set to black.
    pub fn gif_pixels(frame: &Frame) -> (r: Vec<u8>)
        ensures
            r@ == alpha_hacked(raw(frame@.pixels)),
    {
        let mut data: Vec<u8> = frame.to_raw();
        Self::alpha_hack(&mut data);
        data
    }

    /// The size of the animation made of the frames: the size that they all
    /// share. There is none without frames, where two frames differ in size,
    /// or where a side does not fit sixteen bits.
    pub fn gif_size(frames: &Frames) -> (r: Option<(u16, u16)>)
        ensures
            r is Some <==> frames@.len() > 0 && frames@[0]@.width <= u16::MAX && frames@[0]@.height
                <= u16::MAX && forall|i: int|
                0 <= i < frames@.len() ==> (#[trigger] frames@[i])@.width == frames@[0]@.width
                    && frames@[i]@.height == frames@[0]@.height,
            r matches Some(size) ==> size.0 == frames@[0]@.width && size.1 == frames@[0]@.height,
    {
        if frames.len() == 0 {
            return None;
        }
        let width: u32 = frames[0].width();
        let height: u32 = frames[0].height();
        let mut i: usize = 1;
        while i < frames.len()
            invariant
                1 <= i <= frames@.len(),
                width == frames@[0]@.width,
                height == frames@[0]@.height,
                forall|k: int|
                    0 <= k < i ==> (#[trigger] frames@[k])@.width == width && frames@[k]@.height
                        == height,
            decreases frames@.len() - i,
        {
            if frames[i].width() != width || frames[i].height() != height {
                return None;
            }
            i += 1;
        }
        if width > 0xffff || height > 0xffff {
            return None;
        }
        Some((width as u16, height as u16))
    }

    /// Takes every occurrence of the extension out of a name.
    fn strip_extension(name: &str) -> (r: String)
        ensures
            r@ == removed(name@, extension()),
    {
        let len: usize = name.unicode_len();
        let mut stem: String = String::from_str("");
        proof {
            reveal_strlit("");
        }
        let mut i: usize = 0;
        assert(name@.subrange(0, len as int) =~= name@);
        while i < len
            invariant
                i <= len,
                len == name@.len(),
                stem@ + removed(name@.subrange(i as int, len as int), extension()) == removed(
                    name@,
                    extension(),
                ),
            decreases len - i,
        {
            let ghost rest = name@.subrange(i as int, len as int);
            let found: bool = len - i >= 4 && name.get_char(i) == '.' && name.get_char(i + 1)
                == 'p' && name.get_char(i + 2) == 'n' && name.get_char(i + 3) == 'g';
            if found {
                proof {
                    assert(rest.subrange(0, 4) =~= extension());
                    assert(rest.subrange(4, rest.len() as int) =~= name@.subrange(
                        i + 4,
                        len as int,
                    ));
                }
                i += 4;
            } else {
                proof {
                    if rest.len() >= 4 {
                        assert(rest.subrange(1, rest.len() as int) =~= name@.subrange(
                            i + 1,
                            len as int,
                        ));
                    } else {
                        lemma_short_rest(name@, i as int);
                    }
                }
                stem.append(name.substring_char(i, i + 1));
                i += 1;
            }
        }
        stem
    }

    /// The name of the file that frame `index` is saved to: the base name
    /// without any `.png` in it, the index in at least four digits, and
    /// `.png`.
    pub fn separate_frame_filename(base_filename: &str, index: usize) -> (r: String)
        ensures
            r@ == frame_filename(base_filename@, index as nat),
    {
        let mut name: String = Self::strip_extension(base_filename);
        let number: String = decimal_padded(index, 4);
        name.append(number.as_str());
        proof {
            reveal_strlit(".png");
        }
        name.append(".png");
        name
    }
}

/// A rest shorter than the extension is kept as it is, character by character.
proof fn lemma_short_rest(name: Seq<char>, i: int)
    requires
        0 <= i < name.len(),
        name.len() - i < 4,
    ensures
        removed(name.subrange(i, name.len() as int), extension()) == seq![name[i]] + removed(
            name.subrange(i + 1, name.len() as int),
            extension(),
        ),
{
}

} // verus!
