//! The extension filter: decides whether a path names a candidate audio
//! file. Only regular files whose extension, lowercased, is one of `mp3`,
//! `ogg` or `wav` are candidates. The decision never errors: a path with no
//! extension is simply rejected.
//!
//! The specification works on the UTF-8 bytes of the path, where the ASCII
//! separators `/` and `.` occupy exactly one byte each.

use vstd::prelude::*;

verus! {

use vstd::utf8::encode_utf8;
use vstd::string::StringExecFns;

/// The suffix of `b` that follows the last occurrence of `x`, or all of `b`
/// if `x` does not occur.
pub open spec fn after_last(b: Seq<u8>, x: u8) -> Seq<u8>
    decreases b.len(),
{
    if b.len() == 0 {
        b
    } else if b.last() == x {
        Seq::empty()
    } else {
        after_last(b.drop_last(), x) + seq![b.last()]
    }
}

/// The final component of a path: everything after the last `/`.
pub open spec fn spec_file_name(b: Seq<u8>) -> Seq<u8> {
    after_last(b, '/' as u8)
}

/// The extension of a path, as `std::path::Path` reads it: the part of the
/// file name after its last `.`, provided some `.` stands at a position
/// other than the start of the file name.
pub open spec fn spec_extension(b: Seq<u8>) -> Option<Seq<u8>> {
    let name = spec_file_name(b);
    if !name.contains('.' as u8) {
        None
    } else {
        let ext = after_last(name, '.' as u8);
        if name.len() - ext.len() - 1 >= 1 {
            Some(ext)
        } else {
            None
        }
    }
}

/// ASCII lowercasing of one byte.
pub open spec fn lower_byte(x: u8) -> u8 {
    if 'A' as u8 <= x <= 'Z' as u8 {
        (x + 0x20) as u8
    } else {
        x
    }
}

/// Does the extension, lowercased, spell `mp3`?
pub open spec fn is_mp3_ext(ext: Seq<u8>) -> bool {
    ext.len() == 3 && lower_byte(ext[0]) == 'm' as u8 && lower_byte(ext[1]) == 'p' as u8
        && lower_byte(ext[2]) == '3' as u8
}

/// Does the extension, lowercased, spell `ogg`?
pub open spec fn is_ogg_ext(ext: Seq<u8>) -> bool {
    ext.len() == 3 && lower_byte(ext[0]) == 'o' as u8 && lower_byte(ext[1]) == 'g' as u8
        && lower_byte(ext[2]) == 'g' as u8
}

/// Does the extension, lowercased, spell `wav`?
pub open spec fn is_wav_ext(ext: Seq<u8>) -> bool {
    ext.len() == 3 && lower_byte(ext[0]) == 'w' as u8 && lower_byte(ext[1]) == 'a' as u8
        && lower_byte(ext[2]) == 'v' as u8
}

/// Does the extension, lowercased, spell one of the allowed audio formats?
pub open spec fn ext_allowed(ext: Seq<u8>) -> bool {
    is_mp3_ext(ext) || is_ogg_ext(ext) || is_wav_ext(ext)
}

/// The extension filter on a path's characters.
pub open spec fn spec_is_audio_path(p: Seq<char>) -> bool {
    match spec_extension(encode_utf8(p)) {
        Some(ext) => ext_allowed(ext),
        None => false,
    }
}

/// If `x` occurs last at index `i`, `after_last` is the suffix past `i`.
proof fn lemma_after_last_at(b: Seq<u8>, x: u8, i: int)
    requires
        0 <= i < b.len(),
        b[i] == x,
        forall|k: int| i < k < b.len() ==> b[k] != x,
    ensures
        after_last(b, x) == b.skip(i + 1),
    decreases b.len(),
{
    if i == b.len() - 1 {
        assert(b.last() == x);
        assert(b.skip(i + 1) =~= Seq::<u8>::empty());
    } else {
        assert(b.last() != x);
        lemma_after_last_at(b.drop_last(), x, i);
        assert(after_last(b, x) =~= b.skip(i + 1));
    }
}

/// If `x` does not occur, `after_last` returns the whole sequence.
proof fn lemma_after_last_absent(b: Seq<u8>, x: u8)
    requires
        forall|k: int| 0 <= k < b.len() ==> b[k] != x,
    ensures
        after_last(b, x) == b,
    decreases b.len(),
{
    if b.len() > 0 {
        lemma_after_last_absent(b.drop_last(), x);
        assert(after_last(b, x) =~= b);
    }
}

/// Finds the index one past the last occurrence of `x` in `b`, or 0 if `x`
/// does not occur, so that `b@.skip(r as int)` is `after_last(b@, x)`.
fn find_suffix_start(b: &[u8], x: u8) -> (r: usize)
    ensures
        r <= b@.len(),
        after_last(b@, x) == b@.skip(r as int),
        r > 0 ==> b@[r - 1] == x,
        r == 0 ==> !b@.contains(x),
    decreases b@.len(),
{
    let mut j: usize = b.len();
    while j > 0
        invariant
            j <= b@.len(),
            forall|k: int| j <= k < b@.len() ==> b@[k] != x,
        decreases j,
    {
        if b[j - 1] == x {
            proof {
                lemma_after_last_at(b@, x, j - 1);
            }
            return j;
        }
        j -= 1;
    }
    proof {
        lemma_after_last_absent(b@, x);
        assert(b@.skip(0) =~= b@);
        if b@.contains(x) {
            let k = choose|k: int| 0 <= k < b@.len() && b@[k] == x;
            assert(b@[k] != x);
        }
    }
    0
}

/// Lowercases an ASCII letter byte; other bytes pass through.
fn lower_ascii(x: u8) -> (r: u8)
    ensures
        r == lower_byte(x),
{
    if x >= 'A' as u8 && x <= 'Z' as u8 {
        x + 0x20
    } else {
        x
    }
}

/// The audio formats the extension filter accepts.
#[derive(Clone, Copy, Debug, PartialEq, Eq, Structural)]
pub enum AudioKind {
    Mp3,
    Ogg,
    Wav,
}

impl AudioKind {
    /// The format's name, which is also the lowercased extension of every
    /// path of this kind.
    pub fn ext_name(self) -> (r: String)
        ensures
            self == AudioKind::Mp3 ==> r@ == "mp3"@,
            self == AudioKind::Ogg ==> r@ == "ogg"@,
            self == AudioKind::Wav ==> r@ == "wav"@,
    {
        match self {
            AudioKind::Mp3 => String::from_str("mp3"),
            AudioKind::Ogg => String::from_str("ogg"),
            AudioKind::Wav => String::from_str("wav"),
        }
    }
}

/// Classifies a path: which allowed audio extension it carries, if any.
pub fn audio_kind(p: &str) -> (r: Option<AudioKind>)
    ensures
        r is Some <==> spec_is_audio_path(p@),
        r == Some(AudioKind::Mp3) <==> (spec_extension(encode_utf8(p@)) matches Some(e)
            && is_mp3_ext(e)),
        r == Some(AudioKind::Ogg) <==> (spec_extension(encode_utf8(p@)) matches Some(e)
            && is_ogg_ext(e)),
        r == Some(AudioKind::Wav) <==> (spec_extension(encode_utf8(p@)) matches Some(e)
            && is_wav_ext(e)),
{
    let b = p.as_bytes();
    let name_start = find_suffix_start(b, '/' as u8);
    let (_, name) = b.split_at(name_start);
    proof {
        assert(name@ =~= b@.skip(name_start as int));
        assert(spec_file_name(b@) == name@);
    }
    let d = find_suffix_start(name, '.' as u8);
    if d == 0 {
        // no dot at all in the file name
        return Option::None;
    }
    proof {
        assert(name@.contains('.' as u8)) by {
            assert(name@[d - 1] == '.' as u8);
        }
        assert(after_last(name@, '.' as u8) == name@.skip(d as int));
        assert(name@.skip(d as int).len() == name@.len() - d);
    }
    if d < 2 {
        // the only dot starts the file name: no extension
        return Option::None;
    }
    let ghost ext = after_last(name@, '.' as u8);
    proof {
        assert(name@.len() - ext.len() - 1 == d - 1);
        assert(spec_extension(b@) == Some(ext));
    }
    let nlen = name.len();
    if nlen - d != 3 {
        return Option::None;
    }
    let e0 = lower_ascii(name[d]);
    let e1 = lower_ascii(name[d + 1]);
    let e2 = lower_ascii(name[d + 2]);
    proof {
        assert(ext[0] == name@[d as int]);
        assert(ext[1] == name@[d + 1]);
        assert(ext[2] == name@[d + 2]);
    }
    if e0 == 'm' as u8 && e1 == 'p' as u8 && e2 == '3' as u8 {
        Option::Some(AudioKind::Mp3)
    } else if e0 == 'o' as u8 && e1 == 'g' as u8 && e2 == 'g' as u8 {
        Option::Some(AudioKind::Ogg)
    } else if e0 == 'w' as u8 && e1 == 'a' as u8 && e2 == 'v' as u8 {
        Option::Some(AudioKind::Wav)
    } else {
        Option::None
    }
}

/// Decides the extension filter for one path.
pub fn is_audio_path(p: &str) -> (r: bool)
    ensures
        r == spec_is_audio_path(p@),
{
    audio_kind(p).is_some()
}

} // verus!
