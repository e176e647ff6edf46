//! Media classification and the data the folder, collection and search
//! handlers return. File kinds are judged from the mime type guessed from the
//! file path's extension.
use vstd::prelude::*;

use crate::bytes_util::{bytes_eq, find_byte, first_pos, slice_to_vec, SLASH};
use crate::range::lemma_first_pos_is;
use crate::transcode::Quality;

verus! {

/// Name for the mime type that `mime_guess` reads off a file path's
/// extension, as the bytes of its `type/subtype` text.
pub uninterp spec fn mime_guess_of(path: Seq<char>) -> Seq<u8>;

/// Relies on `mime_guess::from_path(..).first_or_octet_stream()`: the guess
/// is a pure table lookup on the path's extension, so it depends on the path
/// alone.
#[verifier::external_body]
fn guess_mime(path: &str) -> (r: Vec<u8>)
    ensures
        r@ == mime_guess_of(path@),
{
    mime_guess::from_path(path).first_or_octet_stream().as_ref().as_bytes().to_vec()
}

/// The part of a mime text before the first `/`.
pub open spec fn mime_type_part(m: Seq<u8>) -> Seq<u8> {
    match first_pos(m, SLASH) {
        Some(i) => m.take(i),
        None => m,
    }
}

/// The part of a mime text after the first `/`.
pub open spec fn mime_subtype_part(m: Seq<u8>) -> Seq<u8> {
    match first_pos(m, SLASH) {
        Some(i) => m.skip(i + 1),
        None => Seq::empty(),
    }
}

/// Splits a mime text at its first `/` into type and subtype.
fn split_mime(m: &[u8]) -> (r: (Vec<u8>, Vec<u8>))
    ensures
        r.0@ == mime_type_part(m@),
        r.1@ == mime_subtype_part(m@),
{
    let n: usize = m.len();
    match find_byte(m, SLASH) {
        Some(i) => {
            proof {
                lemma_first_pos_is(m@, SLASH, i as int);
            }
            let t = slice_to_vec(m, 0, i);
            assert(t@ =~= m@.take(i as int));
            let s = slice_to_vec(m, i + 1, n);
            assert(s@ =~= m@.skip(i + 1));
            (t, s)
        },
        None => {
            proof {
                assert(first_pos(m@, SLASH) is None);
            }
            let t = slice_to_vec(m, 0, n);
            assert(t@ =~= m@);
            (t, Vec::new())
        },
    }
}

/// Audio containers that are served from the `/audio/` route.
pub open spec fn audio_subtype(s: Seq<u8>) -> bool {
    s == seq![111u8, 103u8, 103u8]  // ogg
     || s == seq![109u8, 112u8, 101u8, 103u8]  // mpeg
     || s == seq![97u8, 97u8, 99u8]  // aac
     || s == seq![109u8, 52u8, 97u8]  // m4a
     || s == seq![109u8, 52u8, 98u8]  // m4b
     || s == seq![120u8, 45u8, 109u8, 97u8, 116u8, 114u8, 111u8, 115u8, 107u8, 97u8]  // x-matroska
     || s == seq![102u8, 108u8, 97u8, 99u8]  // flac
     || s == seq![119u8, 101u8, 98u8, 109u8]  // webm
}

/// Audio containers the playback environment cannot take natively, so they
/// must always be transcoded.
pub open spec fn transcoded_subtype(s: Seq<u8>) -> bool {
    s == seq![97u8, 97u8, 99u8]  // aac
     || s == seq![109u8, 52u8, 97u8]  // m4a
     || s == seq![109u8, 52u8, 98u8]  // m4b
     || s == seq![120u8, 45u8, 109u8, 97u8, 116u8, 114u8, 111u8, 115u8, 107u8, 97u8]  // x-matroska
}

/// Image kinds accepted as folder covers.
pub open spec fn cover_subtype(s: Seq<u8>) -> bool {
    s == seq![106u8, 112u8, 101u8, 103u8]  // jpeg
     || s == seq![112u8, 110u8, 103u8]  // png
}

/// Text kinds accepted as folder descriptions.
pub open spec fn description_subtype(s: Seq<u8>) -> bool {
    s == seq![104u8, 116u8, 109u8, 108u8]  // html
     || s == seq![112u8, 108u8, 97u8, 105u8, 110u8]  // plain
     || s == seq![109u8, 97u8, 114u8, 107u8, 100u8, 111u8, 119u8, 110u8]  // markdown
     || s == seq![120u8, 45u8, 109u8, 97u8, 114u8, 107u8, 100u8, 111u8, 119u8, 110u8]  // x-markdown
}

/// A mime text that names a servable audio file.
pub open spec fn audio_mime(m: Seq<u8>) -> bool {
    mime_type_part(m) == seq![97u8, 117u8, 100u8, 105u8, 111u8] && audio_subtype(
        mime_subtype_part(m),
    )
}

/// A mime text that names a cover image.
pub open spec fn cover_mime(m: Seq<u8>) -> bool {
    mime_type_part(m) == seq![105u8, 109u8, 97u8, 103u8, 101u8] && cover_subtype(
        mime_subtype_part(m),
    )
}

/// A mime text that names a description file.
pub open spec fn description_mime(m: Seq<u8>) -> bool {
    mime_type_part(m) == seq![116u8, 101u8, 120u8, 116u8] && description_subtype(
        mime_subtype_part(m),
    )
}

fn check_audio_subtype(s: &[u8]) -> (r: bool)
    ensures
        r == audio_subtype(s@),
{
    let ogg: [u8; 3] = [111, 103, 103];
    let mpeg: [u8; 4] = [109, 112, 101, 103];
    let aac: [u8; 3] = [97, 97, 99];
    let m4a: [u8; 3] = [109, 52, 97];
    let m4b: [u8; 3] = [109, 52, 98];
    let mat: [u8; 10] = [120, 45, 109, 97, 116, 114, 111, 115, 107, 97];
    let flac: [u8; 4] = [102, 108, 97, 99];
    let webm: [u8; 4] = [119, 101, 98, 109];
    proof {
        assert(ogg@ =~= seq![111u8, 103u8, 103u8]);
        assert(mpeg@ =~= seq![109u8, 112u8, 101u8, 103u8]);
        assert(aac@ =~= seq![97u8, 97u8, 99u8]);
        assert(m4a@ =~= seq![109u8, 52u8, 97u8]);
        assert(m4b@ =~= seq![109u8, 52u8, 98u8]);
        assert(mat@ =~= seq![120u8, 45u8, 109u8, 97u8, 116u8, 114u8, 111u8, 115u8,
            107u8, 97u8]);
        assert(flac@ =~= seq![102u8, 108u8, 97u8, 99u8]);
        assert(webm@ =~= seq![119u8, 101u8, 98u8, 109u8]);
    }
    bytes_eq(s, ogg.as_slice()) || bytes_eq(s, mpeg.as_slice()) || bytes_eq(
        s,
        aac.as_slice(),
    ) || bytes_eq(s, m4a.as_slice()) || bytes_eq(s, m4b.as_slice()) || bytes_eq(
        s,
        mat.as_slice(),
    ) || bytes_eq(s, flac.as_slice()) || bytes_eq(s, webm.as_slice())
}

fn check_transcoded_subtype(s: &[u8]) -> (r: bool)
    ensures
        r == transcoded_subtype(s@),
{
    let aac: [u8; 3] = [97, 97, 99];
    let m4a: [u8; 3] = [109, 52, 97];
    let m4b: [u8; 3] = [109, 52, 98];
    let mat: [u8; 10] = [120, 45, 109, 97, 116, 114, 111, 115, 107, 97];
    proof {
        assert(aac@ =~= seq![97u8, 97u8, 99u8]);
        assert(m4a@ =~= seq![109u8, 52u8, 97u8]);
        assert(m4b@ =~= seq![109u8, 52u8, 98u8]);
        assert(mat@ =~= seq![120u8, 45u8, 109u8, 97u8, 116u8, 114u8, 111u8, 115u8,
            107u8, 97u8]);
    }
    bytes_eq(s, aac.as_slice()) || bytes_eq(s, m4a.as_slice()) || bytes_eq(
        s,
        m4b.as_slice(),
    ) || bytes_eq(s, mat.as_slice())
}

fn check_cover_subtype(s: &[u8]) -> (r: bool)
    ensures
        r == cover_subtype(s@),
{
    let jpeg: [u8; 4] = [106, 112, 101, 103];
    let png: [u8; 3] = [112, 110, 103];
    proof {
        assert(jpeg@ =~= seq![106u8, 112u8, 101u8, 103u8]);
        assert(png@ =~= seq![112u8, 110u8, 103u8]);
    }
    bytes_eq(s, jpeg.as_slice()) || bytes_eq(s, png.as_slice())
}

fn check_description_subtype(s: &[u8]) -> (r: bool)
    ensures
        r == description_subtype(s@),
{
    let html: [u8; 4] = [104, 116, 109, 108];
    let plain: [u8; 5] = [112, 108, 97, 105, 110];
    let md: [u8; 8] = [109, 97, 114, 107, 100, 111, 119, 110];
    let xmd: [u8; 10] = [120, 45, 109, 97, 114, 107, 100, 111, 119, 110];
    proof {
        assert(html@ =~= seq![104u8, 116u8, 109u8, 108u8]);
        assert(plain@ =~= seq![112u8, 108u8, 97u8, 105u8, 110u8]);
        assert(md@ =~= seq![109u8, 97u8, 114u8, 107u8, 100u8, 111u8, 119u8, 110u8]);
        assert(xmd@ =~= seq![120u8, 45u8, 109u8, 97u8, 114u8, 107u8, 100u8, 111u8,
            119u8, 110u8]);
    }
    bytes_eq(s, html.as_slice()) || bytes_eq(s, plain.as_slice()) || bytes_eq(
        s,
        md.as_slice(),
    ) || bytes_eq(s, xmd.as_slice())
}

fn check_mime_type(m: &[u8], want: &[u8]) -> (r: bool)
    ensures
        r == (mime_type_part(m@) == want@),
{
    let (t, _s) = split_mime(m);
    bytes_eq(t.as_slice(), want)
}

/// True iff the file at `path` is guessed to be a servable audio file.
pub fn is_audio(path: &str) -> (r: bool)
    ensures
        r == audio_mime(mime_guess_of(path@)),
{
    let m = guess_mime(path);
    let (t, s) = split_mime(m.as_slice());
    let audio: [u8; 5] = [97, 117, 100, 105, 111];
    proof {
        assert(audio@ =~= seq![97u8, 117u8, 100u8, 105u8, 111u8]);
    }
    bytes_eq(t.as_slice(), audio.as_slice()) && check_audio_subtype(s.as_slice())
}

/// True iff a file of mime text `m` must be transcoded before playback.
pub fn must_transcode(m: &[u8]) -> (r: bool)
    ensures
        r == transcoded_subtype(mime_subtype_part(m@)),
{
    let (_t, s) = split_mime(m);
    check_transcoded_subtype(s.as_slice())
}

/// True iff the file at `path` is guessed to be a cover image.
pub fn is_cover(path: &str) -> (r: bool)
    ensures
        r == cover_mime(mime_guess_of(path@)),
{
    let m = guess_mime(path);
    let (t, s) = split_mime(m.as_slice());
    let image: [u8; 5] = [105, 109, 97, 103, 101];
    proof {
        assert(image@ =~= seq![105u8, 109u8, 97u8, 103u8, 101u8]);
    }
    bytes_eq(t.as_slice(), image.as_slice()) && check_cover_subtype(s.as_slice())
}

/// True iff the file at `path` is guessed to be a description file.
pub fn is_description(path: &str) -> (r: bool)
    ensures
        r == description_mime(mime_guess_of(path@)),
{
    let m = guess_mime(path);
    let (t, s) = split_mime(m.as_slice());
    let text: [u8; 4] = [116, 101, 120, 116];
    proof {
        assert(text@ =~= seq![116u8, 101u8, 120u8, 116u8]);
    }
    bytes_eq(t.as_slice(), text.as_slice()) && check_description_subtype(s.as_slice())
}

/// Whether an audio request is served through the transcoder: the client
/// asked for a quality level, or the file's container cannot be played
/// natively.
pub fn should_transcode(m: &[u8], requested: Option<crate::transcode::QualityLevel>) -> (r:
    bool)
    ensures
        r == (requested is Some || transcoded_subtype(mime_subtype_part(m@))),
{
    requested.is_some() || must_transcode(m)
}

/// A file path together with the mime type guessed from it.
#[derive(Debug, Clone)]
pub struct TypedFile {
    pub path: String,
    pub mime: Vec<u8>,
}

impl TypedFile {
    /// Pairs a path with its guessed mime type.
    pub fn new(path: String) -> (r: TypedFile)
        ensures
            r.path@ == path@,
            r.mime@ == mime_guess_of(path@),
    {
        let mime = guess_mime(path.as_str());
        TypedFile { path, mime }
    }
}

/// Playback metadata of one audio file, when known.
#[derive(Debug, Clone, Copy, PartialEq, Eq, PartialOrd, Ord)]
pub struct AudioMeta {
    /// Duration in seconds.
    pub duration: u32,
    /// Bitrate in kbit/s.
    pub bitrate: u32,
}

/// One audio file of a folder listing.
#[derive(Debug, Clone, PartialEq, Eq, PartialOrd, Ord)]
pub struct AudioFile {
    pub name: String,
    pub path: String,
    pub meta: Option<AudioMeta>,
    pub mime: Vec<u8>,
}

/// One subfolder of a folder listing.
#[derive(Debug, Clone, PartialEq, Eq, PartialOrd, Ord)]
pub struct AudioFolderShort {
    pub name: String,
    pub path: String,
}

/// What the collections-info route reports.
#[derive(Debug, Clone)]
pub struct Collections {
    pub count: u32,
    pub names: Vec<String>,
}

/// What the transcodings-info route reports: the quality presets and the
/// concurrency bound, never the live counter.
#[derive(Debug, Clone, Copy, PartialEq, Eq)]
pub struct Transcodings {
    pub max_transcodings: usize,
    pub low: Quality,
    pub medium: Quality,
    pub high: Quality,
}

impl Transcodings {
    /// Assembles the transcodings report from the configured presets.
    pub fn new(max_transcodings: usize, low: Quality, medium: Quality, high: Quality) -> (r:
        Transcodings)
        ensures
            r == (Transcodings { max_transcodings, low, medium, high }),
    {
        Transcodings { max_transcodings, low, medium, high }
    }
}

/// One folder of a collection: its files, subfolders, and optional cover and
/// description files.
#[derive(Debug, Clone)]
pub struct AudioFolder {
    pub files: Vec<AudioFile>,
    pub subfolders: Vec<AudioFolderShort>,
    pub cover: Option<TypedFile>,
    pub description: Option<TypedFile>,
}

/// What a search returns.
#[derive(Debug, Clone)]
pub struct SearchResult {
    pub files: Vec<AudioFile>,
    pub subfolders: Vec<AudioFolderShort>,
}

} // verus!
