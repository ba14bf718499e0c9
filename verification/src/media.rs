//! What kind of media a downloaded file holds, judged by its file extension, and what the
//! host does about previews that are not images.
use crate::data_path::after_last;
use crate::text::{
    ascii_lower, ascii_lowercase_chars, chars_of, split_chars, split_seq, string_from_chars,
    vecs_view,
};
use vstd::prelude::*;

verus! {

/// A path component that names something: neither empty nor ".".
pub open spec fn is_named(c: Seq<char>) -> bool {
    c.len() > 0 && c != "."@
}

/// The pieces that name something, in order.
pub open spec fn keep_named(pieces: Seq<Seq<char>>) -> Seq<Seq<char>>
    decreases pieces.len(),
{
    if pieces.len() == 0 {
        pieces
    } else if is_named(pieces.last()) {
        keep_named(pieces.drop_last()).push(pieces.last())
    } else {
        keep_named(pieces.drop_last())
    }
}

/// The components of a '/'-separated path that name something: the pieces between slashes,
/// without the empty ones and without ".".
pub open spec fn named_components(p: Seq<char>) -> Seq<Seq<char>> {
    keep_named(split_seq(p, '/'))
}

/// The file name of a path: its last component, unless there is none or it is "..".
pub open spec fn file_name(p: Seq<char>) -> Option<Seq<char>> {
    let cs = named_components(p);
    if cs.len() == 0 || cs.last() == ".."@ {
        None
    } else {
        Some(cs.last())
    }
}

/// The extension of a file name: the part after its last '.', when it has one that is not
/// its first character.
pub open spec fn name_extension(name: Seq<char>) -> Option<Seq<char>> {
    let after = after_last(name, '.');
    if after.len() == name.len() || after.len() + 1 == name.len() {
        // No '.', or the only one starts the name.
        None
    } else {
        Some(after)
    }
}

/// The extension of a path's file name, as `Path::extension` finds it.
pub open spec fn path_extension(p: Seq<char>) -> Option<Seq<char>> {
    match file_name(p) {
        Some(n) => name_extension(n),
        None => None,
    }
}

/// The image extensions, lower-cased.
pub open spec fn is_image_extension(e: Seq<char>) -> bool {
    e == "avif"@ || e == "bmp"@ || e == "dds"@ || e == "exr"@ || e == "ff"@ || e == "gif"@ || e
        == "hdr"@ || e == "ico"@ || e == "jpeg"@ || e == "jpg"@ || e == "png"@ || e == "pnm"@ || e
        == "qoi"@ || e == "tga"@ || e == "tiff"@ || e == "tif"@ || e == "webp"@
}

/// The audio extensions, lower-cased.
pub open spec fn is_audio_extension(e: Seq<char>) -> bool {
    e == "aac"@ || e == "flac"@ || e == "m4a"@ || e == "mp3"@ || e == "ogg"@ || e == "wav"@ || e
        == "wma"@
}

/// The archive extensions, lower-cased.
pub open spec fn is_archive_extension(e: Seq<char>) -> bool {
    e == "7z"@ || e == "ar"@ || e == "bz2"@ || e == "cab"@ || e == "cpio"@ || e == "deb"@ || e
        == "gz"@ || e == "iso"@ || e == "jar"@ || e == "rar"@ || e == "rpm"@ || e == "tar"@ || e
        == "xz"@ || e == "z"@ || e == "zip"@
}

/// The extension names, character by character.
proof fn lemma_extension_names()
    ensures
        "avif"@ == seq!['a', 'v', 'i', 'f'],
        "bmp"@ == seq!['b', 'm', 'p'],
        "dds"@ == seq!['d', 'd', 's'],
        "exr"@ == seq!['e', 'x', 'r'],
        "ff"@ == seq!['f', 'f'],
        "gif"@ == seq!['g', 'i', 'f'],
        "hdr"@ == seq!['h', 'd', 'r'],
        "ico"@ == seq!['i', 'c', 'o'],
        "jpeg"@ == seq!['j', 'p', 'e', 'g'],
        "jpg"@ == seq!['j', 'p', 'g'],
        "png"@ == seq!['p', 'n', 'g'],
        "pnm"@ == seq!['p', 'n', 'm'],
        "qoi"@ == seq!['q', 'o', 'i'],
        "tga"@ == seq!['t', 'g', 'a'],
        "tiff"@ == seq!['t', 'i', 'f', 'f'],
        "tif"@ == seq!['t', 'i', 'f'],
        "webp"@ == seq!['w', 'e', 'b', 'p'],
        "aac"@ == seq!['a', 'a', 'c'],
        "flac"@ == seq!['f', 'l', 'a', 'c'],
        "m4a"@ == seq!['m', '4', 'a'],
        "mp3"@ == seq!['m', 'p', '3'],
        "ogg"@ == seq!['o', 'g', 'g'],
        "wav"@ == seq!['w', 'a', 'v'],
        "wma"@ == seq!['w', 'm', 'a'],
        "7z"@ == seq!['7', 'z'],
        "ar"@ == seq!['a', 'r'],
        "bz2"@ == seq!['b', 'z', '2'],
        "cab"@ == seq!['c', 'a', 'b'],
        "cpio"@ == seq!['c', 'p', 'i', 'o'],
        "deb"@ == seq!['d', 'e', 'b'],
        "gz"@ == seq!['g', 'z'],
        "iso"@ == seq!['i', 's', 'o'],
        "jar"@ == seq!['j', 'a', 'r'],
        "rar"@ == seq!['r', 'a', 'r'],
        "rpm"@ == seq!['r', 'p', 'm'],
        "tar"@ == seq!['t', 'a', 'r'],
        "xz"@ == seq!['x', 'z'],
        "z"@ == seq!['z'],
        "zip"@ == seq!['z', 'i', 'p'],
        "pdf"@ == seq!['p', 'd', 'f'],
{
    reveal_strlit("avif");
    assert("avif"@ =~= seq!['a', 'v', 'i', 'f']);
    reveal_strlit("bmp");
    assert("bmp"@ =~= seq!['b', 'm', 'p']);
    reveal_strlit("dds");
    assert("dds"@ =~= seq!['d', 'd', 's']);
    reveal_strlit("exr");
    assert("exr"@ =~= seq!['e', 'x', 'r']);
    reveal_strlit("ff");
    assert("ff"@ =~= seq!['f', 'f']);
    reveal_strlit("gif");
    assert("gif"@ =~= seq!['g', 'i', 'f']);
    reveal_strlit("hdr");
    assert("hdr"@ =~= seq!['h', 'd', 'r']);
    reveal_strlit("ico");
    assert("ico"@ =~= seq!['i', 'c', 'o']);
    reveal_strlit("jpeg");
    assert("jpeg"@ =~= seq!['j', 'p', 'e', 'g']);
    reveal_strlit("jpg");
    assert("jpg"@ =~= seq!['j', 'p', 'g']);
    reveal_strlit("png");
    assert("png"@ =~= seq!['p', 'n', 'g']);
    reveal_strlit("pnm");
    assert("pnm"@ =~= seq!['p', 'n', 'm']);
    reveal_strlit("qoi");
    assert("qoi"@ =~= seq!['q', 'o', 'i']);
    reveal_strlit("tga");
    assert("tga"@ =~= seq!['t', 'g', 'a']);
    reveal_strlit("tiff");
    assert("tiff"@ =~= seq!['t', 'i', 'f', 'f']);
    reveal_strlit("tif");
    assert("tif"@ =~= seq!['t', 'i', 'f']);
    reveal_strlit("webp");
    assert("webp"@ =~= seq!['w', 'e', 'b', 'p']);
    reveal_strlit("aac");
    assert("aac"@ =~= seq!['a', 'a', 'c']);
    reveal_strlit("flac");
    assert("flac"@ =~= seq!['f', 'l', 'a', 'c']);
    reveal_strlit("m4a");
    assert("m4a"@ =~= seq!['m', '4', 'a']);
    reveal_strlit("mp3");
    assert("mp3"@ =~= seq!['m', 'p', '3']);
    reveal_strlit("ogg");
    assert("ogg"@ =~= seq!['o', 'g', 'g']);
    reveal_strlit("wav");
    assert("wav"@ =~= seq!['w', 'a', 'v']);
    reveal_strlit("wma");
    assert("wma"@ =~= seq!['w', 'm', 'a']);
    reveal_strlit("7z");
    assert("7z"@ =~= seq!['7', 'z']);
    reveal_strlit("ar");
    assert("ar"@ =~= seq!['a', 'r']);
    reveal_strlit("bz2");
    assert("bz2"@ =~= seq!['b', 'z', '2']);
    reveal_strlit("cab");
    assert("cab"@ =~= seq!['c', 'a', 'b']);
    reveal_strlit("cpio");
    assert("cpio"@ =~= seq!['c', 'p', 'i', 'o']);
    reveal_strlit("deb");
    assert("deb"@ =~= seq!['d', 'e', 'b']);
    reveal_strlit("gz");
    assert("gz"@ =~= seq!['g', 'z']);
    reveal_strlit("iso");
    assert("iso"@ =~= seq!['i', 's', 'o']);
    reveal_strlit("jar");
    assert("jar"@ =~= seq!['j', 'a', 'r']);
    reveal_strlit("rar");
    assert("rar"@ =~= seq!['r', 'a', 'r']);
    reveal_strlit("rpm");
    assert("rpm"@ =~= seq!['r', 'p', 'm']);
    reveal_strlit("tar");
    assert("tar"@ =~= seq!['t', 'a', 'r']);
    reveal_strlit("xz");
    assert("xz"@ =~= seq!['x', 'z']);
    reveal_strlit("z");
    assert("z"@ =~= seq!['z']);
    reveal_strlit("zip");
    assert("zip"@ =~= seq!['z', 'i', 'p']);
    reveal_strlit("pdf");
    assert("pdf"@ =~= seq!['p', 'd', 'f']);
}

/// No extension is in two of the lists: a file is at most one of image, audio, archive
/// and PDF.
pub proof fn lemma_extension_lists_disjoint(e: Seq<char>)
    ensures
        !(is_image_extension(e) && is_audio_extension(e)),
        !(is_image_extension(e) && is_archive_extension(e)),
        !(is_image_extension(e) && e == "pdf"@),
        !(is_audio_extension(e) && is_archive_extension(e)),
        !(is_audio_extension(e) && e == "pdf"@),
        !(is_archive_extension(e) && e == "pdf"@),
{
    lemma_extension_names();
}

/// The path's extension, lower-cased in ASCII, passes `pred`.
pub open spec fn extension_is(p: Seq<char>, pred: spec_fn(Seq<char>) -> bool) -> bool {
    match path_extension(p) {
        Some(e) => pred(ascii_lower(e)),
        None => false,
    }
}

/// The last component of a path that names something, if any.
fn last_named_component(path: &str) -> (r: Option<Vec<char>>)
    ensures
        match r {
            Some(c) => named_components(path@).len() > 0 && c@ == named_components(path@).last(),
            None => named_components(path@).len() == 0,
        },
{
    let cs = chars_of(path);
    let pieces = split_chars(cs.as_slice(), '/');
    let ghost all = vecs_view(pieces@);
    let mut found: Option<usize> = None;
    let mut i: usize = 0;
    while i < pieces.len()
        invariant
            0 <= i <= pieces@.len(),
            all == vecs_view(pieces@),
            all == split_seq(path@, '/'),
            match found {
                Some(k) => k < i && is_named(all[k as int]) && keep_named(all.subrange(0, i as int)).len() > 0
                    && keep_named(all.subrange(0, i as int)).last() == all[k as int],
                None => keep_named(all.subrange(0, i as int)).len() == 0,
            },
        decreases pieces@.len() - i,
    {
        let p = &pieces[i];
        let ghost s = all.subrange(0, i + 1);
        proof {
            assert(s.drop_last() =~= all.subrange(0, i as int));
            assert(s.last() == all[i as int]);
            assert(all[i as int] == pieces@[i as int]@);
        }
        let is_dot = p.len() == 1 && p[0] == '.';
        proof {
            reveal_strlit(".");
            if p@.len() == 1 {
                if p@[0] == '.' {
                    assert(p@ =~= "."@);
                } else {
                    assert("."@[0] == '.');
                }
            } else {
                assert("."@.len() == 1);
            }
        }
        if p.len() > 0 && !is_dot {
            found = Some(i);
        }
        i = i + 1;
    }
    assert(all.subrange(0, pieces@.len() as int) =~= all);
    match found {
        None => None,
        Some(k) => {
            let mut out: Vec<char> = Vec::new();
            let mut j: usize = 0;
            while j < pieces[k].len()
                invariant
                    k < pieces@.len(),
                    0 <= j <= pieces@[k as int]@.len(),
                    out@ == pieces@[k as int]@.subrange(0, j as int),
                decreases pieces@[k as int]@.len() - j,
            {
                out.push(pieces[k][j]);
                assert(out@ =~= pieces@[k as int]@.subrange(0, j + 1));
                j = j + 1;
            }
            assert(out@ =~= pieces@[k as int]@);
            Some(out)
        },
    }
}

/// The extension of a path's file name, as `Path::extension` finds it.
pub fn path_extension_exec(path: &str) -> (r: Option<String>)
    ensures
        match r {
            Some(e) => path_extension(path@) == Some(e@),
            None => path_extension(path@) is None,
        },
{
    let name = match last_named_component(path) {
        None => {
            return None;
        },
        Some(c) => c,
    };
    if name.len() == 2 && name[0] == '.' && name[1] == '.' {
        proof {
            reveal_strlit("..");
            assert(name@ =~= ".."@);
        }
        return None;
    }
    proof {
        reveal_strlit("..");
        if name@ == ".."@ {
            assert(name@.len() == 2 && name@[0] == '.' && name@[1] == '.');
        }
    }
    // The position just after the last '.', or 0.
    let mut start: usize = name.len();
    assert(name@.subrange(0, name@.len() as int) =~= name@);
    assert(after_last(name@, '.') + name@.subrange(name@.len() as int, name@.len() as int) =~= after_last(
        name@,
        '.',
    ));
    while start > 0 && name[start - 1] != '.'
        invariant
            0 <= start <= name@.len(),
            after_last(name@, '.') == after_last(name@.subrange(0, start as int), '.') + name@.subrange(
                start as int,
                name@.len() as int,
            ),
        decreases start,
    {
        let ghost pre = name@.subrange(0, start as int);
        assert(pre.drop_last() =~= name@.subrange(0, start - 1));
        assert(name@.subrange(start - 1, name@.len() as int) =~= seq![name@[start - 1]] + name@.subrange(
            start as int,
            name@.len() as int,
        ));
        start = start - 1;
    }
    proof {
        let pre = name@.subrange(0, start as int);
        assert(after_last(pre, '.') =~= Seq::<char>::empty());
    }
    if start <= 1 {
        // No '.', or the only one starts the name.
        assert(after_last(name@, '.').len() == name@.len() - start);
        return None;
    }
    let mut ext: Vec<char> = Vec::new();
    let mut i: usize = start;
    while i < name.len()
        invariant
            start <= i <= name@.len(),
            ext@ == name@.subrange(start as int, i as int),
        decreases name@.len() - i,
    {
        ext.push(name[i]);
        assert(ext@ =~= name@.subrange(start as int, i + 1));
        i = i + 1;
    }
    assert(ext@ =~= after_last(name@, '.'));
    Some(string_from_chars(ext.as_slice()))
}

/// The path's extension, lower-cased in ASCII.
fn lower_extension(path: &str) -> (r: Option<String>)
    ensures
        match r {
            Some(e) => path_extension(path@) matches Some(x) && e@ == ascii_lower(x),
            None => path_extension(path@) is None,
        },
{
    match path_extension_exec(path) {
        None => None,
        Some(e) => {
            let cs = chars_of(e.as_str());
            let lower = ascii_lowercase_chars(cs.as_slice());
            Some(string_from_chars(lower.as_slice()))
        },
    }
}

/// Whether the file at `path` is an image, by its extension.
pub fn is_image(path: &str) -> (r: bool)
    ensures
        r == extension_is(path@, |e: Seq<char>| is_image_extension(e)),
{
    match lower_extension(path) {
        None => false,
        Some(e) => {
            let e = e.as_str();
            crate::text::str_eq(e, "avif") || crate::text::str_eq(e, "bmp") || crate::text::str_eq(
                e,
                "dds",
            ) || crate::text::str_eq(e, "exr") || crate::text::str_eq(e, "ff")
                || crate::text::str_eq(e, "gif") || crate::text::str_eq(e, "hdr")
                || crate::text::str_eq(e, "ico") || crate::text::str_eq(e, "jpeg")
                || crate::text::str_eq(e, "jpg") || crate::text::str_eq(e, "png")
                || crate::text::str_eq(e, "pnm") || crate::text::str_eq(e, "qoi")
                || crate::text::str_eq(e, "tga") || crate::text::str_eq(e, "tiff")
                || crate::text::str_eq(e, "tif") || crate::text::str_eq(e, "webp")
        },
    }
}

/// Whether the file at `path` is audio, by its extension.
pub fn is_audio(path: &str) -> (r: bool)
    ensures
        r == extension_is(path@, |e: Seq<char>| is_audio_extension(e)),
{
    match lower_extension(path) {
        None => false,
        Some(e) => {
            let e = e.as_str();
            crate::text::str_eq(e, "aac") || crate::text::str_eq(e, "flac") || crate::text::str_eq(
                e,
                "m4a",
            ) || crate::text::str_eq(e, "mp3") || crate::text::str_eq(e, "ogg")
                || crate::text::str_eq(e, "wav") || crate::text::str_eq(e, "wma")
        },
    }
}

/// Whether the file at `path` is an archive, by its extension.
pub fn is_archive(path: &str) -> (r: bool)
    ensures
        r == extension_is(path@, |e: Seq<char>| is_archive_extension(e)),
{
    match lower_extension(path) {
        None => false,
        Some(e) => {
            let e = e.as_str();
            crate::text::str_eq(e, "7z") || crate::text::str_eq(e, "ar") || crate::text::str_eq(
                e,
                "bz2",
            ) || crate::text::str_eq(e, "cab") || crate::text::str_eq(e, "cpio")
                || crate::text::str_eq(e, "deb") || crate::text::str_eq(e, "gz")
                || crate::text::str_eq(e, "iso") || crate::text::str_eq(e, "jar")
                || crate::text::str_eq(e, "rar") || crate::text::str_eq(e, "rpm")
                || crate::text::str_eq(e, "tar") || crate::text::str_eq(e, "xz")
                || crate::text::str_eq(e, "z") || crate::text::str_eq(e, "zip")
        },
    }
}

/// Whether the file at `path` is a PDF document, by its extension.
pub fn is_pdf(path: &str) -> (r: bool)
    ensures
        r == extension_is(path@, |e: Seq<char>| e == "pdf"@),
{
    match lower_extension(path) {
        None => false,
        Some(e) => crate::text::str_eq(e.as_str(), "pdf"),
    }
}

/// The kind of media a file holds.
#[derive(Clone, Copy, Debug, PartialEq, Eq, Structural)]
pub enum MediaKind {
    Image,
    Audio,
    Archive,
    Pdf,
    /// Anything else is taken for a video.
    Video,
}

/// The kind of media at `path`, checking image, audio, archive and PDF extensions in turn.
pub open spec fn spec_media_kind(p: Seq<char>) -> MediaKind {
    if extension_is(p, |e: Seq<char>| is_image_extension(e)) {
        MediaKind::Image
    } else if extension_is(p, |e: Seq<char>| is_audio_extension(e)) {
        MediaKind::Audio
    } else if extension_is(p, |e: Seq<char>| is_archive_extension(e)) {
        MediaKind::Archive
    } else if extension_is(p, |e: Seq<char>| e == "pdf"@) {
        MediaKind::Pdf
    } else {
        MediaKind::Video
    }
}

/// The kind of media at `path`.
pub fn media_kind(path: &str) -> (r: MediaKind)
    ensures
        r == spec_media_kind(path@),
{
    if is_image(path) {
        MediaKind::Image
    } else if is_audio(path) {
        MediaKind::Audio
    } else if is_archive(path) {
        MediaKind::Archive
    } else if is_pdf(path) {
        MediaKind::Pdf
    } else {
        MediaKind::Video
    }
}

/// The message logged for a preview that cannot be turned into an image yet, by kind.
pub open spec fn preview_todo_message(k: MediaKind) -> Seq<char> {
    match k {
        MediaKind::Image => "TODO: make a preview image for a full size image"@,
        MediaKind::Audio => "TODO: make a preview image for an audio file"@,
        MediaKind::Archive => "TODO: make a preview image for an archive file"@,
        MediaKind::Pdf => "TODO: make a preview image for a PDF file"@,
        MediaKind::Video => "TODO: make a preview image for a video file"@,
    }
}

/// The preview to keep for a downloaded preview file at `abs_path` (stored at `rel_path`
/// in the data directory): an image is kept as it is; for anything else no converter
/// exists yet, so the file is kept too and the returned message, to be logged as an error,
/// says which converter is missing.
pub fn make_preview_thumbnail(rel_path: &str, abs_path: &str) -> (r: (String, Option<&'static str>))
    ensures
        r.0@ == rel_path@,
        match r.1 {
            None => spec_media_kind(abs_path@) == MediaKind::Image,
            Some(m) => spec_media_kind(abs_path@) != MediaKind::Image && m@ == preview_todo_message(
                spec_media_kind(abs_path@),
            ),
        },
{
    let kind = media_kind(abs_path);
    let message = match kind {
        MediaKind::Image => None,
        MediaKind::Audio => Some("TODO: make a preview image for an audio file"),
        MediaKind::Archive => Some("TODO: make a preview image for an archive file"),
        MediaKind::Pdf => Some("TODO: make a preview image for a PDF file"),
        MediaKind::Video => Some("TODO: make a preview image for a video file"),
    };
    (crate::text::owned(rel_path), message)
}

} // verus!
