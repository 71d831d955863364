//! Character-level text routines of the player: comparing and matching texts,
//! recognising media file names, preparing a font path for the overlay filter,
//! and keeping the subtitle line short.
use vstd::prelude::*;
use vstd::utf8::encode_utf8;

verus! {

/// Calls `String::push`: appends one character.
#[verifier::external_body]
fn push_char(s: &mut String, c: char)
    ensures
        final(s)@ == old(s)@.push(c),
{
    s.push(c)
}

/// Calls `String::remove(0)`: drops the first character.
#[verifier::external_body]
fn remove_first_char(s: &mut String)
    requires
        old(s)@.len() > 0,
    ensures
        final(s)@ == old(s)@.drop_first(),
{
    s.remove(0);
}

/// Whether two texts are equal, character by character.
pub fn text_eq(a: &str, b: &str) -> (r: bool)
    ensures
        r == (a@ == b@),
{
    let n = a.unicode_len();
    if n != b.unicode_len() {
        return false;
    }
    let mut i: usize = 0;
    while i < n
        invariant
            n == a@.len(),
            n == b@.len(),
            i <= n,
            forall|k: int| 0 <= k < i ==> a@[k] == b@[k],
        decreases n - i,
    {
        if a.get_char(i) != b.get_char(i) {
            return false;
        }
        i += 1;
    }
    assert(a@ =~= b@);
    true
}

/// `text` ends with `suffix`.
pub open spec fn has_suffix(text: Seq<char>, suffix: Seq<char>) -> bool {
    suffix.len() <= text.len() && text.subrange(text.len() - suffix.len(), text.len() as int)
        == suffix
}

/// Whether `text` ends with `suffix`.
pub fn ends_with_text(text: &str, suffix: &str) -> (r: bool)
    ensures
        r == has_suffix(text@, suffix@),
{
    let n = text.unicode_len();
    let m = suffix.unicode_len();
    if m > n {
        return false;
    }
    let start = n - m;
    let mut i: usize = 0;
    while i < m
        invariant
            n == text@.len(),
            m == suffix@.len(),
            start == n - m,
            i <= m,
            forall|k: int| 0 <= k < i ==> text@[start + k] == suffix@[k],
        decreases m - i,
    {
        if text.get_char(start + i) != suffix.get_char(i) {
            assert(text@.subrange(start as int, n as int)[i as int] != suffix@[i as int]);
            return false;
        }
        i += 1;
    }
    assert(text@.subrange(start as int, n as int) =~= suffix@);
    true
}

/// The file-name endings the playlist scan accepts as media.
pub open spec fn media_extensions() -> Seq<Seq<char>> {
    seq![".ts"@, ".mp4"@, ".mkv"@, ".flac"@, ".mp3"@, ".m4a"@, ".wav"@, ".ogg"@, ".opus"@]
}

/// The media extensions the playlist scan accepts are exactly the nine audio and video
/// endings: a name matches one of `media_extensions()` exactly when it ends with `.ts`,
/// `.mp4`, `.mkv`, `.flac`, `.mp3`, `.m4a`, `.wav`, `.ogg` or `.opus`.
pub proof fn lemma_media_extensions_are_the_nine(name: Seq<char>)
    ensures
        (exists|i: int| 0 <= i < media_extensions().len() && has_suffix(name, #[trigger] media_extensions()[i]))
            <==> (has_suffix(name, ".ts"@) || has_suffix(name, ".mp4"@) || has_suffix(name, ".mkv"@)
            || has_suffix(name, ".flac"@) || has_suffix(name, ".mp3"@) || has_suffix(name, ".m4a"@)
            || has_suffix(name, ".wav"@) || has_suffix(name, ".ogg"@) || has_suffix(name, ".opus"@)),
        media_extensions().len() == 9,
{
    let e = media_extensions();
    assert(e[0] == ".ts"@ && e[1] == ".mp4"@ && e[2] == ".mkv"@ && e[3] == ".flac"@ && e[4] == ".mp3"@);
    assert(e[5] == ".m4a"@ && e[6] == ".wav"@ && e[7] == ".ogg"@ && e[8] == ".opus"@);
    if (has_suffix(name, ".ts"@) || has_suffix(name, ".mp4"@) || has_suffix(name, ".mkv"@)
        || has_suffix(name, ".flac"@) || has_suffix(name, ".mp3"@) || has_suffix(name, ".m4a"@)
        || has_suffix(name, ".wav"@) || has_suffix(name, ".ogg"@) || has_suffix(name, ".opus"@)) {
        if has_suffix(name, ".ts"@) {
            assert(has_suffix(name, e[0]));
        } else if has_suffix(name, ".mp4"@) {
            assert(has_suffix(name, e[1]));
        } else if has_suffix(name, ".mkv"@) {
            assert(has_suffix(name, e[2]));
        } else if has_suffix(name, ".flac"@) {
            assert(has_suffix(name, e[3]));
        } else if has_suffix(name, ".mp3"@) {
            assert(has_suffix(name, e[4]));
        } else if has_suffix(name, ".m4a"@) {
            assert(has_suffix(name, e[5]));
        } else if has_suffix(name, ".wav"@) {
            assert(has_suffix(name, e[6]));
        } else if has_suffix(name, ".ogg"@) {
            assert(has_suffix(name, e[7]));
        } else {
            assert(has_suffix(name, e[8]));
        }
    }
}

/// Whether a file name ends with one of the media extensions `.ts`, `.mp4`, `.mkv`,
/// `.flac`, `.mp3`, `.m4a`, `.wav`, `.ogg`, `.opus` (case-sensitive).
pub fn is_media_file_name(name: &str) -> (r: bool)
    ensures
        r == exists|i: int| 0 <= i < media_extensions().len() && has_suffix(name@, #[trigger] media_extensions()[i]),
        r == (has_suffix(name@, ".ts"@) || has_suffix(name@, ".mp4"@) || has_suffix(name@, ".mkv"@)
            || has_suffix(name@, ".flac"@) || has_suffix(name@, ".mp3"@) || has_suffix(name@, ".m4a"@)
            || has_suffix(name@, ".wav"@) || has_suffix(name@, ".ogg"@) || has_suffix(name@, ".opus"@)),
{
    proof {
        lemma_media_extensions_are_the_nine(name@);
    }
    let exts: [&str; 9] = [".ts", ".mp4", ".mkv", ".flac", ".mp3", ".m4a", ".wav", ".ogg", ".opus"];
    proof {
        reveal_strlit(".ts");
        reveal_strlit(".mp4");
        reveal_strlit(".mkv");
        reveal_strlit(".flac");
        reveal_strlit(".mp3");
        reveal_strlit(".m4a");
        reveal_strlit(".wav");
        reveal_strlit(".ogg");
        reveal_strlit(".opus");
        assert(forall|i: int| 0 <= i < 9 ==> #[trigger] exts@[i]@ == media_extensions()[i]);
    }
    let mut i: usize = 0;
    while i < 9
        invariant
            i <= 9,
            forall|j: int| 0 <= j < 9 ==> #[trigger] exts@[j]@ == media_extensions()[j],
            forall|j: int| 0 <= j < i ==> !has_suffix(name@, #[trigger] media_extensions()[j]),
        decreases 9 - i,
    {
        if ends_with_text(name, exts[i]) {
            assert(has_suffix(name@, media_extensions()[i as int]));
            return true;
        }
        i += 1;
    }
    false
}

/// The path with every `\` turned into `/`.
pub open spec fn slashes_forward(p: Seq<char>) -> Seq<char> {
    p.map_values(|c: char| if c == '\\' { '/' } else { c })
}

/// The position of the first `:` in `p`, if any.
pub open spec fn first_colon(p: Seq<char>) -> Option<int> {
    if exists|k: int| 0 <= k < p.len() && p[k] == ':' {
        Some(choose|k: int| 0 <= k < p.len() && p[k] == ':' && forall|j: int| 0 <= j < k ==> p[j] != ':')
    } else {
        None
    }
}

/// Prepares a font path for the text-overlay filter's option string: backslashes become
/// slashes and the drive colon is escaped with a backslash. Returns `None` when the path
/// has no colon (the overlay is then not set up).
pub fn escape_font_path(path: &str) -> (r: Option<String>)
    ensures
        match first_colon(path@) {
            None => r is None,
            Some(k) => r matches Some(s) && s@ == slashes_forward(path@).subrange(0, k).push('\\')
                + slashes_forward(path@).subrange(k, path@.len() as int),
        },
{
    let n = path.unicode_len();
    let mut out = String::new();
    let mut colon: Option<usize> = None;
    let mut i: usize = 0;
    let ghost fwd = slashes_forward(path@);
    while i < n
        invariant
            n == path@.len(),
            fwd == slashes_forward(path@),
            i <= n,
            match colon {
                None => out@ == fwd.subrange(0, i as int) && forall|j: int| 0 <= j < i ==> path@[j] != ':',
                Some(k) => {
                    &&& k < i
                    &&& path@[k as int] == ':'
                    &&& forall|j: int| 0 <= j < k ==> path@[j] != ':'
                    &&& out@ == fwd.subrange(0, k as int).push('\\') + fwd.subrange(k as int, i as int)
                },
            },
        decreases n - i,
    {
        let c = path.get_char(i);
        let d = if c == '\\' { '/' } else { c };
        if colon.is_none() && c == ':' {
            push_char(&mut out, '\\');
            colon = Some(i);
        }
        let ghost before = out@;
        push_char(&mut out, d);
        proof {
            assert(fwd[i as int] == d);
            match colon {
                None => {
                    assert(out@ =~= fwd.subrange(0, i + 1));
                },
                Some(k) => {
                    assert(out@ =~= fwd.subrange(0, k as int).push('\\') + fwd.subrange(
                        k as int,
                        i + 1,
                    ));
                },
            }
        }
        i += 1;
    }
    match colon {
        None => {
            proof {
                assert(!exists|k: int| 0 <= k < path@.len() && path@[k] == ':');
            }
            None
        },
        Some(k) => {
            proof {
                let c = first_colon(path@)->Some_0;
                assert(c == k as int) by {
                    if c < k {
                        assert(path@[c] == ':');
                    } else if c > k {
                        assert(path@[k as int] == ':');
                    }
                }
            }
            Some(out)
        },
    }
}

/// The subtitle line after appending newly recognised text: when it is longer than 50
/// bytes (UTF-8), its first character is dropped. (The byte length is taken as the
/// `usize` that `str::len` reports.)
pub open spec fn rolled_subtitle(text: Seq<char>, incoming: Seq<char>) -> Seq<char> {
    let t = text + incoming;
    if encode_utf8(t).len() as usize > 50 {
        t.drop_first()
    } else {
        t
    }
}

/// Appends newly recognised text to the subtitle line and keeps it short.
pub fn roll_subtitle(text: &mut String, incoming: &str)
    ensures
        final(text)@ == rolled_subtitle(old(text)@, incoming@),
{
    text.append(incoming);
    let len = text.as_str().len();
    if len > 50 {
        proof {
            if text@.len() == 0 {
                assert(encode_utf8(text@) =~= Seq::<u8>::empty());
            }
        }
        remove_first_char(text);
    }
}

} // verus!
