use vstd::prelude::*;
use vstd::string::*;

use crate::text::push_text;

verus! {

/// `c` in lower case, for ASCII letters.
pub open spec fn ascii_lower(c: char) -> char {
    if 'A' <= c && c <= 'Z' {
        ((c as u8) + 32u8) as char
    } else {
        c
    }
}

/// `s` ends with `suffix`, ignoring the case of ASCII letters; `suffix` is
/// written in lower case.
pub open spec fn ends_with_lower(s: Seq<char>, suffix: Seq<char>) -> bool {
    suffix.len() <= s.len() && forall|i: int|
        0 <= i < suffix.len() ==> ascii_lower(s[s.len() - suffix.len() + i]) == suffix[i]
}

/// The extension a stored upload gets from the name it was uploaded under:
/// `.png` for a name ending in `png`, `.jpg` for one ending in `jpg` or
/// `jpeg` (in any case), and none otherwise.
pub open spec fn upload_extension_of(name: Seq<char>) -> Seq<char> {
    if ends_with_lower(name, seq!['p', 'n', 'g']) {
        ".png"@
    } else if ends_with_lower(name, seq!['j', 'p', 'g']) || ends_with_lower(
        name,
        seq!['j', 'p', 'e', 'g'],
    ) {
        ".jpg"@
    } else {
        ""@
    }
}

/// A character of a hyphenated lower-case hex identifier.
pub open spec fn is_stem_char(c: char) -> bool {
    ('0' <= c && c <= '9') || ('a' <= c && c <= 'f') || c == '-'
}

/// Relies on `uuid::Uuid::new_v4` and its `Display`: a random identifier
/// written as 36 characters, hyphenated lower-case hex.
#[verifier::external_body]
fn random_stem() -> (r: String)
    ensures
        r@.len() == 36,
        forall|i: int| 0 <= i < 36 ==> is_stem_char(#[trigger] r@[i]),
{
    uuid::Uuid::new_v4().to_string()
}

fn lower(c: char) -> (r: char)
    ensures
        r == ascii_lower(c),
{
    if 'A' <= c && c <= 'Z' {
        ((c as u8) + 32u8) as char
    } else {
        c
    }
}

fn ends_with_letters(s: &str, suffix: &[char]) -> (r: bool)
    ensures
        r == ends_with_lower(s@, suffix@),
{
    let n = s.unicode_len();
    let m = suffix.len();
    if m > n {
        return false;
    }
    let mut i: usize = 0;
    while i < m
        invariant
            n == s@.len(),
            m == suffix@.len(),
            m <= n,
            i <= m,
            forall|k: int| 0 <= k < i ==> ascii_lower(s@[n - m + k]) == suffix@[k],
        decreases m - i,
    {
        if lower(s.get_char(n - m + i)) != suffix[i] {
            return false;
        }
        i = i + 1;
    }
    true
}

/// The extension for a file uploaded as `img_name`.
pub fn upload_extension(img_name: &str) -> (r: &'static str)
    ensures
        r@ == upload_extension_of(img_name@),
{
    let png: [char; 3] = ['p', 'n', 'g'];
    let jpg: [char; 3] = ['j', 'p', 'g'];
    let jpeg: [char; 4] = ['j', 'p', 'e', 'g'];
    assert(png@ =~= seq!['p', 'n', 'g']);
    assert(jpg@ =~= seq!['j', 'p', 'g']);
    assert(jpeg@ =~= seq!['j', 'p', 'e', 'g']);
    if ends_with_letters(img_name, png.as_slice()) {
        ".png"
    } else if ends_with_letters(img_name, jpg.as_slice()) || ends_with_letters(
        img_name,
        jpeg.as_slice(),
    ) {
        ".jpg"
    } else {
        ""
    }
}

/// The stored name of an upload: `stem` followed by the extension that
/// `img_name` calls for.
pub fn upload_filename(stem: &str, img_name: &str) -> (r: String)
    ensures
        r@ == stem@ + upload_extension_of(img_name@),
{
    let mut name = stem.to_owned();
    push_text(&mut name, upload_extension(img_name));
    name
}

/// A fresh stored name for an upload: a random 36-character stem and the
/// extension that `img_name` calls for, so that no two uploads collide.
pub fn new_upload_filename(img_name: &str) -> (r: String)
    ensures
        exists|stem: Seq<char>|
            stem.len() == 36 && (forall|i: int| 0 <= i < 36 ==> is_stem_char(#[trigger] stem[i]))
                && r@ == stem + upload_extension_of(img_name@),
        forall|i: int| 0 <= i < r@.len() ==> r@[i] != '/',
        r@.len() > 0 && r@[0] != '.',
{
    let stem = random_stem();
    let r = upload_filename(stem.as_str(), img_name);
    proof {
        reveal_strlit(".png");
        reveal_strlit(".jpg");
        reveal_strlit("");
        let ext = upload_extension_of(img_name@);
        assert forall|i: int| 0 <= i < r@.len() implies r@[i] != '/' by {
            if i < 36 {
                assert(r@[i] == stem@[i]);
                assert(is_stem_char(stem@[i]));
            } else {
                assert(r@[i] == ext[i - 36]);
            }
        }
        assert(r@[0] == stem@[0]);
        assert(is_stem_char(stem@[0]));
    }
    r
}

} // verus!
