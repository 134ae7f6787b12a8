use vstd::prelude::*;
use vstd::string::*;

use crate::error::Error;
use crate::text::push_char;

verus! {

/// A category as listed: slug identifier, display name and position.
pub struct Category {
    pub id: String,
    pub name: String,
    pub position: i64,
}

/// What a category is, as plain values.
pub ghost struct CategoryView {
    pub id: Seq<char>,
    pub name: Seq<char>,
    pub position: i64,
}

impl View for Category {
    type V = CategoryView;

    open spec fn view(&self) -> CategoryView {
        CategoryView { id: self.id@, name: self.name@, position: self.position }
    }
}

/// A category as offered on an image's edit form, with whether the image
/// belongs to it.
pub struct ImageCategory {
    pub id: String,
    pub name: String,
    pub checked: bool,
}

impl Category {
    /// The form entry for this category, marked `checked` or not.
    pub fn into_image_category(self, checked: bool) -> (r: ImageCategory)
        ensures
            r.id@ == self.id@,
            r.name@ == self.name@,
            r.checked == checked,
    {
        ImageCategory { id: self.id, name: self.name, checked }
    }
}

/// Why a category name was refused.
pub const CATEGORY_NAME_MESSAGE: &'static str = "Must use English alphabetic characters only in name";

/// A character that a category name may hold: an ASCII letter or a space.
pub open spec fn is_name_char(c: char) -> bool {
    ('a' <= c && c <= 'z') || ('A' <= c && c <= 'Z') || c == ' '
}

/// The slug character for a name character: letters in lower case, a
/// space as a hyphen.
pub open spec fn slug_char(c: char) -> char {
    if c == ' ' {
        '-'
    } else if 'A' <= c && c <= 'Z' {
        ((c as u8) + 32u8) as char
    } else {
        c
    }
}

/// The identifier derived from a display name.
pub open spec fn slug_of(name: Seq<char>) -> Seq<char> {
    name.map_values(|c: char| slug_char(c))
}

/// Slugs that pages of the site already use.
pub open spec fn is_reserved_slug(slug: Seq<char>) -> bool {
    slug == seq!['f', 'a', 'q'] || slug == seq!['h', 'o', 'm', 'e'] || slug == seq![
        'a',
        'b',
        'o',
        'u',
        't',
    ]
}

/// A name that a category may be created with.
pub open spec fn valid_category_name(name: Seq<char>) -> bool {
    &&& forall|i: int| 0 <= i < name.len() ==> is_name_char(#[trigger] name[i])
    &&& !is_reserved_slug(slug_of(name))
}

fn lower_name_char(c: char) -> (r: char)
    requires
        is_name_char(c),
    ensures
        r == slug_char(c),
{
    if c == ' ' {
        '-'
    } else if 'A' <= c && c <= 'Z' {
        ((c as u8) + 32u8) as char
    } else {
        c
    }
}

fn is_reserved(slug: &String) -> (r: bool)
    ensures
        r == is_reserved_slug(slug@),
{
    let n = slug.as_str().unicode_len();
    if n == 3 {
        let a = slug.as_str().get_char(0);
        let b = slug.as_str().get_char(1);
        let c = slug.as_str().get_char(2);
        let r = a == 'f' && b == 'a' && c == 'q';
        assert(r ==> slug@ =~= seq!['f', 'a', 'q']);
        r
    } else if n == 4 {
        let a = slug.as_str().get_char(0);
        let b = slug.as_str().get_char(1);
        let c = slug.as_str().get_char(2);
        let d = slug.as_str().get_char(3);
        let r = a == 'h' && b == 'o' && c == 'm' && d == 'e';
        assert(r ==> slug@ =~= seq!['h', 'o', 'm', 'e']);
        r
    } else if n == 5 {
        let a = slug.as_str().get_char(0);
        let b = slug.as_str().get_char(1);
        let c = slug.as_str().get_char(2);
        let d = slug.as_str().get_char(3);
        let e = slug.as_str().get_char(4);
        let r = a == 'a' && b == 'b' && c == 'o' && d == 'u' && e == 't';
        assert(r ==> slug@ =~= seq!['a', 'b', 'o', 'u', 't']);
        r
    } else {
        false
    }
}

/// The identifier of a new category named `name`: the name in lower case
/// with spaces turned into hyphens. Refused, with `IllegalStateError`, when
/// the name holds anything but ASCII letters and spaces, or its slug is one
/// of the reserved `faq`, `home` and `about`.
pub fn category_id_for(name: &str) -> (r: Result<String, Error>)
    ensures
        r is Ok <==> valid_category_name(name@),
        r matches Ok(id) ==> id@ == slug_of(name@),
        r is Err ==> r == Err::<String, Error>(Error::IllegalStateError(CATEGORY_NAME_MESSAGE)),
{
    let n = name.unicode_len();
    let mut slug = String::new();
    let mut i: usize = 0;
    while i < n
        invariant
            n == name@.len(),
            i <= n,
            forall|k: int| 0 <= k < i ==> is_name_char(#[trigger] name@[k]),
            slug@ == slug_of(name@.subrange(0, i as int)),
        decreases n - i,
    {
        let c = name.get_char(i);
        if !(('a' <= c && c <= 'z') || ('A' <= c && c <= 'Z') || c == ' ') {
            return Err(Error::IllegalStateError(CATEGORY_NAME_MESSAGE));
        }
        let l = lower_name_char(c);
        push_char(&mut slug, l);
        assert(slug_of(name@.subrange(0, i as int + 1)) =~= slug_of(name@.subrange(0, i as int)).push(l));
        i = i + 1;
    }
    assert(name@.subrange(0, n as int) =~= name@);
    if is_reserved(&slug) {
        Err(Error::IllegalStateError(CATEGORY_NAME_MESSAGE))
    } else {
        Ok(slug)
    }
}

} // verus!
