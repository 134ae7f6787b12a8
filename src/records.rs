use vstd::prelude::*;

use crate::category::{Category, ImageCategory};
use crate::forms::CreateFaq;
use crate::images::Image;
use crate::text::{trim, trimmed};

verus! {

/// An FAQ entry as listed.
pub struct Faq {
    pub id: i64,
    pub question: String,
    pub answer: String,
}

/// The columns written when an image is created or edited, with white space
/// trimmed from the texts.
pub struct ImageRecord {
    pub name: String,
    pub description: String,
    pub filename: String,
    pub categories: Vec<String>,
}

impl ImageRecord {
    pub fn new(name: &str, description: &str, filename: &str, categories: Vec<String>) -> (r:
        ImageRecord)
        ensures
            r.name@ == trimmed(name@),
            r.description@ == trimmed(description@),
            r.filename@ == trimmed(filename@),
            r.categories@ == categories@,
    {
        ImageRecord {
            name: trim(name),
            description: trim(description),
            filename: trim(filename),
            categories,
        }
    }
}

impl CreateFaq {
    /// The entry with white space trimmed from question and answer.
    pub fn trimmed(&self) -> (r: CreateFaq)
        ensures
            r.question@ == trimmed(self.question@),
            r.answer@ == trimmed(self.answer@),
    {
        CreateFaq { question: trim(self.question.as_str()), answer: trim(self.answer.as_str()) }
    }
}

/// The text shown on the about page before any was written.
pub const ABOUT_PLACEHOLDER: &'static str = "About page coming soon";

/// The about text as stored: trimmed.
pub fn about_text(text: &str) -> (r: String)
    ensures
        r@ == trimmed(text@),
{
    trim(text)
}

/// The about text to show: the stored one, or the placeholder.
pub fn about_or_default(stored: Option<String>) -> (r: String)
    ensures
        r@ == match stored {
            Some(t) => t@,
            None => ABOUT_PLACEHOLDER@,
        },
{
    match stored {
        Some(t) => t,
        None => ABOUT_PLACEHOLDER.to_owned(),
    }
}

/// The stored value of the hide-on-homepage flag.
pub fn hide_flag(hide: bool) -> (r: i64)
    ensures
        r == (if hide {
            1i64
        } else {
            0i64
        }),
{
    if hide {
        1
    } else {
        0
    }
}

/// The greatest image position, or `i64::MAX` when there is no image.
pub fn max_image_position(images: &Vec<Image>) -> (r: i64)
    ensures
        images.len() == 0 ==> r == i64::MAX,
        images.len() > 0 ==> (exists|i: int| 0 <= i < images.len() && images@[i].position == r)
            && forall|i: int| 0 <= i < images.len() ==> images@[i].position <= r,
{
    if images.len() == 0 {
        return i64::MAX;
    }
    let mut best = images[0].position;
    let mut k: usize = 1;
    while k < images.len()
        invariant
            1 <= k <= images.len(),
            exists|i: int| 0 <= i < k && images@[i].position == best,
            forall|i: int| 0 <= i < k ==> images@[i].position <= best,
        decreases images.len() - k,
    {
        if images[k].position > best {
            best = images[k].position;
        }
        k = k + 1;
    }
    best
}

/// The image with identifier `id`, if listed.
pub fn find_image(images: &Vec<Image>, id: i64) -> (r: Option<usize>)
    ensures
        r matches Some(i) ==> i < images.len() && images@[i as int].id == id,
        r is None ==> forall|i: int| 0 <= i < images.len() ==> images@[i].id != id,
{
    let mut k: usize = 0;
    while k < images.len()
        invariant
            k <= images.len(),
            forall|i: int| 0 <= i < k ==> images@[i].id != id,
        decreases images.len() - k,
    {
        if images[k].id == id {
            return Some(k);
        }
        k = k + 1;
    }
    None
}

/// Whether some category of the list has the slug `id`.
pub fn has_category(categories: &Vec<Category>, id: &String) -> (r: bool)
    ensures
        r == exists|i: int| 0 <= i < categories.len() && categories@[i].id@ == id@,
{
    let mut k: usize = 0;
    while k < categories.len()
        invariant
            k <= categories.len(),
            forall|i: int| 0 <= i < k ==> categories@[i].id@ != id@,
        decreases categories.len() - k,
    {
        if categories[k].id == *id {
            return true;
        }
        k = k + 1;
    }
    false
}

/// The entries of an image's edit form: every category, checked where the
/// image belongs to it.
pub fn edit_categories(categories: Vec<Category>, image: &Image) -> (r: Vec<ImageCategory>)
    ensures
        r.len() == categories.len(),
        forall|i: int|
            0 <= i < r.len() ==> {
                &&& r@[i].id@ == categories@[i].id@
                &&& r@[i].name@ == categories@[i].name@
                &&& r@[i].checked == exists|j: int|
                    0 <= j < image.categories.len() && image.categories@[j].id@
                        == categories@[i].id@
            },
{
    let ghost all = categories@;
    let mut rest = categories;
    let mut out: Vec<ImageCategory> = Vec::new();
    while rest.len() > 0
        invariant
            out.len() + rest.len() == all.len(),
            rest@ == all.subrange(out.len() as int, all.len() as int),
            forall|i: int|
                0 <= i < out.len() ==> {
                    &&& out@[i].id@ == all[i].id@
                    &&& out@[i].name@ == all[i].name@
                    &&& out@[i].checked == exists|j: int|
                        0 <= j < image.categories.len() && image.categories@[j].id@ == all[i].id@
                },
        decreases rest.len(),
    {
        let c = rest.remove(0);
        let checked = has_category(&image.categories, &c.id);
        let ghost k = out.len() as int;
        assert(c == all[k]);
        out.push(c.into_image_category(checked));
        assert(rest@ =~= all.subrange(out.len() as int, all.len() as int));
    }
    out
}

} // verus!
