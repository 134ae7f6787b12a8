use vstd::prelude::*;
use vstd::string::*;
use vstd::utf8::{decode_utf8, valid_utf8};

use crate::error::Error;
use crate::text::{text_from_utf8, text_is};

verus! {

/// One field of a multipart upload, as read from the request: its name, the
/// file name it was sent under (if any) and its bytes.
pub struct FormField {
    pub name: Option<String>,
    pub file_name: Option<String>,
    pub bytes: Vec<u8>,
}

/// A parsed image upload. The crop rectangle is kept as the JSON text that
/// was sent; it holds fractional pixel coordinates.
pub struct CreateImage {
    pub name: String,
    pub description: String,
    pub categories: Vec<String>,
    pub img: Vec<u8>,
    pub img_name: String,
    pub thumbnail_crop_rect: Option<String>,
}

/// A parsed image edit: new name, description and full category set.
pub struct UpdateImage {
    pub id: i64,
    pub name: String,
    pub description: String,
    pub categories: Vec<String>,
}

pub const MISSING_FIELD_NAME_MESSAGE: &'static str = "Missing field name";

pub const MISSING_FILE_NAME_MESSAGE: &'static str = "Missing filename on image upload";

pub const MISSING_FIELDS_MESSAGE: &'static str = "Missing fields, either name, description or img";

pub const BAD_ID_MESSAGE: &'static str = "Image id must be a whole number";

/// The fields of an upload read so far, as plain values.
pub ghost struct UploadState {
    pub id: Option<Seq<char>>,
    pub name: Option<Seq<char>>,
    pub description: Option<Seq<char>>,
    pub categories: Seq<Seq<char>>,
    pub img: Option<Seq<u8>>,
    pub img_name: Option<Seq<char>>,
    pub crop: Option<Seq<char>>,
}

pub open spec fn empty_state() -> UploadState {
    UploadState {
        id: None,
        name: None,
        description: None,
        categories: Seq::empty(),
        img: None,
        img_name: None,
        crop: None,
    }
}

/// The field's bytes as text, or `MultipartError` where they are not UTF-8.
pub open spec fn field_text(f: FormField) -> Result<Seq<char>, Error> {
    if valid_utf8(f.bytes@) {
        Ok(decode_utf8(f.bytes@))
    } else {
        Err(Error::MultipartError)
    }
}

/// Takes one field into the state. Fields the form does not know are
/// skipped; a later field of the same name replaces an earlier one, but
/// every `category` field adds a category.
pub open spec fn upload_step(s: UploadState, f: FormField) -> Result<UploadState, Error> {
    match f.name {
        None => Err(Error::IllegalStateError(MISSING_FIELD_NAME_MESSAGE)),
        Some(n) => if n@ == "img"@ {
            match f.file_name {
                None => Err(Error::IllegalStateError(MISSING_FILE_NAME_MESSAGE)),
                Some(file) => Ok(UploadState { img: Some(f.bytes@), img_name: Some(file@), ..s }),
            }
        } else if n@ == "id"@ || n@ == "name"@ || n@ == "description"@ || n@ == "category"@ || n@
            == "thumbnail_crop_rect"@ {
            match field_text(f) {
                Err(e) => Err(e),
                Ok(t) => Ok(
                    if n@ == "id"@ {
                        UploadState { id: Some(t), ..s }
                    } else if n@ == "name"@ {
                        UploadState { name: Some(t), ..s }
                    } else if n@ == "description"@ {
                        UploadState { description: Some(t), ..s }
                    } else if n@ == "category"@ {
                        UploadState { categories: s.categories.push(t), ..s }
                    } else {
                        UploadState { crop: Some(t), ..s }
                    },
                ),
            }
        } else {
            Ok(s)
        },
    }
}

/// The state after all fields, or the first error.
pub open spec fn upload_fold(fields: Seq<FormField>) -> Result<UploadState, Error>
    decreases fields.len(),
{
    if fields.len() == 0 {
        Ok(empty_state())
    } else {
        match upload_fold(fields.drop_last()) {
            Err(e) => Err(e),
            Ok(s) => upload_step(s, fields.last()),
        }
    }
}

/// What the fields of an image upload give.
pub open spec fn create_image_of(fields: Seq<FormField>, r: Result<CreateImage, Error>) -> bool {
    match upload_fold(fields) {
        Err(e) => r == Err::<CreateImage, Error>(e),
        Ok(s) => match (s.name, s.description, s.img, s.img_name) {
            (Some(name), Some(description), Some(img), Some(img_name)) => match r {
                Ok(c) => {
                    &&& c.name@ == name
                    &&& c.description@ == description
                    &&& c.categories@.map_values(|x: String| x@) == s.categories
                    &&& c.img@ == img
                    &&& c.img_name@ == img_name
                    &&& match (c.thumbnail_crop_rect, s.crop) {
                        (None, None) => true,
                        (Some(a), Some(b)) => a@ == b,
                        _ => false,
                    }
                },
                Err(_) => false,
            },
            _ => r == Err::<CreateImage, Error>(Error::IllegalStateError(MISSING_FIELDS_MESSAGE)),
        },
    }
}

/// What the fields of an image edit give, where `id_value` reads the id
/// text.
pub open spec fn update_image_of(fields: Seq<FormField>, r: Result<UpdateImage, Error>) -> bool {
    match upload_fold(fields) {
        Err(e) => r == Err::<UpdateImage, Error>(e),
        Ok(s) => match (s.id, s.name, s.description) {
            (Some(id), Some(name), Some(description)) => match parsed_i64(id) {
                None => r == Err::<UpdateImage, Error>(Error::IllegalStateError(BAD_ID_MESSAGE)),
                Some(v) => match r {
                    Ok(u) => {
                        &&& u.id == v
                        &&& u.name@ == name
                        &&& u.description@ == description
                        &&& u.categories@.map_values(|x: String| x@) == s.categories
                    },
                    Err(_) => false,
                },
            },
            _ => r == Err::<UpdateImage, Error>(Error::IllegalStateError(MISSING_FIELDS_MESSAGE)),
        },
    }
}

/// The value of a run of ASCII digits.
pub open spec fn digits_value(s: Seq<char>) -> int
    decreases s.len(),
{
    if s.len() == 0 {
        0
    } else {
        10 * digits_value(s.drop_last()) + (s.last() as int - '0' as int)
    }
}

pub open spec fn all_digits(s: Seq<char>) -> bool {
    forall|i: int| 0 <= i < s.len() ==> '0' <= #[trigger] s[i] && s[i] <= '9'
}

/// A decimal `i64` as `str::parse` reads it: an optional `+` or `-`, then
/// one or more digits, the value within range.
pub open spec fn parsed_i64(s: Seq<char>) -> Option<i64> {
    let negative = s.len() > 0 && s[0] == '-';
    let digits = if s.len() > 0 && (s[0] == '-' || s[0] == '+') {
        s.drop_first()
    } else {
        s
    };
    if digits.len() == 0 || !all_digits(digits) {
        None
    } else {
        let v = if negative {
            -digits_value(digits)
        } else {
            digits_value(digits)
        };
        if i64::MIN <= v <= i64::MAX {
            Some(v as i64)
        } else {
            None
        }
    }
}

/// Reads a decimal `i64`, as `str::parse` does.
pub fn parse_i64(s: &str) -> (r: Option<i64>)
    ensures
        r == parsed_i64(s@),
{
    let n = s.unicode_len();
    let mut start: usize = 0;
    let mut negative = false;
    if n > 0 {
        let c = s.get_char(0);
        if c == '-' {
            negative = true;
            start = 1;
        } else if c == '+' {
            start = 1;
        }
    }
    let ghost digits = s@.subrange(start as int, n as int);
    assert(digits =~= (if s@.len() > 0 && (s@[0] == '-' || s@[0] == '+') {
        s@.drop_first()
    } else {
        s@
    }));
    if start == n {
        return None;
    }
    let limit: u64 = 9223372036854775808;
    let mut v: u64 = 0;
    let mut too_big = false;
    let mut i: usize = start;
    while i < n
        invariant
            n == s@.len(),
            limit == 9223372036854775808u64,
            negative == (s@.len() > 0 && s@[0] == '-'),
            digits == (if s@.len() > 0 && (s@[0] == '-' || s@[0] == '+') {
                s@.drop_first()
            } else {
                s@
            }),
            start <= i <= n,
            digits == s@.subrange(start as int, n as int),
            forall|k: int| start <= k < i ==> '0' <= #[trigger] s@[k] && s@[k] <= '9',
            !too_big ==> v as int == digits_value(s@.subrange(start as int, i as int)),
            !too_big ==> v <= limit,
            too_big ==> digits_value(s@.subrange(start as int, i as int)) > limit,
            digits_value(s@.subrange(start as int, i as int)) >= 0,
        decreases n - i,
    {
        let c = s.get_char(i);
        if !('0' <= c && c <= '9') {
            assert(!all_digits(digits)) by {
                assert(digits[i - start] == c);
            }
            return None;
        }
        let d = (c as u32 - '0' as u32) as u64;
        assert(d <= 9 && d as int == c as int - '0' as int);
        let ghost prev = s@.subrange(start as int, i as int);
        let ghost next = s@.subrange(start as int, i as int + 1);
        assert(next.drop_last() =~= prev);
        if !too_big {
            if v > (limit - d) / 10 {
                too_big = true;
                assert(10 * (v as int) + d as int > limit as int) by (nonlinear_arith)
                    requires
                        v as int > (limit as int - d as int) / 10,
                        d <= 9,
                ;
            } else {
                assert(10 * (v as int) + d as int <= limit as int) by (nonlinear_arith)
                    requires
                        v as int <= (limit as int - d as int) / 10,
                        d <= 9,
                ;
                v = v * 10 + d;
            }
        }
        i = i + 1;
    }
    assert(all_digits(digits)) by {
        assert forall|k: int| 0 <= k < digits.len() implies '0' <= #[trigger] digits[k]
            && digits[k] <= '9' by {
            assert(digits[k] == s@[start + k]);
        }
    }
    if too_big {
        None
    } else if negative {
        if v == limit {
            Some(i64::MIN)
        } else {
            Some(-(v as i64))
        }
    } else if v == limit {
        None
    } else {
        Some(v as i64)
    }
}

/// An error while reading a prefix of the fields is the error of all of
/// them.
proof fn lemma_fold_error_stays(fields: Seq<FormField>, k: int)
    requires
        0 <= k <= fields.len(),
        upload_fold(fields.subrange(0, k)) is Err,
    ensures
        upload_fold(fields) == upload_fold(fields.subrange(0, k)),
    decreases fields.len() - k,
{
    if k < fields.len() {
        let next = fields.subrange(0, k + 1);
        assert(next.drop_last() =~= fields.subrange(0, k));
        lemma_fold_error_stays(fields, k + 1);
    } else {
        assert(fields.subrange(0, k) =~= fields);
    }
}

pub open spec fn opt_text(o: Option<String>) -> Option<Seq<char>> {
    match o {
        Some(t) => Some(t@),
        None => None,
    }
}

/// The fields of an upload read so far.
pub struct Upload {
    id: Option<String>,
    name: Option<String>,
    description: Option<String>,
    categories: Vec<String>,
    img: Option<Vec<u8>>,
    img_name: Option<String>,
    crop: Option<String>,
}

impl View for Upload {
    type V = UploadState;

    closed spec fn view(&self) -> UploadState {
        UploadState {
            id: opt_text(self.id),
            name: opt_text(self.name),
            description: opt_text(self.description),
            categories: self.categories@.map_values(|x: String| x@),
            img: match self.img {
                Some(b) => Some(b@),
                None => None,
            },
            img_name: opt_text(self.img_name),
            crop: opt_text(self.crop),
        }
    }
}

impl Upload {
    /// Takes one field, as `upload_step` says.
    fn take_field(&mut self, f: FormField) -> (r: Result<(), Error>)
        ensures
            match upload_step(old(self)@, f) {
                Err(e) => r == Err::<(), Error>(e),
                Ok(t) => r is Ok && final(self)@ == t,
            },
    {
        let FormField { name: field_name, file_name, bytes } = f;
        let n = match field_name {
            None => {
                return Err(Error::IllegalStateError(MISSING_FIELD_NAME_MESSAGE));
            },
            Some(n) => n,
        };
        if text_is(n.as_str(), "img") {
            return match file_name {
                None => Err(Error::IllegalStateError(MISSING_FILE_NAME_MESSAGE)),
                Some(file) => {
                    self.img = Some(bytes);
                    self.img_name = Some(file);
                    Ok(())
                },
            };
        }
        let is_id = text_is(n.as_str(), "id");
        let is_name = text_is(n.as_str(), "name");
        let is_description = text_is(n.as_str(), "description");
        let is_category = text_is(n.as_str(), "category");
        let is_crop = text_is(n.as_str(), "thumbnail_crop_rect");
        if !(is_id || is_name || is_description || is_category || is_crop) {
            return Ok(());
        }
        let text = match text_from_utf8(bytes) {
            None => {
                return Err(Error::MultipartError);
            },
            Some(t) => t,
        };
        let ghost tv = text@;
        if is_id {
            self.id = Some(text);
        } else if is_name {
            self.name = Some(text);
        } else if is_description {
            self.description = Some(text);
        } else if is_category {
            let ghost before = self.categories@.map_values(|x: String| x@);
            self.categories.push(text);
            assert(self.categories@.map_values(|x: String| x@) =~= before.push(tv));
        } else {
            self.crop = Some(text);
        }
        Ok(())
    }

    /// Reads every field in order; the first error stops the reading.
    fn read(fields: Vec<FormField>) -> (r: Result<Upload, Error>)
        ensures
            match upload_fold(fields@) {
                Err(e) => r is Err && r->Err_0 == e,
                Ok(t) => r matches Ok(u) && u@ == t,
            },
    {
        let ghost all = fields@;
        assert(all.len() == fields.len());
        let mut rest = fields;
        let mut u = Upload {
            id: None,
            name: None,
            description: None,
            categories: Vec::new(),
            img: None,
            img_name: None,
            crop: None,
        };
        assert(u.categories@.map_values(|x: String| x@) =~= Seq::<Seq<char>>::empty());
        let mut i: usize = 0;
        while rest.len() > 0
            invariant
                all == fields@,
                all.len() <= usize::MAX,
                i + rest.len() == all.len(),
                rest@ == all.subrange(i as int, all.len() as int),
                upload_fold(all.subrange(0, i as int)) == Ok::<UploadState, Error>(u@),
            decreases rest.len(),
        {
            let f = rest.remove(0);
            let ghost next = all.subrange(0, i as int + 1);
            assert(next.drop_last() =~= all.subrange(0, i as int));
            assert(next.last() == f);
            assert(upload_fold(next) == upload_step(u@, f));
            match u.take_field(f) {
                Err(e) => {
                    proof {
                        lemma_fold_error_stays(all, i as int + 1);
                    }
                    return Err(e);
                },
                Ok(()) => {},
            }
            i = i + 1;
            assert(rest@ =~= all.subrange(i as int, all.len() as int));
        }
        assert(all.subrange(0, i as int) =~= all);
        Ok(u)
    }
}

impl CreateImage {
    /// Builds an image upload from its multipart fields: `name`,
    /// `description`, an `img` file and optionally `thumbnail_crop_rect`
    /// are taken, each `category` adds one, other fields are skipped.
    pub fn from_multipart(fields: Vec<FormField>) -> (r: Result<CreateImage, Error>)
        ensures
            create_image_of(fields@, r),
    {
        let u = Upload::read(fields)?;
        let Upload { id: _, name, description, categories, img, img_name, crop } = u;
        match (name, description, img, img_name) {
            (Some(name), Some(description), Some(img), Some(img_name)) => Ok(
                CreateImage {
                    name,
                    description,
                    categories,
                    img,
                    img_name,
                    thumbnail_crop_rect: crop,
                },
            ),
            _ => Err(Error::IllegalStateError(MISSING_FIELDS_MESSAGE)),
        }
    }
}

impl UpdateImage {
    /// Builds an image edit from its multipart fields: `id`, `name` and
    /// `description` are taken, each `category` adds one, other fields are
    /// skipped. An id that is not a decimal `i64` is refused.
    pub fn from_multipart(fields: Vec<FormField>) -> (r: Result<UpdateImage, Error>)
        ensures
            update_image_of(fields@, r),
    {
        let u = Upload::read(fields)?;
        let Upload { id, name, description, categories, img: _, img_name: _, crop: _ } = u;
        match (id, name, description) {
            (Some(id), Some(name), Some(description)) => match parse_i64(id.as_str()) {
                None => Err(Error::IllegalStateError(BAD_ID_MESSAGE)),
                Some(v) => Ok(UpdateImage { id: v, name, description, categories }),
            },
            _ => Err(Error::IllegalStateError(MISSING_FIELDS_MESSAGE)),
        }
    }
}

/// Form: create a category with a display name.
pub struct CreateCategory {
    pub name: String,
}

/// Form: delete the category with this slug.
pub struct DeleteCategory {
    pub id: String,
}

/// Form: move the category with this slug up or down.
pub struct MoveCategory {
    pub id: String,
    pub up: bool,
}

/// Form: create an FAQ entry.
pub struct CreateFaq {
    pub question: String,
    pub answer: String,
}

/// Form: delete an FAQ entry.
pub struct DeleteFaq {
    pub id: i64,
}

/// Form: move an FAQ entry up or down.
pub struct MoveFaq {
    pub id: i64,
    pub up: bool,
}

/// Form: delete an image.
pub struct DeleteImage {
    pub id: i64,
}

/// Form: move an image up or down.
pub struct MoveImage {
    pub id: i64,
    pub up: bool,
}

/// Form: hide an image from the home page, or show it again.
pub struct HideImage {
    pub id: i64,
    pub hide: bool,
}

/// Form: derive an image's thumbnail again from a new crop rectangle, sent
/// as JSON text.
pub struct UpdateThumbnailCrop {
    pub id: i64,
    pub thumbnail_crop_rect: String,
}

} // verus!
