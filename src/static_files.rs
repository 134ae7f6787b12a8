use vstd::prelude::*;

use crate::error::Error;
use crate::paths::{
    components, is_absolute, is_prefix, is_within, join, joined, lemma_resolved_path_inside, rendered,
    resolve_inside, stays_inside,
};
use crate::thumbs::Picture;

verus! {

/// `image::ImageFormat`, carried through the library as an opaque value.
#[verifier::external_type_specification]
#[verifier::external_body]
pub struct ExImageFormat(image::ImageFormat);

/// Bytes to be written to a path that was checked to lie in its root.
pub struct FileWrite {
    pub path: String,
    pub bytes: Vec<u8>,
}

/// One of the sandboxed storage roots.
#[derive(Debug, Clone, Copy, PartialEq, Eq)]
pub enum Root {
    Images,
    Thumbs,
    Styles,
    Js,
}

/// The sandboxed directories that originals, thumbnails, stylesheets and
/// scripts live in. No path outside them is ever handed out.
#[derive(Clone)]
pub struct StaticFiles {
    image_root: String,
    thumbs_root: String,
    styles_root: String,
    js_root: String,
}

/// Whether the image crate knows an encoding for the extension of `path`.
pub uninterp spec fn format_known(path: Seq<char>) -> bool;

/// Relies on `image::ImageFormat::from_path`: the format that a file name's
/// extension asks for, if the crate knows one; this depends on the path
/// alone.
#[verifier::external_body]
fn format_for(path: &str) -> (r: Option<image::ImageFormat>)
    ensures
        r is Some <==> format_known(path@),
{
    image::ImageFormat::from_path(path).ok()
}

/// Relies on `image::DynamicImage::write_to`: encodes the pixels in the
/// given format.
#[verifier::external_body]
fn encode(picture: &Picture, format: image::ImageFormat) -> (r: Option<Vec<u8>>) {
    let mut out = std::io::Cursor::new(Vec::new());
    match picture.pixels().write_to(&mut out, format) {
        Ok(()) => Some(out.into_inner()),
        Err(_) => None,
    }
}

/// The path of `name` under `root`, or `InvalidPath` where it would leave it.
pub fn path_under(root: &str, name: &str) -> (r: Result<String, Error>)
    ensures
        r is Ok <==> stays_inside(root@, name@),
        r matches Ok(p) ==> p@ == rendered(components(joined(root@, name@))),
        r matches Ok(p) ==> components(p@).len() > 0 && is_prefix(
            components(root@),
            components(p@).drop_last(),
        ),
        r is Err ==> r == Err::<String, Error>(Error::InvalidPath),
{
    match resolve_inside(root, name) {
        Some(p) => {
            proof {
                lemma_resolved_path_inside(root@, name@);
            }
            Ok(p)
        },
        None => Err(Error::InvalidPath),
    }
}

impl StaticFiles {
    /// The root directory for the given kind of file.
    pub closed spec fn root_view(&self, root: Root) -> Seq<char> {
        match root {
            Root::Images => self.image_root@,
            Root::Thumbs => self.thumbs_root@,
            Root::Styles => self.styles_root@,
            Root::Js => self.js_root@,
        }
    }

    /// Roots `images`, `thumbs`, `styles` and `js` under `root_dir`, which
    /// the caller has made absolute and canonical. Under a relative
    /// `root_dir` every path is refused.
    pub fn new(root_dir: &str) -> (r: StaticFiles)
        ensures
            r.root_view(Root::Images) == joined(root_dir@, "images"@),
            r.root_view(Root::Thumbs) == joined(root_dir@, "thumbs"@),
            r.root_view(Root::Styles) == joined(root_dir@, "styles"@),
            r.root_view(Root::Js) == joined(root_dir@, "js"@),
    {
        StaticFiles {
            image_root: join(root_dir, "images"),
            thumbs_root: join(root_dir, "thumbs"),
            styles_root: join(root_dir, "styles"),
            js_root: join(root_dir, "js"),
        }
    }

    /// The directory of the given root.
    pub fn root(&self, root: Root) -> (r: &String)
        ensures
            r@ == self.root_view(root),
    {
        match root {
            Root::Images => &self.image_root,
            Root::Thumbs => &self.thumbs_root,
            Root::Styles => &self.styles_root,
            Root::Js => &self.js_root,
        }
    }

    /// The path of file `name` under `root`; `InvalidPath` where the file's
    /// directory would not be the root or inside it.
    pub fn path_in(&self, root: Root, name: &str) -> (r: Result<String, Error>)
        ensures
            r is Ok <==> stays_inside(self.root_view(root), name@),
            r matches Ok(p) ==> p@ == rendered(components(joined(self.root_view(root), name@))),
            r matches Ok(p) ==> components(p@).len() > 0 && is_prefix(
                components(self.root_view(root)),
                components(p@).drop_last(),
            ),
            r is Err ==> r == Err::<String, Error>(Error::InvalidPath),
    {
        path_under(self.root(root).as_str(), name)
    }

    /// Confirms that `dir`, a directory as the filesystem resolved it with
    /// links followed, is the given root or lies inside it.
    pub fn confirm_within(&self, root: Root, dir: &str) -> (r: Result<(), Error>)
        ensures
            r is Ok <==> (is_absolute(self.root_view(root)) && is_absolute(dir@) && is_prefix(
                components(self.root_view(root)),
                components(dir@),
            )),
            r is Err ==> r == Err::<(), Error>(Error::InvalidPath),
    {
        if is_within(self.root(root).as_str(), dir) {
            Ok(())
        } else {
            Err(Error::InvalidPath)
        }
    }

    /// Where the original image `name` is read from.
    pub fn get_image_path(&self, name: &str) -> (r: Result<String, Error>)
        ensures
            r is Ok <==> stays_inside(self.root_view(Root::Images), name@),
            r matches Ok(p) ==> p@ == rendered(
                components(joined(self.root_view(Root::Images), name@)),
            ),
            r is Err ==> r == Err::<String, Error>(Error::InvalidPath),
    {
        self.path_in(Root::Images, name)
    }

    /// Where the thumbnail `name` is read from.
    pub fn get_thumb_path(&self, name: &str) -> (r: Result<String, Error>)
        ensures
            r is Ok <==> stays_inside(self.root_view(Root::Thumbs), name@),
            r matches Ok(p) ==> p@ == rendered(
                components(joined(self.root_view(Root::Thumbs), name@)),
            ),
            r is Err ==> r == Err::<String, Error>(Error::InvalidPath),
    {
        self.path_in(Root::Thumbs, name)
    }

    /// Where the stylesheet `name` is read from.
    pub fn get_style_path(&self, name: &str) -> (r: Result<String, Error>)
        ensures
            r is Ok <==> stays_inside(self.root_view(Root::Styles), name@),
            r matches Ok(p) ==> p@ == rendered(
                components(joined(self.root_view(Root::Styles), name@)),
            ),
            r is Err ==> r == Err::<String, Error>(Error::InvalidPath),
    {
        self.path_in(Root::Styles, name)
    }

    /// Where the script `name` is read from.
    pub fn get_js_path(&self, name: &str) -> (r: Result<String, Error>)
        ensures
            r is Ok <==> stays_inside(self.root_view(Root::Js), name@),
            r matches Ok(p) ==> p@ == rendered(components(joined(self.root_view(Root::Js), name@))),
            r is Err ==> r == Err::<String, Error>(Error::InvalidPath),
    {
        self.path_in(Root::Js, name)
    }

    /// The write that stores an uploaded original as `file_path`; refused
    /// with `InvalidPath`, before anything is written, where the path would
    /// leave the image root.
    pub fn save_image(&self, file_path: &str, bytes: Vec<u8>) -> (r: Result<FileWrite, Error>)
        ensures
            r is Ok <==> stays_inside(self.root_view(Root::Images), file_path@),
            r matches Ok(w) ==> w.path@ == rendered(
                components(joined(self.root_view(Root::Images), file_path@)),
            ) && w.bytes@ == bytes@,
            r is Err ==> r == Err::<FileWrite, Error>(Error::InvalidPath),
    {
        let path = self.path_in(Root::Images, file_path)?;
        Ok(FileWrite { path, bytes })
    }

    /// The write that stores a thumbnail as `file_path`, encoded in the
    /// format its extension names. `InvalidPath` where the path would leave
    /// the thumbnail root; `ImageEncode` where the picture cannot be encoded
    /// so.
    pub fn save_thumb(&self, file_path: &str, image: &Picture) -> (r: Result<FileWrite, Error>)
        ensures
            !stays_inside(self.root_view(Root::Thumbs), file_path@) ==> r == Err::<
                FileWrite,
                Error,
            >(Error::InvalidPath),
            r matches Ok(w) ==> w.path@ == rendered(
                components(joined(self.root_view(Root::Thumbs), file_path@)),
            ),
            r matches Err(e) ==> e == Error::InvalidPath || e == Error::ImageEncode,
            r == Err::<FileWrite, Error>(Error::InvalidPath) <==> !stays_inside(
                self.root_view(Root::Thumbs),
                file_path@,
            ),
            stays_inside(self.root_view(Root::Thumbs), file_path@) && !format_known(
                rendered(components(joined(self.root_view(Root::Thumbs), file_path@))),
            ) ==> r == Err::<FileWrite, Error>(Error::ImageEncode),
    {
        let path = self.path_in(Root::Thumbs, file_path)?;
        let format = match format_for(path.as_str()) {
            Some(f) => f,
            None => {
                return Err(Error::ImageEncode);
            },
        };
        match encode(image, format) {
            Some(bytes) => Ok(FileWrite { path, bytes }),
            None => Err(Error::ImageEncode),
        }
    }
}

/// A single upload directory, without the other roots.
pub struct ImageStore {
    pub base_dir: String,
}

impl ImageStore {
    /// A store writing into `base_dir`, which must be absolute for any
    /// write to be allowed.
    pub fn new(base_dir: &str) -> (r: ImageStore)
        ensures
            r.base_dir@ == base_dir@,
    {
        ImageStore { base_dir: base_dir.to_owned() }
    }

    /// The write that stores an upload as `file_name` in the base directory;
    /// `InvalidPath` where the name would leave it.
    pub fn save_image(&self, file_name: &str, bytes: Vec<u8>) -> (r: Result<FileWrite, Error>)
        ensures
            r is Ok <==> stays_inside(self.base_dir@, file_name@),
            r matches Ok(w) ==> w.path@ == rendered(components(joined(self.base_dir@, file_name@)))
                && w.bytes@ == bytes@,
            r is Err ==> r == Err::<FileWrite, Error>(Error::InvalidPath),
    {
        let path = path_under(self.base_dir.as_str(), file_name)?;
        Ok(FileWrite { path, bytes })
    }
}

} // verus!
