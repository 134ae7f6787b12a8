use vstd::prelude::*;

use crate::category::{Category, CategoryView};

verus! {

/// An image with the categories it belongs to, in category order.
pub struct Image {
    pub id: i64,
    pub name: String,
    pub description: String,
    pub filename: String,
    pub categories: Vec<Category>,
    pub position: i64,
    pub hide_on_homepage: bool,
}

/// What an image is, as plain values.
pub ghost struct ImageView {
    pub id: i64,
    pub name: Seq<char>,
    pub description: Seq<char>,
    pub filename: Seq<char>,
    pub categories: Seq<CategoryView>,
    pub position: i64,
    pub hide_on_homepage: bool,
}

impl View for Image {
    type V = ImageView;

    open spec fn view(&self) -> ImageView {
        ImageView {
            id: self.id,
            name: self.name@,
            description: self.description@,
            filename: self.filename@,
            categories: self.categories@.map_values(|c: Category| c@),
            position: self.position,
            hide_on_homepage: self.hide_on_homepage,
        }
    }
}

} // verus!
