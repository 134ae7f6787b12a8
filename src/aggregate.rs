use vstd::prelude::*;

use crate::category::{Category, CategoryView};
use crate::images::{Image, ImageView};

verus! {

/// One row of the images ⟕ category_images ⟕ categories join: an image and
/// at most one of its categories. The category columns are all empty when the
/// image belongs to no category.
pub struct ImageRow {
    pub image_id: i64,
    pub image_name: String,
    pub image_description: String,
    pub image_filename: String,
    pub image_position: i64,
    pub image_hide_on_homepage: i64,
    pub category_id: Option<String>,
    pub category_name: Option<String>,
    pub category_position: Option<i64>,
}

/// The category that a row carries, if all of its columns are present.
pub open spec fn row_category(r: ImageRow) -> Option<CategoryView> {
    match (r.category_id, r.category_name, r.category_position) {
        (Some(id), Some(name), Some(position)) => Some(
            CategoryView { id: id@, name: name@, position },
        ),
        _ => None,
    }
}

/// The categories of a run of rows: one per row that carries one, in row
/// order.
pub open spec fn run_categories(rows: Seq<ImageRow>) -> Seq<CategoryView>
    decreases rows.len(),
{
    if rows.len() == 0 {
        Seq::empty()
    } else {
        let prev = run_categories(rows.drop_last());
        match row_category(rows.last()) {
            Some(c) => prev.push(c),
            None => prev,
        }
    }
}

/// The image that a run starting with row `r` describes, before its
/// categories are added.
pub open spec fn row_image(r: ImageRow) -> ImageView {
    ImageView {
        id: r.image_id,
        name: r.image_name@,
        description: r.image_description@,
        filename: r.image_filename@,
        categories: Seq::empty(),
        position: r.image_position,
        hide_on_homepage: r.image_hide_on_homepage == 1,
    }
}

/// Row `i` starts a new run: it is the first row, or its image differs from
/// that of the row before.
pub open spec fn starts_run(rows: Seq<ImageRow>, i: int) -> bool {
    i == 0 || rows[i - 1].image_id != rows[i].image_id
}

/// The nested images that a sequence of join rows describes: each maximal
/// run of consecutive rows with one image identifier becomes one image, with
/// the image columns of the run's first row and the categories of the whole
/// run in row order.
pub open spec fn grouped(rows: Seq<ImageRow>) -> Seq<ImageView>
    decreases rows.len(),
{
    if rows.len() == 0 {
        Seq::empty()
    } else {
        let prev = grouped(rows.drop_last());
        let r = rows.last();
        let i = rows.len() - 1;
        if starts_run(rows, i) {
            let first = row_image(r);
            prev.push(
                match row_category(r) {
                    Some(c) => ImageView { categories: seq![c], ..first },
                    None => first,
                },
            )
        } else {
            let last = prev.last();
            match row_category(r) {
                Some(c) => prev.update(
                    prev.len() - 1,
                    ImageView { categories: last.categories.push(c), ..last },
                ),
                None => prev,
            }
        }
    }
}

fn row_to_category(r: &ImageRow) -> (c: Option<Category>)
    ensures
        match c {
            Some(cat) => row_category(*r) == Some(cat@),
            None => row_category(*r) is None,
        },
{
    match (&r.category_id, &r.category_name, &r.category_position) {
        (Some(id), Some(name), Some(position)) => Some(
            Category { id: id.clone(), name: name.clone(), position: *position },
        ),
        _ => None,
    }
}

/// Folds join rows, sorted so that the rows of one image are consecutive,
/// into nested images. The rows are not re-sorted: rows of one image that
/// are not adjacent make separate images.
pub fn aggregate_rows(rows: &Vec<ImageRow>) -> (r: Vec<Image>)
    ensures
        r@.map_values(|i: Image| i@) == grouped(rows@),
{
    let mut out: Vec<Image> = Vec::new();
    let mut i: usize = 0;
    while i < rows.len()
        invariant
            i <= rows.len(),
            out@.map_values(|m: Image| m@) == grouped(rows@.subrange(0, i as int)),
            i > 0 ==> out.len() > 0,
        decreases rows.len() - i,
    {
        let ghost before = rows@.subrange(0, i as int);
        let ghost after = rows@.subrange(0, i as int + 1);
        assert(after.drop_last() == before);
        assert(after.last() == rows@[i as int]);
        let row = &rows[i];
        let cat = row_to_category(row);
        if i == 0 || rows[i - 1].image_id != row.image_id {
            assert(starts_run(after, i as int));
            let mut categories: Vec<Category> = Vec::new();
            match cat {
                Some(c) => {
                    categories.push(c);
                },
                None => {},
            }
            let image = Image {
                id: row.image_id,
                name: row.image_name.clone(),
                description: row.image_description.clone(),
                filename: row.image_filename.clone(),
                categories,
                position: row.image_position,
                hide_on_homepage: row.image_hide_on_homepage == 1,
            };
            assert(image@.categories =~= (match row_category(*row) {
                Some(c) => seq![c],
                None => Seq::empty(),
            }));
            out.push(image);
            assert(out@.map_values(|m: Image| m@) =~= grouped(after));
        } else {
            assert(!starts_run(after, i as int));
            let last = out.len() - 1;
            match cat {
                Some(c) => {
                    let ghost old_out = out@;
                    let ghost cv = c@;
                    out[last].categories.push(c);
                    assert(out@[last as int].categories@.map_values(|k: Category| k@)
                        =~= old_out[last as int].categories@.map_values(|k: Category| k@).push(cv));
                    assert(out@[last as int]@ == ImageView {
                        categories: old_out[last as int]@.categories.push(cv),
                        ..old_out[last as int]@
                    });
                    assert forall|k: int| 0 <= k < last implies out@[k] == old_out[k] by {}
                    assert(out@.map_values(|m: Image| m@) =~= grouped(after));
                },
                None => {
                    assert(out@.map_values(|m: Image| m@) =~= grouped(after));
                },
            }
        }
        i = i + 1;
    }
    assert(rows@.subrange(0, rows.len() as int) =~= rows@);
    out
}

/// The first image that the rows describe, if any.
pub fn first_image(rows: &Vec<ImageRow>) -> (r: Option<Image>)
    ensures
        match r {
            None => grouped(rows@).len() == 0,
            Some(m) => grouped(rows@).len() > 0 && m@ == grouped(rows@)[0],
        },
{
    let mut images = aggregate_rows(rows);
    if images.len() > 0 {
        let ghost views = images@.map_values(|i: Image| i@);
        assert(views[0] == images@[0]@);
        Some(images.remove(0))
    } else {
        None
    }
}

/// The categories of each image, in image order.
pub open spec fn categories_of(images: Seq<ImageView>) -> Seq<Seq<CategoryView>> {
    images.map_values(|m: ImageView| m.categories)
}

/// Rows exist exactly when images do.
pub proof fn lemma_grouped_empty_iff(rows: Seq<ImageRow>)
    ensures
        grouped(rows).len() == 0 <==> rows.len() == 0,
    decreases rows.len(),
{
    if rows.len() > 1 {
        lemma_grouped_empty_iff(rows.drop_last());
    }
}

/// Grouping loses and invents no category: the images' categories, read in
/// image order, are the categories that the rows carry, in row order.
pub proof fn lemma_grouping_keeps_categories(rows: Seq<ImageRow>)
    ensures
        categories_of(grouped(rows)).flatten() == run_categories(rows),
    decreases rows.len(),
{
    if rows.len() > 0 {
        let prev_rows = rows.drop_last();
        lemma_grouping_keeps_categories(prev_rows);
        lemma_grouped_empty_iff(prev_rows);
        let prev = grouped(prev_rows);
        let g = grouped(rows);
        categories_of(prev).lemma_flatten_and_flatten_alt_are_equivalent();
        categories_of(g).lemma_flatten_and_flatten_alt_are_equivalent();
        let i = rows.len() - 1;
        let r = rows.last();
        if starts_run(rows, i) {
            assert(categories_of(g).drop_last() =~= categories_of(prev));
            assert(categories_of(g).flatten_alt() =~= run_categories(rows));
        } else {
            assert(prev.len() > 0);
            match row_category(r) {
                Some(c) => {
                    assert(categories_of(g).drop_last() =~= categories_of(prev).drop_last());
                    categories_of(prev).lemma_flatten_and_flatten_alt_are_equivalent();
                    assert(categories_of(prev).flatten_alt() =~= categories_of(
                        prev,
                    ).drop_last().flatten_alt() + categories_of(prev).last());
                    assert(categories_of(g).flatten_alt() =~= run_categories(rows));
                },
                None => {
                    assert(categories_of(g) =~= categories_of(prev));
                },
            }
        }
    }
}

} // verus!
