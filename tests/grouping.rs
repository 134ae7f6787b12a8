use jinwonkim_art::aggregate::{aggregate_rows, first_image, ImageRow};
use jinwonkim_art::category::{category_id_for, Category, CATEGORY_NAME_MESSAGE};
use jinwonkim_art::error::Error;
use jinwonkim_art::records::{edit_categories, find_image, max_image_position};

fn row(image: i64, position: i64, cat: Option<(&str, i64)>) -> ImageRow {
    ImageRow {
        image_id: image,
        image_name: format!("image {image}"),
        image_description: String::from("desc"),
        image_filename: format!("{image}.png"),
        image_position: position,
        image_hide_on_homepage: if image == 2 { 1 } else { 0 },
        category_id: cat.map(|c| c.0.to_string()),
        category_name: cat.map(|c| c.0.to_uppercase()),
        category_position: cat.map(|c| c.1),
    }
}

#[test]
fn flat_rows_become_nested_images() {
    let rows = vec![row(1, 0, Some(("a", 0))), row(1, 0, Some(("b", 1))), row(2, 1, None)];
    let images = aggregate_rows(&rows);
    assert_eq!(images.len(), 2);
    assert_eq!(images[0].id, 1);
    let ids: Vec<&str> = images[0].categories.iter().map(|c| c.id.as_str()).collect();
    assert_eq!(ids, vec!["a", "b"]);
    assert_eq!(images[0].categories[1].name, "B");
    assert_eq!(images[1].id, 2);
    assert!(images[1].categories.is_empty());
    assert!(images[1].hide_on_homepage);
    assert!(!images[0].hide_on_homepage);
    assert_eq!(images[1].filename, "2.png");
}

#[test]
fn empty_rows_give_no_images() {
    assert!(aggregate_rows(&Vec::new()).is_empty());
    assert!(first_image(&Vec::new()).is_none());
}

#[test]
fn partial_category_columns_contribute_nothing() {
    let mut r = row(5, 0, Some(("x", 0)));
    r.category_name = None;
    let images = aggregate_rows(&vec![r]);
    assert_eq!(images.len(), 1);
    assert!(images[0].categories.is_empty());
}

#[test]
fn separated_runs_are_not_merged() {
    let rows = vec![row(1, 0, Some(("a", 0))), row(2, 1, None), row(1, 0, Some(("b", 1)))];
    let images = aggregate_rows(&rows);
    let ids: Vec<i64> = images.iter().map(|i| i.id).collect();
    assert_eq!(ids, vec![1, 2, 1]);
}

#[test]
fn first_image_takes_the_first_run() {
    let rows = vec![row(7, 3, Some(("a", 0))), row(7, 3, Some(("c", 2)))];
    let image = first_image(&rows).unwrap();
    assert_eq!(image.id, 7);
    assert_eq!(image.position, 3);
    assert_eq!(image.categories.len(), 2);
}

#[test]
fn category_slugs() {
    assert_eq!(category_id_for("Nature Photos"), Ok("nature-photos".to_string()));
    assert_eq!(category_id_for("Sky"), Ok("sky".to_string()));
    let refused = Err(Error::IllegalStateError(CATEGORY_NAME_MESSAGE));
    assert_eq!(category_id_for("faq"), refused);
    assert_eq!(category_id_for("Nature123"), refused);
    assert_eq!(category_id_for("FAQ"), refused);
    assert_eq!(category_id_for("About"), refused);
    assert_eq!(category_id_for("Café"), refused);
    assert_eq!(category_id_for(""), Ok(String::new()));
}

#[test]
fn admin_page_helpers() {
    let rows = vec![row(1, 4, Some(("a", 0))), row(2, 9, None), row(3, -1, None)];
    let images = aggregate_rows(&rows);
    assert_eq!(max_image_position(&images), 9);
    assert_eq!(max_image_position(&Vec::new()), i64::MAX);
    assert_eq!(find_image(&images, 3), Some(2));
    assert_eq!(find_image(&images, 4), None);
    let all = vec![
        Category { id: "a".to_string(), name: "A".to_string(), position: 0 },
        Category { id: "b".to_string(), name: "B".to_string(), position: 1 },
    ];
    let entries = edit_categories(all, &images[0]);
    assert_eq!(entries.len(), 2);
    assert!(entries[0].checked);
    assert!(!entries[1].checked);
    assert_eq!(entries[1].name, "B");
}
