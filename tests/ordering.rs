use jinwonkim_art::error::Error;
use jinwonkim_art::order::{create_slot, delete_slot, find_neighbour, next_position, plan_reorder, reorder, Slot};
use jinwonkim_art::store::{index_of_number, index_of_slug, move_category, move_faq, move_image};

fn slot(id: &str, position: i64) -> Slot<String> {
    Slot { id: id.to_string(), position }
}

fn listing(rows: &[Slot<String>]) -> Vec<String> {
    let mut sorted: Vec<&Slot<String>> = rows.iter().collect();
    sorted.sort_by_key(|s| s.position);
    sorted.iter().map(|s| s.id.clone()).collect()
}

fn positions<K>(rows: &[Slot<K>]) -> Vec<i64> {
    rows.iter().map(|s| s.position).collect()
}

#[test]
fn sky_and_sea_scenario() {
    let mut rows: Vec<Slot<String>> = Vec::new();
    assert_eq!(create_slot(&mut rows, "sky".to_string()), Ok(0));
    assert_eq!(create_slot(&mut rows, "sea".to_string()), Ok(1));
    let sea = index_of_slug(&rows, &"sea".to_string()).unwrap();
    assert_eq!(reorder(&mut rows, sea, true), Ok(()));
    let sky = index_of_slug(&rows, &"sky".to_string()).unwrap();
    assert_eq!(rows[sea].position, 0);
    assert_eq!(rows[sky].position, 1);
    assert_eq!(listing(&rows), vec!["sea".to_string(), "sky".to_string()]);
}

#[test]
fn first_up_and_last_down_are_boundary_no_ops() {
    let mut rows = vec![slot("a", 3), slot("b", 7), slot("c", 12)];
    assert_eq!(reorder(&mut rows, 0, true), Err(Error::AtBoundary));
    assert_eq!(positions(&rows), vec![3, 7, 12]);
    assert_eq!(reorder(&mut rows, 2, false), Err(Error::AtBoundary));
    assert_eq!(positions(&rows), vec![3, 7, 12]);
}

#[test]
fn neighbour_is_nearest_by_position_not_by_index() {
    let rows = vec![slot("a", 10), slot("b", 2), slot("c", 7), slot("d", 5)];
    assert_eq!(find_neighbour(&rows, 0, true), Some(2));
    assert_eq!(find_neighbour(&rows, 3, false), Some(2));
    assert_eq!(find_neighbour(&rows, 1, true), None);
    assert_eq!(find_neighbour(&rows, 0, false), None);
    let swap = plan_reorder(&rows, 3, true).unwrap();
    assert_eq!(swap.neighbour, 1);
    assert_eq!(swap.target_position, 2);
    assert_eq!(swap.neighbour_position, 5);
}

#[test]
fn positions_stay_distinct_through_mixed_operations() {
    let mut rows: Vec<Slot<String>> = Vec::new();
    for name in ["a", "b", "c", "d"] {
        create_slot(&mut rows, name.to_string()).unwrap();
    }
    reorder(&mut rows, 3, true).unwrap();
    delete_slot(&mut rows, 1);
    create_slot(&mut rows, "e".to_string()).unwrap();
    reorder(&mut rows, 0, false).unwrap();
    let _ = reorder(&mut rows, 3, false);
    let mut seen = positions(&rows);
    seen.sort();
    seen.dedup();
    assert_eq!(seen.len(), rows.len());
}

#[test]
fn opposite_moves_restore_the_table() {
    let original = vec![slot("a", 0), slot("b", 1), slot("c", 2)];
    let mut rows = original.iter().map(|s| slot(&s.id, s.position)).collect::<Vec<_>>();
    reorder(&mut rows, 1, true).unwrap();
    reorder(&mut rows, 1, false).unwrap();
    assert_eq!(positions(&rows), positions(&original));
    reorder(&mut rows, 1, false).unwrap();
    reorder(&mut rows, 1, true).unwrap();
    assert_eq!(positions(&rows), positions(&original));
}

#[test]
fn reorder_only_permutes_existing_positions() {
    let mut rows = vec![slot("a", 4), slot("b", 9), slot("c", 1)];
    reorder(&mut rows, 0, false).unwrap();
    let mut p = positions(&rows);
    p.sort();
    assert_eq!(p, vec![1, 4, 9]);
    assert_eq!(rows[0].position, 9);
    assert_eq!(rows[1].position, 4);
}

#[test]
fn next_position_after_gaps_and_empty_table() {
    let empty: Vec<Slot<i64>> = Vec::new();
    assert_eq!(next_position(&empty), Some(0));
    let rows = vec![Slot { id: 1i64, position: 5 }, Slot { id: 2, position: -3 }];
    assert_eq!(next_position(&rows), Some(6));
    let full = vec![Slot { id: 1i64, position: i64::MAX }];
    assert_eq!(next_position(&full), None);
    let mut full = full;
    assert_eq!(create_slot(&mut full, 2), Err(Error::UnknownDatabaseError));
    assert_eq!(full.len(), 1);
}

#[test]
fn moves_by_identifier() {
    let cats = vec![slot("sky", 0), slot("sea", 1)];
    let swap = move_category(&cats, &"sea".to_string(), true).unwrap();
    assert_eq!((swap.target, swap.neighbour), (1, 0));
    assert_eq!((swap.target_position, swap.neighbour_position), (0, 1));
    assert_eq!(move_category(&cats, &"land".to_string(), true), Err(Error::NotFound));
    assert_eq!(move_category(&cats, &"sky".to_string(), true), Err(Error::AtBoundary));

    let images = vec![Slot { id: 11i64, position: 0 }, Slot { id: 12, position: 1 }];
    assert_eq!(move_image(&images, 12, false), Err(Error::AtBoundary));
    assert_eq!(move_image(&images, 13, false), Err(Error::NotFound));
    assert_eq!(move_image(&images, 11, false).unwrap().neighbour, 1);
    assert_eq!(move_faq(&images, 12, true).unwrap().target_position, 0);
    assert_eq!(index_of_number(&images, 12), Some(1));
    assert_eq!(index_of_number(&images, 99), None);
}

#[test]
fn boundary_moves_by_identifier_plan_nothing() {
    let faqs = vec![Slot { id: 5i64, position: 10 }, Slot { id: 6, position: 3 }];
    assert_eq!(move_faq(&faqs, 6, true), Err(Error::AtBoundary));
    assert_eq!(move_faq(&faqs, 5, false), Err(Error::AtBoundary));
    assert_eq!(move_faq(&faqs, 5, true).unwrap().target_position, 3);
    assert_eq!(positions(&faqs), vec![10, 3]);
}
