use econym::place::LoadingPlace;
use econym::table::Neighbour;
use econym::table::PlaceTable;
use econym::table::PlaceUpdate;

fn place(name: &str, lat: f64, lon: f64) -> LoadingPlace {
    LoadingPlace { name: name.to_string(), latitude_bits: lat.to_bits(), longitude_bits: lon.to_bits() }
}

fn same(a: &LoadingPlace, b: &LoadingPlace) -> bool {
    a.name == b.name && a.latitude_bits == b.latitude_bits && a.longitude_bits == b.longitude_bits
}

#[test]
fn first_place_is_appended() {
    let mut t = PlaceTable::new();
    assert!(t.is_empty());
    match t.create_or_update_place(place("Berlin", 52.52, 13.40), None) {
        PlaceUpdate::Appended { index } => assert_eq!(index, 0),
        PlaceUpdate::Replaced { .. } => panic!("replaced in an empty table"),
    }
    assert_eq!(t.len(), 1);
    assert!(same(&t.place_for_item(0).unwrap(), &place("Berlin", 52.52, 13.40)));
}

#[test]
fn far_place_is_appended_near_place_replaces() {
    let mut t = PlaceTable::new();
    t.create_or_update_place(place("A", 1.0, 1.0), None);
    let far = t.create_or_update_place(
        place("B", 2.0, 2.0),
        Some(Neighbour { item: 0, within_merge_distance: false }),
    );
    assert!(matches!(far, PlaceUpdate::Appended { index: 1 }));
    let near = t.create_or_update_place(
        place("A2", 1.0, 1.0000001),
        Some(Neighbour { item: 0, within_merge_distance: true }),
    );
    match near {
        PlaceUpdate::Replaced { index, previous } => {
            assert_eq!(index, 0);
            assert!(same(&previous, &place("A", 1.0, 1.0)));
        },
        PlaceUpdate::Appended { .. } => panic!("near place appended"),
    }
    assert_eq!(t.len(), 2);
    assert!(same(&t.place_for_item(0).unwrap(), &place("A2", 1.0, 1.0000001)));
    assert!(same(&t.place_for_item(1).unwrap(), &place("B", 2.0, 2.0)));
}

#[test]
fn lookup_out_of_range_is_none() {
    let t = PlaceTable::from_places(vec![place("X", 0.0, 0.0)]);
    assert!(t.place_for_item(0).is_some());
    assert!(t.place_for_item(1).is_none());
    assert!(t.place_for_item(u64::MAX).is_none());
    assert!(PlaceTable::new().place_for_item(0).is_none());
}

#[test]
fn merged_place_is_read_back_and_others_kept() {
    let mut t = PlaceTable::from_places(vec![place("P0", 0.0, 0.0), place("P1", 1.0, 1.0), place("P2", 2.0, 2.0)]);
    let update = t.create_or_update_place(
        place("Q", 1.0, 1.0),
        Some(Neighbour { item: 1, within_merge_distance: true }),
    );
    let index = match update {
        PlaceUpdate::Replaced { index, .. } => index,
        PlaceUpdate::Appended { index } => index,
    };
    assert!(same(&t.place_for_item(index).unwrap(), &place("Q", 1.0, 1.0)));
    assert!(same(&t.place_for_item(0).unwrap(), &place("P0", 0.0, 0.0)));
    assert!(same(&t.place_for_item(2).unwrap(), &place("P2", 2.0, 2.0)));
    assert_eq!(t.places().len(), 3);
}

#[test]
fn clone_and_duplicate_keep_fields() {
    let p = place("Name", -33.9, 151.2);
    assert!(same(&p.clone(), &p));
    assert!(same(&p.duplicate(), &p));
}
