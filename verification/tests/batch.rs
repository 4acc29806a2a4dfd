use econym::batch::batch_candidates;
use econym::batch::extract_coordinates;
use econym::columns::FloatBitsColumn;
use econym::columns::HierarchyEntries;
use econym::columns::HierarchyItemLists;
use econym::columns::HierarchyLists;
use econym::columns::NamesColumn;
use econym::columns::PlaceBatch;
use econym::columns::PointColumn;
use econym::columns::StringColumn;

fn column(values: &[Option<&str>]) -> StringColumn {
    StringColumn {
        values: values.iter().map(|v| v.unwrap_or("").to_string()).collect(),
        validity: values.iter().map(|v| v.is_some()).collect(),
    }
}

fn floats(values: &[Option<f64>]) -> FloatBitsColumn {
    FloatBitsColumn {
        bits: values.iter().map(|v| v.unwrap_or(0.0).to_bits()).collect(),
        validity: values.iter().map(|v| v.is_some()).collect(),
    }
}

/// Six rows:
/// 0: a neighborhood in a locality, with a point            -> "Kreuzberg, Berlin"
/// 1: a country                                               -> skipped
/// 2: names invalid                                           -> skipped
/// 3: no hierarchy, no primary name                           -> empty name, skipped
/// 4: no hierarchy, primary name, but no latitude             -> skipped
/// 5: no hierarchy, primary name, point                       -> "Hamburg"
fn sample() -> PlaceBatch {
    PlaceBatch {
        num_rows: 6,
        subtype: Some(column(&[
            Some("neighborhood"),
            Some("country"),
            Some("locality"),
            Some("locality"),
            Some("locality"),
            None,
        ])),
        names: Some(NamesColumn {
            validity: vec![true, true, false, true, true, true],
            primary: Some(column(&[
                Some("Kreuzberg"),
                Some("Deutschland"),
                Some("Nowhere"),
                None,
                Some("Bremen"),
                Some("Hamburg"),
            ])),
        }),
        geometry: Some(PointColumn {
            validity: vec![true, true, true, true, true, true],
            x: Some(floats(&[Some(13.40), Some(10.0), Some(1.0), Some(2.0), Some(8.8), Some(10.0)])),
            y: Some(floats(&[Some(52.49), Some(51.0), Some(1.0), Some(2.0), None, Some(53.55)])),
        }),
        hierarchies: Some(HierarchyLists {
            validity: vec![true, true, true, true, true, true],
            offsets: vec![0, 1, 2, 2, 2, 2, 2],
            values_len: 2,
            items: Some(HierarchyItemLists {
                offsets: vec![0, 2, 3],
                entries_len: 3,
                entries: Some(HierarchyEntries {
                    len: 3,
                    subtype: Some(column(&[Some("locality"), Some("neighborhood"), Some("country")])),
                    name: Some(column(&[Some("Berlin"), Some("Kreuzberg"), Some("Deutschland")])),
                }),
            }),
        }),
    }
}

#[test]
fn batch_offers_named_located_rows_in_order() {
    let b = sample();
    assert!(b.check_well_formed());
    let places = batch_candidates(&b);
    let names: Vec<&str> = places.iter().map(|p| p.name.as_str()).collect();
    assert_eq!(names, vec!["Kreuzberg, Berlin", "Hamburg"]);
    assert_eq!(f64::from_bits(places[0].latitude_bits), 52.49);
    assert_eq!(f64::from_bits(places[0].longitude_bits), 13.40);
    assert_eq!(f64::from_bits(places[1].latitude_bits), 53.55);
    assert_eq!(f64::from_bits(places[1].longitude_bits), 10.0);
}

#[test]
fn batch_without_geometry_offers_nothing() {
    let mut b = sample();
    b.geometry = None;
    assert!(batch_candidates(&b).is_empty());
    let mut b = sample();
    b.names = None;
    assert!(batch_candidates(&b).is_empty());
}

#[test]
fn batch_without_subtype_column_skips_nothing_for_subtype() {
    let mut b = sample();
    b.subtype = None;
    let names: Vec<String> = batch_candidates(&b).into_iter().map(|p| p.name).collect();
    assert_eq!(names, vec!["Kreuzberg, Berlin".to_string(), "Deutschland".to_string(), "Hamburg".to_string()]);
}

#[test]
fn coordinates_need_a_complete_point() {
    let g = PointColumn {
        validity: vec![true, false, true],
        x: Some(floats(&[Some(1.5), Some(2.5), None])),
        y: Some(floats(&[Some(-3.5), Some(4.5), Some(5.5)])),
    };
    assert_eq!(extract_coordinates(&g, 0), Some(((-3.5f64).to_bits(), 1.5f64.to_bits())));
    assert_eq!(extract_coordinates(&g, 1), None);
    assert_eq!(extract_coordinates(&g, 2), None);
    let no_x = PointColumn { validity: vec![true], x: None, y: Some(floats(&[Some(1.0)])) };
    assert_eq!(extract_coordinates(&no_x, 0), None);
}

#[test]
fn malformed_batch_is_detected() {
    let mut b = sample();
    b.num_rows = 5;
    assert!(!b.check_well_formed());
}
