use cyan_skillfish_governor::safe_points::{SafePoint, SafePointError, SafePoints};

fn table(points: &[(u16, u16)]) -> Result<SafePoints, SafePointError> {
    let v: Vec<SafePoint> = points
        .iter()
        .map(|&(frequency, voltage)| SafePoint { frequency, voltage })
        .collect();
    SafePoints::try_new(v)
}

#[test]
fn range_lookup_picks_the_smallest_point_at_or_above() {
    let sp = table(&[(350, 700), (1000, 850), (2000, 1000)]).unwrap();
    assert_eq!(sp.voltage_for(900), Some(850));
    assert_eq!(sp.voltage_for(2000), Some(1000));
    assert_eq!(sp.voltage_for(350), Some(700));
    assert_eq!(sp.voltage_for(1), Some(700));
    assert_eq!(sp.voltage_for(1001), Some(1000));
    assert_eq!(sp.voltage_for(2001), None);
}

#[test]
fn points_are_ordered_whatever_order_they_came_in() {
    let sp = table(&[(2000, 1000), (350, 700), (1000, 850)]).unwrap();
    assert_eq!(sp.len(), 3);
    assert_eq!(sp.lowest_freq(), 350);
    assert_eq!(sp.highest_freq(), 2000);
    assert_eq!(sp.point_at(0).frequency, 350);
    assert_eq!(sp.point_at(1).frequency, 1000);
    assert_eq!(sp.point_at(2).frequency, 2000);
}

#[test]
fn empty_list_is_refused() {
    assert_eq!(table(&[]).unwrap_err(), SafePointError::Empty);
}

#[test]
fn duplicate_frequency_is_refused() {
    assert_eq!(
        table(&[(350, 700), (350, 750)]).unwrap_err(),
        SafePointError::DuplicateFrequency
    );
}

#[test]
fn voltage_inversion_is_refused() {
    assert_eq!(
        table(&[(350, 800), (1000, 700)]).unwrap_err(),
        SafePointError::VoltageNotMonotonic
    );
}

#[test]
fn equal_voltages_at_different_frequencies_are_fine() {
    let sp = table(&[(350, 700), (500, 700)]).unwrap();
    assert_eq!(sp.voltage_for(400), Some(700));
}

#[test]
fn selected_voltage_grows_with_the_request() {
    let sp = table(&[(350, 700), (800, 760), (1400, 880), (2000, 1000)]).unwrap();
    let mut last = 0u16;
    for f in [350u16, 351, 799, 800, 801, 1400, 1999, 2000] {
        let v = sp.voltage_for(f).unwrap();
        assert!(v >= last);
        last = v;
    }
}
