use orbital::util::minmax_by_key;

#[derive(Debug, PartialEq)]
struct Thing {
    value: u8,
}

impl Thing {
    fn new(value: u8) -> Thing {
        Thing { value }
    }
}

#[test]
fn test_minmax_by_key() {
    let result = minmax_by_key(Thing::new(3), Thing::new(1), |x| x.value);
    assert_eq!(result, [Thing::new(1), Thing::new(3)]);
}

#[test]
fn minmax_by_key_keeps_ordered_pair() {
    let result = minmax_by_key(Thing::new(1), Thing::new(3), |x| x.value);
    assert_eq!(result, [Thing::new(1), Thing::new(3)]);
}

#[test]
fn minmax_by_key_keeps_order_on_equal_keys() {
    let result = minmax_by_key((7u8, 'a'), (7u8, 'b'), |x| x.0);
    assert_eq!(result, [(7, 'a'), (7, 'b')]);
}

#[test]
fn minmax_by_key_with_float_keys() {
    // An unordered key (NaN) never swaps the values.
    let result = minmax_by_key(2.0f64, f64::NAN, |x| *x);
    assert_eq!(result[0], 2.0);
    assert!(result[1].is_nan());
    let result = minmax_by_key(-1.5f64, -2.5f64, |x| x.abs());
    assert_eq!(result, [-1.5, -2.5]);
}
