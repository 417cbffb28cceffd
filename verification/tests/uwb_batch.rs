use skyfix::uwb::ranges_to_tdoa_batch;

#[derive(Clone, Copy, Debug, PartialEq)]
struct Range {
    anchor: u64,
    position: [f64; 2],
    range_m: f64,
}

#[derive(Clone, Copy, Debug, PartialEq)]
struct Tdoa {
    anchor: [f64; 2],
    anchor_ref: [f64; 2],
    range_diff: f64,
}

fn range(anchor: u64, position: [f64; 2], range_m: f64) -> Range {
    Range { anchor, position, range_m }
}

fn pair(reference: &Range, other: &Range) -> Tdoa {
    Tdoa {
        anchor: other.position,
        anchor_ref: reference.position,
        range_diff: other.range_m - reference.range_m,
    }
}

fn zero() -> Tdoa {
    Tdoa { anchor: [0.0, 0.0], anchor_ref: [0.0, 0.0], range_diff: 0.0 }
}

#[test]
fn ranges_to_tdoa_batch_rejects_too_few_ranges() {
    let r = range(0xAA, [0.0, 0.0], 1.0);
    let mut buf = [zero(); 3];
    assert!(ranges_to_tdoa_batch(&[r], &mut buf, pair).is_none());
    assert!(ranges_to_tdoa_batch(&[], &mut buf, pair).is_none());
    assert_eq!(buf, [zero(); 3]);
}

#[test]
fn batch_pairs_every_range_against_the_first() {
    let ranges = [
        range(0xAAAA, [0.0, 0.0], 2.5),
        range(0xBBBB, [5.0, 0.0], 4.0),
        range(0xCCCC, [0.0, 5.0], 3.0),
        range(0xDDDD, [5.0, 5.0], 4.5),
    ];
    let mut buf = [zero(); 3];
    let n = ranges_to_tdoa_batch(&ranges, &mut buf, pair).expect("batch ok");
    assert_eq!(n, 3);
    assert_eq!(buf[0], Tdoa { anchor: [5.0, 0.0], anchor_ref: [0.0, 0.0], range_diff: 1.5 });
    assert_eq!(buf[1], Tdoa { anchor: [0.0, 5.0], anchor_ref: [0.0, 0.0], range_diff: 0.5 });
    assert_eq!(buf[2], Tdoa { anchor: [5.0, 5.0], anchor_ref: [0.0, 0.0], range_diff: 2.0 });
}

#[test]
fn batch_refuses_short_output_and_keeps_tail_of_long_output() {
    let ranges = [range(1, [0.0, 0.0], 1.0), range(2, [1.0, 0.0], 2.0), range(3, [0.0, 1.0], 4.0)];
    let mut short = [zero(); 1];
    assert_eq!(ranges_to_tdoa_batch(&ranges, &mut short, pair), None);
    assert_eq!(short, [zero(); 1]);

    let marker = Tdoa { anchor: [9.0, 9.0], anchor_ref: [9.0, 9.0], range_diff: 9.0 };
    let mut long = [marker; 4];
    assert_eq!(ranges_to_tdoa_batch(&ranges, &mut long, pair), Some(2));
    assert_eq!(long[0].range_diff, 1.0);
    assert_eq!(long[1].range_diff, 3.0);
    assert_eq!(long[2], marker);
    assert_eq!(long[3], marker);
}

#[test]
fn batch_with_integer_payloads() {
    let ranges = [10i64, 25, 4, 10];
    let mut out = [0i64; 3];
    assert_eq!(ranges_to_tdoa_batch(&ranges, &mut out, |a: &i64, b: &i64| b - a), Some(3));
    assert_eq!(out, [15, -6, 0]);
}
