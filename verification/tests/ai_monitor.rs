use rmr_core::ai_monitor::{frame_difference, FrameDifference};

#[test]
fn frame_differences() {
    assert_eq!(frame_difference(&[10, 20], &[15, 5]), Some(FrameDifference { total: 20, max_total: 510 }));
    assert_eq!(frame_difference(&[7, 7, 7], &[7, 7, 7]), Some(FrameDifference { total: 0, max_total: 765 }));
    assert_eq!(frame_difference(&[0], &[255]), Some(FrameDifference { total: 255, max_total: 255 }));
    assert_eq!(frame_difference(&[], &[]), None);
    assert_eq!(frame_difference(&[1, 2], &[1]), None);
}

#[test]
fn frames_differ_exactly_when_unequal() {
    let a = [3u8, 200, 0, 17];
    let mut b = a;
    assert_eq!(frame_difference(&a, &b).map(|d| d.total), Some(0));
    b[2] = 1;
    assert_eq!(frame_difference(&a, &b).map(|d| d.total), Some(1));
    assert_eq!(frame_difference(&b, &a).map(|d| d.total), Some(1));
}
