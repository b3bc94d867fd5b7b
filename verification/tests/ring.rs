use moonlight_bridge::ring::{advance, diff, split_write, WriteSplit};

#[test]
fn diff_without_and_with_wrap() {
    assert_eq!(diff(10, 40, 1024), 30);
    assert_eq!(diff(1000, 8, 1024), 32);
    assert_eq!(diff(5, 5, 1024), 0);
}

#[test]
fn advance_wraps() {
    assert_eq!(advance(1000, 24, 1024), 0);
    assert_eq!(advance(1000, 30, 1024), 6);
    assert_eq!(advance(0, 3072, 65536), 3072);
}

#[test]
fn write_that_fits_is_not_split() {
    assert_eq!(
        split_write(100, 300, 1024),
        WriteSplit { first: 300, second: 0, next_pos: 400 }
    );
    assert_eq!(
        split_write(724, 300, 1024),
        WriteSplit { first: 300, second: 0, next_pos: 0 }
    );
}

#[test]
fn write_across_the_end_is_split_in_two() {
    let s = split_write(900, 300, 1024);
    assert_eq!(s, WriteSplit { first: 124, second: 176, next_pos: 176 });
    assert_eq!(s.first + s.second, 300);
    assert_eq!(s.next_pos, (900 + 300) % 1024);
}

#[test]
fn split_covers_every_write_that_crosses() {
    let cap = 64usize;
    for write_pos in 0..cap {
        for bytes in 0..=cap {
            let s = split_write(write_pos, bytes, cap);
            assert_eq!(s.first + s.second, bytes);
            assert_eq!(s.next_pos, (write_pos + bytes) % cap);
            if write_pos + bytes > cap {
                assert_eq!(write_pos + s.first, cap);
            }
        }
    }
}
