use s3_writer::location::Location;
use s3_writer::writer::{S3Writer, UploadPlan};

const MB: usize = 1024 * 1024;

fn target() -> Location {
    Location { bucket: String::from("bucket"), key: String::from("key") }
}

#[test]
fn three_slices_split_into_two_parts() {
    // 2 MB + 2 MB + 1 MB with a 3 MB split threshold: the buffer reaches
    // 4 MB on the second write and is sealed; the last 1 MB is sealed at
    // finish. Two parts force a multipart upload, in write order.
    let mut w = S3Writer::with_limits(target(), 3 * MB, 5 * MB);
    w.write(&vec![1u8; 2 * MB]).unwrap();
    w.write(&vec![2u8; 2 * MB]).unwrap();
    w.write(&vec![3u8; MB]).unwrap();
    assert_eq!(w.total_bytes(), 5 * MB);
    let (plan, total) = w.finish();
    assert_eq!(total, 5 * MB);
    match plan {
        UploadPlan::Multipart(parts) => {
            assert_eq!(parts.len(), 2);
            assert_eq!(parts[0].len(), 4 * MB);
            assert!(parts[0][..2 * MB].iter().all(|b| *b == 1));
            assert!(parts[0][2 * MB..].iter().all(|b| *b == 2));
            assert_eq!(parts[1], vec![3u8; MB]);
        }
        UploadPlan::SimplePut(_) => panic!("expected a multipart plan"),
    }
}

#[test]
fn small_object_gets_single_put() {
    // 100 bytes against the default 32 MB threshold and 5 MB minimum:
    // one sealed part, below the minimum, so a single put of 100 bytes.
    let mut w = S3Writer::new("s3://bucket/key").unwrap();
    let data: Vec<u8> = (0..100u8).collect();
    assert_eq!(w.write(&data).unwrap(), 100);
    let (plan, total) = w.finish();
    assert_eq!(total, 100);
    match plan {
        UploadPlan::SimplePut(bytes) => assert_eq!(bytes, data),
        UploadPlan::Multipart(_) => panic!("expected a single put"),
    }
}

#[test]
fn finish_without_writes_is_empty_single_put() {
    // Zero writes seal zero parts: the writer issues a zero-length single
    // put, consistently.
    let (plan, total) = S3Writer::with_limits(target(), 3 * MB, 5 * MB).finish();
    assert_eq!(total, 0);
    match plan {
        UploadPlan::SimplePut(bytes) => assert!(bytes.is_empty()),
        UploadPlan::Multipart(_) => panic!("expected a single put"),
    }
    let (plan2, total2) = S3Writer::new("s3://bucket/key").unwrap().finish();
    assert_eq!(total2, 0);
    assert!(matches!(plan2, UploadPlan::SimplePut(b) if b.is_empty()));
}

#[test]
fn small_total_seals_exactly_one_part() {
    // Writes totalling less than the threshold end in exactly one sealed
    // part holding their concatenation; a minimum of 1 byte forces the
    // multipart path, which shows the sealed parts.
    let mut w = S3Writer::with_limits(target(), 10, 1);
    w.write(b"ab").unwrap();
    w.write(b"cd").unwrap();
    let (plan, total) = w.finish();
    assert_eq!(total, 4);
    match plan {
        UploadPlan::Multipart(parts) => {
            assert_eq!(parts.len(), 1);
            assert_eq!(parts[0], b"abcd");
        }
        UploadPlan::SimplePut(_) => panic!("expected a multipart plan"),
    }
}

#[test]
fn large_total_parts_meet_threshold_and_reassemble() {
    // With a 2-byte threshold, every part but the last reaches 2 bytes and
    // the concatenation reproduces the input stream.
    let mut w = S3Writer::with_limits(target(), 2, 1);
    w.write(b"abc").unwrap();
    w.write(b"de").unwrap();
    w.write(b"f").unwrap();
    let (plan, total) = w.finish();
    assert_eq!(total, 6);
    match plan {
        UploadPlan::Multipart(parts) => {
            assert_eq!(parts.len(), 3);
            assert_eq!(parts[0], b"abc");
            assert_eq!(parts[1], b"de");
            assert_eq!(parts[2], b"f");
            for p in &parts[..parts.len() - 1] {
                assert!(p.len() >= 2);
            }
            let joined: Vec<u8> = parts.concat();
            assert_eq!(joined, b"abcdef");
        }
        UploadPlan::SimplePut(_) => panic!("expected a multipart plan"),
    }
}

#[test]
fn counter_is_sum_of_slice_lengths() {
    let mut w = S3Writer::with_limits(target(), 4, 1);
    assert_eq!(w.total_bytes(), 0);
    w.write(b"xyz").unwrap();
    assert_eq!(w.total_bytes(), 3);
    w.write(b"").unwrap();
    assert_eq!(w.total_bytes(), 3);
    w.write(b"0123456789").unwrap();
    assert_eq!(w.total_bytes(), 13);
    assert_eq!(w.buffer_size(), 13);
    let (_, total) = w.finish();
    assert_eq!(total, 13);
}

#[test]
fn lone_part_at_minimum_takes_multipart() {
    // A single sealed part at or above the provider minimum is uploaded
    // through the multipart path.
    let mut w = S3Writer::with_limits(target(), 32 * MB, 5);
    w.write(b"01234").unwrap();
    let (plan, _) = w.finish();
    match plan {
        UploadPlan::Multipart(parts) => {
            assert_eq!(parts.len(), 1);
            assert_eq!(parts[0], b"01234");
        }
        UploadPlan::SimplePut(_) => panic!("expected a multipart plan"),
    }
}

#[test]
fn flush_changes_nothing() {
    let mut w = S3Writer::with_limits(target(), 8, 1);
    w.write(b"hello").unwrap();
    w.flush().unwrap();
    assert_eq!(w.total_bytes(), 5);
    w.flush().unwrap();
    let (plan, total) = w.finish();
    assert_eq!(total, 5);
    match plan {
        UploadPlan::Multipart(parts) => {
            assert_eq!(parts.len(), 1);
            assert_eq!(parts[0], b"hello");
        }
        UploadPlan::SimplePut(_) => panic!("expected a multipart plan"),
    }
}
