//! Notifications of the ADS protocol.

use ioc_drivers::twincat::ads::error::AdsError;
use ioc_drivers::twincat::ads::notification::{decode_notification, NotificationSample};

type Sample<'a> = (u32, &'a [u8]);
type Stamp<'a> = (u64, &'a [Sample<'a>]);

fn build(stamps: &[Stamp<'_>]) -> Vec<u8> {
    let mut body = Vec::new();
    body.extend_from_slice(&(stamps.len() as u32).to_le_bytes());
    for (ts, samples) in stamps {
        body.extend_from_slice(&ts.to_le_bytes());
        body.extend_from_slice(&(samples.len() as u32).to_le_bytes());
        for (h, d) in *samples {
            body.extend_from_slice(&h.to_le_bytes());
            body.extend_from_slice(&(d.len() as u32).to_le_bytes());
            body.extend_from_slice(d);
        }
    }
    let mut out = (body.len() as u32).to_le_bytes().to_vec();
    out.extend_from_slice(&body);
    out
}

#[test]
fn decodes_single_stamp_single_sample() {
    let buf = build(&[(0x01D9_ABCD_0000_0000, &[(7, &42i32.to_le_bytes())])]);
    let got = decode_notification(&buf).unwrap();
    assert_eq!(
        got,
        vec![NotificationSample {
            handle: 7,
            timestamp: 0x01D9_ABCD_0000_0000,
            data: 42i32.to_le_bytes().to_vec(),
        }]
    );
}

#[test]
fn flattens_multiple_stamps_and_samples_keeping_per_stamp_time() {
    let buf = build(&[
        (100, &[(1, &[0xAA]), (2, &[0xBB, 0xCC])]),
        (200, &[(3, &[])]),
    ]);
    let got = decode_notification(&buf).unwrap();
    assert_eq!(got.len(), 3);
    assert_eq!((got[0].handle, got[0].timestamp), (1, 100));
    assert_eq!(got[0].data, vec![0xAA]);
    assert_eq!((got[1].handle, got[1].timestamp), (2, 100));
    assert_eq!(got[1].data, vec![0xBB, 0xCC]);
    assert_eq!((got[2].handle, got[2].timestamp), (3, 200));
    assert!(got[2].data.is_empty());
}

#[test]
fn zero_stamps_yields_no_samples() {
    let buf = build(&[]);
    assert!(decode_notification(&buf).unwrap().is_empty());
}

#[test]
fn truncated_payload_errors() {
    let mut buf = build(&[(1, &[(9, &[1, 2, 3, 4])])]);
    buf.truncate(buf.len() - 2);
    assert!(matches!(
        decode_notification(&buf),
        Err(AdsError::ShortFrame { .. })
    ));
}

#[test]
fn oversized_sample_length_errors_instead_of_allocating() {
    let mut buf = Vec::new();
    let mut body = Vec::new();
    body.extend_from_slice(&1u32.to_le_bytes());
    body.extend_from_slice(&0u64.to_le_bytes());
    body.extend_from_slice(&1u32.to_le_bytes());
    body.extend_from_slice(&1u32.to_le_bytes());
    body.extend_from_slice(&u32::MAX.to_le_bytes());
    buf.extend_from_slice(&(body.len() as u32).to_le_bytes());
    buf.extend_from_slice(&body);
    assert!(matches!(
        decode_notification(&buf),
        Err(AdsError::ShortFrame { .. })
    ));
}

#[test]
fn only_a_whole_notification_counts_whatever_follows_it() {
    let mut buf = build(&[
        (100, &[(1, &[0xAA]), (2, &[0xBB, 0xCC])]),
        (200, &[(3, &[])]),
    ]);
    for n in 0..buf.len() {
        assert!(
            matches!(
                decode_notification(&buf[..n]),
                Err(AdsError::ShortFrame { .. })
            ),
            "{n}"
        );
    }
    let whole = decode_notification(&buf).unwrap();
    buf[0] = 0xFF;
    buf.extend_from_slice(&[1, 2, 3]);
    assert_eq!(decode_notification(&buf).unwrap(), whole);
}
