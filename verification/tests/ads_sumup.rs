//! Sum-up reads.

use ioc_drivers::twincat::ads::defs::ADSIGRP_SUMUP_READ;
use ioc_drivers::twincat::ads::error::AdsError;
use ioc_drivers::twincat::ads::frame::Reader;
use ioc_drivers::twincat::ads::sumup::{build_request, decode_response, DataLayout, SumEntry};

fn entries() -> Vec<SumEntry> {
    vec![
        SumEntry {
            index_group: 0xF005,
            index_offset: 1,
            size: 4,
        },
        SumEntry {
            index_group: 0xF005,
            index_offset: 2,
            size: 8,
        },
        SumEntry {
            index_group: 0xF005,
            index_offset: 3,
            size: 2,
        },
    ]
}

fn response(statuses: &[u32], layout: DataLayout) -> Vec<u8> {
    let es = entries();
    let mut out = Vec::new();
    for s in statuses {
        out.extend_from_slice(&s.to_le_bytes());
    }
    for (i, e) in es.iter().enumerate() {
        let ok = statuses[i] == 0;
        if ok || layout == DataLayout::Fixed {
            out.extend(vec![(i + 1) as u8; e.size as usize]);
        }
    }
    out
}

#[test]
fn request_carries_the_count_in_index_offset() {
    let req = build_request(&entries());
    assert_eq!(req.index_group, ADSIGRP_SUMUP_READ);
    assert_eq!(req.index_offset, 3, "sub-request count");
    assert_eq!(req.read_length, 3 * 4 + 14);
    assert_eq!(req.payload.len(), 3 * 12);

    let mut r = Reader::new(&req.payload);
    assert_eq!(r.u32().unwrap(), 0xF005);
    assert_eq!(r.u32().unwrap(), 1);
    assert_eq!(r.u32().unwrap(), 4);
    assert_eq!(r.u32().unwrap(), 0xF005);
    assert_eq!(r.u32().unwrap(), 2);
    assert_eq!(r.u32().unwrap(), 8);
}

#[test]
fn empty_request_is_well_formed() {
    let req = build_request(&[]);
    assert_eq!(req.index_offset, 0);
    assert_eq!(req.read_length, 0);
    assert!(req.payload.is_empty());
}

#[test]
fn all_successful_decodes_every_entry() {
    for layout in [DataLayout::Fixed, DataLayout::Compacted] {
        let resp = response(&[0, 0, 0], layout);
        let (out, _) = decode_response(&resp, &entries()).unwrap();
        assert_eq!(out[0].as_ref().unwrap(), &[1u8, 1, 1, 1]);
        assert_eq!(out[1].as_ref().unwrap(), &[2u8; 8]);
        assert_eq!(out[2].as_ref().unwrap(), &[3u8, 3]);
    }
}

#[test]
fn a_failure_under_the_fixed_layout_does_not_shift_later_entries() {
    let resp = response(&[0, 0x0710, 0], DataLayout::Fixed);
    let (out, layout) = decode_response(&resp, &entries()).unwrap();
    assert_eq!(layout, DataLayout::Fixed);
    assert_eq!(out[0].as_ref().unwrap(), &[1u8; 4]);
    assert_eq!(out[1].as_ref().unwrap_err().code(), Some(0x0710));
    assert_eq!(
        out[2].as_ref().unwrap(),
        &[3u8, 3],
        "entry 3 must get its own bytes, not the tail of entry 2's hole"
    );
}

#[test]
fn a_failure_under_the_compacted_layout_also_decodes_correctly() {
    let resp = response(&[0, 0x0710, 0], DataLayout::Compacted);
    let (out, layout) = decode_response(&resp, &entries()).unwrap();
    assert_eq!(layout, DataLayout::Compacted);
    assert_eq!(out[0].as_ref().unwrap(), &[1u8; 4]);
    assert_eq!(out[1].as_ref().unwrap_err().code(), Some(0x0710));
    assert_eq!(out[2].as_ref().unwrap(), &[3u8, 3]);
}

#[test]
fn the_layout_is_read_off_the_wire_not_assumed() {
    let es = entries();
    let fixed = response(&[0x0710, 0, 0], DataLayout::Fixed);
    let compact = response(&[0x0710, 0, 0], DataLayout::Compacted);
    assert_ne!(fixed.len(), compact.len());

    assert_eq!(decode_response(&fixed, &es).unwrap().1, DataLayout::Fixed);
    assert_eq!(
        decode_response(&compact, &es).unwrap().1,
        DataLayout::Compacted
    );
    for resp in [fixed, compact] {
        let (out, _) = decode_response(&resp, &es).unwrap();
        assert_eq!(out[1].as_ref().unwrap(), &[2u8; 8]);
        assert_eq!(out[2].as_ref().unwrap(), &[3u8, 3]);
    }
}

#[test]
fn every_entry_failing_yields_every_error() {
    let resp = response(&[1, 2, 3], DataLayout::Compacted);
    let (out, _) = decode_response(&resp, &entries()).unwrap();
    let codes: Vec<_> = out.iter().map(|r| r.as_ref().unwrap_err().code()).collect();
    assert_eq!(codes, vec![Some(1), Some(2), Some(3)]);
}

#[test]
fn a_response_matching_neither_layout_is_rejected() {
    let mut resp = response(&[0, 0x0710, 0], DataLayout::Fixed);
    resp.pop();
    assert!(matches!(
        decode_response(&resp, &entries()),
        Err(AdsError::ShortRead { .. })
    ));
}

#[test]
fn a_response_too_short_for_the_status_words_is_rejected() {
    assert!(matches!(
        decode_response(&[0, 0, 0, 0], &entries()),
        Err(AdsError::ShortFrame { .. })
    ));
}
