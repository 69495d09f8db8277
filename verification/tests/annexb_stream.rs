use mirror_host::engine::{
    emit_au, find_aud_positions, nominal_ns, scan_unit, AuReader, Rect,
};

fn aud() -> Vec<u8> {
    vec![0, 0, 0, 1, 9, 0x10]
}

fn nal(ty: u8, body: &[u8]) -> Vec<u8> {
    let mut v = vec![0, 0, 0, 1, ty];
    v.extend_from_slice(body);
    v
}

fn unit(parts: &[Vec<u8>]) -> Vec<u8> {
    let mut v = aud();
    for p in parts {
        v.extend_from_slice(p);
    }
    v
}

#[test]
fn delimiters_are_found_with_three_and_four_byte_codes() {
    let mut s = vec![0, 0, 1, 9, 0x10, 0xaa];
    s.extend(aud());
    s.extend(vec![0xbb, 0, 0, 1, 0x69, 7]);
    assert_eq!(find_aud_positions(&s), vec![0, 6, 13]);
}

#[test]
fn no_delimiter_in_short_or_plain_data() {
    assert_eq!(find_aud_positions(&[]), Vec::<usize>::new());
    assert_eq!(find_aud_positions(&[0, 0, 1]), Vec::<usize>::new());
    assert_eq!(find_aud_positions(&[0, 0, 1, 5, 9, 9]), Vec::<usize>::new());
}

#[test]
fn a_code_at_the_very_end_needs_its_header_byte() {
    assert_eq!(find_aud_positions(&[7, 0, 0, 1]), Vec::<usize>::new());
    assert_eq!(find_aud_positions(&[7, 0, 0, 1, 9]), vec![1]);
}

#[test]
fn scan_finds_idr_sps_and_sets() {
    let sps = nal(0x67, &[1, 2]);
    let pps = nal(0x68, &[3]);
    let idr = nal(0x65, &[4, 5]);
    let r = scan_unit(&unit(&[sps.clone(), pps.clone(), idr]));
    assert!(r.has_idr);
    assert!(r.has_sps);
    let mut sets = sps;
    sets.extend(pps);
    assert_eq!(r.sets, sets);
}

#[test]
fn scan_of_a_plain_picture_is_empty() {
    let r = scan_unit(&unit(&[nal(0x41, &[9, 9])]));
    assert!(!r.has_idr && !r.has_sps && r.sets.is_empty());
}

#[test]
fn a_set_at_the_end_runs_to_the_end() {
    let pps = vec![0, 0, 1, 8, 1, 2, 3];
    assert_eq!(scan_unit(&pps).sets, pps);
}

#[test]
fn key_frame_without_sets_gets_the_known_ones() {
    let sps = nal(0x67, &[1, 2]);
    let pps = nal(0x68, &[3]);
    let mut cache = Vec::new();
    let first = unit(&[sps.clone(), pps.clone(), nal(0x65, &[4])]);
    let f = emit_au(&first, &mut cache, 10, 7);
    assert_eq!(&f.data[..], &first[..]);
    assert!(f.is_keyframe);
    assert_eq!((f.ts_100ns, f.duration_ns), (10, 7));
    let mut sets = sps;
    sets.extend(pps);
    assert_eq!(cache, sets);

    let second = unit(&[nal(0x65, &[6])]);
    let f = emit_au(&second, &mut cache, 20, 7);
    let mut expected = sets.clone();
    expected.extend_from_slice(&second);
    assert_eq!(&f.data[..], &expected[..]);

    let third = unit(&[nal(0x41, &[6])]);
    let f = emit_au(&third, &mut cache, 30, 7);
    assert_eq!(&f.data[..], &third[..]);
    assert!(!f.is_keyframe);
    assert_eq!(cache, sets);
}

#[test]
fn key_frame_before_any_set_goes_as_it_is() {
    let mut cache = Vec::new();
    let au = unit(&[nal(0x65, &[6])]);
    let f = emit_au(&au, &mut cache, 0, 1);
    assert_eq!(&f.data[..], &au[..]);
    assert!(f.is_keyframe);
    assert!(cache.is_empty());
}

fn stream() -> (Vec<u8>, Vec<Vec<u8>>) {
    let units = vec![
        unit(&[nal(0x67, &[1]), nal(0x68, &[2]), nal(0x65, &[3, 3, 3])]),
        unit(&[nal(0x41, &[4])]),
        unit(&[nal(0x41, &[5, 0, 0, 2])]),
        unit(&[nal(0x65, &[6])]),
    ];
    let mut s = Vec::new();
    for u in &units {
        s.extend_from_slice(u);
    }
    (s, units)
}

#[test]
fn reader_hands_out_units_between_delimiters() {
    let (s, units) = stream();
    let mut r = AuReader::new();
    let out = r.split(&s);
    assert_eq!(out, units[..3].to_vec());
    assert_eq!(r.buf, units[3]);
    assert_eq!(r.split(&aud()), units[3..].to_vec());
    assert_eq!(r.buf, aud());
}

#[test]
fn reader_gives_the_same_units_for_every_chunk_size() {
    let (mut s, units) = stream();
    s.extend(aud());
    for n in 1..s.len() {
        let mut r = AuReader::new();
        let mut out = Vec::new();
        for c in s.chunks(n) {
            out.extend(r.split(c));
        }
        assert_eq!(out, units, "chunks of {n}");
        assert_eq!(r.buf, aud());
    }
}

#[test]
fn units_and_rest_cover_the_stream_behind_its_first_delimiter() {
    let (s, _) = stream();
    let mut with_noise = vec![7, 7, 7];
    with_noise.extend_from_slice(&s);
    let mut r = AuReader::new();
    let mut all: Vec<u8> = r.split(&with_noise).concat();
    all.extend_from_slice(&r.buf);
    assert_eq!(all, s);
}

#[test]
fn one_delimiter_completes_nothing() {
    let mut r = AuReader::new();
    assert!(r.split(&unit(&[nal(0x65, &[1])])).is_empty());
    assert_eq!(r.buf, unit(&[nal(0x65, &[1])]));
}

#[test]
fn every_key_frame_behind_the_first_sets_carries_an_sps() {
    let (mut s, _) = stream();
    s.extend(aud());
    let mut r = AuReader::new();
    for au in r.split(&s) {
        let f = r.emit(&au, 5, 50);
        assert_eq!(f.duration_ns, 20_000_000);
        if f.is_keyframe {
            assert!(scan_unit(&f.data).has_sps);
        }
    }
}

#[test]
fn nominal_duration() {
    assert_eq!(nominal_ns(60), 16_666_666);
    assert_eq!(nominal_ns(1), 1_000_000_000);
    assert_eq!(nominal_ns(0), 1_000_000_000);
}

#[test]
fn rect_sides_are_at_least_one() {
    let r = Rect { left: 10, top: 20, right: 30, bottom: 50 };
    assert_eq!((r.width(), r.height()), (20, 30));
    let r = Rect { left: 30, top: 50, right: 10, bottom: 50 };
    assert_eq!((r.width(), r.height()), (1, 1));
}
