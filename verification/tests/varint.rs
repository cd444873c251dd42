use flipper_rpc::wire::{read_tag, read_value, FieldKind};

/// What a reader of base-128 numbers finds at the front of `s` when it takes
/// at most `max_len` bytes and allows at most `last_max` in the last of them.
fn expected(s: &[u8], max_len: usize, last_max: u8) -> Option<(u64, usize)> {
    let mut value: u64 = 0;
    for (i, b) in s.iter().enumerate() {
        if i + 1 == max_len {
            if *b > last_max {
                return None;
            }
            return Some((value | ((*b as u64) << (7 * i)), i + 1));
        }
        value |= ((*b & 0x7f) as u64) << (7 * i);
        if *b < 0x80 {
            return Some((value, i + 1));
        }
    }
    None
}

fn sequences(alphabet: &[u8], len: usize) -> Vec<Vec<u8>> {
    let mut all = vec![Vec::new()];
    for _ in 0..len {
        let mut longer = Vec::new();
        for s in &all {
            for b in alphabet {
                let mut t = s.clone();
                t.push(*b);
                longer.push(t);
            }
        }
        all = longer;
    }
    all
}

#[test]
fn numbers_of_32_bits_are_read_as_defined() {
    let alphabet = [0x00u8, 0x01, 0x0f, 0x10, 0x7f, 0x80, 0x8f, 0xff];
    let mut seen_some = 0;
    let mut seen_none = 0;
    for len in 0..=6 {
        for s in sequences(&alphabet, len) {
            let want = expected(&s, 5, 0x0f);
            let got = read_tag(&s, 0);
            match want {
                Some((v, n)) => {
                    seen_some += 1;
                    assert_eq!(got, Some((v as u32, n)), "bytes {:?}", s);
                    assert!(v <= u32::MAX as u64);
                }
                None => {
                    seen_none += 1;
                    assert_eq!(got, None, "bytes {:?}", s);
                }
            }
            let got = read_value(&s, 0, 8, FieldKind::U32);
            assert_eq!(
                got.map(|f| (f.number as u64, f.next)),
                want,
                "bytes {:?}",
                s
            );
        }
    }
    assert!(seen_some > 1000);
    assert!(seen_none > 1000);
}

#[test]
fn numbers_of_64_bits_are_read_as_defined() {
    let alphabet = [0x00u8, 0x01, 0x02, 0x80, 0xff];
    for len in 0..=7 {
        for s in sequences(&alphabet, len) {
            let want = expected(&s, 10, 0x01).map(|(v, n)| ((v != 0) as i64, n));
            let got = read_value(&s, 0, 24, FieldKind::Bool).map(|f| (f.number, f.next));
            assert_eq!(got, want, "bytes {:?}", s);
        }
    }
    // long numbers: nine bytes that go on, then every ending
    let heads = [[0x80u8; 9], [0xffu8; 9], [0x81u8; 9]];
    for head in heads {
        for last in 0..=255u8 {
            for extra in [None, Some(0u8), Some(0x80)] {
                let mut s = head.to_vec();
                s.push(last);
                if let Some(e) = extra {
                    s.push(e);
                }
                let want = expected(&s, 10, 0x01).map(|(v, n)| ((v != 0) as i64, n));
                let got = read_value(&s, 0, 24, FieldKind::Bool).map(|f| (f.number, f.next));
                assert_eq!(got, want, "bytes {:?}", s);
            }
        }
    }
}

#[test]
fn lengths_of_64_bits_are_read_as_defined() {
    // the value itself shows in where the nested message ends
    let cases: [(&[u8], u64); 6] = [
        (&[0x00], 0),
        (&[0x03], 3),
        (&[0x83, 0x00], 3),
        (&[0x80, 0x01], 128),
        (&[0x80, 0x80, 0x80, 0x80, 0x80, 0x01], 1 << 35),
        (&[0xac, 0x02], 300),
    ];
    for (head, value) in cases {
        assert_eq!(expected(head, 10, 0x01), Some((value, head.len())));
        let mut s = head.to_vec();
        s.extend_from_slice(&[7u8; 300]);
        let got = read_value(&s, 0, 34, FieldKind::Message);
        if value <= 300 {
            let f = got.unwrap();
            assert_eq!(f.start, head.len());
            assert_eq!(f.end as u64, head.len() as u64 + value);
            assert_eq!(f.next, f.end);
        } else {
            assert_eq!(got, None);
        }
    }
}

#[test]
fn written_numbers_are_read_back() {
    let mut values: Vec<u64> = vec![0, 1, 127, 128, 255, 300, 16383, 16384];
    for shift in 0..64 {
        values.push(1u64 << shift);
        values.push((1u64 << shift) - 1);
        values.push((1u64 << shift) + 1);
    }
    values.push(u64::MAX);
    for v in values {
        let mut buf = Vec::new();
        flipper_rpc::wire::put_number_field(&mut buf, 8, v);
        assert_eq!(buf[0], 8);
        assert_eq!(expected(&buf[1..], 10, 0x01), Some((v, buf.len() - 1)));
        assert_eq!(buf.len() as u64 - 1, flipper_rpc::size::varint_len(v));
        // the same bytes, digit by digit
        let mut rest = v;
        for (i, b) in buf[1..].iter().enumerate() {
            let last = i + 2 == buf.len();
            assert_eq!(*b & 0x7f, (rest & 0x7f) as u8);
            assert_eq!(*b >= 0x80, !last);
            rest >>= 7;
        }
        assert_eq!(rest, 0);
        if v <= u32::MAX as u64 {
            let got = read_value(&buf, 1, 8, FieldKind::U32).unwrap();
            assert_eq!(got.number as u64, v);
            assert_eq!(got.next, buf.len());
        }
    }
}
