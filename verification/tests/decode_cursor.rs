use sensor_uplink::decode::{DecodeCursor, CHUNK_CAPACITY};
use sensor_uplink::text::{decode_prefix, MAX_UNIT_LEN};

/// Feeds `body` as two reads cut at `at` and returns all the text that came
/// out, with the number of bytes left carried.
fn fed_in_two(body: &[u8], at: usize) -> (String, usize) {
    let mut cursor = DecodeCursor::new();
    let mut text = cursor.feed(&body[..at]);
    assert!(cursor.pending_len() < MAX_UNIT_LEN, "cut at {}", at);
    text.push_str(&cursor.feed(&body[at..]));
    (text, cursor.pending_len())
}

#[test]
fn fresh_cursor_carries_nothing() {
    let cursor = DecodeCursor::new();
    assert_eq!(cursor.pending_len(), 0);
    assert_eq!(cursor.free_space(), CHUNK_CAPACITY);
    assert_eq!(CHUNK_CAPACITY, 256);
    assert_eq!(MAX_UNIT_LEN, 4);
}

#[test]
fn whole_text_is_emitted_at_once() {
    let mut cursor = DecodeCursor::new();
    let text = cursor.feed("h\u{e9}llo \u{20ac}".as_bytes());
    assert_eq!(text, "h\u{e9}llo \u{20ac}");
    assert_eq!(cursor.pending_len(), 0);
    assert_eq!(cursor.free_space(), CHUNK_CAPACITY);
}

#[test]
fn split_inside_three_byte_unit() {
    // 'a' 'b' then U+20AC (e2 82 ac) then 'c' 'd'; the first read ends after e2 82.
    let body = "ab\u{20ac}cd".as_bytes();
    assert_eq!(body, [0x61, 0x62, 0xe2, 0x82, 0xac, 0x63, 0x64]);
    let mut cursor = DecodeCursor::new();
    let first = cursor.feed(&body[..4]);
    assert_eq!(first, "ab");
    assert_eq!(cursor.pending_len(), 2);
    assert_eq!(cursor.free_space(), CHUNK_CAPACITY - 2);
    let second = cursor.feed(&body[4..]);
    assert_eq!(second, "\u{20ac}cd");
    assert_eq!(cursor.pending_len(), 0);
    assert_eq!(format!("{}{}", first, second), "ab\u{20ac}cd");
}

#[test]
fn split_point_does_not_show() {
    let whole = "t\u{e9}l\u{e9}m\u{e9}trie \u{20ac} \u{6e29}\u{5ea6} \u{1f321} 22.5";
    let body = whole.as_bytes();
    for at in 0..=body.len() {
        let (text, carried) = fed_in_two(body, at);
        assert_eq!(text, whole, "cut at {}", at);
        assert_eq!(carried, 0, "cut at {}", at);
    }
}

#[test]
fn four_byte_unit_cut_at_each_inner_offset() {
    let body = "\u{1f321}".as_bytes();
    assert_eq!(body.len(), 4);
    for at in 1..4 {
        let mut cursor = DecodeCursor::new();
        assert_eq!(cursor.feed(&body[..at]), "");
        assert_eq!(cursor.pending_len(), at);
        assert!(cursor.pending_len() < MAX_UNIT_LEN);
        assert_eq!(cursor.feed(&body[at..]), "\u{1f321}");
        assert_eq!(cursor.pending_len(), 0);
    }
}

#[test]
fn unit_spread_over_three_reads() {
    let body = "\u{20ac}".as_bytes();
    let mut cursor = DecodeCursor::new();
    assert_eq!(cursor.feed(&body[..1]), "");
    assert_eq!(cursor.pending_len(), 1);
    assert_eq!(cursor.feed(&body[1..2]), "");
    assert_eq!(cursor.pending_len(), 2);
    assert_eq!(cursor.feed(&body[2..]), "\u{20ac}");
    assert_eq!(cursor.pending_len(), 0);
}

#[test]
fn many_reads_give_the_text_of_the_whole() {
    let whole = "\u{6e29}\u{5ea6}: 71.6 \u{b0}F, \u{6e7f}\u{5ea6}: 55 %";
    let body = whole.as_bytes();
    for size in 1..=7 {
        let mut cursor = DecodeCursor::new();
        let mut text = String::new();
        for chunk in body.chunks(size) {
            text.push_str(&cursor.feed(chunk));
        }
        assert_eq!(text, whole, "reads of {} bytes", size);
        assert_eq!(cursor.pending_len(), 0);
    }
}

#[test]
fn arbitrary_cuts_of_mixed_text() {
    // A fixed pseudo-random walk picks the characters and the read sizes.
    let mut state: u32 = 0x2545_f491;
    let mut next = move || {
        state = state.wrapping_mul(1_664_525).wrapping_add(1_013_904_223);
        state >> 8
    };
    let alphabet = ['a', '7', ' ', '\u{e9}', '\u{3a9}', '\u{20ac}', '\u{6e29}', '\u{1f321}'];
    for _ in 0..50 {
        let whole: String =
            (0..200).map(|_| alphabet[next() as usize % alphabet.len()]).collect();
        let body = whole.as_bytes();
        let mut cursor = DecodeCursor::new();
        let mut text = String::new();
        let mut read = 0;
        while read < body.len() {
            let wanted = 1 + next() as usize % 64;
            let size = wanted.min(body.len() - read).min(cursor.free_space());
            text.push_str(&cursor.feed(&body[read..read + size]));
            assert!(cursor.pending_len() < MAX_UNIT_LEN);
            read += size;
        }
        assert_eq!(text, whole);
        assert_eq!(cursor.finish(), 0);
    }
}

#[test]
fn finish_drops_an_incomplete_unit() {
    let body = "ok\u{20ac}".as_bytes();
    let mut cursor = DecodeCursor::new();
    let text = cursor.feed(&body[..body.len() - 1]);
    assert_eq!(text, "ok");
    assert_eq!(cursor.pending_len(), 2);
    assert_eq!(cursor.finish(), 2);
}

#[test]
fn finish_with_nothing_carried() {
    let mut cursor = DecodeCursor::new();
    assert_eq!(cursor.feed(b"done"), "done");
    assert_eq!(cursor.finish(), 0);
}

#[test]
fn empty_feed_changes_nothing() {
    let mut cursor = DecodeCursor::new();
    assert_eq!(cursor.feed(&[0xe2, 0x82]), "");
    assert_eq!(cursor.feed(&[]), "");
    assert_eq!(cursor.pending_len(), 2);
    assert_eq!(cursor.feed(&[0xac]), "\u{20ac}");
}

#[test]
fn malformed_byte_holds_back_all_that_follows() {
    let mut cursor = DecodeCursor::new();
    assert_eq!(cursor.feed(&[0x61, 0x62, 0xff, 0x63, 0x64]), "ab");
    assert_eq!(cursor.pending_len(), 3);
    assert_eq!(cursor.feed(b"ef"), "");
    assert_eq!(cursor.pending_len(), 5);
    assert_eq!(cursor.free_space(), CHUNK_CAPACITY - 5);
    assert_eq!(cursor.finish(), 5);
}

#[test]
fn full_buffer_of_text_is_emitted_and_freed() {
    let body = vec![b'x'; CHUNK_CAPACITY];
    let mut cursor = DecodeCursor::new();
    let text = cursor.feed(&body);
    assert_eq!(text.len(), CHUNK_CAPACITY);
    assert!(text.bytes().all(|b| b == b'x'));
    assert_eq!(cursor.free_space(), CHUNK_CAPACITY);
}

#[test]
fn read_that_fills_the_space_left() {
    let mut cursor = DecodeCursor::new();
    let mut first = vec![b'a'; CHUNK_CAPACITY - 1];
    first.push(0xc3);
    assert_eq!(cursor.feed(&first).len(), CHUNK_CAPACITY - 1);
    assert_eq!(cursor.pending_len(), 1);
    let mut second = vec![0xa9];
    second.extend(vec![b'b'; CHUNK_CAPACITY - 2]);
    assert_eq!(second.len(), cursor.free_space());
    let text = cursor.feed(&second);
    assert!(text.starts_with('\u{e9}'));
    assert_eq!(text.chars().count(), CHUNK_CAPACITY - 1);
    assert_eq!(cursor.pending_len(), 0);
}

#[test]
fn buffer_full_of_undecodable_bytes_offers_no_space() {
    let mut cursor = DecodeCursor::new();
    assert_eq!(cursor.feed(&vec![0x80; CHUNK_CAPACITY]), "");
    assert_eq!(cursor.pending_len(), CHUNK_CAPACITY);
    assert_eq!(cursor.free_space(), 0);
    assert_eq!(cursor.feed(&[]), "");
    assert_eq!(cursor.finish(), CHUNK_CAPACITY);
}

#[test]
fn decode_prefix_of_well_formed_text() {
    let (text, k) = decode_prefix("gr\u{fc}n".as_bytes());
    assert_eq!(text, "gr\u{fc}n");
    assert_eq!(k, 5);
}

#[test]
fn decode_prefix_of_nothing() {
    let (text, k) = decode_prefix(&[]);
    assert_eq!(text, "");
    assert_eq!(k, 0);
}

#[test]
fn decode_prefix_stops_before_cut_character() {
    let bytes = "a\u{20ac}".as_bytes();
    let (text, k) = decode_prefix(&bytes[..2]);
    assert_eq!(text, "a");
    assert_eq!(k, 1);
}

#[test]
fn decode_prefix_stops_at_malformed_byte() {
    let (text, k) = decode_prefix(&[0x68, 0x69, 0xc0, 0xaf, 0x21]);
    assert_eq!(text, "hi");
    assert_eq!(k, 2);
    let (text, k) = decode_prefix(&[0xff, 0x41]);
    assert_eq!(text, "");
    assert_eq!(k, 0);
}

#[test]
fn decode_prefix_refuses_surrogates_and_overlong_forms() {
    // U+D800 written as three bytes, and '/' written as two.
    assert_eq!(decode_prefix(&[0x41, 0xed, 0xa0, 0x80]), ("A".to_string(), 1));
    assert_eq!(decode_prefix(&[0x41, 0xc0, 0xaf]), ("A".to_string(), 1));
    // Beyond U+10FFFF.
    assert_eq!(decode_prefix(&[0x41, 0xf4, 0x90, 0x80, 0x80]), ("A".to_string(), 1));
}
