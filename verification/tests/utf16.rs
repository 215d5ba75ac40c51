use docengine::sync_dom::{ops_from_diff, DiffSpan, DiffTag, DomOperation};
use docengine::utf16::{decode_scalars, encode_utf16};

#[test]
fn encoding_matches_the_standard_library() {
    for text in ["", "abc", "héllo", "日本語", "a\u{1F600}b", "\u{10000}\u{10FFFF}\u{FFFF}\u{D7FF}\u{E000}"] {
        let expected: Vec<u16> = text.encode_utf16().collect();
        assert_eq!(encode_utf16(text), expected);
    }
}

#[test]
fn astral_character_takes_two_units() {
    assert_eq!(encode_utf16("\u{1F600}"), vec![0xD83D, 0xDE00]);
    assert_eq!(encode_utf16("\u{10000}"), vec![0xD800, 0xDC00]);
}

#[test]
fn split_surrogate_pair_is_carried_as_replacement_character() {
    // old and new differ in the low surrogate only
    let old = encode_utf16("\u{1F600}");
    let new = encode_utf16("\u{1F601}");
    let script = vec![
        DiffSpan { tag: DiffTag::Equal, old_start: 0, old_end: 1, new_start: 0, new_end: 1 },
        DiffSpan { tag: DiffTag::Replace, old_start: 1, old_end: 2, new_start: 1, new_end: 2 },
    ];
    let ops = ops_from_diff(&script, &old, &new);
    assert_eq!(ops, vec![DomOperation::replace_content(1, 2, String::from("\u{FFFD}"))]);
    // whole characters are carried as they are
    let script = vec![
        DiffSpan { tag: DiffTag::Replace, old_start: 0, old_end: 2, new_start: 0, new_end: 2 },
    ];
    let ops = ops_from_diff(&script, &old, &new);
    assert_eq!(ops, vec![DomOperation::replace_content(0, 2, String::from("\u{1F601}"))]);
    assert_eq!(ops[0].apply(&old), new);
}

#[test]
fn lossy_decoding_is_that_of_the_standard_library() {
    let interesting: [u16; 9] = [0x0041, 0xD7FF, 0xD800, 0xDBFF, 0xDC00, 0xDFFF, 0xE000, 0xFFFD, 0xFFFF];
    let mut cases: Vec<Vec<u16>> = vec![vec![]];
    for a in interesting {
        cases.push(vec![a]);
        for b in interesting {
            cases.push(vec![a, b]);
            for c in interesting {
                cases.push(vec![a, b, c]);
                cases.push(vec![a, b, c, 0xD83D, 0xDE00]);
            }
        }
    }
    for units in cases {
        let expected: Vec<u32> = String::from_utf16_lossy(&units).chars().map(|c| c as u32).collect();
        assert_eq!(decode_scalars(&units), expected, "{:x?}", units);
    }
}
