use docengine::sync_dom::{
    at_boundary, check_edit_script, check_whole_characters, ops_from_diff, DiffSpan, DiffTag,
    DomOperation, DomOperationType, DomPatch, DomReceiver, DomSync, MINIMUM_DIFF_LEN,
};
use docengine::utf16::encode_utf16;

fn padded(word: &str) -> String {
    let mut html = String::from("<p>Hello ");
    html.push_str(word);
    html.push_str("</p>");
    for _ in 0..80 {
        html.push_str("<p>Lorem ipsum dolor sit amet</p>");
    }
    assert!(html.len() >= 2 * MINIMUM_DIFF_LEN);
    html
}

#[test]
fn initial_patch_resets_to_the_initial_rendering() {
    let (sync, patch) = DomSync::new(String::from("<p>Hi</p>"));
    assert_eq!(sync.version, 1);
    assert_eq!(patch.version, 1);
    assert_eq!(patch.ops, vec![DomOperation::reset_content(String::from("<p>Hi</p>"))]);
}

#[test]
fn unchanged_rendering_gives_no_patch() {
    let (mut sync, _) = DomSync::new(padded("World"));
    assert!(sync.update(padded("World")).is_none());
    assert_eq!(sync.version, 1);
}

#[test]
fn short_rendering_is_sent_whole() {
    let (mut sync, _) = DomSync::new(String::from("a"));
    let new: String = "x".repeat(MINIMUM_DIFF_LEN - 1);
    let patch = sync.update(new.clone()).unwrap();
    assert_eq!(patch.version, 2);
    assert_eq!(patch.ops, vec![DomOperation::reset_content(new)]);
}

#[test]
fn word_replacement_is_one_replace_at_its_offset() {
    let old = padded("World");
    let new = padded("Quiz!");
    let (mut sync, initial) = DomSync::new(old.clone());
    let mut receiver = DomReceiver::new();
    assert!(receiver.receive(&initial));

    let patch = sync.update(new.clone()).unwrap();
    assert_eq!(patch.version, 2);
    assert_eq!(patch.ops, vec![DomOperation::replace_content(9, 14, String::from("Quiz!"))]);

    assert!(receiver.receive(&patch));
    assert_eq!(receiver.version, 2);
    assert_eq!(receiver.content, encode_utf16(&new));
    assert_eq!(String::from_utf16(&receiver.content).unwrap(), new);
}

#[test]
fn edited_rendering_is_rebuilt_by_the_receiver() {
    let old = padded("World");
    let new = padded("Readers");
    let (mut sync, initial) = DomSync::new(old.clone());
    let mut receiver = DomReceiver::new();
    assert!(receiver.receive(&initial));
    assert_eq!(receiver.content, encode_utf16(&old));

    let patch = sync.update(new.clone()).unwrap();
    assert_eq!(patch.version, 2);
    assert_eq!(sync.version, 2);
    assert_eq!(sync.current, new);
    assert!(!patch.ops.is_empty());
    for op in &patch.ops {
        assert_ne!(op.kind, DomOperationType::Reset);
        let from = op.from.unwrap();
        assert!(from >= 9 && from <= 16);
    }
    assert!(receiver.receive(&patch));
    assert_eq!(receiver.version, 2);
    assert_eq!(String::from_utf16(&receiver.content).unwrap(), new);
}

#[test]
fn insertions_and_deletions_are_told_apart() {
    let (mut sync, initial) = DomSync::new(padded("World"));
    let mut receiver = DomReceiver::new();
    assert!(receiver.receive(&initial));

    let patch = sync.update(padded("World!!")).unwrap();
    assert_eq!(patch.ops, vec![DomOperation::insert_content(14, String::from("!!"))]);
    assert!(receiver.receive(&patch));

    let patch = sync.update(padded("Wor!!")).unwrap();
    assert_eq!(patch.version, 3);
    assert_eq!(patch.ops, vec![DomOperation::delete_content(12, 14)]);
    assert!(receiver.receive(&patch));
    assert_eq!(String::from_utf16(&receiver.content).unwrap(), padded("Wor!!"));
}

#[test]
fn edit_script_is_checked_span_by_span() {
    let old = encode_utf16("abcd");
    let new = encode_utf16("abXd");
    let script = vec![
        DiffSpan { tag: DiffTag::Equal, old_start: 0, old_end: 2, new_start: 0, new_end: 2 },
        DiffSpan { tag: DiffTag::Replace, old_start: 2, old_end: 3, new_start: 2, new_end: 3 },
        DiffSpan { tag: DiffTag::Equal, old_start: 3, old_end: 4, new_start: 3, new_end: 4 },
    ];
    assert!(check_edit_script(&script, &old, &new));
    let ops = ops_from_diff(&script, &old, &new);
    assert_eq!(ops, vec![DomOperation::replace_content(2, 3, String::from("X"))]);

    // a gap between spans, a span that claims equality where there is none,
    // and a script that stops short are all refused
    let mut gap = script.clone();
    gap[1].old_start = 3;
    assert!(!check_edit_script(&gap, &old, &new));
    let mut unequal = script.clone();
    unequal[1].tag = DiffTag::Equal;
    assert!(!check_edit_script(&unequal, &old, &new));
    assert!(!check_edit_script(&script[..2].to_vec(), &old, &new));
    assert!(check_edit_script(&Vec::new(), &Vec::new(), &Vec::new()));
}

#[test]
fn receiver_rejects_a_gap_in_versions() {
    let mut receiver = DomReceiver::new();
    let patch = DomPatch { version: 2, ops: vec![DomOperation::reset_content(String::from("x"))] };
    assert!(!receiver.receive(&patch));
    assert_eq!(receiver.version, 0);
    assert!(receiver.content.is_empty());
}

#[test]
fn expired_difference_falls_back_to_reset() {
    let old = padded("World");
    let new = padded("Readers");
    let (mut sync, _) = DomSync::new(old);
    let patch = sync.update_with(new.clone(), &Vec::new(), true).unwrap();
    assert_eq!(patch.ops, vec![DomOperation::reset_content(new)]);
}

#[test]
fn invalid_script_falls_back_to_reset() {
    let old = padded("World");
    let new = padded("Readers");
    let (mut sync, _) = DomSync::new(old);
    let spans = vec![DiffSpan { tag: DiffTag::Equal, old_start: 0, old_end: 3, new_start: 0, new_end: 3 }];
    let patch = sync.update_with(new.clone(), &spans, false).unwrap();
    assert_eq!(patch.ops, vec![DomOperation::reset_content(new)]);
}

#[test]
fn operations_apply_in_utf16_units() {
    let buffer = encode_utf16("a\u{1F600}b");
    assert_eq!(buffer.len(), 4);
    let out = DomOperation::insert_content(3, String::from("é")).apply(&buffer);
    assert_eq!(String::from_utf16(&out).unwrap(), "a\u{1F600}éb");
    let out = DomOperation::delete_content(1, 3).apply(&buffer);
    assert_eq!(String::from_utf16(&out).unwrap(), "ab");
    let out = DomOperation::replace_content(0, 1, String::from("xyz")).apply(&buffer);
    assert_eq!(String::from_utf16(&out).unwrap(), "xyz\u{1F600}b");
    let out = DomOperation::delete_content(3, 9).apply(&buffer);
    assert_eq!(out, buffer);
}

#[test]
fn parted_surrogate_pair_falls_back_to_reset() {
    // two faces that share their high surrogate: a difference of code
    // units may keep the first unit and replace the second
    let old = padded("\u{1F600}");
    let new = padded("\u{1F601}");
    let old_units = encode_utf16(&old);
    let new_units = encode_utf16(&new);
    assert_eq!(old_units[9], 0xD83D);
    assert_eq!(new_units[9], 0xD83D);
    let span = |tag, old_start, old_end, new_start, new_end| DiffSpan { tag, old_start, old_end, new_start, new_end };
    let len = old_units.len();
    let parted = vec![
        span(DiffTag::Equal, 0, 10, 0, 10),
        span(DiffTag::Replace, 10, 11, 10, 11),
        span(DiffTag::Equal, 11, len, 11, len),
    ];
    assert!(check_edit_script(&parted, &old_units, &new_units));
    assert!(!check_whole_characters(&parted, &new_units));
    assert!(at_boundary(&new_units, 9) && !at_boundary(&new_units, 10) && at_boundary(&new_units, 11));
    assert!(at_boundary(&new_units, len) && !at_boundary(&new_units, len + 1));

    let (mut sync, initial) = DomSync::new(old.clone());
    let mut receiver = DomReceiver::new();
    assert!(receiver.receive(&initial));
    let patch = sync.update_with(new.clone(), &parted, false).unwrap();
    assert_eq!(patch.ops, vec![DomOperation::reset_content(new.clone())]);
    assert!(receiver.receive(&patch));
    assert_eq!(receiver.content, new_units);

    // the same change with whole characters is sent as a replacement
    let whole = vec![
        span(DiffTag::Equal, 0, 9, 0, 9),
        span(DiffTag::Replace, 9, 11, 9, 11),
        span(DiffTag::Equal, 11, len, 11, len),
    ];
    assert!(check_whole_characters(&whole, &new_units));
    let (mut sync, initial) = DomSync::new(old.clone());
    let mut receiver = DomReceiver::new();
    assert!(receiver.receive(&initial));
    let patch = sync.update_with(new.clone(), &whole, false).unwrap();
    assert_eq!(patch.ops, vec![DomOperation::replace_content(9, 11, String::from("\u{1F601}"))]);
    assert!(receiver.receive(&patch));
    assert_eq!(receiver.content, new_units);

    // and through the difference that is computed
    let (mut sync, initial) = DomSync::new(old);
    let mut receiver = DomReceiver::new();
    assert!(receiver.receive(&initial));
    let patch = sync.update(new).unwrap();
    assert!(receiver.receive(&patch));
    assert_eq!(receiver.content, new_units);
}
