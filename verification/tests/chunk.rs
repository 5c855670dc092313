use wind_knowledge::chunk::chunk_text;

#[test]
fn chunks_non_empty() {
    let c = chunk_text("hello world test", 5, 2);
    assert!(!c.is_empty());
    let joined: String = c.join("");
    assert!(joined.contains("hello"));
}

#[test]
fn short_document_still_gets_one_chunk() {
    for text in [
        "short blade crack note",
        "叶片疑似裂纹，建议复检。",
        "齿轮箱油温升高，需要检查油样和振动。",
    ] {
        let chunks = chunk_text(text, 900, 120);
        assert_eq!(chunks.len(), 1);
        assert_eq!(chunks[0], text);
    }
}

#[test]
fn overlapping_windows_are_exact() {
    let c = chunk_text("hello world test", 5, 2);
    assert_eq!(c, vec!["hello", "lo wo", "world", "ld te", "test"]);
}

#[test]
fn overlap_is_capped_below_window_length() {
    let c = chunk_text("abcd", 2, 10);
    assert_eq!(c, vec!["ab", "bc", "cd"]);
}

#[test]
fn zero_window_or_empty_text_gives_nothing() {
    assert!(chunk_text("abc", 0, 0).is_empty());
    assert!(chunk_text("", 10, 2).is_empty());
}

#[test]
fn blank_windows_are_dropped() {
    assert!(chunk_text("   \n\t  ", 3, 0).is_empty());
    let c = chunk_text("ab    cd", 2, 0);
    assert_eq!(c, vec!["ab", "cd"]);
}

#[test]
fn windows_count_characters_not_bytes() {
    let c = chunk_text("叶片裂纹", 2, 0);
    assert_eq!(c, vec!["叶片", "裂纹"]);
}
