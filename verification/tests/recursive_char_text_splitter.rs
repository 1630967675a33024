use rustychain::splitters::{
    RecursiveCharacterTextSplitter, SeparatorBehavior, SplitterConfig, TextSplitter,
};

#[test]
fn test_simple_split() {
    let config = SplitterConfig::new(50, 0);
    let splitter = RecursiveCharacterTextSplitter::new(config);

    let text = "Hello world. This is a test.\n\nAnother paragraph here.";
    let chunks = splitter.split_text(text);

    assert!(!chunks.is_empty());
    for chunk in &chunks {
        assert!(chunk.len() <= 50);
    }
}

#[test]
fn test_small_text_no_split() {
    let config = SplitterConfig::new(1000, 0);
    let splitter = RecursiveCharacterTextSplitter::new(config);

    let text = "Small text.";
    let chunks = splitter.split_text(text);

    assert_eq!(chunks.len(), 1);
    assert_eq!(chunks[0], "Small text.");
}

#[test]
fn test_paragraph_splits() {
    let config = SplitterConfig::new(100, 0);
    let splitter = RecursiveCharacterTextSplitter::new(config);

    let text = "First paragraph.\n\nSecond paragraph.\n\nThird paragraph.";
    let chunks = splitter.split_text(text);

    assert_eq!(chunks.len(), 1);
}

#[test]
fn test_long_paragraphs_split() {
    let config = SplitterConfig::new(30, 0);
    let splitter = RecursiveCharacterTextSplitter::new(config);

    let text = "First paragraph with more text.\n\nSecond paragraph also long.";
    let chunks = splitter.split_text(text);

    assert!(chunks.len() > 1);
}

#[test]
fn test_overlap() {
    let config = SplitterConfig::new(20, 5);
    let splitter = RecursiveCharacterTextSplitter::new(config);

    let text = "one two three four five six seven eight";
    let chunks = splitter.split_text(text);

    assert!(chunks.len() >= 2);
}

#[test]
fn test_with_indices() {
    let config = SplitterConfig::new(50, 0).with_indices(true);
    let splitter = RecursiveCharacterTextSplitter::new(config);

    let text = "First part.\n\nSecond part.";
    let chunks = splitter.split(text);

    assert_eq!(chunks.len(), 1);
    assert!(chunks[0].start_index.is_some());
}

#[test]
fn test_custom_separators() {
    let config = SplitterConfig::new(20, 0);
    let splitter = RecursiveCharacterTextSplitter::new(config)
        .with_separators(vec!["|||".to_string(), "|".to_string()]);

    let text = "part1|||part2|||part3";
    let chunks = splitter.split_text(text);

    assert!(chunks.len() >= 1);
}

#[test]
fn test_empty_text() {
    let splitter = RecursiveCharacterTextSplitter::default();
    let chunks = splitter.split_text("");
    assert!(chunks.is_empty());
}

#[test]
fn test_whitespace_only() {
    let config = SplitterConfig::new(100, 0).with_trim(true);
    let splitter = RecursiveCharacterTextSplitter::new(config);

    let chunks = splitter.split_text("   \n\n   ");
    assert!(chunks.is_empty());
}

#[test]
fn test_unicode_text() {
    let config = SplitterConfig::new(20, 0);
    let splitter = RecursiveCharacterTextSplitter::new(config);

    let text = "こんにちは世界。\n\nこれはテストです。";
    let chunks = splitter.split_text(text);

    assert!(!chunks.is_empty());
}

#[test]
fn test_min_chunk_size() {
    let config = SplitterConfig::new(50, 0).with_min_chunk_size(10);
    let splitter = RecursiveCharacterTextSplitter::new(config);

    let text = "a\n\nb\n\nThis is a longer piece of text.";
    let chunks = splitter.split_text(text);

    for chunk in &chunks {
        assert!(chunk.len() >= 10 || chunk == "a" || chunk == "b");
    }
}

#[test]
fn test_separator_behavior_end() {
    let config = SplitterConfig::new(100, 0);
    let splitter = RecursiveCharacterTextSplitter::new(config)
        .with_separator_behavior(SeparatorBehavior::End);

    let text = "Line1\nLine2\nLine3";
    let chunks = splitter.split_text(text);

    assert_eq!(chunks.len(), 1);
}

#[test]
fn test_config_builder() {
    let config = SplitterConfig::new(500, 50)
        .with_trim(false)
        .with_indices(true)
        .with_min_chunk_size(20);

    assert_eq!(config.chunk_size, 500);
    assert_eq!(config.chunk_overlap, 50);
    assert!(!config.trim_chunks);
    assert!(config.track_indices);
    assert_eq!(config.min_chunk_size, Some(20));
}

#[test]
fn overlap_chunks_share_words() {
    let config = SplitterConfig::new(20, 5);
    let splitter = RecursiveCharacterTextSplitter::new(config);
    let chunks = splitter.split_text("one two three four five six seven eight");
    assert_eq!(
        chunks,
        vec!["one two three four", "four five six seven", "seven eight"]
    );
}

#[test]
fn separator_behavior_start_keeps_separator_in_front() {
    let config = SplitterConfig::new(8, 0).with_trim(false);
    let splitter = RecursiveCharacterTextSplitter::new(config)
        .with_separators(vec![";".to_string()])
        .with_separator_behavior(SeparatorBehavior::Start);
    let chunks = splitter.split_text("aaaa;bbbb;cccc");
    assert_eq!(chunks, vec!["aaaa", ";bbbb", ";cccc"]);
}

#[test]
fn indices_are_character_positions() {
    let config = SplitterConfig::new(4, 0).with_indices(true);
    let splitter = RecursiveCharacterTextSplitter::new(config)
        .with_separators(vec![" ".to_string()]);
    let chunks = splitter.split("äbc def");
    assert_eq!(chunks.len(), 2);
    assert_eq!(chunks[0].content, "äbc");
    assert_eq!(chunks[0].start_index, Some(0));
    assert_eq!(chunks[0].end_index, Some(3));
    assert_eq!(chunks[1].start_index, Some(4));
    assert_eq!(chunks[1].end_index, Some(7));
}

#[test]
fn chunks_fit_without_overlap() {
    let splitter = RecursiveCharacterTextSplitter::new(SplitterConfig::new(10, 0));
    let chunks = splitter.split_text("aaaa bbbb cccc dddd eeee");
    assert_eq!(chunks, vec!["aaaa bbbb", "cccc dddd", "eeee"]);
    for chunk in &chunks {
        assert!(chunk.chars().count() <= 10);
    }
}

#[test]
fn a_doubled_separator_leaves_no_chunk_over_the_size() {
    let splitter = RecursiveCharacterTextSplitter::new(SplitterConfig::new(5, 0).with_trim(false));
    let chunks = splitter.split_text("abcd..efghi");
    assert_eq!(chunks, vec!["abcd.", "efghi"]);
}

#[test]
fn overlap_is_cut_until_the_chunk_fits() {
    let splitter = RecursiveCharacterTextSplitter::new(SplitterConfig::new(10, 5));
    let chunks = splitter.split_text("aaaaa bbbbbbbbbb");
    assert_eq!(chunks, vec!["aaaaa", "bbbbbbbbbb"]);
    for c in splitter.split_text("one two three four five six seven eight") {
        assert!(c.chars().count() <= 10, "{}", c);
    }
}

#[test]
fn end_separators_are_kept_once() {
    let splitter = RecursiveCharacterTextSplitter::new(SplitterConfig::new(12, 0))
        .with_separator_behavior(SeparatorBehavior::End)
        .with_separators(vec!["\n".to_string()]);
    let text = "Line1\nLine2\nLine3";
    let chunks = splitter.split_text(text);
    assert_eq!(chunks, vec!["Line1\nLine2", "Line3"]);
    for c in &chunks {
        assert!(text.contains(c.as_str()));
    }
}

#[test]
fn short_chunks_are_merged_with_a_neighbour() {
    let splitter = RecursiveCharacterTextSplitter::new(SplitterConfig::new(10, 0).with_min_chunk_size(3));
    let chunks = splitter.split_text("a\n\nbcdefghij");
    assert_eq!(chunks, vec!["a\n\nbcdefghij"]);
    let chunks = splitter.split_text("abcdefghij\n\nb");
    assert_eq!(chunks, vec!["abcdefghij\n\nb"]);
}

#[test]
fn merging_without_overlap_fills_each_chunk_greedily_in_order() {
    let mut config = SplitterConfig::new(7, 0);
    config.trim_chunks = false;
    let splitter =
        RecursiveCharacterTextSplitter::new(config).with_separators(vec![" ".to_string()]);
    let chunks = splitter.split_text("aaa bbb ccc dd");
    assert_eq!(chunks, vec!["aaa bbb".to_string(), "ccc dd".to_string()]);
    assert_eq!(chunks.join(" "), "aaa bbb ccc dd");
}
