use kokoro_openai_server::segment::{
    chunk_text, is_lower_break_word, find_closest_break_word, find_closest_punctuation, is_numbered_list_item,
    split_long_chunk_with_depth, split_text_into_speech_chunks, split_whitespace,
};

fn words(list: &[&str]) -> Vec<String> {
    list.iter().map(|w| w.to_string()).collect()
}

#[test]
fn test_chunk_text() {
    let text = "Hello world! This is a test. How are you?";
    let chunks = chunk_text(text);
    assert_eq!(chunks.len(), 3);
    assert_eq!(chunks[0], "Hello world!");
    assert_eq!(chunks[1], "This is a test.");
    assert_eq!(chunks[2], "How are you?");
}

#[test]
fn test_chunk_text_no_delimiters() {
    let text = "Hello world this is a test";
    let chunks = chunk_text(text);
    assert_eq!(chunks.len(), 1);
    assert_eq!(chunks[0], "Hello world this is a test");
}

#[test]
fn test_chunk_text_numbered_list() {
    let text = "1. First item 2. Second item";
    let chunks = chunk_text(text);
    assert_eq!(chunks.len(), 2);
    assert_eq!(chunks[0], "1. First item");
    assert_eq!(chunks[1], "2. Second item");
}

#[test]
fn numbered_items_open_chunks() {
    let chunks = chunk_text("Steps (1) mix (2) bake.");
    assert_eq!(chunks, vec!["Steps", "(1) mix", "(2) bake."]);
}

#[test]
fn rejoined_chunks_are_the_normalized_text() {
    let text = "  Hello   world!\n\tHow are\u{3000}you?  ";
    let chunks = chunk_text(text);
    assert_eq!(chunks, vec!["Hello world!", "How are you?"]);
    assert_eq!(chunks.join(" "), "Hello world! How are you?");
}

#[test]
fn blank_text_gives_no_chunks() {
    assert!(chunk_text("").is_empty());
    assert!(chunk_text(" \n\t\u{a0} ").is_empty());
}

#[test]
fn chunks_are_never_blank() {
    let text = "a, b, c, d, e, f, g, h, i, j, k, l, m. n ; o : p ! q ? 3) r";
    for chunk in chunk_text(text) {
        assert!(!chunk.trim().is_empty());
        assert_eq!(chunk, chunk.trim());
    }
}

#[test]
fn short_comma_fragments_stay_together() {
    let chunks = chunk_text("red, green, blue");
    assert_eq!(chunks, vec!["red, green, blue"]);
}

#[test]
fn comma_after_ten_words_closes_a_chunk() {
    let text = "w1 w2 w3 w4 w5 w6 w7 w8 w9 w10, w11 w12";
    assert_eq!(chunk_text(text), vec!["w1 w2 w3 w4 w5 w6 w7 w8 w9 w10,", "w11 w12"]);
}

#[test]
fn long_first_chunk_splits_after_nearest_comma() {
    let text = "one two three four five, six seven eight nine ten eleven twelve thirteen";
    assert_eq!(
        chunk_text(text),
        vec!["one two three four five,", "six seven eight nine ten eleven twelve thirteen"]
    );
}

#[test]
fn long_chunk_splits_before_break_word() {
    let text = "alpha beta gamma delta epsilon zeta and eta theta iota kappa lambda mu";
    assert_eq!(
        chunk_text(text),
        vec!["alpha beta gamma delta epsilon zeta", "and eta theta iota kappa lambda mu"]
    );
}

#[test]
fn break_words_match_in_any_case() {
    let text = "alpha beta gamma delta epsilon zeta AND eta theta iota kappa lambda mu";
    assert_eq!(
        chunk_text(text),
        vec!["alpha beta gamma delta epsilon zeta", "AND eta theta iota kappa lambda mu"]
    );
}

#[test]
fn trailing_break_word_moves_to_next_chunk() {
    assert_eq!(chunk_text("cats and 1. dogs"), vec!["cats", "and 1. dogs"]);
}

#[test]
fn words_per_chunk_parameter_controls_comma_breaks() {
    let chunks = split_text_into_speech_chunks("a b, c d, e", 2);
    assert_eq!(chunks, vec!["a b,", "c d,", "e"]);
}

#[test]
fn numbered_list_items() {
    for yes in ["1.", "(2)", "3:", "12),", "(40.,"] {
        assert!(is_numbered_list_item(yes), "{yes}");
    }
    for no in ["1", "a.", "(1", "1.2.", "1,", "", "(", "x1."] {
        assert!(!is_numbered_list_item(no), "{no}");
    }
}

#[test]
fn whitespace_split() {
    let w = split_whitespace(" a\u{2003}bc \n d ");
    assert_eq!(w, vec!["a", "bc", "d"]);
}

#[test]
fn closest_comma_prefers_left_on_ties() {
    let w = words(&["a,", "b", "c,", "d", "e,"]);
    assert_eq!(find_closest_punctuation(&w, 2), Some(3));
    assert_eq!(find_closest_punctuation(&w, 1), Some(1));
    assert_eq!(find_closest_punctuation(&words(&["a", "b"]), 1), None);
}

#[test]
fn closest_break_word() {
    let w = words(&["x", "and", "y", "Or", "z"]);
    assert_eq!(find_closest_break_word(&w, 2), Some(1));
    assert_eq!(find_closest_break_word(&w, 3), Some(3));
    assert_eq!(find_closest_break_word(&words(&["x", "y"]), 0), None);
}

#[test]
fn split_stops_at_depth_three() {
    let w = words(&["a", "b", "c", "d,", "e", "f", "g", "h", "i", "j", "k", "l"]);
    assert_eq!(split_long_chunk_with_depth(&w, 12, true, 3), vec![w.clone()]);
    let pieces = split_long_chunk_with_depth(&w, 12, true, 0);
    assert_eq!(pieces, vec![w[..4].to_vec(), w[4..].to_vec()]);
    assert_eq!(split_long_chunk_with_depth(&w, 12, false, 0), vec![w.clone()]);
}

#[test]
fn lower_case_break_words() {
    assert!(is_lower_break_word("and"));
    assert!(is_lower_break_word("however"));
    assert!(is_lower_break_word("&"));
    assert!(!is_lower_break_word("AND"));
    assert!(!is_lower_break_word("andy"));
}
