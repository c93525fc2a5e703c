use diffren::sorted::SortedTexts;

fn sorted_of(texts: &[&str]) -> SortedTexts {
    let mut sorted = SortedTexts::new();
    for text in texts {
        sorted = sorted.insert(text);
    }
    sorted
}

#[test]
fn no_texts_hold_nothing() {
    let sorted = SortedTexts::new();
    assert!(!sorted.contains(""));
    assert!(!sorted.contains("a"));
    assert_eq!(sorted.into_texts(), Vec::<String>::new());
}

#[test]
fn texts_are_kept_in_order() {
    let sorted = sorted_of(&["pear", "apple", "fig", "banana", "cherry"]);
    assert_eq!(sorted.into_texts(), vec!["apple", "banana", "cherry", "fig", "pear"]);
}

#[test]
fn a_text_is_kept_once() {
    let sorted = sorted_of(&["b", "a", "b", "b", "a", "c", "a"]);
    assert_eq!(sorted.into_texts(), vec!["a", "b", "c"]);
}

#[test]
fn what_was_inserted_is_found() {
    let sorted = sorted_of(&["dir/b", "", "a", "dir/a", "é", "z"]);
    for text in ["dir/b", "", "a", "dir/a", "é", "z"] {
        assert!(sorted.contains(text), "{text:?}");
    }
    for text in ["dir", "b", " ", "dir/", "e", "zz", "A"] {
        assert!(!sorted.contains(text), "{text:?}");
    }
}

#[test]
fn a_prefix_comes_before_its_extensions() {
    let sorted = sorted_of(&["abc", "ab", "a", "", "abcd"]);
    assert_eq!(sorted.into_texts(), vec!["", "a", "ab", "abc", "abcd"]);
}

#[test]
fn many_texts_are_found_again() {
    let mut sorted = SortedTexts::new();
    let mut expected: Vec<String> = Vec::new();
    let mut seed: u32 = 99;
    for _ in 0..500 {
        seed = seed.wrapping_mul(1664525).wrapping_add(1013904223);
        let text = format!("file-{}", (seed >> 16) % 300);
        sorted = sorted.insert(&text);
        expected.push(text);
    }
    for text in &expected {
        assert!(sorted.contains(text));
    }
    assert!(!sorted.contains("file-300"));
    expected.sort();
    expected.dedup();
    assert_eq!(sorted.into_texts(), expected);
}
