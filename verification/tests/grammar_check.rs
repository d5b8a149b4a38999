use std::collections::HashMap;
use timetrackrs::embedded::embedded_candidate;
use timetrackrs::error::ExtractError;
use timetrackrs::marker::{marker_block, title_marker_tags};

struct Rng(u64);

impl Rng {
    fn next(&mut self) -> u64 {
        self.0 = self.0.wrapping_mul(6364136223846793005).wrapping_add(1442695040888963407);
        self.0 >> 33
    }

    fn text(&mut self, alphabet: &[char], max_len: u64) -> String {
        let len = self.next() % (max_len + 1);
        (0..len).map(|_| alphabet[(self.next() % alphabet.len() as u64) as usize]).collect()
    }
}

fn all_texts(alphabet: &[char], max_len: usize) -> Vec<String> {
    let mut all = vec![String::new()];
    let mut last = vec![String::new()];
    for _ in 0..max_len {
        let mut next = Vec::new();
        for text in &last {
            for c in alphabet {
                let mut longer = text.clone();
                longer.push(*c);
                next.push(longer);
            }
        }
        all.extend(next.iter().cloned());
        last = next;
    }
    all
}

#[test]
fn candidate_is_what_the_pattern_finds_in_short_texts() {
    let pattern = regex::Regex::new(r#"\{".*[^\\]"}"#).unwrap();
    for text in all_texts(&['{', '"', '}', '\\', '\n', 'a'], 6) {
        let expected = pattern.find(&text).map(|m| m.as_str().to_string());
        assert_eq!(embedded_candidate(&text), expected, "{:?}", text);
    }
}

#[test]
fn candidate_is_what_the_pattern_finds_in_long_texts() {
    let pattern = regex::Regex::new(r#"\{".*[^\\]"}"#).unwrap();
    let mut rng = Rng(7);
    let alphabet = ['{', '"', '}', '\\', '\n', 'a', ':', '"', '}', '\u{1F6E4}'];
    for _ in 0..100_000 {
        let text = rng.text(&alphabet, 16);
        let expected = pattern.find(&text).map(|m| m.as_str().to_string());
        assert_eq!(embedded_candidate(&text), expected, "{:?}", text);
    }
}

fn marker_title(rng: &mut Rng) -> String {
    let noise = ['\u{1F6E4}', '\u{1F81A}', '\u{1F670}', 'a', 'b', '1', '=', 'A', ' '];
    let mut title = rng.text(&noise, 4);
    title.push('\u{1F6E4}');
    title.push_str(&rng.text(&['a', 'b', 'z', 'A', '1'], 6));
    if rng.next() % 8 != 0 {
        title.push('\u{1F81A}');
    }
    let groups = rng.next() % 4;
    for i in 0..groups {
        if i > 0 && rng.next() % 8 != 0 {
            title.push('\u{1F670}');
        }
        title.push_str(&rng.text(&['a', '0', 'z', '9', 'A', '-'], 3));
        if rng.next() % 8 != 0 {
            title.push('=');
        }
        title.push_str(&rng.text(&['a', '=', '/', ' ', '\u{1F6E4}', '\u{1F81A}'], 4));
    }
    if rng.next() % 8 != 0 {
        title.push('\u{1F818}');
    }
    title.push_str(&rng.text(&noise, 4));
    title
}

#[test]
fn marker_block_is_what_the_patterns_find_where_one_arrow_closes() {
    let block = regex::Regex::new("\u{1F6E4}([a-z]{2,5})\u{1F81A}(.*)\u{1F818}").unwrap();
    let separator = regex::Regex::new("\u{1F670}").unwrap();
    let pair = regex::Regex::new("^([a-z0-9]+)=(.*)$").unwrap();
    let mut rng = Rng(11);
    let mut found = 0;
    let mut malformed = 0;
    for _ in 0..100_000 {
        let title = marker_title(&mut rng);
        assert!(title.matches('\u{1F818}').count() <= 1);
        let captures = block.captures(&title);
        let expected_block = captures
            .as_ref()
            .map(|c| (c.get(1).unwrap().as_str().to_string(), c.get(2).unwrap().as_str().to_string()));
        assert_eq!(marker_block(&title), expected_block, "{:?}", title);
        let expected: Result<HashMap<String, String>, ExtractError> = match &expected_block {
            None => Ok(HashMap::new()),
            Some((category, body)) => {
                let mut tags = HashMap::new();
                let mut failed = false;
                for group in separator.split(body) {
                    match pair.captures(group) {
                        Some(c) => {
                            tags.insert(format!("title-match-{}-{}", category, &c[1]), c[2].to_string());
                        }
                        None => failed = true,
                    }
                }
                if failed {
                    Err(ExtractError::MalformedMarkerBlock)
                } else {
                    Ok(tags)
                }
            }
        };
        let actual = title_marker_tags(&title)
            .map(|tags| tags.into_iter().map(|t| (t.tag, t.value)).collect::<HashMap<_, _>>());
        assert_eq!(actual, expected, "{:?}", title);
        match &expected {
            Ok(tags) if !tags.is_empty() => found += 1,
            Err(_) => malformed += 1,
            _ => {}
        }
    }
    assert!(found > 1000, "{}", found);
    assert!(malformed > 1000, "{}", malformed);
}

#[test]
fn marker_block_keeps_every_pair_in_order() {
    let title = "\u{1F6E4}sd\u{1F81A}k=1\u{1F670}j=2\u{1F670}k=3\u{1F818}";
    let tags = title_marker_tags(title).unwrap();
    let pairs: Vec<(String, String)> = tags.into_iter().map(|t| (t.tag, t.value)).collect();
    assert_eq!(
        pairs,
        vec![
            ("title-match-sd-k".to_string(), "1".to_string()),
            ("title-match-sd-j".to_string(), "2".to_string()),
            ("title-match-sd-k".to_string(), "3".to_string()),
        ]
    );
}

#[test]
fn marker_block_may_span_lines() {
    let title = "\u{1F6E4}sd\u{1F81A}k=a\nb\u{1F818}";
    assert_eq!(marker_block(title), Some(("sd".to_string(), "k=a\nb".to_string())));
}
