use chatmem::chunk::chunk;

fn concat(chunks: &[String]) -> String {
    let mut s = String::new();
    for c in chunks {
        s.push_str(c);
    }
    s
}

#[test]
fn chunk_empty_input_yields_no_segments() {
    let out = chunk("", 5);
    assert_eq!(out.len(), 0);
}

#[test]
fn chunk_exact_multiple() {
    let out = chunk("abcdef", 3);
    assert_eq!(out, vec!["abc".to_string(), "def".to_string()]);
}

#[test]
fn chunk_with_remainder() {
    let out = chunk("abcdefg", 3);
    assert_eq!(out, vec!["abc".to_string(), "def".to_string(), "g".to_string()]);
}

#[test]
fn chunk_limit_one() {
    let out = chunk("abc", 1);
    assert_eq!(out, vec!["a".to_string(), "b".to_string(), "c".to_string()]);
}

#[test]
fn chunk_shorter_than_limit() {
    let out = chunk("hi", 2000);
    assert_eq!(out, vec!["hi".to_string()]);
}

#[test]
fn chunk_round_trip_ascii() {
    let input = "the quick brown fox jumps over the lazy dog";
    for limit in 1..10 {
        let out = chunk(input, limit);
        assert_eq!(concat(&out), input);
        for (i, c) in out.iter().enumerate() {
            let n = c.chars().count();
            assert!(n <= limit);
            assert!(n > 0);
            if i + 1 < out.len() {
                assert_eq!(n, limit);
            }
        }
    }
}

#[test]
fn chunk_splits_on_character_boundaries() {
    let input = "héllo wörld ✓ñ€ 漢字かな";
    let out = chunk(input, 4);
    assert_eq!(concat(&out), input);
    for (i, c) in out.iter().enumerate() {
        let n = c.chars().count();
        assert!(n <= 4);
        if i + 1 < out.len() {
            assert_eq!(n, 4);
        }
    }
}
