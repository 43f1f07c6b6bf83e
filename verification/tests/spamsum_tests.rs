use spamsum::Spamsum;
use spamsum::SpamsumOptions;
use spamsum::filter_input;
use spamsum::get_configured_spamsum;
use spamsum::get_spamsum;
use spamsum::get_spamsum_with_set_blocksize;
use spamsum::guess_initial_blocksize;

#[test]
fn test_get_left_blocksize() {
    assert_eq!(guess_initial_blocksize(1), 3);
    assert_eq!(guess_initial_blocksize(3 * 64), 3);
    assert_eq!(guess_initial_blocksize(3 * 64 + 1), 6);
    assert_eq!(guess_initial_blocksize(6 * 64 + 1), 12);
}

#[test]
fn test_get_right_blocksize() {
    let spamsum = Spamsum {
        left_hash_blocksize: 6,
        left_hash: String::new(),
        right_hash: String::new(),
    };
    assert_eq!(spamsum.right_hash_blocksize(), 12);
}

#[test]
fn test_filter_whitespaces() {
    let mut input: Vec<u8> = b"H\tE\rLL\n\nO O\n".to_vec();
    let options = SpamsumOptions {
        blocksize: 0,
        ignore_headers: false,
        ignore_whitespace: true,
    };
    filter_input(&mut input, options);
    assert_eq!(input, b"HELLOO".to_vec());
}

#[test]
fn test_filter_email_headers() {
    let mut input: Vec<u8> = b"X-Spam: YES\nX-Score: 1337\n\nDear Sir\n\nPlease buy\n".to_vec();
    let options = SpamsumOptions {
        blocksize: 0,
        ignore_headers: true,
        ignore_whitespace: false,
    };
    filter_input(&mut input, options);
    assert_eq!(input, b"Dear Sir\n\nPlease buy\n".to_vec());
}

#[test]
fn test_filter_email_headers_no_headers() {
    let mut input: Vec<u8> = b"NO HEADER\nTO BE FOUND!\n".to_vec();
    let options = SpamsumOptions {
        blocksize: 0,
        ignore_headers: true,
        ignore_whitespace: false,
    };
    filter_input(&mut input, options);
    assert_eq!(input, b"NO HEADER\nTO BE FOUND!\n".to_vec());
}

#[test]
fn test_filter_both() {
    let mut input: Vec<u8> = b"X-Spam: YES\nX-Score: 1337\n\nDear Sir\n\nPlease buy\n".to_vec();
    let options = SpamsumOptions {
        blocksize: 0,
        ignore_headers: true,
        ignore_whitespace: true,
    };
    filter_input(&mut input, options);
    assert_eq!(input, b"DearSirPleasebuy".to_vec());
}

#[test]
fn test_calculate_spamsum() {
    let expected_spamsum = Spamsum {
        left_hash_blocksize: 3,
        left_hash: String::from("Hn"),
        right_hash: String::from("Hn"),
    };
    let input: Vec<u8> = b"test".to_vec();
    let spamsum = get_spamsum(&input).unwrap();
    assert_eq!(spamsum.render(), expected_spamsum.render());
}

#[test]
fn test_calculate_another_spamsum() {
    let expected_spamsum = Spamsum {
        left_hash_blocksize: 3,
        left_hash: String::from("clclDDvWIMF/hv"),
        right_hash: String::from("cGZ/EJv"),
    };
    let input: Vec<u8> = b"Please buy my stuff\nDear Sir or Madam\n".to_vec();
    let spamsum = get_spamsum(&input).unwrap();
    assert_eq!(spamsum.render(), expected_spamsum.render());
}

#[test]
fn test_calculate_spamsum_with_set_blocksize() {
    let expected_spamsum = Spamsum {
        left_hash_blocksize: 11,
        left_hash: String::from("ccsv"),
        right_hash: String::from("Iv"),
    };
    let options = SpamsumOptions {
        blocksize: 11,
        ignore_headers: false,
        ignore_whitespace: false,
    };
    let input: Vec<u8> = b"Please buy my stuff\nDear Sir or Madam\n".to_vec();
    let spamsum = get_configured_spamsum(&input, options).unwrap();
    assert_eq!(spamsum.render(), expected_spamsum.render());
}

#[test]
fn test_render_format() {
    let spamsum = Spamsum {
        left_hash_blocksize: 1234,
        left_hash: String::from("ab"),
        right_hash: String::from("cd"),
    };
    assert_eq!(spamsum.render(), "1234:ab:cd");
}

#[test]
fn test_empty_input() {
    let input: Vec<u8> = Vec::new();
    let spamsum = get_spamsum(&input).unwrap();
    assert_eq!(spamsum.render(), "3::");
    assert_eq!(spamsum.left_hash_blocksize, 3);
}

#[test]
fn test_hash_shape_bounds() {
    let alphabet: Vec<char> =
        "ABCDEFGHIJKLMNOPQRSTUVWXYZabcdefghijklmnopqrstuvwxyz0123456789+/"
            .chars()
            .collect();
    let inputs: Vec<Vec<u8>> = vec![
        b"test".to_vec(),
        b"Please buy my stuff\nDear Sir or Madam\n".to_vec(),
        (0u8..=255u8).cycle().take(5000).collect(),
        vec![7u8; 300],
    ];
    for input in inputs {
        let spamsum = get_spamsum(&input).unwrap();
        assert!(spamsum.left_hash.len() <= 64);
        assert!(spamsum.right_hash.len() <= 32);
        for c in spamsum.left_hash.chars() {
            assert!(alphabet.contains(&c));
        }
        for c in spamsum.right_hash.chars() {
            assert!(alphabet.contains(&c));
        }
    }
}

#[test]
fn test_right_blocksize_doubles() {
    let input: Vec<u8> = (0u8..=255u8).cycle().take(2000).collect();
    let spamsum = get_spamsum(&input).unwrap();
    assert_eq!(spamsum.right_hash_blocksize(), 2 * spamsum.left_hash_blocksize);
}

#[test]
fn test_guess_blocksize_monotonic_and_pow2() {
    let mut previous: u32 = 0;
    for n in [0u32, 1, 100, 192, 193, 384, 385, 100_000, 4_000_000, u32::MAX] {
        let bs = guess_initial_blocksize(n);
        assert!(bs >= previous);
        previous = bs;
        let mut k = bs;
        while k % 2 == 0 {
            k /= 2;
        }
        assert_eq!(k, 3);
    }
}

#[test]
fn test_determinism() {
    let input: Vec<u8> = b"Please buy my stuff\nDear Sir or Madam\n".to_vec();
    let options = SpamsumOptions {
        blocksize: 0,
        ignore_headers: true,
        ignore_whitespace: true,
    };
    let first = get_configured_spamsum(&input, options).unwrap();
    let second = get_configured_spamsum(&input, options).unwrap();
    assert_eq!(first.render(), second.render());
}

#[test]
fn test_whitespace_strip_idempotent() {
    let options = SpamsumOptions {
        blocksize: 0,
        ignore_headers: false,
        ignore_whitespace: true,
    };
    let mut once: Vec<u8> = b"H\tE\rLL\n\nO O\n".to_vec();
    filter_input(&mut once, options);
    let mut twice = once.clone();
    filter_input(&mut twice, options);
    assert_eq!(once, twice);
}

#[test]
fn test_header_strip_idempotent_without_second_separator() {
    let options = SpamsumOptions {
        blocksize: 0,
        ignore_headers: true,
        ignore_whitespace: false,
    };
    let mut once: Vec<u8> = b"X-Spam: YES\n\nDear Sir, please buy\n".to_vec();
    filter_input(&mut once, options);
    assert_eq!(once, b"Dear Sir, please buy\n".to_vec());
    let mut twice = once.clone();
    filter_input(&mut twice, options);
    assert_eq!(once, twice);
}

#[test]
fn test_set_blocksize_single_pass() {
    let options = SpamsumOptions {
        blocksize: 3,
        ignore_headers: false,
        ignore_whitespace: false,
    };
    let input: Vec<u8> = b"Please buy my stuff\nDear Sir or Madam\n".to_vec();
    let pinned = get_spamsum_with_set_blocksize(&input, 3, options).unwrap();
    let configured = get_configured_spamsum(&input, options).unwrap();
    assert_eq!(pinned.render(), configured.render());
    assert_eq!(pinned.render(), "3:clclDDvWIMF/hv:cGZ/EJv");
}
