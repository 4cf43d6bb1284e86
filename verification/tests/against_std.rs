use std::collections::HashSet;

use pdf_inspector_api::config::Config;
use pdf_inspector_api::page_spec::parse_page_spec;

/// The selector semantics written directly with std's `split`, `trim` and `parse`.
fn std_pages(spec: &str) -> Vec<u32> {
    let mut pages: HashSet<u32> = HashSet::new();
    for part in spec.split(',') {
        let part = part.trim();
        if part.is_empty() {
            continue;
        }
        if let Some((start, end)) = part.split_once('-') {
            if let (Ok(start), Ok(end)) = (start.trim().parse::<u32>(), end.trim().parse::<u32>()) {
                if start <= end {
                    pages.extend(start..=end);
                }
            }
            continue;
        }
        if let Ok(n) = part.parse::<u32>() {
            pages.insert(n);
        }
    }
    let mut v: Vec<u32> = pages.into_iter().collect();
    v.sort_unstable();
    v
}

const SELECTORS: &[&str] = &[
    "", ",", "1", "1,3,5-10", " 1 ,\t2\n", "3-1", "1-1", "-", "--", "-3", "3-", "1--2",
    "1-2-3", "+1", "+", "++1", "+-1", "1-+2", "01,001", "4294967295", "4294967296",
    "4294967290-4294967295", "4294967295-4294967296", "1 - 3 , 2 - 5", "a", "1a", "１",
    "\u{a0}7\u{2028}", "\u{200b}7", "7\u{0}", "1,,2", ", ,", "10-12,11,12-13,1",
    "99999999999999999999", "0", "0-2", " - ", "5 -", "- 5", "1-\u{3000}4",
];

#[test]
fn selectors_agree_with_std_parsing() {
    for s in SELECTORS {
        assert_eq!(parse_page_spec(s), std_pages(s), "selector {:?}", s);
    }
}

#[test]
fn selectors_agree_with_std_parsing_generated() {
    let alphabet = ['1', '2', '0', '-', ',', ' ', '+', 'x', '9'];
    let mut seed: u64 = 0x2545_f491_4f6c_dd1d;
    for _ in 0..3000 {
        let mut s = String::new();
        seed ^= seed << 13;
        seed ^= seed >> 7;
        seed ^= seed << 17;
        let len = (seed % 9) as usize;
        let mut x = seed;
        for _ in 0..len {
            s.push(alphabet[(x % alphabet.len() as u64) as usize]);
            x /= alphabet.len() as u64;
        }
        assert_eq!(parse_page_spec(&s), std_pages(&s), "selector {:?}", s);
    }
}

#[test]
fn settings_agree_with_std_parsing() {
    let values = [
        "", "0", "1", "+1", "+", "-1", " 1", "1 ", "65535", "65536", "+65535", "007", "x",
        "18446744073709551615", "18446744073709551616", "4294967296",
    ];
    for v in values {
        let c = Config::from_settings(
            Some(v.to_string()),
            Some(v.to_string()),
            Some(v.to_string()),
            Some(v.to_string()),
            5,
        );
        assert_eq!(c.port, v.parse::<u16>().unwrap_or(3000), "port {:?}", v);
        let mb = v.parse::<usize>().unwrap_or(100);
        assert_eq!(c.max_body_bytes, mb.saturating_mul(1024 * 1024), "body {:?}", v);
        let n = v.parse::<usize>().ok().filter(|n| *n > 0).unwrap_or(5);
        assert_eq!(c.max_concurrent, n, "concurrency {:?}", v);
        assert_eq!(c.queue_timeout_secs, v.parse::<u64>().unwrap_or(60), "timeout {:?}", v);
    }
}
