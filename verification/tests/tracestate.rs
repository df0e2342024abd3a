use otel_fields::tracestate::{
    append_joined, entries_of, first_piece, has_ot_prefix, is_space_char, merge_ot_tracestate,
    same_chars, split_chars, trim_chars,
};

fn chars(s: &str) -> Vec<char> {
    s.chars().collect()
}

fn text(v: &[char]) -> String {
    v.iter().collect()
}

fn texts(v: &[Vec<char>]) -> Vec<String> {
    v.iter().map(|p| text(p)).collect()
}

/// The merge, written with the string functions of the standard library.
fn merge_with_std(tracestate: &str, sub_kv: &str) -> String {
    let sub_key = sub_kv.split(':').next().unwrap_or(sub_kv);
    let mut ot_parts: Vec<&str> = Vec::new();
    let mut other_vendors: Vec<&str> = Vec::new();
    for vendor in tracestate.split(',') {
        let vendor = vendor.trim();
        if vendor.is_empty() {
            continue;
        }
        if let Some(ot_value) = vendor.strip_prefix("ot=") {
            for part in ot_value.split(';') {
                let part = part.trim();
                if part.is_empty() {
                    continue;
                }
                if part.split(':').next().unwrap_or(part) != sub_key {
                    ot_parts.push(part);
                }
            }
        } else {
            other_vendors.push(vendor);
        }
    }
    ot_parts.push(sub_kv);
    let mut result = format!("ot={}", ot_parts.join(";"));
    if !other_vendors.is_empty() {
        result.push(',');
        result.push_str(&other_vendors.join(","));
    }
    result
}

/// Every string over `alphabet` of at most `max` characters.
fn strings(alphabet: &[char], max: usize) -> Vec<String> {
    let mut all = vec![String::new()];
    let mut last = vec![String::new()];
    for _ in 0..max {
        let mut next = Vec::new();
        for s in &last {
            for c in alphabet {
                let mut t = s.clone();
                t.push(*c);
                next.push(t);
            }
        }
        all.extend(next.iter().cloned());
        last = next;
    }
    all
}

#[test]
fn merge_into_empty_state() {
    assert_eq!(merge_ot_tracestate("", "th:8000"), "ot=th:8000");
}

#[test]
fn merge_keeps_other_vendor() {
    assert_eq!(merge_ot_tracestate("foo=bar", "th:5"), "ot=th:5,foo=bar");
}

#[test]
fn merge_replaces_same_subkey() {
    let once = merge_ot_tracestate("", "th:5");
    assert_eq!(once, "ot=th:5");
    let twice = merge_ot_tracestate(&once, "th:9");
    assert_eq!(twice, "ot=th:9");
}

#[test]
fn merge_keeps_other_subkeys_in_order() {
    assert_eq!(
        merge_ot_tracestate("a=1, ot=rv:ab;th:1 ; x:y ,b=2", "th:c"),
        "ot=rv:ab;x:y;th:c,a=1,b=2"
    );
}

#[test]
fn merge_puts_the_ot_entry_first() {
    assert_eq!(merge_ot_tracestate("a=1,b=2,ot=x:1,c=3", "th:5"), "ot=x:1;th:5,a=1,b=2,c=3");
}

#[test]
fn merge_gathers_every_ot_entry() {
    assert_eq!(merge_ot_tracestate("ot=a:1,v=1,ot=b:2;th:0", "th:5"), "ot=a:1;b:2;th:5,v=1");
}

#[test]
fn merge_skips_empty_entries() {
    assert_eq!(merge_ot_tracestate(",, ,v=1,,", "th:5"), "ot=th:5,v=1");
    assert_eq!(merge_ot_tracestate("ot=;; ;a:1;;", "th:5"), "ot=a:1;th:5");
    assert_eq!(merge_ot_tracestate("ot=", "th:5"), "ot=th:5");
}

#[test]
fn merge_compares_whole_subkeys() {
    assert_eq!(merge_ot_tracestate("ot=th:1;thx:2;t:3;th", "th:5"), "ot=thx:2;t:3;th:5");
    assert_eq!(merge_ot_tracestate("ot=th:1:2", "th:5"), "ot=th:5");
    // A sub-entry without a colon is its own key.
    assert_eq!(merge_ot_tracestate("ot=th:1;flag", "flag"), "ot=th:1;flag");
}

#[test]
fn merge_needs_the_exact_vendor_prefix() {
    assert_eq!(merge_ot_tracestate("ot =th:1,OT=th:2,otx=1", "th:5"), "ot=th:5,ot =th:1,OT=th:2,otx=1");
}

#[test]
fn merged_twice_equals_merged_once_with_the_later_value() {
    let states = strings(&['o', 't', '=', ':', ';', ',', ' ', 'h'], 5);
    for state in &states {
        for (first, second) in [("th:5", "th:9"), ("th:5", "th"), ("h", "h:t"), ("t:", "t:")] {
            let once = merge_ot_tracestate(state, first);
            assert_eq!(
                merge_ot_tracestate(&once, second),
                merge_ot_tracestate(state, second),
                "{:?}",
                state
            );
        }
    }
}

/// The entries of the vendors other than `ot`, as they are read from `state`.
fn others(state: &str) -> Vec<String> {
    state
        .split(',')
        .map(|v| v.trim())
        .filter(|v| !v.is_empty() && !v.starts_with("ot="))
        .map(|v| v.to_string())
        .collect()
}

/// The sub-entries of the `ot` vendor with another key than `key`, as they
/// are read from `state`.
fn kept(state: &str, key: &str) -> Vec<String> {
    state
        .split(',')
        .map(|v| v.trim())
        .filter_map(|v| v.strip_prefix("ot="))
        .flat_map(|v| v.split(';'))
        .map(|p| p.trim())
        .filter(|p| !p.is_empty() && p.split(':').next().unwrap() != key)
        .map(|p| p.to_string())
        .collect()
}

#[test]
fn merge_leaves_other_vendors_as_they_were() {
    let states = strings(&['o', 't', '=', ':', ';', ',', ' ', 'h'], 5);
    for state in &states {
        for sub_kv in ["th:5", "", " ", "ot=", ";", "t;h ", "a,", "x, ,ot=y"] {
            assert_eq!(others(&merge_ot_tracestate(state, sub_kv)), others(state), "{:?}", state);
        }
    }
}

#[test]
fn merged_state_reads_back_as_kept_plus_what_the_sub_entry_holds() {
    let states = strings(&['o', 't', '=', ':', ';', ',', ' '], 4);
    let sub_kvs = strings(&['t', ':', ';', ',', ' ', '='], 3);
    for state in &states {
        for sub_kv in &sub_kvs {
            let key = sub_kv.split(':').next().unwrap();
            let alone = format!("ot={}", sub_kv);
            let merged = merge_ot_tracestate(state, sub_kv);

            let mut vendors = others(&alone);
            vendors.extend(others(state));
            assert_eq!(others(&merged), vendors, "{:?} {:?}", state, sub_kv);

            let mut parts = kept(state, key);
            parts.extend(kept(&alone, key));
            assert_eq!(kept(&merged, key), parts, "{:?} {:?}", state, sub_kv);
        }
    }
}

#[test]
fn a_later_merge_replaces_whenever_the_sub_entry_holds_nothing_else() {
    let states = strings(&['o', 't', '=', ':', ';', ',', ' '], 4);
    let sub_kvs = strings(&['t', ':', ';', ',', ' ', '='], 3);
    let mut replaced = 0;
    for first in &sub_kvs {
        let key = first.split(':').next().unwrap();
        let alone = format!("ot={}", first);
        let holds_nothing_else = others(&alone).is_empty() && kept(&alone, key).is_empty();
        let second = format!("{}:9", key);
        for state in &states {
            let twice = merge_ot_tracestate(&merge_ot_tracestate(state, first), &second);
            let once = merge_ot_tracestate(state, &second);
            if holds_nothing_else {
                assert_eq!(twice, once, "{:?} {:?}", state, first);
                replaced += 1;
            }
        }
    }
    assert!(replaced > 0);
    // A sub-entry that brings another sub-entry along is not replaced whole.
    assert_eq!(
        merge_ot_tracestate(&merge_ot_tracestate("", "th:5;x:1"), "th:9"),
        "ot=x:1;th:9"
    );
    assert_eq!(merge_ot_tracestate(&merge_ot_tracestate("", " th:5"), " th:9"), "ot=th:5; th:9");
    assert_eq!(merge_ot_tracestate(&merge_ot_tracestate("", "th:5,v=1"), "th:9"), "ot=th:9,v=1");
}

#[test]
fn merge_agrees_with_the_standard_library() {
    let states = strings(&['o', 't', '=', ':', ';', ',', ' ', 'h', '\t'], 5);
    for state in &states {
        for sub_kv in ["th:8000", "h", "t:", " th:1", ""] {
            assert_eq!(
                merge_ot_tracestate(state, sub_kv),
                merge_with_std(state, sub_kv),
                "{:?} {:?}",
                state,
                sub_kv
            );
        }
    }
    for state in ["\u{a0}ot=th:1\u{2003},\u{3000}v=1\u{85}", "ot=th:\u{e9};\u{1680}rv:1", "é=1,ot=ü:2"] {
        assert_eq!(merge_ot_tracestate(state, "th:c"), merge_with_std(state, "th:c"));
    }
}

#[test]
fn white_space_is_what_the_standard_library_says() {
    for code in 0..=0x10ffffu32 {
        if let Some(c) = char::from_u32(code) {
            assert_eq!(is_space_char(c), c.is_whitespace(), "U+{:04X}", code);
        }
    }
}

#[test]
fn trim_agrees_with_the_standard_library() {
    for s in strings(&[' ', '\t', 'a', '\u{3000}', ','], 5) {
        assert_eq!(text(trim_chars(&chars(&s))), s.trim(), "{:?}", s);
    }
}

#[test]
fn split_agrees_with_the_standard_library() {
    for s in strings(&[',', ';', 'a', ' '], 6) {
        let expected: Vec<String> = s.split(',').map(|p| p.to_string()).collect();
        assert_eq!(texts(&split_chars(&chars(&s), ',')), expected, "{:?}", s);
        assert_eq!(text(first_piece(&chars(&s), ',')), expected[0], "{:?}", s);
    }
    assert_eq!(texts(&split_chars(&[], ',')), vec![String::new()]);
}

#[test]
fn entries_are_trimmed_and_never_empty() {
    assert_eq!(texts(&entries_of(&chars(" a , ,b,, c d ,"), ',')), vec!["a", "b", "c d"]);
    assert!(entries_of(&chars(""), ',').is_empty());
    assert!(entries_of(&chars(" , ,"), ',').is_empty());
}

#[test]
fn append_joined_puts_the_delimiter_between_parts() {
    let mut out = chars("x=");
    append_joined(&mut out, &vec![chars("a"), chars(""), chars("bc")], ';');
    assert_eq!(text(&out), "x=a;;bc");
    append_joined(&mut out, &vec![], ';');
    assert_eq!(text(&out), "x=a;;bc");
    append_joined(&mut out, &vec![chars("!")], ';');
    assert_eq!(text(&out), "x=a;;bc!");
}

#[test]
fn ot_prefix_and_character_comparison() {
    assert!(has_ot_prefix(&chars("ot=")));
    assert!(has_ot_prefix(&chars("ot=th:1")));
    assert!(!has_ot_prefix(&chars("ot")));
    assert!(!has_ot_prefix(&chars(" ot=")));
    assert!(!has_ot_prefix(&chars("to=")));
    assert!(same_chars(&chars("th"), &chars("th")));
    assert!(same_chars(&[], &[]));
    assert!(!same_chars(&chars("th"), &chars("tx")));
    assert!(!same_chars(&chars("th"), &chars("th ")));
}
