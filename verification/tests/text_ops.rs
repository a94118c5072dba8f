use ratatuni::text::{
    chars_of, parse_u32, replace_str, split_str, starts_with, str_eq, trim_str, u64_to_string,
    len_utf8,
};

#[test]
fn decimal_formatting() {
    assert_eq!(u64_to_string(0), "0");
    assert_eq!(u64_to_string(7), "7");
    assert_eq!(u64_to_string(350), "350");
    assert_eq!(u64_to_string(u64::MAX), u64::MAX.to_string());
}

#[test]
fn parse_accepts_what_std_accepts() {
    let cases = ["350", "+7", "0", "007", "4294967295", "4294967296", "", "+", "-1", " 12", "12 ", "1a", "99999999999"];
    for c in cases.iter() {
        assert_eq!(parse_u32(c), c.parse::<u32>().ok(), "input {:?}", c);
    }
}

#[test]
fn parse_reads_back_decimal() {
    for n in [0u32, 1, 9, 10, 99, 100, 12345, u32::MAX].iter() {
        assert_eq!(parse_u32(&u64_to_string(*n as u64)), Some(*n));
    }
}

#[test]
fn trim_removes_unicode_whitespace() {
    let cases = ["  a b  ", "\t\nx\r\n", "\u{3000}y\u{a0}", "", "   ", "no_space", "\u{2028}z\u{85}"];
    for c in cases.iter() {
        assert_eq!(trim_str(c), c.trim(), "input {:?}", c);
    }
}

#[test]
fn replace_matches_std() {
    let cases = [("aaaa", "aa", "b"), ("Audio Audio", "Audio", ""), ("a/b/c", "/", "|"), ("xyz", "q", "r"), ("", "a", "b"), ("abab", "ab", "abab")];
    for (s, p, r) in cases.iter() {
        assert_eq!(replace_str(s, p, r), s.replace(p, r), "input {:?}", (s, p, r));
    }
}

#[test]
fn split_matches_std_and_joins_back() {
    let cases = ["12345ALL OF THEM,", "a,b,c", "", ",", "single", ",,x,"];
    for c in cases.iter() {
        let ours = split_str(c, ',');
        let theirs: Vec<String> = c.split(',').map(|s| s.to_string()).collect();
        assert_eq!(ours, theirs);
        assert_eq!(ours.join(","), *c);
    }
}

#[test]
fn prefix_equality_and_chars() {
    assert!(starts_with("937798798798798music", "937798798798798"));
    assert!(!starts_with("93779", "937798798798798"));
    assert!(starts_with("abc", ""));
    assert!(str_eq("Success", "Success"));
    assert!(!str_eq("Success", "Succes"));
    assert_eq!(chars_of("héllo"), vec!['h', 'é', 'l', 'l', 'o']);
}

#[test]
fn byte_lengths() {
    let mut s = ratatuni::input_state::InputState::new();
    s.input = "héllo".to_string();
    assert_eq!(s.clamp_cursor(100), 6);
    s.input = String::new();
    assert_eq!(s.clamp_cursor(100), 0);
    for c in ['a', 'é', '€', '😀'].iter() {
        assert_eq!(len_utf8(*c), c.len_utf8());
    }
}

#[test]
fn gauge_steps_agree() {
    use_gauge();
}

fn use_gauge() {
    let mut a = ratatuni::gauge_state::GaugeState { numer: 5, denom: 8 };
    let mut b = ratatuni::gauge_state::GaugeState { numer: 5, denom: 8 };
    a.increase_numerator();
    b.increase_numerator_by(1);
    assert_eq!((a.numer, a.denom), (b.numer, b.denom));
    a.increase_numerator_by(2);
    assert_eq!(a.numer, 8);
    let mut c = ratatuni::gauge_state::GaugeState { numer: u64::MAX, denom: 1 };
    c.increase_numerator();
    assert_eq!(c.numer, u64::MAX);
}
