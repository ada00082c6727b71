use realtyflow::search::{
    empty_string_as_none, optional_id, parse_i32, property_conditions, IdParseError, PropertyCondition,
    PropertyFilter,
};

#[test]
fn parse_i32_agrees_with_std() {
    let samples = [
        "0", "42", "-17", "+5", "007", "2147483647", "-2147483648", "2147483648", "-2147483649",
        "99999999999x", "x9999999999999", "-", "+", "", "1 2", "٣", "--1", "+-1",
        "00000000000000000000001",
    ];
    for s in samples {
        let ours = parse_i32(s);
        match s.parse::<i32>() {
            Ok(n) => assert!(ours == Ok(n), "{s}"),
            Err(e) => {
                let kind = match e.kind() {
                    std::num::IntErrorKind::Empty => IdParseError::Empty,
                    std::num::IntErrorKind::InvalidDigit => IdParseError::InvalidDigit,
                    std::num::IntErrorKind::PosOverflow => IdParseError::PosOverflow,
                    std::num::IntErrorKind::NegOverflow => IdParseError::NegOverflow,
                    _ => panic!("unexpected kind"),
                };
                assert!(ours == Err(kind), "{s}");
            }
        }
    }
}

#[test]
fn id_parameters() {
    assert_eq!(optional_id(None), Ok(None));
    assert_eq!(optional_id(Some("  ".into())), Ok(None));
    assert_eq!(optional_id(Some(" 12 ".into())), Ok(Some(12)));
    assert_eq!(optional_id(Some("abc".into())), Err("invalid digit found in string".to_string()));
    assert_eq!(optional_id(Some("99999999999".into())), Err("number too large to fit in target type".to_string()));
    assert_eq!(empty_string_as_none(Some("  дом ".into())), Some("дом".to_string()));
    assert_eq!(empty_string_as_none(Some("".into())), None);
}

fn pairs(v: &[(&str, &str)]) -> Vec<(String, String)> {
    v.iter().map(|(k, x)| (k.to_string(), x.to_string())).collect()
}

#[test]
fn filter_from_query() {
    let f = PropertyFilter::from_query(&pairs(&[("q", " Центр "), ("category_id", "3"), ("status_id", ""), ("page", "2")]))
        .ok()
        .unwrap();
    assert_eq!(f.q, Some("Центр".to_string()));
    assert_eq!((f.category_id, f.status_id, f.district_id), (Some(3), None, None));
    let empty = PropertyFilter::from_query(&[]).ok().unwrap();
    assert!(empty.q.is_none() && empty.category_id.is_none());
}

#[test]
fn first_bad_pair_in_query_order_decides() {
    assert_eq!(
        PropertyFilter::from_query(&pairs(&[("district_id", "-99999999999"), ("status_id", "x")])).err(),
        Some("number too small to fit in target type".to_string())
    );
    assert_eq!(
        PropertyFilter::from_query(&pairs(&[("status_id", "x"), ("district_id", "-99999999999")])).err(),
        Some("invalid digit found in string".to_string())
    );
    assert_eq!(
        PropertyFilter::from_query(&pairs(&[("q", ""), ("q", "дом")])).err(),
        Some("duplicate field `q`".to_string())
    );
    assert_eq!(
        PropertyFilter::from_query(&pairs(&[("category_id", "1"), ("category_id", "2")])).err(),
        Some("duplicate field `category_id`".to_string())
    );
}

#[test]
fn filter_conditions() {
    let f = PropertyFilter { q: Some(" Ленина ".into()), category_id: Some(2), status_id: None, district_id: Some(4) };
    let c = property_conditions(&f);
    assert_eq!(c.len(), 3);
    assert!(matches!(&c[0], PropertyCondition::TextSearch(p) if p == "%ленина%"));
    assert!(matches!(c[1], PropertyCondition::Category(2)));
    assert!(matches!(c[2], PropertyCondition::District(4)));
    let blank = PropertyFilter { q: Some("  ".into()), category_id: None, status_id: Some(1), district_id: None };
    let c = property_conditions(&blank);
    assert_eq!(c.len(), 1);
    assert!(matches!(c[0], PropertyCondition::Status(1)));
}

#[test]
fn ids_written_as_text_read_back() {
    for n in [0i32, 1, -1, 42, 2147483647, -2147483648, 1000000, -90210] {
        assert!(parse_i32(&n.to_string()) == Ok(n));
        assert_eq!(optional_id(Some(n.to_string())), Ok(Some(n)));
    }
}

fn condition_key(c: &PropertyCondition) -> String {
    match c {
        PropertyCondition::TextSearch(p) => format!("q:{p}"),
        PropertyCondition::Category(i) => format!("c:{i}"),
        PropertyCondition::Status(i) => format!("s:{i}"),
        PropertyCondition::District(i) => format!("d:{i}"),
    }
}

#[test]
fn narrower_filters_add_conditions_and_blank_search_adds_none() {
    let wider = PropertyFilter { q: None, category_id: Some(2), status_id: None, district_id: None };
    let narrower = PropertyFilter { q: Some("  Дом ".into()), category_id: Some(2), status_id: Some(1), district_id: None };
    let w: Vec<String> = property_conditions(&wider).iter().map(condition_key).collect();
    let n: Vec<String> = property_conditions(&narrower).iter().map(condition_key).collect();
    assert!(w.iter().all(|c| n.contains(c)));
    assert_eq!(n, vec!["q:%дом%", "c:2", "s:1"]);

    let blank = PropertyFilter { q: Some(" \t ".into()), category_id: Some(2), status_id: None, district_id: None };
    let b: Vec<String> = property_conditions(&blank).iter().map(condition_key).collect();
    assert_eq!(b, w);
}
