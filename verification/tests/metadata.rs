use helianto::metadata::{
    coerce, keywords_of, Date, DateTime, Field, Keywords, OptAsRef, Text, Value,
};
use helianto::Error;

#[test]
fn test_text_from_raw() {
    let result = Text("title").from_raw("foo").ok();
    assert!(result.is_some());
    let result: Option<String> = result.unwrap().into_string();
    assert!(result == Some(String::from("foo")));
}

#[test]
fn text_fields_trim_and_allow_the_empty_string() {
    assert_eq!(Text("title").get_name(), "title");
    assert_eq!(Text("title").from_raw("  A title \n").unwrap().into_string(), Some(String::from("A title")));
    assert_eq!(Text("title").from_raw("   ").unwrap().into_string(), Some(String::new()));
    assert!(Text("title").get_default().is_none());
}

#[test]
fn date_fields_take_rfc_3339_only() {
    let value = Date("created").from_raw("2020-12-30T14:47:30+01:00").unwrap();
    assert_eq!(value.into_date_time(), Some(DateTime::new(1609336050, 0, 3600)));
    match Date("created").from_raw("30/12/2020") {
        Err(Error::InvalidDate { date }) => assert_eq!(date, "30/12/2020"),
        _ => panic!("an invalid date was expected"),
    }
    assert_eq!(Date("modified").get_name(), "modified");
}

#[test]
fn keywords_split_on_commas() {
    assert_eq!(keywords_of("foo, bar"), vec!["foo", "bar"]);
}

#[test]
fn keywords_split_on_semicolons_where_there_is_one() {
    assert_eq!(keywords_of("foo; bar, baz"), vec!["foo", "bar, baz"]);
}

#[test]
fn keywords_drop_empty_pieces_and_keep_order_and_repetitions() {
    assert_eq!(keywords_of(" b ,, a , b,"), vec!["b", "a", "b"]);
    assert_eq!(keywords_of(""), Vec::<String>::new());
    assert_eq!(keywords_of(" ; ;"), Vec::<String>::new());
    let value = Keywords("keywords").from_raw("x; y").unwrap();
    assert_eq!(value.into_strings(), vec!["x", "y"]);
    assert_eq!(Keywords("keywords").get_name(), "keywords");
}

#[test]
fn coerce_goes_by_the_field_name() {
    assert_eq!(coerce("title", " T ").unwrap().into_string(), Some(String::from("T")));
    assert_eq!(coerce("language", " fr ").unwrap().into_string(), Some(String::from("fr")));
    assert_eq!(coerce("keywords", "a,b").unwrap().into_strings(), vec!["a", "b"]);
    assert_eq!(
        coerce("modified", "1970-01-01T00:00:00Z").unwrap().into_date_time(),
        Some(DateTime::new(0, 0, 0))
    );
    assert_eq!(coerce("custom", " kept as is ").unwrap().into_string(), Some(String::from(" kept as is ")));
    assert!(matches!(coerce("created", "yesterday"), Err(Error::InvalidDate { .. })));
    assert!(coerce("Created", "yesterday").is_ok());
}

#[test]
fn values_give_their_parts() {
    let mut value = Value::from(String::from("text"));
    assert_eq!(OptAsRef::<String>::as_ref(&value), Some(&String::from("text")));
    assert_eq!(OptAsRef::<bool>::as_ref(&value), None);
    if let Some(text) = OptAsRef::<String>::as_mut(&mut value) {
        text.push('!');
    }
    assert_eq!(value.into_string(), Some(String::from("text!")));

    assert_eq!(Value::from(true).into_bool(), Some(true));
    assert_eq!(Value::from(-3i64).into_i64(), Some(-3));
    assert_eq!(Value::from(3u64).into_u64(), Some(3));
    assert_eq!(Value::from(3u64).into_i64(), None);
    assert_eq!(Value::from("str").into_string(), Some(String::from("str")));
    assert_eq!(Value::Null.into_string(), None);
    let list = Value::from(vec![Value::from("a"), Value::from(1u64), Value::from("b")]);
    assert_eq!(list.clone().into_strings(), vec!["a", "b"]);
    assert_eq!(list.into_vec().map(|items| items.len()), Some(3));
    let table = Value::from(vec![(String::from("k"), Value::Null)]);
    assert_eq!(table.clone().into_table().map(|entries| entries.len()), Some(1));
    assert_eq!(table.into_strings(), Vec::<String>::new());
}
