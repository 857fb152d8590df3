use js_gui_rs::Jsonify;

#[test]
fn append_str() {
    let mut a = String::new_json();
    a.append_str("label", "value");
    println!("Result: {}", a);
    assert_eq!(a, String::from("{\"label\":\"value\"}"));
}

#[test]
fn append_json() {
    let expected = "{\"data\":{\"label\":\"value\"}}";
    let mut a = String::new_json();
    a.append_str("label", "value");
    let mut b = String::new_json();
    b.append_json("data", &a);
    println!("Result: {}", b);
    assert_eq!(b, String::from(expected));
}

#[test]
fn append_vec() {
    let expected = "{\"array\":[1,2,3,4,5]}";
    let mut a = String::new_json();
    a.append_vec("array", &vec![1, 2, 3, 4, 5]);
    println!("Result: {}", a);
    assert_eq!(a, String::from(expected));
}

#[test]
fn append_bool() {
    let expected = "{\"label1\":true,\"label2\":false}";
    let mut a = String::new_json();
    a.append_bool("label1", true);
    a.append_bool("label2", false);
    println!("Result: {}", a);
    assert_eq!(a, String::from(expected));
}

#[test]
fn jschart_ex() {
    let expected = "{\"type\":\"line\",\"data\":{\"labels\":[January,February,March,April,May,June,July],\"datasets\":[{\"label\":\"My First Dataset\",\"data\":[65,59,80,81,56,55,40],\"fill\":false,\"borderColor\":\"rgb(75, 192, 192)\",\"lineTension\":\"0.1\"}]},\"options\":{}}";

    let type_ = "line";
    let labels = vec!["January", "February", "March", "April", "May", "June", "July"];
    let label = "My First Dataset";
    let data = vec![65, 59, 80, 81, 56, 55, 40];

    let mut dataset_json = String::new_json();
    dataset_json.append_str("label", label);
    dataset_json.append_vec("data", &data);
    dataset_json.append_bool("fill", false);
    dataset_json.append_str("borderColor", "rgb(75, 192, 192)");
    dataset_json.append_str("lineTension", "0.1");

    let mut data_json = String::new_json();
    data_json.append_vec("labels", &labels);
    data_json.append_vec("datasets", &vec![dataset_json]);

    let mut json = String::new_json();
    json.append_str("type", type_);
    json.append_json("data", &data_json);
    json.append_json("options", &String::new_json());

    println!("Result: {}", json);
    assert_eq!(json, String::from(expected));
}

#[test]
fn new_json_is_empty_object() {
    assert_eq!(String::new_json(), "{}");
}

#[test]
fn appended_members_come_in_order_with_commas() {
    let mut a = String::new_json();
    a.append_number("n", &-12i32);
    a.append_str("s", "x");
    a.append_bool("b", true);
    a.append_json("o", &String::from("{}"));
    assert_eq!(a, "{\"n\":-12,\"s\":\"x\",\"b\":true,\"o\":{}}");
}

#[test]
fn append_to_empty_text_writes_no_opening_brace() {
    let mut a = String::new();
    a.append_str("k", "v");
    assert_eq!(a, "\"k\":\"v\"}");
}

#[test]
fn empty_array_is_written_as_brackets() {
    let mut a = String::new_json();
    let empty: Vec<u32> = Vec::new();
    a.append_vec("a", &empty);
    assert_eq!(a, "{\"a\":[]}");
}

#[test]
fn chars_and_wide_integers() {
    let mut a = String::new_json();
    a.append_vec("c", &vec!['x', '\u{e9}']);
    a.append_number("u", &u128::MAX);
    a.append_number("i", &i128::MIN);
    assert_eq!(
        a,
        "{\"c\":[x,\u{e9}],\"u\":340282366920938463463374607431768211455,\"i\":-170141183460469231731687303715884105728}"
    );
}

#[test]
fn short_non_ascii_text_counts_bytes_for_the_comma() {
    // "{é}" loses its '}', which leaves 3 bytes, so a comma is written.
    let mut a = String::from("{\u{e9}}");
    a.append_bool("b", false);
    assert_eq!(a, "{\u{e9},\"b\":false}");
    // "{a}" leaves 2 bytes: no comma.
    let mut b = String::from("{a}");
    b.append_bool("b", false);
    assert_eq!(b, "{a\"b\":false}");
}

#[test]
fn integers_are_written_in_decimal() {
    let mut a = String::new_json();
    a.append_vec("i", &vec![i64::MIN, -1, 0, 7, i64::MAX]);
    a.append_number("u", &u64::MAX);
    a.append_number("z", &0u8);
    a.append_number("s", &-128i8);
    assert_eq!(
        a,
        "{\"i\":[-9223372036854775808,-1,0,7,9223372036854775807],\"u\":18446744073709551615,\"z\":0,\"s\":-128}"
    );
}

#[test]
fn strings_and_booleans_in_arrays() {
    let mut a = String::new_json();
    a.append_vec("s", &vec![String::from("x"), String::from("yz")]);
    a.append_vec("b", &vec![true, false]);
    assert_eq!(a, "{\"s\":[x,yz],\"b\":[true,false]}");
}
