use primer::vector::Vector;

#[test]
fn is_formattable() {
    let v = Vector::new("Test".to_string());
    assert_eq!("Test", v.data);
}

#[test]
fn vector_shows_its_data_when_formatted() {
    let v = Vector::new(String::from("toby"));
    assert_eq!(format!("{:?}", v), "Vector { data: \"toby\" }");
}
