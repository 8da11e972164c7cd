use tf2_price::numeral::{parse_metal, push_metal};
use tf2_price::scrap;

fn metal(refined: f32) -> i64 {
    parse_metal(&format!("{}", refined)).unwrap()
}

#[test]
fn metal_macro() {
    assert_eq!(metal(1.0), 18);
    assert_eq!(metal(1.05), 19);
    assert_eq!(metal(1.11), 20);
    assert_eq!(metal(1.77), 32);
    assert_eq!(metal(1.99), 36);
    assert_eq!(metal(50.66), 912);
}

#[test]
fn converts_from_metal_float() {
    assert_eq!(scrap(3), metal(0.33));
}

#[test]
fn converts_to_metal_float() {
    let mut numeral = String::new();
    push_metal(&mut numeral, 6);
    assert_eq!(numeral, "0.33");
    assert_eq!(0.33, numeral.parse::<f32>().unwrap());
}
