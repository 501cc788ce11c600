use bootstats::{number_style, split_fields, tidy_number, NumberStyle};

fn fields(s: &str) -> Vec<String> {
    let chars: Vec<char> = s.chars().collect();
    split_fields(&chars).iter().map(|f| f.iter().collect()).collect()
}

fn tidy(s: &str) -> String {
    let chars: Vec<char> = s.chars().collect();
    tidy_number(&chars).iter().collect()
}

#[test]
fn fields_split_on_commas_and_line_breaks() {
    assert_eq!(fields("1, 2\n3,,x"), vec!["1", "2", "3", "", "x"]);
    assert_eq!(fields(" 4.5 \t6\u{a0}7 "), vec!["4.567"]);
    assert_eq!(fields("8\r\n9"), vec!["8", "9"]);
}

#[test]
fn fields_of_empty_text() {
    assert_eq!(fields(""), vec![""]);
    assert_eq!(fields("\n"), vec!["", ""]);
}

#[test]
fn tidy_drops_trailing_zeros_and_point() {
    assert_eq!(tidy("2.500000"), "2.5");
    assert_eq!(tidy("3.000000"), "3");
    assert_eq!(tidy("-0.000100"), "-0.0001");
    assert_eq!(tidy("0.000000"), "0");
}

#[test]
fn tidy_keeps_whole_numbers_and_exponents() {
    assert_eq!(tidy("100"), "100");
    assert_eq!(tidy("1.250000e4"), "1.25e4");
    assert_eq!(tidy("1.000000e-4"), "1e-4");
    assert_eq!(tidy("2.000000e10"), "2e10");
    assert_eq!(tidy(""), "");
}

#[test]
fn style_by_magnitude() {
    assert_eq!(number_style(0.0f64.to_bits()), NumberStyle::Zero);
    assert_eq!(number_style((-0.0f64).to_bits()), NumberStyle::Zero);
    assert_eq!(number_style(10000.0f64.to_bits()), NumberStyle::Scientific);
    assert_eq!(number_style((-20000.0f64).to_bits()), NumberStyle::Scientific);
    assert_eq!(number_style(9999.9f64.to_bits()), NumberStyle::Fixed);
    assert_eq!(number_style(0.001f64.to_bits()), NumberStyle::Fixed);
    assert_eq!(number_style(0.000999f64.to_bits()), NumberStyle::Scientific);
    assert_eq!(number_style((-3.5f64).to_bits()), NumberStyle::Fixed);
    assert_eq!(number_style(f64::NAN.to_bits()), NumberStyle::Fixed);
    assert_eq!(number_style(f64::INFINITY.to_bits()), NumberStyle::Scientific);
}

