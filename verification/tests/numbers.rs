use citygml_tin::decimal::Coordinate;
use citygml_tin::error::ParseError;
use citygml_tin::poslist::{group, is_whitespace, parse, split_tokens};
use citygml_tin::registry::VertexRegistry;
use citygml_tin::vertex::Vertex;

fn decimal(mantissa: i128, scale: u32) -> Coordinate {
    Coordinate { mantissa, scale }
}

fn words(text: &str) -> Vec<String> {
    split_tokens(text).into_iter().map(|word| word.into_iter().collect()).collect()
}

#[test]
fn normalize_strips_trailing_zeros() {
    assert_eq!(decimal(1500, 3).normalize(), decimal(15, 1));
    assert_eq!(decimal(-1500, 2).normalize(), decimal(-15, 0));
    assert_eq!(decimal(1500, 0).normalize(), decimal(1500, 0));
    assert_eq!(decimal(0, 5).normalize(), decimal(0, 0));
    assert_eq!(decimal(-7, 4).normalize(), decimal(-7, 4));
    assert_eq!(decimal(1050, 2).normalize(), decimal(105, 1));
}

#[test]
fn key_is_that_of_the_normalized_coordinates() {
    let v = Vertex { x: decimal(10, 1), y: decimal(-250, 2), z: decimal(0, 3) };
    assert_eq!(v.key(), (1, 0, -25, 1, 0, 0));
    let w = Vertex { x: decimal(1, 0), y: decimal(-25, 1), z: decimal(0, 0) };
    assert_eq!(v.key(), w.key());
    let u = Vertex { x: decimal(1, 1), y: decimal(-25, 1), z: decimal(0, 0) };
    assert_ne!(v.key(), u.key());
}

#[test]
fn whitespace_is_what_unicode_says() {
    for c in [' ', '\t', '\n', '\r', '\u{b}', '\u{c}', '\u{85}', '\u{a0}', '\u{1680}', '\u{2000}',
        '\u{200a}', '\u{2028}', '\u{2029}', '\u{202f}', '\u{205f}', '\u{3000}']
    {
        assert!(is_whitespace(c));
        assert!(c.is_whitespace());
    }
    for c in ['0', 'a', '-', '.', '\u{8}', '\u{e}', '\u{200b}', '\u{feff}', '\u{1f}'] {
        assert!(!is_whitespace(c));
        assert!(!c.is_whitespace());
    }
}

#[test]
fn whitespace_agrees_with_std_on_every_character() {
    let mut n: u32 = 0;
    while n <= 0x10ffff {
        if let Some(c) = char::from_u32(n) {
            assert_eq!(is_whitespace(c), c.is_whitespace());
        }
        n += 1;
    }
}

#[test]
fn tokens_are_the_runs_between_whitespace() {
    assert_eq!(words("0 0 0"), vec!["0", "0", "0"]);
    assert_eq!(words("  1.5\t-2\n\n3e4  "), vec!["1.5", "-2", "3e4"]);
    assert_eq!(words(""), Vec::<String>::new());
    assert_eq!(words(" \n\t "), Vec::<String>::new());
    assert_eq!(words("one"), vec!["one"]);
    assert_eq!(words("a\u{a0}b\u{3000}c"), vec!["a", "b", "c"]);
}

#[test]
fn parse_reads_points_in_threes() {
    assert_eq!(
        parse("0 0 0 1 0 0 0 1 0"),
        Ok(vec![
            Vertex { x: decimal(0, 0), y: decimal(0, 0), z: decimal(0, 0) },
            Vertex { x: decimal(1, 0), y: decimal(0, 0), z: decimal(0, 0) },
            Vertex { x: decimal(0, 0), y: decimal(1, 0), z: decimal(0, 0) },
        ])
    );
    assert_eq!(parse(""), Ok(vec![]));
    assert_eq!(
        parse(" 1.50 -0.025\n+3 "),
        Ok(vec![Vertex { x: decimal(150, 2), y: decimal(-25, 3), z: decimal(3, 0) }])
    );
}

#[test]
fn parse_keeps_the_digits_as_they_are_written() {
    assert_eq!(
        parse("458885.123456789 5438350.000 112.10"),
        Ok(vec![Vertex {
            x: decimal(458885123456789, 9),
            y: decimal(5438350000, 3),
            z: decimal(11210, 2),
        }])
    );
    assert_eq!(
        parse("79228162514264337593543950335 -79228162514264337593543950335 0.0000000000000000000000000001"),
        Ok(vec![Vertex {
            x: decimal(79228162514264337593543950335, 0),
            y: decimal(-79228162514264337593543950335, 0),
            z: decimal(1, 28),
        }])
    );
}

#[test]
fn parse_refuses_what_is_no_number() {
    assert_eq!(parse("0 0 abc"), Err(ParseError::Number));
    assert_eq!(parse("abc"), Err(ParseError::Number));
    assert_eq!(parse("1 2 3 4 5 6,0"), Err(ParseError::Number));
    assert_eq!(parse("79228162514264337593543950336 0 0"), Err(ParseError::Number));
}

#[test]
fn parse_refuses_an_incomplete_point() {
    assert_eq!(parse("0"), Err(ParseError::IncompletePoint));
    assert_eq!(parse("0 0"), Err(ParseError::IncompletePoint));
    assert_eq!(parse("0 0 0 1"), Err(ParseError::IncompletePoint));
}

#[test]
fn parse_looks_for_bad_numbers_before_it_counts() {
    assert_eq!(parse("0 x"), Err(ParseError::Number));
}

#[test]
fn registry_gives_indices_in_the_order_of_first_appearance() {
    let a = Vertex { x: decimal(1, 0), y: decimal(2, 0), z: decimal(3, 0) };
    let a_again = Vertex { x: decimal(100, 2), y: decimal(20, 1), z: decimal(3, 0) };
    let b = Vertex { x: decimal(1, 0), y: decimal(2, 0), z: decimal(4, 0) };
    let mut registry = VertexRegistry::new();
    assert_eq!(registry.len(), 0);
    assert_eq!(registry.intern(a), 0);
    assert_eq!(registry.intern(b), 1);
    assert_eq!(registry.intern(a_again), 0);
    assert_eq!(registry.intern(a), 0);
    assert_eq!(registry.intern(b), 1);
    assert_eq!(registry.len(), 2);
    assert_eq!(registry.get(0), a);
    assert_eq!(registry.get(1), b);
    assert_eq!(registry.to_ordered_sequence(), vec![a, b]);
}

#[test]
fn registry_tells_points_apart_by_every_coordinate() {
    let mut registry = VertexRegistry::new();
    let base = Vertex { x: decimal(0, 0), y: decimal(0, 0), z: decimal(0, 0) };
    let x = Vertex { x: decimal(1, 1), ..base };
    let y = Vertex { y: decimal(1, 1), ..base };
    let z = Vertex { z: decimal(-1, 1), ..base };
    assert_eq!(registry.intern(base), 0);
    assert_eq!(registry.intern(x), 1);
    assert_eq!(registry.intern(y), 2);
    assert_eq!(registry.intern(z), 3);
    assert_eq!(registry.intern(Vertex { z: decimal(-10, 2), ..base }), 3);
    assert_eq!(registry.to_ordered_sequence(), vec![base, x, y, z]);
}

#[test]
fn coordinates_are_compared_by_the_number_they_stand_for() {
    assert!(decimal(15, 1).is_same_value(&decimal(1500, 3)));
    assert!(decimal(0, 0).is_same_value(&decimal(0, 9)));
    assert!(decimal(-2, 0).is_same_value(&decimal(-20, 1)));
    assert!(!decimal(15, 1).is_same_value(&decimal(15, 2)));
    assert!(!decimal(2, 0).is_same_value(&decimal(-2, 0)));
    assert!(!decimal(1, 28).is_same_value(&decimal(0, 0)));
    assert!(decimal(i128::MAX, 0).is_same_value(&decimal(i128::MAX, 0)));
    assert!(!decimal(i128::MAX, 0).is_same_value(&decimal(i128::MIN, 0)));
}

#[test]
fn vertices_are_compared_coordinate_by_coordinate() {
    let v = Vertex { x: decimal(10, 1), y: decimal(2, 0), z: decimal(300, 2) };
    let w = Vertex { x: decimal(1, 0), y: decimal(20, 1), z: decimal(3, 0) };
    assert!(v.is_same_point(&w));
    assert!(v.is_same_point(&v));
    assert!(!v.is_same_point(&Vertex { z: decimal(31, 1), ..w }));
    assert!(!v.is_same_point(&Vertex { y: decimal(2, 1), ..w }));
    assert!(!v.is_same_point(&Vertex { x: decimal(-1, 0), ..w }));
}

#[test]
fn registry_interns_several_points_in_order() {
    let a = Vertex { x: decimal(1, 0), y: decimal(2, 0), z: decimal(3, 0) };
    let b = Vertex { x: decimal(4, 0), y: decimal(5, 0), z: decimal(6, 0) };
    let c = Vertex { x: decimal(7, 0), y: decimal(8, 0), z: decimal(9, 0) };
    let a_again = Vertex { x: decimal(10, 1), y: decimal(2, 0), z: decimal(3, 0) };
    let mut registry = VertexRegistry::new();
    assert_eq!(registry.intern(b), 0);
    assert_eq!(registry.intern_all(&vec![a, b, a_again, c, c]), vec![1, 0, 1, 2, 2]);
    assert_eq!(registry.to_ordered_sequence(), vec![b, a, c]);
    assert_eq!(registry.intern_all(&vec![]), Vec::<usize>::new());
    assert_eq!(registry.len(), 3);
}

#[test]
fn coordinates_are_grouped_in_threes() {
    let one_to_six: Vec<Coordinate> = (1..=6).map(|n| decimal(n, 0)).collect();
    assert_eq!(
        group(&one_to_six),
        Ok(vec![
            Vertex { x: decimal(1, 0), y: decimal(2, 0), z: decimal(3, 0) },
            Vertex { x: decimal(4, 0), y: decimal(5, 0), z: decimal(6, 0) },
        ])
    );
    assert_eq!(group(&vec![]), Ok(vec![]));
    assert_eq!(group(&one_to_six[..5].to_vec()), Err(ParseError::IncompletePoint));
    assert_eq!(group(&one_to_six[..4].to_vec()), Err(ParseError::IncompletePoint));
    assert_eq!(group(&one_to_six[..1].to_vec()), Err(ParseError::IncompletePoint));
}
