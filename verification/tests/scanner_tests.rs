use micron::scanner::Char;

#[test]
fn from_source_gives_byte_offsets() {
    let chars = Char::from_source(&"aé:".to_string());
    assert_eq!(
        chars,
        vec![Char::new('a', 0), Char::new('é', 1), Char::new(':', 3)]
    );
}

#[test]
fn extract_drops_the_positions() {
    let chars = vec![Char::new('x', 7), Char::new('y', 9)];
    assert_eq!(Char::extract(&chars), vec!['x', 'y']);
}
