use exprlang::parser::error::Error;
use exprlang::parser::scanner::Scanner;
use exprlang::parser::tokens::Keyword::Let;
use exprlang::parser::tokens::TokenType::{Delim, Eof, Keyword, Name, Number, Op};

#[test]
fn test_scanner() -> Result<(), Error> {
    let mut scan = Scanner::new("let x = 5;");
    assert_eq!(scan.next()?.token, Keyword(Let));
    assert_eq!(scan.next()?.token, Name("x".into()));
    assert_eq!(scan.next()?.token, Op(vec!['=']));
    assert_eq!(scan.next()?.token, Number(5));
    assert_eq!(scan.next()?.token, Delim(';'));
    assert_eq!(scan.next()?.token, Eof);
    assert_eq!(scan.next()?.token, Eof);
    Ok(())
}
