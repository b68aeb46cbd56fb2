use antlr4rs::input_stream::StringStream;
use antlr4rs::token::{BaseToken, Token, TOKEN_EOF};
use antlr4rs::token_factory::{CommonTokenFactory, TokenFactory};

#[test]
fn factory_takes_text_from_stream() {
    let stream = StringStream::new(String::from("this is char stream"));
    let factory = CommonTokenFactory::new();
    let t = factory.create(&stream, 5, None, 0, 5, 6, 1, 5);
    assert_eq!(t.text(), "is");
    assert_eq!(t.token_index(), -1);
    assert_eq!((t.start(), t.stop(), t.line(), t.column(), t.channel()), (5, 6, 1, 5, 0));
    let t = factory.create(&stream, 5, Some(String::from("given")), 1, 0, 3, 1, 0);
    assert_eq!(t.text(), "given");
    assert_eq!(t.channel(), 1);
}

#[test]
fn eof_token_text() {
    let mut t = BaseToken::new(TOKEN_EOF, 0, 3, 2, 0, 1, 3, String::from("ignored"), false);
    assert_eq!(t.text(), "<EOF>");
    t.set_token_index(9);
    assert_eq!(t.token_index(), 9);
    let c = t.clone();
    assert_eq!(c.stop(), 2);
    assert_eq!(c.token_type(), TOKEN_EOF);
}
