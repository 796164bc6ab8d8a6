use dionysus::finance::{
    Book, BookLine, DiError, OrderType, Sample, Side, TimeInForce, Token,
};
use dionysus::time::{Date, TimeUnit};

#[test]
fn token_texts() {
    let pair = Token::pair("BTC", "USDT");
    assert_eq!(pair.to_string(), "BTCUSDT");
    assert_eq!(pair.name(), "BTC/USDT");
    assert_eq!(pair.get_symbol(), "BTC");
    assert_eq!(pair.get_currency(), "USDT");
    assert!(pair.is_pair());
    let symbol = Token::Symbol("ETH".to_string());
    assert_eq!(symbol.to_string(), "ETH");
    assert_eq!(symbol.name(), "ETH");
    assert_eq!(symbol.get_symbol(), "ETH");
    assert_eq!(symbol.get_currency(), "");
    assert!(!symbol.is_pair());
    let currency = Token::Currency("EUR".to_string());
    assert_eq!(currency.to_string(), "EUR");
    assert_eq!(currency.get_symbol(), "");
    assert_eq!(currency.get_currency(), "EUR");
    assert_eq!(Token::Empty.to_string(), "NONE");
    assert_eq!(Token::Empty.name(), "NONE");
    assert_eq!(Token::default().to_string(), "NONE");
}

#[test]
fn token_from_string_splits_three_and_three() {
    let t = Token::from_string(&"BTCEURxyz".to_string());
    assert_eq!(t.get_symbol(), "BTC");
    assert_eq!(t.get_currency(), "EUR");
    assert!(t.is_pair());
}

#[test]
fn token_reverse_and_symbol() {
    let pair = Token::pair("BTC", "USDT");
    let back = pair.reverse();
    assert_eq!(back.get_symbol(), "USDT");
    assert_eq!(back.get_currency(), "BTC");
    assert_eq!(back.reverse(), pair);
    assert_eq!(Token::Symbol("X".to_string()).reverse().to_string(), "X");
    assert_eq!(pair.symbol().to_string(), "BTC");
    assert!(!pair.symbol().is_pair());
    assert_eq!(Token::Currency("EUR".to_string()).symbol().to_string(), "");
}

#[test]
fn tokens_are_the_same_when_their_keys_are() {
    assert_eq!(Token::pair("btc", "usdt").key(), "BTCUSDT");
    assert_eq!(Token::pair("btc", "usdt"), Token::pair("BTC", "USDT"));
    assert_eq!(Token::pair("BTC", "USDT"), Token::Symbol("BtcUsdt".to_string()));
    assert_ne!(Token::pair("BTC", "USDT"), Token::pair("USDT", "BTC"));
    assert_ne!(Token::pair("BTC", "USDT"), Token::Empty);
    assert_eq!(Token::Empty, Token::Symbol("none".to_string()));
    let t = Token::pair("ETH", "EUR");
    assert_eq!(t.clone(), t);
}

#[test]
fn names_of_order_shapes() {
    assert_eq!(OrderType::from_string(&"Market".to_string()), OrderType::Market);
    assert_eq!(OrderType::from_string(&"Limit".to_string()), OrderType::Limit);
    assert_eq!(OrderType::from_string(&"StopMarket".to_string()), OrderType::StopMarket);
    assert_eq!(OrderType::from_string(&"StopLimit".to_string()), OrderType::StopLimit);
    assert_eq!(OrderType::from_string(&"limit".to_string()), OrderType::Market);
    assert_eq!(OrderType::default(), OrderType::Market);
    assert_eq!(Side::from_string(&"Buy".to_string()), Side::Buy);
    assert_eq!(Side::from_string(&"Sell".to_string()), Side::Sell);
    assert_eq!(Side::from_string(&"buy".to_string()), Side::Sell);
    assert_eq!(TimeInForce::from_string(&"GTC".to_string()), TimeInForce::GTC);
    assert_eq!(TimeInForce::from_string(&"IOC".to_string()), TimeInForce::IOC);
    assert_eq!(TimeInForce::from_string(&"FOK".to_string()), TimeInForce::FOK);
    assert_eq!(TimeInForce::from_string(&"".to_string()), TimeInForce::GTC);
    assert_eq!(TimeInForce::default(), TimeInForce::GTC);
}

#[test]
fn a_book_quotes_its_best_prices() {
    let now = Date::from_timestamp(77);
    let book = Book {
        token: Token::pair("BTC", "USDT"),
        bids: vec![
            BookLine { price: 99, quantity: 1 },
            BookLine { price: 101, quantity: 2 },
            BookLine { price: 100, quantity: 3 },
        ],
        asks: vec![
            BookLine { price: 105, quantity: 1 },
            BookLine { price: 103, quantity: 2 },
            BookLine { price: 104, quantity: 3 },
        ],
    };
    let quote = book.quote(now).unwrap();
    assert_eq!(quote.bid, Some(101));
    assert_eq!(quote.ask, Some(103));
    assert_eq!(quote.token, Token::pair("BTC", "USDT"));
    assert_eq!(quote.biddate, now);
    assert_eq!(quote.askdate, now);
}

#[test]
fn a_book_with_an_empty_side_gives_no_quote() {
    let now = Date::from_timestamp(0);
    let line = BookLine { price: 1, quantity: 1 };
    assert!(Book::default().quote(now).is_none());
    let no_asks = Book { token: Token::Empty, bids: vec![line], asks: vec![] };
    assert!(no_asks.quote(now).is_none());
    let no_bids = Book { token: Token::Empty, bids: vec![], asks: vec![line] };
    assert!(no_bids.quote(now).is_none());
}

#[test]
fn sample_date_and_default() {
    let s = Sample {
        resolution: TimeUnit::Min(1),
        timestamp: 1234,
        open: 1,
        high: 2,
        low: 0,
        close: 1,
        volume: 9,
    };
    assert_eq!(s.date().timestamp(), 1234);
    let d = Sample::default();
    assert_eq!(d.resolution, TimeUnit::Hour(1));
    assert_eq!(d.volume, 0);
    assert_eq!(d.timestamp, 0);
}

#[test]
fn errors_keep_their_text_when_cloned() {
    let e = DiError::Message("funds".to_string());
    assert_eq!(e.clone(), e);
    assert_ne!(DiError::NotFound, DiError::NotImplemented);
    assert_eq!(DiError::Absent.clone(), DiError::Absent);
}
