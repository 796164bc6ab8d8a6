//! The data of a market: tokens, samples, quotes, order books, positions and orders.

use crate::text::{same_text, to_upper, uppercase};
use crate::time::{Date, TimeUnit};
use vstd::prelude::*;

verus! {

/// What can go wrong in the library and in what it asks of a data source.
#[derive(Debug, PartialEq, Eq)]
pub enum DiError {
    NotFound,
    NotImplemented,
    Message(String),
    Error,
    OutOfBounds,
    /// Nothing is there, which is no fault.
    Absent,
}

/// A `DiError` with its text as a sequence of characters.
pub ghost enum DiErrorView {
    NotFound,
    NotImplemented,
    Message(Seq<char>),
    Error,
    OutOfBounds,
    /// Nothing is there, which is no fault.
    Absent,
}

impl View for DiError {
    type V = DiErrorView;

    open spec fn view(&self) -> DiErrorView {
        match self {
            DiError::NotFound => DiErrorView::NotFound,
            DiError::NotImplemented => DiErrorView::NotImplemented,
            DiError::Message(text) => DiErrorView::Message(text@),
            DiError::Error => DiErrorView::Error,
            DiError::OutOfBounds => DiErrorView::OutOfBounds,
            DiError::Absent => DiErrorView::Absent,
        }
    }
}

impl Clone for DiError {
    fn clone(&self) -> (r: Self)
        ensures
            r@ == self@,
    {
        match self {
            DiError::NotFound => DiError::NotFound,
            DiError::NotImplemented => DiError::NotImplemented,
            DiError::Message(text) => DiError::Message(text.clone()),
            DiError::Error => DiError::Error,
            DiError::OutOfBounds => DiError::OutOfBounds,
            DiError::Absent => DiError::Absent,
        }
    }
}

/// Instrument identifier.
#[derive(Debug)]
pub enum Token {
    Symbol(String),
    Currency(String),
    Pair((String, String)),
    /// No instrument.
    Empty,
}

impl Default for Token {
    fn default() -> (r: Self)
        ensures
            r@ == TokenView::Empty,
    {
        Token::Empty
    }
}

/// A `Token` with its names as sequences of characters.
pub ghost enum TokenView {
    Symbol(Seq<char>),
    Currency(Seq<char>),
    Pair(Seq<char>, Seq<char>),
    Empty,
}

impl TokenView {
    /// The token's text: symbol and currency side by side.
    pub open spec fn canonical(self) -> Seq<char> {
        match self {
            TokenView::Pair(symbol, currency) => symbol + currency,
            TokenView::Symbol(symbol) => symbol,
            TokenView::Currency(currency) => currency,
            TokenView::Empty => "NONE"@,
        }
    }

    /// The token's text for display: symbol and currency with a stroke
    /// between them.
    pub open spec fn display(self) -> Seq<char> {
        match self {
            TokenView::Pair(symbol, currency) => symbol + "/"@ + currency,
            TokenView::Symbol(symbol) => symbol,
            TokenView::Currency(currency) => currency,
            TokenView::Empty => "NONE"@,
        }
    }

    /// The key under which the token is found: its text in upper case.
    pub open spec fn key(self) -> Seq<char> {
        uppercase(self.canonical())
    }

    /// A pair with symbol and currency exchanged; any other token as it is.
    pub open spec fn reversed(self) -> TokenView {
        match self {
            TokenView::Pair(symbol, currency) => TokenView::Pair(currency, symbol),
            other => other,
        }
    }

    /// The symbol of a pair or of a symbol, and the empty text otherwise.
    pub open spec fn symbol_name(self) -> Seq<char> {
        match self {
            TokenView::Pair(symbol, _) => symbol,
            TokenView::Symbol(symbol) => symbol,
            _ => Seq::empty(),
        }
    }

    /// The currency of a pair or of a currency, and the empty text
    /// otherwise.
    pub open spec fn currency_name(self) -> Seq<char> {
        match self {
            TokenView::Pair(_, currency) => currency,
            TokenView::Currency(currency) => currency,
            _ => Seq::empty(),
        }
    }
}

impl View for Token {
    type V = TokenView;

    open spec fn view(&self) -> TokenView {
        match self {
            Token::Symbol(symbol) => TokenView::Symbol(symbol@),
            Token::Currency(currency) => TokenView::Currency(currency@),
            Token::Pair((symbol, currency)) => TokenView::Pair(symbol@, currency@),
            Token::Empty => TokenView::Empty,
        }
    }
}

impl Clone for Token {
    fn clone(&self) -> (r: Self)
        ensures
            r@ == self@,
    {
        match self {
            Token::Symbol(symbol) => Token::Symbol(symbol.clone()),
            Token::Currency(currency) => Token::Currency(currency.clone()),
            Token::Pair((symbol, currency)) => Token::Pair((symbol.clone(), currency.clone())),
            Token::Empty => Token::Empty,
        }
    }
}

impl PartialEq for Token {
    /// Two tokens are the same exactly if their keys are.
    fn eq(&self, other: &Self) -> (r: bool) {
        let mine: String = self.key();
        let theirs: String = other.key();
        same_text(mine.as_str(), theirs.as_str())
    }
}

impl vstd::std_specs::cmp::PartialEqSpecImpl for Token {
    open spec fn obeys_eq_spec() -> bool {
        true
    }

    open spec fn eq_spec(&self, other: &Self) -> bool {
        self@.key() == other@.key()
    }
}

impl Eq for Token {

}

impl Token {
    /// The pair that a six-letter text names: a symbol of three letters,
    /// then a currency of three.
    pub fn from_string(s: &String) -> (r: Token)
        requires
            s.is_ascii(),
            s@.len() >= 6,
        ensures
            r@ == TokenView::Pair(s@.subrange(0, 3), s@.subrange(3, 6)),
    {
        let text: &str = s.as_str();
        Token::Pair(
            (
                String::from_str(text.substring_ascii(0, 3)),
                String::from_str(text.substring_ascii(3, 6)),
            ),
        )
    }

    /// The pair of a symbol and a currency.
    pub fn pair(symbol: &str, currency: &str) -> (r: Token)
        ensures
            r@ == TokenView::Pair(symbol@, currency@),
    {
        Token::Pair((String::from_str(symbol), String::from_str(currency)))
    }

    /// Whether the token is a pair.
    pub fn is_pair(&self) -> (r: bool)
        ensures
            r == (self@ is Pair),
    {
        match self {
            Token::Pair((_, _)) => true,
            _ => false,
        }
    }

    /// A pair with symbol and currency exchanged; any other token as it is.
    pub fn reverse(&self) -> (r: Token)
        ensures
            r@ == self@.reversed(),
    {
        match self {
            Token::Pair((symbol, currency)) => Token::pair(currency.as_str(), symbol.as_str()),
            _ => self.clone(),
        }
    }

    /// The token's text: symbol and currency side by side.
    pub fn to_string(&self) -> (r: String)
        ensures
            r@ == self@.canonical(),
    {
        match self {
            Token::Pair((symbol, currency)) => {
                let mut text: String = symbol.clone();
                text.append(currency.as_str());
                text
            },
            Token::Symbol(symbol) => symbol.clone(),
            Token::Currency(currency) => currency.clone(),
            Token::Empty => String::from_str("NONE"),
        }
    }

    /// The token's text for display: symbol and currency with a stroke
    /// between them.
    pub fn name(&self) -> (r: String)
        ensures
            r@ == self@.display(),
    {
        match self {
            Token::Pair((symbol, currency)) => {
                let mut text: String = symbol.clone();
                text.append("/");
                text.append(currency.as_str());
                text
            },
            Token::Symbol(symbol) => symbol.clone(),
            Token::Currency(currency) => currency.clone(),
            Token::Empty => String::from_str("NONE"),
        }
    }

    /// The key under which the token is found: its text in upper case.
    pub fn key(&self) -> (r: String)
        ensures
            r@ == self@.key(),
    {
        let text: String = self.to_string();
        to_upper(text.as_str())
    }

    /// The symbol of a pair or of a symbol, and the empty text otherwise.
    pub fn get_symbol(&self) -> (r: String)
        ensures
            r@ == self@.symbol_name(),
    {
        match self {
            Token::Pair((symbol, _)) => symbol.clone(),
            Token::Symbol(symbol) => symbol.clone(),
            _ => String::new(),
        }
    }

    /// The currency of a pair or of a currency, and the empty text
    /// otherwise.
    pub fn get_currency(&self) -> (r: String)
        ensures
            r@ == self@.currency_name(),
    {
        match self {
            Token::Pair((_, currency)) => currency.clone(),
            Token::Currency(currency) => currency.clone(),
            _ => String::new(),
        }
    }

    /// The token of the symbol alone.
    pub fn symbol(&self) -> (r: Token)
        ensures
            r@ == TokenView::Symbol(self@.symbol_name()),
    {
        match self {
            Token::Pair((s, _)) => Token::Symbol(s.clone()),
            Token::Symbol(s) => Token::Symbol(s.clone()),
            _ => Token::Symbol(String::new()),
        }
    }
}

/// The kind of an order.
#[derive(Debug, Default, Clone, Copy, PartialEq, Eq, Structural)]
pub enum OrderType {
    #[default]
    Market,
    Limit,
    StopMarket,
    StopLimit,
}

impl OrderType {
    /// The kind that a text names; `Market` where it names none.
    pub open spec fn named(name: Seq<char>) -> OrderType {
        if name == "Market"@ {
            OrderType::Market
        } else if name == "Limit"@ {
            OrderType::Limit
        } else if name == "StopMarket"@ {
            OrderType::StopMarket
        } else if name == "StopLimit"@ {
            OrderType::StopLimit
        } else {
            OrderType::Market
        }
    }

    /// The kind that a text names; `Market` where it names none.
    pub fn from_string(name: &String) -> (r: OrderType)
        ensures
            r == Self::named(name@),
    {
        let text: &str = name.as_str();
        if same_text(text, "Market") {
            OrderType::Market
        } else if same_text(text, "Limit") {
            OrderType::Limit
        } else if same_text(text, "StopMarket") {
            OrderType::StopMarket
        } else if same_text(text, "StopLimit") {
            OrderType::StopLimit
        } else {
            OrderType::Market
        }
    }
}

/// The side of an order.
#[derive(Debug, Clone, Copy, PartialEq, Eq, Structural)]
pub enum Side {
    Buy,
    Sell,
}

impl Side {
    /// `Buy` for the text `Buy`, `Sell` for every other.
    pub open spec fn named(name: Seq<char>) -> Side {
        if name == "Buy"@ {
            Side::Buy
        } else {
            Side::Sell
        }
    }

    /// `Buy` for the text `Buy`, `Sell` for every other.
    pub fn from_string(name: &String) -> (r: Side)
        ensures
            r == Self::named(name@),
    {
        if same_text(name.as_str(), "Buy") {
            Side::Buy
        } else {
            Side::Sell
        }
    }
}

/// How long an order stays in force.
#[derive(Debug, Default, Clone, Copy, PartialEq, Eq, Structural)]
pub enum TimeInForce {
    /// Good till cancel.
    #[default]
    GTC,
    /// Immediate or cancel.
    IOC,
    /// Fill or kill.
    FOK,
}

impl TimeInForce {
    /// The rule that a text names; `GTC` where it names none.
    pub open spec fn named(name: Seq<char>) -> TimeInForce {
        if name == "GTC"@ {
            TimeInForce::GTC
        } else if name == "IOC"@ {
            TimeInForce::IOC
        } else if name == "FOK"@ {
            TimeInForce::FOK
        } else {
            TimeInForce::GTC
        }
    }

    /// The rule that a text names; `GTC` where it names none.
    pub fn from_string(name: &String) -> (r: TimeInForce)
        ensures
            r == Self::named(name@),
    {
        let text: &str = name.as_str();
        if same_text(text, "GTC") {
            TimeInForce::GTC
        } else if same_text(text, "IOC") {
            TimeInForce::IOC
        } else if same_text(text, "FOK") {
            TimeInForce::FOK
        } else {
            TimeInForce::GTC
        }
    }
}

/// An open holding.
#[derive(Debug, PartialEq, Eq)]
pub struct Position {
    pub token: Token,
    pub quantity: i64,
    pub price: i64,
    pub date: Date,
    /// The order that is trying to close the position, if there is one.
    pub attached_order: Option<usize>,
}

/// A `Position` with its token as a `TokenView`.
pub ghost struct PositionView {
    pub token: TokenView,
    pub quantity: int,
    pub price: int,
    pub date: Date,
    pub attached_order: Option<nat>,
}

/// An index that may be missing, as a natural number.
pub open spec fn index_view(i: Option<usize>) -> Option<nat> {
    match i {
        Some(i) => Some(i as nat),
        None => None,
    }
}

/// An amount that may be missing, as an integer.
pub open spec fn amount_view(a: Option<i64>) -> Option<int> {
    match a {
        Some(a) => Some(a as int),
        None => None,
    }
}

impl View for Position {
    type V = PositionView;

    open spec fn view(&self) -> PositionView {
        PositionView {
            token: self.token@,
            quantity: self.quantity as int,
            price: self.price as int,
            date: self.date,
            attached_order: index_view(self.attached_order),
        }
    }
}

impl DeepView for Position {
    type V = PositionView;

    open spec fn deep_view(&self) -> PositionView {
        self@
    }
}

impl Clone for Position {
    fn clone(&self) -> (r: Self)
        ensures
            r@ == self@,
    {
        Position {
            token: self.token.clone(),
            quantity: self.quantity,
            price: self.price,
            date: self.date,
            attached_order: self.attached_order,
        }
    }
}

/// An intent to trade. Amounts and prices are fixed-point numbers.
#[derive(Debug, PartialEq, Eq)]
pub struct Order {
    pub index: usize,
    /// The position that the order closes, if it closes one.
    pub position_index: Option<usize>,
    pub id: Option<i64>,
    pub token: Token,
    pub date: Date,
    pub side: Side,
    pub quantity: i64,
    pub price: i64,
    pub stop_price: Option<i64>,
    pub order_type: OrderType,
    pub tif: TimeInForce,
}

/// An `Order` with its token as a `TokenView`.
pub ghost struct OrderView {
    pub index: nat,
    pub position_index: Option<nat>,
    pub id: Option<i64>,
    pub token: TokenView,
    pub date: Date,
    pub side: Side,
    pub quantity: int,
    pub price: int,
    pub stop_price: Option<int>,
    pub order_type: OrderType,
    pub tif: TimeInForce,
}

impl View for Order {
    type V = OrderView;

    open spec fn view(&self) -> OrderView {
        OrderView {
            index: self.index as nat,
            position_index: index_view(self.position_index),
            id: self.id,
            token: self.token@,
            date: self.date,
            side: self.side,
            quantity: self.quantity as int,
            price: self.price as int,
            stop_price: amount_view(self.stop_price),
            order_type: self.order_type,
            tif: self.tif,
        }
    }
}

impl DeepView for Order {
    type V = OrderView;

    open spec fn deep_view(&self) -> OrderView {
        self@
    }
}

impl Clone for Order {
    fn clone(&self) -> (r: Self)
        ensures
            r@ == self@,
    {
        Order {
            index: self.index,
            position_index: self.position_index,
            id: self.id,
            token: self.token.clone(),
            date: self.date,
            side: self.side,
            quantity: self.quantity,
            price: self.price,
            stop_price: self.stop_price,
            order_type: self.order_type,
            tif: self.tif,
        }
    }
}

/// What an exchange reports of an order.
#[derive(Debug)]
pub struct OrderStatus {
    pub order: Order,
    pub executed_qty: i64,
    pub status: String,
    pub update_time: Date,
    pub is_working: bool,
}

impl Clone for OrderStatus {
    fn clone(&self) -> (r: Self)
        ensures
            r.order@ == self.order@,
            r.executed_qty == self.executed_qty,
            r.status@ == self.status@,
            r.update_time == self.update_time,
            r.is_working == self.is_working,
    {
        OrderStatus {
            order: self.order.clone(),
            executed_qty: self.executed_qty,
            status: self.status.clone(),
            update_time: self.update_time,
            is_working: self.is_working,
        }
    }
}

/// The price at which an asset can be bought or sold.
#[derive(Debug)]
pub struct Quote {
    pub token: Token,
    /// The highest price a buyer is willing to pay.
    pub bid: Option<i64>,
    /// The lowest price a seller is willing to accept.
    pub ask: Option<i64>,
    pub biddate: Date,
    pub askdate: Date,
}

/// A `Quote` with its token as a `TokenView`.
pub ghost struct QuoteView {
    pub token: TokenView,
    pub bid: Option<i64>,
    pub ask: Option<i64>,
    pub biddate: Date,
    pub askdate: Date,
}

impl View for Quote {
    type V = QuoteView;

    open spec fn view(&self) -> QuoteView {
        QuoteView {
            token: self.token@,
            bid: self.bid,
            ask: self.ask,
            biddate: self.biddate,
            askdate: self.askdate,
        }
    }
}

impl Clone for Quote {
    fn clone(&self) -> (r: Self)
        ensures
            r@ == self@,
    {
        Quote {
            token: self.token.clone(),
            bid: self.bid,
            ask: self.ask,
            biddate: self.biddate,
            askdate: self.askdate,
        }
    }
}

/// Summary of the price movements of an asset over one step of time.
#[derive(Debug, Clone, Copy, PartialEq, Eq, Structural)]
pub struct Sample {
    pub resolution: TimeUnit,
    pub timestamp: u64,
    pub open: i64,
    pub high: i64,
    pub low: i64,
    pub close: i64,
    pub volume: u64,
}

impl Default for Sample {
    fn default() -> (r: Self)
        ensures
            r == (Sample {
                resolution: TimeUnit::Hour(1),
                timestamp: 0,
                open: 0,
                high: 0,
                low: 0,
                close: 0,
                volume: 0,
            }),
    {
        Sample {
            resolution: TimeUnit::Hour(1),
            timestamp: 0,
            open: 0,
            high: 0,
            low: 0,
            close: 0,
            volume: 0,
        }
    }
}

impl Sample {
    /// The time of the sample as a date.
    pub fn date(&self) -> (r: Date)
        requires
            self.timestamp <= i64::MAX,
        ensures
            r.secs() == self.timestamp,
    {
        Date::from_timestamp(self.timestamp)
    }
}

/// One level of an order book.
#[derive(Debug, Clone, Copy, PartialEq, Eq, Structural)]
pub struct BookLine {
    pub price: i64,
    pub quantity: i64,
}

/// The open offers to buy and to sell one instrument.
#[derive(Debug)]
pub struct Book {
    pub token: Token,
    pub bids: Vec<BookLine>,
    pub asks: Vec<BookLine>,
}

impl Default for Book {
    fn default() -> (r: Self)
        ensures
            r@ == BookView::empty(),
    {
        Book { token: Token::Empty, bids: Vec::new(), asks: Vec::new() }
    }
}

/// A `Book` with its token as a `TokenView` and its levels as sequences.
pub ghost struct BookView {
    pub token: TokenView,
    pub bids: Seq<BookLine>,
    pub asks: Seq<BookLine>,
}

impl View for Book {
    type V = BookView;

    open spec fn view(&self) -> BookView {
        BookView { token: self.token@, bids: self.bids@, asks: self.asks@ }
    }
}

impl Clone for Book {
    fn clone(&self) -> (r: Self)
        ensures
            r@ == self@,
    {
        Book { token: self.token.clone(), bids: self.bids.clone(), asks: self.asks.clone() }
    }
}

/// The highest price among the levels.
pub open spec fn highest(lines: Seq<BookLine>) -> i64
    recommends
        lines.len() > 0,
    decreases lines.len(),
{
    if lines.len() <= 1 {
        lines[0].price
    } else if highest(lines.drop_last()) >= lines.last().price {
        highest(lines.drop_last())
    } else {
        lines.last().price
    }
}

/// The lowest price among the levels.
pub open spec fn lowest(lines: Seq<BookLine>) -> i64
    recommends
        lines.len() > 0,
    decreases lines.len(),
{
    if lines.len() <= 1 {
        lines[0].price
    } else if lowest(lines.drop_last()) <= lines.last().price {
        lowest(lines.drop_last())
    } else {
        lines.last().price
    }
}

impl BookView {
    /// The book of no instrument, with no offers.
    pub open spec fn empty() -> BookView {
        BookView { token: TokenView::Empty, bids: Seq::empty(), asks: Seq::empty() }
    }

    /// The quote that the book gives at `now`: the highest bid and the
    /// lowest ask, and none where a side of the book is empty.
    pub open spec fn quote(self, now: Date) -> Option<QuoteView> {
        if self.bids.len() == 0 || self.asks.len() == 0 {
            None
        } else {
            Some(
                QuoteView {
                    token: self.token,
                    bid: Some(highest(self.bids)),
                    ask: Some(lowest(self.asks)),
                    biddate: now,
                    askdate: now,
                },
            )
        }
    }
}

/// No level is priced above `highest`, and one is priced at it.
pub proof fn lemma_highest_is_max(lines: Seq<BookLine>)
    requires
        lines.len() > 0,
    ensures
        forall|i: int| 0 <= i < lines.len() ==> (#[trigger] lines[i]).price <= highest(lines),
        exists|i: int| 0 <= i < lines.len() && (#[trigger] lines[i]).price == highest(lines),
    decreases lines.len(),
{
    if lines.len() > 1 {
        let head = lines.drop_last();
        lemma_highest_is_max(head);
        assert forall|i: int| 0 <= i < lines.len() implies (#[trigger] lines[i]).price <= highest(
            lines,
        ) by {
            if i < head.len() {
                assert(lines[i] == head[i]);
            }
        }
    } else {
        assert(lines[0].price == highest(lines));
    }
}

/// No level is priced below `lowest`, and one is priced at it.
pub proof fn lemma_lowest_is_min(lines: Seq<BookLine>)
    requires
        lines.len() > 0,
    ensures
        forall|i: int| 0 <= i < lines.len() ==> (#[trigger] lines[i]).price >= lowest(lines),
        exists|i: int| 0 <= i < lines.len() && (#[trigger] lines[i]).price == lowest(lines),
    decreases lines.len(),
{
    if lines.len() > 1 {
        let head = lines.drop_last();
        lemma_lowest_is_min(head);
        assert forall|i: int| 0 <= i < lines.len() implies (#[trigger] lines[i]).price >= lowest(
            lines,
        ) by {
            if i < head.len() {
                assert(lines[i] == head[i]);
            }
        }
    } else {
        assert(lines[0].price == lowest(lines));
    }
}

fn highest_price(lines: &Vec<BookLine>) -> (r: i64)
    requires
        lines@.len() > 0,
    ensures
        r == highest(lines@),
{
    let mut best: i64 = lines[0].price;
    let mut i: usize = 1;
    while i < lines.len()
        invariant
            1 <= i <= lines@.len(),
            best == highest(lines@.take(i as int)),
        decreases lines@.len() - i,
    {
        assert(lines@.take(i + 1).drop_last() =~= lines@.take(i as int));
        if lines[i].price > best {
            best = lines[i].price;
        }
        i += 1;
    }
    assert(lines@.take(i as int) =~= lines@);
    best
}

fn lowest_price(lines: &Vec<BookLine>) -> (r: i64)
    requires
        lines@.len() > 0,
    ensures
        r == lowest(lines@),
{
    let mut best: i64 = lines[0].price;
    let mut i: usize = 1;
    while i < lines.len()
        invariant
            1 <= i <= lines@.len(),
            best == lowest(lines@.take(i as int)),
        decreases lines@.len() - i,
    {
        assert(lines@.take(i + 1).drop_last() =~= lines@.take(i as int));
        if lines[i].price < best {
            best = lines[i].price;
        }
        i += 1;
    }
    assert(lines@.take(i as int) =~= lines@);
    best
}

impl Book {
    /// The current quote of the book, dated `now`.
    pub fn quote(&self, now: Date) -> (r: Option<Quote>)
        ensures
            match self@.quote(now) {
                Some(q) => r.is_some() && r.unwrap()@ == q,
                None => r.is_none(),
            },
            r.is_some() ==> {
                &&& r.unwrap().bid.is_some() && r.unwrap().ask.is_some()
                &&& forall|i: int|
                    0 <= i < self.bids@.len() ==> (#[trigger] self.bids@[i]).price
                        <= r.unwrap().bid.unwrap()
                &&& exists|i: int|
                    0 <= i < self.bids@.len() && (#[trigger] self.bids@[i]).price
                        == r.unwrap().bid.unwrap()
                &&& forall|i: int|
                    0 <= i < self.asks@.len() ==> (#[trigger] self.asks@[i]).price
                        >= r.unwrap().ask.unwrap()
                &&& exists|i: int|
                    0 <= i < self.asks@.len() && (#[trigger] self.asks@[i]).price
                        == r.unwrap().ask.unwrap()
            },
    {
        if self.bids.len() == 0 || self.asks.len() == 0 {
            None
        } else {
            proof {
                lemma_highest_is_max(self.bids@);
                lemma_lowest_is_min(self.asks@);
            }
            Some(
                Quote {
                    bid: Some(highest_price(&self.bids)),
                    ask: Some(lowest_price(&self.asks)),
                    token: self.token.clone(),
                    biddate: now,
                    askdate: now,
                },
            )
        }
    }
}

/// The last price of an instrument and its change over a day.
#[derive(Debug)]
pub struct MarketTick {
    pub token: Token,
    pub price: i64,
    pub change_pct: i64,
}

impl Default for MarketTick {
    fn default() -> (r: Self)
        ensures
            r.token@ == TokenView::Empty,
            r.price == 0,
            r.change_pct == 0,
    {
        MarketTick { token: Token::Empty, price: 0, change_pct: 0 }
    }
}

impl Clone for MarketTick {
    fn clone(&self) -> (r: Self)
        ensures
            r.token@ == self.token@,
            r.price == self.price,
            r.change_pct == self.change_pct,
    {
        MarketTick { token: self.token.clone(), price: self.price, change_pct: self.change_pct }
    }
}

/// What a market feed reports.
pub enum MarketEvent {
    KLine((Token, Sample)),
    Ticks(Vec<MarketTick>),
    OrderBook(Book),
}

} // verus!
