//! The classifier: from one record of the log to the trade it reports, or to
//! the reason why it reports none.

use crate::catalog::{first_match, is_first_match, Catalog, Item};
use crate::pattern::{
    compile, find, is_match, lowercase, lowercase_of, pattern_compiles, pattern_first_match,
    pattern_matches, Pattern,
};
use crate::price::{
    price_of_amount, price_of_amount_is_inverse, price_of_token, token_amount, Price, MAX_MICROS,
};
use crate::timestamp::{instant_of, timestamp_at, timestamp_at_is_inverse, Timestamp};
use vstd::prelude::*;

verus! {

/// The pattern of a price token: an optional `$`, a digit, then digits,
/// thousands separators and points, then an optional `k`.
pub const PRICE_PATTERN: &'static str = r"\$?\d[\d,\.]*[kK]?";

/// The pattern of an offer: one of the words `sell`, `selling`, `wts`, in
/// either case.
pub const SELL_PATTERN: &'static str = r"(?i)\b(sell|selling|wts)\b";

/// The pattern of a request: one of the words `buy`, `buying`, `wtb`, in
/// either case.
pub const BUY_PATTERN: &'static str = r"(?i)\b(buy|buying|wtb)\b";

/// One row of the log.
#[derive(Debug)]
pub struct TradeRecord {
    pub author_id: u64,
    pub author: String,
    /// The time of the message, expected as an RFC 3339 date and time.
    pub date: String,
    pub content: Option<String>,
    pub attachments: Option<String>,
    pub reactions: Option<String>,
}

/// What a message means to do with the item it names.
#[derive(Clone, Copy, Debug, PartialEq, Eq, Structural)]
pub enum Intent {
    /// The item is offered.
    Supply,
    /// The item is asked for.
    Demand,
    /// Neither was said.
    Unknown,
}

/// Why a row adds no trade to the statistics.
#[derive(Clone, Copy, Debug, PartialEq, Eq, Structural)]
pub enum SkipReason {
    /// The row could not be read as a record.
    MalformedRow,
    /// The record has no message text.
    MissingContent,
    /// The date of the record is no RFC 3339 date and time.
    UnparseableDate,
    /// No pattern of the catalog matches the text.
    NoItemMatch,
    /// The text holds no price token, or the token stands for no price.
    NoValidPrice,
}

/// A trade as a message reports it.
#[derive(Debug)]
pub struct ClassifiedTrade {
    /// The display name of the item, from the catalog.
    pub item: String,
    pub price: Price,
    pub intent: Intent,
    pub timestamp: Timestamp,
}

/// A classified trade, with the name of its item as a sequence of
/// characters.
pub struct Observation {
    pub item: Seq<char>,
    pub price: Price,
    pub intent: Intent,
    pub timestamp: Timestamp,
}

impl View for ClassifiedTrade {
    type V = Observation;

    open spec fn view(&self) -> Observation {
        Observation {
            item: self.item@,
            price: self.price,
            intent: self.intent,
            timestamp: self.timestamp,
        }
    }
}

/// What the classifier makes of one row.
#[derive(Debug)]
pub struct Classification {
    /// The time of the record, where the record has a text and a date that
    /// can be read: it counts for the span of the data whatever becomes of
    /// the rest.
    pub timestamp: Option<Timestamp>,
    pub outcome: Result<ClassifiedTrade, SkipReason>,
}

/// A classification, with the trade as an observation.
pub struct Event {
    pub timestamp: Option<Timestamp>,
    pub outcome: Result<Observation, SkipReason>,
}

impl View for Classification {
    type V = Event;

    open spec fn view(&self) -> Event {
        Event {
            timestamp: self.timestamp,
            outcome: match self.outcome {
                Ok(trade) => Ok(trade@),
                Err(reason) => Err(reason),
            },
        }
    }
}

/// A row of the log as the loader hands it on.
#[derive(Debug)]
pub enum Row {
    /// A row that could not be read as a record.
    Malformed,
    Record(TradeRecord),
}

/// The catalog, and the three patterns of the classifier's own compiled:
/// `PRICE_PATTERN`, `SELL_PATTERN` and `BUY_PATTERN`. Its view is the
/// catalog as mathematical values.
#[derive(Debug)]
pub struct Classifier {
    catalog: Catalog,
    price: Pattern,
    sell: Pattern,
    buy: Pattern,
}

impl View for Classifier {
    type V = Seq<Item>;

    closed spec fn view(&self) -> Seq<Item> {
        self.catalog@
    }
}

/// One of the classifier's own patterns was refused by the compiler of
/// regular expressions.
#[derive(Debug)]
pub struct SetupError {
    /// The text of the pattern.
    pub pattern: &'static str,
    pub cause: regex::Error,
}

/// The price that the first price token of `text` stands for, in
/// millionths.
pub open spec fn price_in(text: Seq<char>) -> Option<nat> {
    match pattern_first_match(PRICE_PATTERN@, text) {
        Some(token) => token_amount(token),
        None => None,
    }
}

/// The intent of a text in which a word of selling and a word of buying
/// were or were not found: selling decides before buying.
pub open spec fn intent_from(sells: bool, buys: bool) -> Intent {
    if sells {
        Intent::Supply
    } else if buys {
        Intent::Demand
    } else {
        Intent::Unknown
    }
}

/// The intent of `text`: an offer where the sell pattern matches, else a
/// request where the buy pattern matches.
pub open spec fn intent_of(text: Seq<char>) -> Intent {
    intent_from(pattern_matches(SELL_PATTERN@, text), pattern_matches(BUY_PATTERN@, text))
}

/// The name of the first item of the catalog that the text of `record`
/// mentions, where it has a text and mentions one.
pub open spec fn item_in(catalog: Seq<Item>, record: TradeRecord) -> Option<Seq<char>> {
    match record.content {
        None => None,
        Some(content) => match first_match(catalog, lowercase_of(content@)) {
            Some(i) => Some(catalog[i].name),
            None => None,
        },
    }
}

/// The time of `record`, where it has a text and its date can be read.
pub open spec fn time_of(record: TradeRecord) -> Option<Timestamp> {
    match (record.content, instant_of(record.date@)) {
        (Some(_), Some((secs, nanos))) => Some(timestamp_at(secs, nanos)),
        _ => None,
    }
}

/// The trade that `record` reports, or the first reason, in the order of the
/// steps, why it reports none.
pub open spec fn observe(catalog: Seq<Item>, record: TradeRecord) -> Result<
    Observation,
    SkipReason,
> {
    match record.content {
        None => Err(SkipReason::MissingContent),
        Some(content) => {
            let text = lowercase_of(content@);
            match time_of(record) {
                None => Err(SkipReason::UnparseableDate),
                Some(timestamp) => match first_match(catalog, text) {
                    None => Err(SkipReason::NoItemMatch),
                    Some(i) => match price_in(text) {
                        None => Err(SkipReason::NoValidPrice),
                        Some(amount) => Ok(
                            Observation {
                                item: catalog[i].name,
                                price: price_of_amount(amount),
                                intent: intent_of(text),
                                timestamp,
                            },
                        ),
                    },
                },
            }
        },
    }
}

/// A trade is of the first item of the catalog that its text mentions, at
/// the time of its record, and at the price, within range, of the first
/// price token of its text.
pub proof fn trades_are_well_formed(catalog: Seq<Item>, record: TradeRecord)
    ensures
        observe(catalog, record) matches Ok(trade) ==> {
            let text = lowercase_of(record.content->0@);
            &&& record.content is Some
            &&& time_of(record) == Some(trade.timestamp)
            &&& first_match(catalog, text) matches Some(i) && is_first_match(catalog, text, i)
                && trade.item == catalog[i].name
            &&& price_in(text) == Some(trade.price.amount())
            &&& trade.price.amount() <= MAX_MICROS
            &&& trade.intent == intent_of(text)
        },
{
    if let Ok(trade) = observe(catalog, record) {
        let text = lowercase_of(record.content->0@);
        price_of_amount_is_inverse(trade.price, price_in(text)->0);
    }
}

/// What the classifier makes of `row`.
pub open spec fn event_of(catalog: Seq<Item>, row: Row) -> Event {
    match row {
        Row::Malformed => Event { timestamp: None, outcome: Err(SkipReason::MalformedRow) },
        Row::Record(record) => Event {
            timestamp: time_of(record),
            outcome: observe(catalog, record),
        },
    }
}

impl Intent {
    /// The intent of a text in which a word of selling and a word of buying
    /// were or were not found.
    pub fn decide(sells: bool, buys: bool) -> (intent: Intent)
        ensures
            intent == intent_from(sells, buys),
    {
        if sells {
            Intent::Supply
        } else if buys {
            Intent::Demand
        } else {
            Intent::Unknown
        }
    }
}

impl Classifier {
    #[verifier::type_invariant]
    spec fn has_own_patterns(self) -> bool {
        &&& self.price@ == PRICE_PATTERN@
        &&& self.sell@ == SELL_PATTERN@
        &&& self.buy@ == BUY_PATTERN@
    }

    /// The classifier over `catalog`. It fails only where the compiler of
    /// regular expressions refuses one of the classifier's own patterns.
    pub fn new(catalog: Catalog) -> (r: Result<Classifier, SetupError>)
        ensures
            r is Ok <==> pattern_compiles(PRICE_PATTERN@) && pattern_compiles(SELL_PATTERN@)
                && pattern_compiles(BUY_PATTERN@),
            r matches Ok(c) ==> c@ == catalog@,
            r matches Err(e) ==> !pattern_compiles(e.pattern@),
    {
        let price = match compile(PRICE_PATTERN) {
            Ok(pattern) => pattern,
            Err(cause) => {
                return Err(SetupError { pattern: PRICE_PATTERN, cause });
            },
        };
        let sell = match compile(SELL_PATTERN) {
            Ok(pattern) => pattern,
            Err(cause) => {
                return Err(SetupError { pattern: SELL_PATTERN, cause });
            },
        };
        let buy = match compile(BUY_PATTERN) {
            Ok(pattern) => pattern,
            Err(cause) => {
                return Err(SetupError { pattern: BUY_PATTERN, cause });
            },
        };
        Ok(Classifier { catalog, price, sell, buy })
    }

    /// The catalog.
    pub fn catalog(&self) -> (catalog: &Catalog)
        ensures
            catalog@ == self@,
    {
        &self.catalog
    }

    /// The price that the first price token of `text` stands for.
    pub fn extract_price(&self, text: &str) -> (price: Option<Price>)
        ensures
            price is Some <==> price_in(text@) is Some,
            price matches Some(p) ==> price_in(text@) == Some(p.amount()),
    {
        proof {
            use_type_invariant(self);
        }
        match find(&self.price, text) {
            Some(token) => price_of_token(token.as_str()),
            None => None,
        }
    }

    /// The intent of `text`. The buy pattern is tried only where the sell
    /// pattern does not match.
    pub fn classify_intent(&self, text: &str) -> (intent: Intent)
        ensures
            intent == intent_of(text@),
    {
        proof {
            use_type_invariant(self);
        }
        let sells = is_match(&self.sell, text);
        let buys = !sells && is_match(&self.buy, text);
        Intent::decide(sells, buys)
    }

    /// The name of the first item of the catalog that the text of `record`
    /// mentions, whatever else the record holds.
    pub fn mentioned_item(&self, record: &TradeRecord) -> (name: Option<String>)
        ensures
            match name {
                Some(name) => item_in(self@, *record) == Some(name@),
                None => item_in(self@, *record) is None,
            },
    {
        match &record.content {
            None => None,
            Some(content) => {
                let lower = lowercase(content.as_str());
                match self.catalog.find_item(lower.as_str()) {
                    Some(i) => Some(self.catalog.entry(i).name().clone()),
                    None => None,
                }
            },
        }
    }

    /// Classifies one record. The steps, each of which may end it: the text
    /// must be there; the date must be readable; the lowercased text must
    /// match an item of the catalog; it must hold a price.
    pub fn classify(&self, record: &TradeRecord) -> (c: Classification)
        ensures
            c@ == (Event { timestamp: time_of(*record), outcome: observe(self@, *record) }),
    {
        let content = match &record.content {
            Some(content) => content,
            None => {
                return Classification {
                    timestamp: None,
                    outcome: Err(SkipReason::MissingContent),
                };
            },
        };
        let lower = lowercase(content.as_str());
        let text = lower.as_str();
        let timestamp = match Timestamp::parse(record.date.as_str()) {
            Some(timestamp) => timestamp,
            None => {
                return Classification {
                    timestamp: None,
                    outcome: Err(SkipReason::UnparseableDate),
                };
            },
        };
        proof {
            timestamp_at_is_inverse(timestamp, 0, 0);
        }
        let i = match self.catalog.find_item(text) {
            Some(i) => i,
            None => {
                return Classification {
                    timestamp: Some(timestamp),
                    outcome: Err(SkipReason::NoItemMatch),
                };
            },
        };
        let price = match self.extract_price(text) {
            Some(price) => price,
            None => {
                return Classification {
                    timestamp: Some(timestamp),
                    outcome: Err(SkipReason::NoValidPrice),
                };
            },
        };
        proof {
            price_of_amount_is_inverse(price, 0);
        }
        let intent = self.classify_intent(text);
        let item = self.catalog.entry(i).name().clone();
        Classification {
            timestamp: Some(timestamp),
            outcome: Ok(ClassifiedTrade { item, price, intent, timestamp }),
        }
    }

    /// Classifies one row of the log.
    pub fn classify_row(&self, row: &Row) -> (c: Classification)
        ensures
            c@ == event_of(self@, *row),
    {
        match row {
            Row::Malformed => Classification {
                timestamp: None,
                outcome: Err(SkipReason::MalformedRow),
            },
            Row::Record(record) => self.classify(record),
        }
    }
}

} // verus!
