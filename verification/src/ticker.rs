//! The ticker: a price, the time it was quoted at, and the eight digits that
//! show it. Its state changes only in `update`, one message at a time.

use crate::digit::{Digit, DigitView, Msg as DigitMsg, UNSET};
use crate::feed::RequestData;
use crate::price::{digit_at, format_price, price_digits, text_digits, DISPLAY_DIGITS};
use vstd::prelude::*;
use vstd::string::*;
use vstd::utf8::*;

verus! {

/// Where the feed is fetched from.
pub const API_URL: &'static str = "https://api.coindesk.com/v1/bpi/currentprice.json";

/// The time between two fetches, in milliseconds.
pub const INTERVAL_MS: i32 = 60000;

/// The sign shown before the digits.
pub const CURRENCY_SYMBOL: char = '$';

/// The price held before the first quote arrives.
pub const INITIAL_PRICE: u32 = 100000;

/// A response of the feed with its rate as a whole number: the rate without
/// its separators, read as a decimal fraction and rounded to the nearest
/// integer. The host does that reading; the ticker keeps whole numbers only.
#[derive(Debug)]
pub struct Quote {
    pub data: RequestData,
    pub rounded: u32,
}

/// What can happen to a ticker.
#[derive(Debug)]
pub enum Msg {
    /// A fetch came back: with a quote, or with the reason why the response
    /// was of no use.
    ReceivedData(Result<Quote, String>),
    /// A fetch did not come back at all.
    RequestError(String),
    /// One of the digits reported something.
    DigitMsg(DigitMsg),
    /// The interval timer fired.
    IntervalExpired,
}

/// What the host is asked to do after a message.
#[derive(Debug, Clone, Copy, PartialEq, Eq, Structural)]
pub enum Cmd {
    /// Nothing.
    Nothing,
    /// Fetch `API_URL` and hand the outcome back as `ReceivedData` or
    /// `RequestError`.
    Fetch,
    /// Start a timer that hands back `IntervalExpired` every `INTERVAL_MS`.
    Interval,
}

/// What a ticker holds, as plain values.
pub ghost struct TickerState {
    pub price: u32,
    pub date_time: Seq<char>,
    pub digits: Seq<i32>,
}

/// The ticker itself. It always has eight digits.
pub struct Ticker {
    price: u32,
    date_time: String,
    digits: Vec<Digit>,
}

/// What to draw for a ticker: the time on a line of its own, then the
/// currency symbol and the digit strips in a row.
#[derive(Debug)]
pub struct TickerView {
    pub date_time: String,
    pub symbol: char,
    pub digits: Vec<DigitView>,
}

/// The state after `msg`. Only a quote changes anything: it sets the price,
/// the time as the feed wrote it, and the digits of the formatted price.
pub open spec fn next_state(before: TickerState, msg: Msg) -> TickerState {
    match msg {
        Msg::ReceivedData(Ok(quote)) => TickerState {
            price: quote.rounded,
            date_time: quote.data.time.updated@,
            digits: price_digits(quote.rounded),
        },
        _ => before,
    }
}

/// What the host is asked to do after `msg`: to fetch when the timer fired,
/// else nothing.
pub open spec fn next_cmd(msg: Msg) -> Cmd {
    match msg {
        Msg::IntervalExpired => Cmd::Fetch,
        _ => Cmd::Nothing,
    }
}

/// Whether `msg` carries a quote.
pub open spec fn carries_quote(msg: Msg) -> bool {
    msg matches Msg::ReceivedData(Ok(_))
}

impl Ticker {
    #[verifier::type_invariant]
    spec fn has_all_digits(&self) -> bool {
        self.digits@.len() == DISPLAY_DIGITS
    }

    /// What the ticker holds.
    pub closed spec fn state(&self) -> TickerState {
        TickerState {
            price: self.price,
            date_time: self.date_time@,
            digits: Seq::new(self.digits@.len(), |i: int| self.digits@[i].value()),
        }
    }

    /// A ticker that has seen no quote yet: a made-up price and date, and
    /// every digit on its placeholder.
    pub fn create() -> (ticker: Self)
        ensures
            ticker.state() == (TickerState {
                price: INITIAL_PRICE,
                date_time: "June 5rd, 2077"@,
                digits: Seq::new(DISPLAY_DIGITS as nat, |i: int| UNSET),
            }),
    {
        let mut digits: Vec<Digit> = Vec::new();
        let mut i: usize = 0;
        while i < DISPLAY_DIGITS
            invariant
                i <= DISPLAY_DIGITS,
                digits@.len() == i,
                forall|k: int| 0 <= k < i ==> (#[trigger] digits@[k]).value() == UNSET,
            decreases DISPLAY_DIGITS - i,
        {
            digits.push(Digit::create());
            i = i + 1;
        }
        let ticker = Self { price: INITIAL_PRICE, date_time: String::from_str("June 5rd, 2077"), digits };
        assert(ticker.state().digits =~= Seq::new(DISPLAY_DIGITS as nat, |i: int| UNSET));
        ticker
    }

    /// The request for one fetch of the feed.
    pub fn fetch_data() -> (cmd: Cmd)
        ensures
            cmd == Cmd::Fetch,
    {
        Cmd::Fetch
    }

    /// The request for the timer that fires once a minute.
    pub fn minute_interval() -> (cmd: Cmd)
        ensures
            cmd == Cmd::Interval,
    {
        Cmd::Interval
    }

    /// Reads the digit at byte `position` of `price`. Where no numeral stands
    /// there, or `position` is past the end, the digit is 0.
    pub fn price_str_extract_digit(price: &str, position: usize) -> (digit: u32)
        ensures
            digit == digit_at(price.spec_bytes(), position as int),
            digit <= 9,
            position >= price.spec_bytes().len() ==> digit == 0,
            is_ascii_chars(price@) && position >= price@.len() ==> digit == 0,
            is_ascii_chars(price@) && position < price@.len() && '0' <= price@[position as int]
                <= '9' ==> digit == price@[position as int] as u32 - '0' as u32,
    {
        proof {
            if is_ascii_chars(price@) {
                is_ascii_chars_encode_utf8(price@);
            }
        }
        let bytes = price.as_bytes();
        if position < bytes.len() {
            let b = bytes[position];
            if 0x30 <= b && b <= 0x39 {
                (b - 0x30) as u32
            } else {
                0
            }
        } else {
            0
        }
    }

    /// Sets each digit to what is read at its position of `price`.
    fn set_price_digits(&mut self, price: &str)
        ensures
            final(self).state().price == old(self).state().price,
            final(self).state().date_time == old(self).state().date_time,
            final(self).state().digits == text_digits(price.spec_bytes()),
    {
        proof {
            use_type_invariant(&*self);
        }
        let mut digit_pos: usize = 0;
        while digit_pos < DISPLAY_DIGITS
            invariant
                digit_pos <= DISPLAY_DIGITS,
                self.digits@.len() == DISPLAY_DIGITS,
                self.price == old(self).price,
                self.date_time == old(self).date_time,
                forall|k: int|
                    0 <= k < digit_pos ==> (#[trigger] self.digits@[k]).value() == digit_at(
                        price.spec_bytes(),
                        k,
                    ) as i32,
            decreases DISPLAY_DIGITS - digit_pos,
        {
            let digit_num = Ticker::price_str_extract_digit(price, digit_pos);
            self.digits[digit_pos].update(DigitMsg::SelectDigit(digit_num as i32));
            digit_pos = digit_pos + 1;
        }
        assert(self.state().digits =~= text_digits(price.spec_bytes()));
    }

    /// What the host is asked to do at the start: one fetch, and the timer.
    pub fn init(&self) -> (cmds: Vec<Cmd>)
        ensures
            cmds@ == seq![Cmd::Fetch, Cmd::Interval],
    {
        let cmds = vec![Ticker::fetch_data(), Ticker::minute_interval()];
        assert(cmds@ =~= seq![Cmd::Fetch, Cmd::Interval]);
        cmds
    }

    /// Takes one message. A quote replaces the price, the time and every
    /// digit; the timer asks for a fetch; everything else, a failed fetch
    /// included, leaves the ticker as it was.
    pub fn update(&mut self, msg: Msg) -> (cmd: Cmd)
        ensures
            final(self).state() == next_state(old(self).state(), msg),
            cmd == next_cmd(msg),
            !carries_quote(msg) ==> final(self).state() == old(self).state(),
            final(self).state().digits.len() == DISPLAY_DIGITS,
    {
        proof {
            use_type_invariant(&*self);
            assert(self.state().digits.len() == DISPLAY_DIGITS);
        }
        match msg {
            Msg::IntervalExpired => Ticker::fetch_data(),
            Msg::ReceivedData(result) => {
                match result {
                    Ok(quote) => {
                        self.price = quote.rounded;
                        self.date_time = quote.data.time.updated;
                        let formatted_price = format_price(self.price);
                        self.set_price_digits(formatted_price.as_str());
                    },
                    Err(_) => {},
                }
                Cmd::Nothing
            },
            _ => Cmd::Nothing,
        }
    }

    /// What to draw: the time as it is held, the currency symbol, and the
    /// eight digits in their order, each drawn for the value it holds.
    pub fn view(&self) -> (view: TickerView)
        ensures
            view.date_time@ == self.state().date_time,
            view.symbol == CURRENCY_SYMBOL,
            view.digits@.len() == DISPLAY_DIGITS,
            self.state().digits.len() == DISPLAY_DIGITS,
            forall|i: int|
                0 <= i < DISPLAY_DIGITS ==> (#[trigger] view.digits@[i]).shows(
                    self.state().digits[i],
                ),
    {
        proof {
            use_type_invariant(self);
        }
        let mut digits: Vec<DigitView> = Vec::new();
        let mut i: usize = 0;
        while i < DISPLAY_DIGITS
            invariant
                i <= DISPLAY_DIGITS,
                self.digits@.len() == DISPLAY_DIGITS,
                digits@.len() == i,
                forall|k: int|
                    0 <= k < i ==> (#[trigger] digits@[k]).shows(self.digits@[k].value()),
            decreases DISPLAY_DIGITS - i,
        {
            digits.push(self.digits[i].view());
            i = i + 1;
        }
        TickerView { date_time: self.date_time.clone(), symbol: CURRENCY_SYMBOL, digits }
    }

    /// The price last quoted, in whole units.
    pub fn price(&self) -> (price: u32)
        ensures
            price == self.state().price,
    {
        self.price
    }

    /// The time of the last quote, as the feed wrote it.
    pub fn date_time(&self) -> (date_time: &str)
        ensures
            date_time@ == self.state().date_time,
    {
        self.date_time.as_str()
    }

    /// The values of the digits, most significant first. There are always
    /// eight of them.
    pub fn digit_values(&self) -> (values: Vec<i32>)
        ensures
            values@ == self.state().digits,
            values@.len() == DISPLAY_DIGITS,
    {
        proof {
            use_type_invariant(self);
        }
        let mut values: Vec<i32> = Vec::new();
        let mut i: usize = 0;
        while i < DISPLAY_DIGITS
            invariant
                i <= DISPLAY_DIGITS,
                self.digits@.len() == DISPLAY_DIGITS,
                values@.len() == i,
                forall|k: int| 0 <= k < i ==> #[trigger] values@[k] == self.digits@[k].value(),
            decreases DISPLAY_DIGITS - i,
        {
            values.push(self.digits[i].value());
            i = i + 1;
        }
        assert(values@ =~= self.state().digits);
        values
    }
}

} // verus!
