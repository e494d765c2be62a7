use price_ticker::digit::Msg as DigitMsg;
use price_ticker::feed::{strip_separators, RequestData, BPI, BPIUSD, TimeData};
use price_ticker::price::format_price;
use price_ticker::ticker::{Cmd, Msg, Quote, Ticker, API_URL, CURRENCY_SYMBOL, INTERVAL_MS};

fn response(updated: &str, rate: &str) -> RequestData {
    RequestData {
        time: TimeData {
            updated: String::from(updated),
        },
        bpi: BPI {
            USD: BPIUSD {
                rate: String::from(rate),
            },
        },
    }
}

fn quote(updated: &str, rate: &str) -> Quote {
    let price: f64 = strip_separators(rate).parse().unwrap();
    Quote {
        data: response(updated, rate),
        rounded: price.round() as u32,
    }
}

#[test]
fn extract_digit_from_formatted_price() {
    let formatted_price = "00000046444";
    let extracted = Ticker::price_str_extract_digit(formatted_price, 7);
    assert_eq!(6, extracted);
}

#[test]
fn str_get() {
    let formatted_price = "00000046444";
    assert_eq!("6", &formatted_price[7..8]);
}

#[test]
fn coindesk_json() {
    let test_json = r#"{"time":{"updated":"Aug 11, 2021 22:21:00 UTC","updatedISO":"2021-08-11T22:21:00+00:00","updateduk":"Aug 11, 2021 at 23:21 BST"},"disclaimer":"This data was produced from the CoinDesk Bitcoin Price Index (USD). Non-USD currency data converted using hourly conversion rate from openexchangerates.org","chartName":"Bitcoin","bpi":{"USD":{"code":"USD","symbol":"&#36;","rate":"45,983.3647","description":"United States Dollar","rate_float":45983.3647},"GBP":{"code":"GBP","symbol":"&pound;","rate":"33,151.4768","description":"British Pound Sterling","rate_float":33151.4768},"EUR":{"code":"EUR","symbol":"&euro;","rate":"39,163.7558","description":"Euro","rate_float":39163.7558}}}
"#;
    let document: serde_json::Value = serde_json::from_str(test_json).unwrap();
    let deserialized = response(
        document["time"]["updated"].as_str().unwrap(),
        document["bpi"]["USD"]["rate"].as_str().unwrap(),
    );
    assert_eq!(String::from("45,983.3647"), deserialized.bpi.USD.rate);
    assert_eq!(
        String::from("Aug 11, 2021 22:21:00 UTC"),
        deserialized.time.updated
    );
}

#[test]
fn new_ticker_holds_placeholders() {
    let ticker = Ticker::create();
    assert_eq!(ticker.price(), 100000);
    assert_eq!(ticker.date_time(), "June 5rd, 2077");
    assert_eq!(ticker.digit_values(), vec![-1; 8]);
}

#[test]
fn init_asks_for_a_fetch_and_the_timer() {
    let ticker = Ticker::create();
    assert_eq!(ticker.init(), vec![Cmd::Fetch, Cmd::Interval]);
    assert_eq!(Ticker::fetch_data(), Cmd::Fetch);
    assert_eq!(Ticker::minute_interval(), Cmd::Interval);
    assert_eq!(INTERVAL_MS, 60_000);
    assert_eq!(
        API_URL,
        "https://api.coindesk.com/v1/bpi/currentprice.json"
    );
}

#[test]
fn timer_asks_for_a_fetch_and_changes_nothing() {
    let mut ticker = Ticker::create();
    ticker.update(Msg::ReceivedData(Ok(quote("first", "45,983.3647"))));
    let cmd = ticker.update(Msg::IntervalExpired);
    assert_eq!(cmd, Cmd::Fetch);
    assert_eq!(ticker.price(), 45983);
    assert_eq!(ticker.date_time(), "first");
    assert_eq!(ticker.digit_values(), vec![0, 0, 0, 4, 5, 9, 8, 3]);
}

#[test]
fn rate_becomes_price_text_and_digits() {
    let plain = strip_separators("45,983.3647");
    assert_eq!(plain, "45983.3647");
    let price: f64 = plain.parse().unwrap();
    assert_eq!(price, 45983.3647);
    let rounded = price.round() as u32;
    assert_eq!(rounded, 45983);
    assert_eq!(format_price(rounded), "00045983");

    let mut ticker = Ticker::create();
    let cmd = ticker.update(Msg::ReceivedData(Ok(Quote {
        data: response("Aug 11, 2021 22:21:00 UTC", "45,983.3647"),
        rounded,
    })));
    assert_eq!(cmd, Cmd::Nothing);
    assert_eq!(ticker.price(), 45983);
    assert_eq!(ticker.digit_values(), vec![0, 0, 0, 4, 5, 9, 8, 3]);
}

#[test]
fn timestamp_is_shown_as_the_feed_wrote_it() {
    let mut ticker = Ticker::create();
    ticker.update(Msg::ReceivedData(Ok(quote(
        "Aug 11, 2021 22:21:00 UTC",
        "45,983.3647",
    ))));
    assert_eq!(ticker.date_time(), "Aug 11, 2021 22:21:00 UTC");
    assert_eq!(ticker.view().date_time, "Aug 11, 2021 22:21:00 UTC");
}

#[test]
fn failed_fetch_changes_nothing() {
    let mut ticker = Ticker::create();
    let cmd = ticker.update(Msg::ReceivedData(Err(String::from("status 503"))));
    assert_eq!(cmd, Cmd::Nothing);
    assert_eq!(ticker.price(), 100000);
    assert_eq!(ticker.date_time(), "June 5rd, 2077");
    assert_eq!(ticker.digit_values(), vec![-1; 8]);

    ticker.update(Msg::ReceivedData(Ok(quote("then", "1,234.5"))));
    let cmd = ticker.update(Msg::RequestError(String::from("network down")));
    assert_eq!(cmd, Cmd::Nothing);
    let cmd = ticker.update(Msg::ReceivedData(Err(String::from("not found"))));
    assert_eq!(cmd, Cmd::Nothing);
    assert_eq!(ticker.price(), 1235);
    assert_eq!(ticker.date_time(), "then");
    assert_eq!(ticker.digit_values(), vec![0, 0, 0, 0, 1, 2, 3, 5]);
}

#[test]
fn digit_message_changes_nothing() {
    let mut ticker = Ticker::create();
    ticker.update(Msg::ReceivedData(Ok(quote("then", "46,444.0"))));
    let cmd = ticker.update(Msg::DigitMsg(DigitMsg::SelectDigit(9)));
    assert_eq!(cmd, Cmd::Nothing);
    assert_eq!(ticker.price(), 46444);
    assert_eq!(ticker.digit_values(), vec![0, 0, 0, 4, 6, 4, 4, 4]);
}

#[test]
fn second_quote_replaces_the_first() {
    let mut ticker = Ticker::create();
    ticker.update(Msg::ReceivedData(Ok(quote(
        "Aug 11, 2021 22:21:00 UTC",
        "45,983.3647",
    ))));
    assert_eq!(ticker.digit_values(), vec![0, 0, 0, 4, 5, 9, 8, 3]);
    assert_eq!(ticker.date_time(), "Aug 11, 2021 22:21:00 UTC");

    ticker.update(Msg::ReceivedData(Ok(quote(
        "Aug 11, 2021 22:22:00 UTC",
        "46,017.9102",
    ))));
    assert_eq!(ticker.price(), 46018);
    assert_eq!(ticker.digit_values(), vec![0, 0, 0, 4, 6, 0, 1, 8]);
    assert_eq!(ticker.date_time(), "Aug 11, 2021 22:22:00 UTC");
}

#[test]
fn wide_price_fills_the_display_from_the_left() {
    let mut ticker = Ticker::create();
    ticker.update(Msg::ReceivedData(Ok(quote("wide", "1,234,567,891.2"))));
    assert_eq!(ticker.price(), 1234567891);
    assert_eq!(ticker.digit_values(), vec![1, 2, 3, 4, 5, 6, 7, 8]);
}

#[test]
fn view_shows_time_symbol_and_eight_strips() {
    let mut ticker = Ticker::create();
    let view = ticker.view();
    assert_eq!(view.date_time, "June 5rd, 2077");
    assert_eq!(view.symbol, '$');
    assert_eq!(view.symbol, CURRENCY_SYMBOL);
    assert_eq!(view.digits.len(), 8);
    for strip in &view.digits {
        assert_eq!(strip.selected, Some(0));
        assert_eq!(strip.glyphs.len(), 11);
        assert!(500 <= strip.transition_ms && strip.transition_ms < 2500);
    }

    ticker.update(Msg::ReceivedData(Ok(quote("now", "45,983.3647"))));
    let view = ticker.view();
    let rows: Vec<Option<usize>> = view.digits.iter().map(|strip| strip.selected).collect();
    assert_eq!(
        rows,
        vec![
            Some(1),
            Some(1),
            Some(1),
            Some(5),
            Some(6),
            Some(10),
            Some(9),
            Some(4)
        ]
    );
    let shown: String = view
        .digits
        .iter()
        .map(|strip| strip.glyphs[strip.selected.unwrap()])
        .collect();
    assert_eq!(shown, "00045983");
}
