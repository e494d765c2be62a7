//! The price feed's response, as far as the ticker reads it, and the rate
//! text that it carries.

use std::str::Chars;
use vstd::prelude::*;
use vstd::std_specs::iter::IteratorSpec;
use vstd::string::*;

verus! {

/// The character that groups the digits of a rate by thousands.
pub const SEPARATOR: char = ',';

/// The quote in one currency.
#[derive(Debug, Clone, PartialEq)]
pub struct BPIUSD {
    /// The rate as the feed writes it, such as `45,983.3647`.
    pub rate: String,
}

/// The quotes of a response; only the dollar quote is kept.
#[derive(Debug, Clone, PartialEq)]
#[allow(non_snake_case)]
pub struct BPI {
    pub USD: BPIUSD,
}

/// When the feed last changed.
#[derive(Debug, Clone, PartialEq)]
pub struct TimeData {
    /// The time as the feed writes it; shown as it is.
    pub updated: String,
}

/// One response of the feed.
#[derive(Debug, Clone, PartialEq)]
pub struct RequestData {
    pub time: TimeData,
    pub bpi: BPI,
}

impl Default for BPIUSD {
    fn default() -> (quote: Self)
        ensures
            quote.rate@ == Seq::<char>::empty(),
    {
        BPIUSD { rate: String::new() }
    }
}

impl Default for BPI {
    fn default() -> (quotes: Self)
        ensures
            quotes.USD.rate@ == Seq::<char>::empty(),
    {
        BPI { USD: BPIUSD::default() }
    }
}

impl Default for TimeData {
    fn default() -> (time: Self)
        ensures
            time.updated@ == Seq::<char>::empty(),
    {
        TimeData { updated: String::new() }
    }
}

impl Default for RequestData {
    fn default() -> (data: Self)
        ensures
            data.time.updated@ == Seq::<char>::empty(),
            data.bpi.USD.rate@ == Seq::<char>::empty(),
    {
        RequestData { time: TimeData::default(), bpi: BPI::default() }
    }
}

/// Whether a character of a rate is kept when the separators are taken out.
pub open spec fn is_kept(c: char) -> bool {
    c != SEPARATOR
}

/// A rate without its separators: the other characters, in their order.
pub open spec fn without_separators(rate: Seq<char>) -> Seq<char> {
    rate.filter(|c: char| is_kept(c))
}

/// `String::push` puts one character at the end of the text and leaves the
/// rest as it was.
pub assume_specification[ String::push ](text: &mut String, c: char)
    ensures
        final(text)@ == old(text)@.push(c),
;

/// Taking the separators out of a text that ends in `c`: the same as taking
/// them out of what stands before `c`, and keeping `c` unless it is one.
proof fn lemma_without_separators_push(done: Seq<char>, c: char)
    ensures
        without_separators(done.push(c)) == if is_kept(c) {
            without_separators(done).push(c)
        } else {
            without_separators(done)
        },
{
    reveal(Seq::filter);
    assert(done.push(c).drop_last() =~= done);
}

/// Takes the grouping separators out of a rate, so that what is left can be
/// read as a number.
pub fn strip_separators(rate: &str) -> (plain: String)
    ensures
        plain@ == without_separators(rate@),
{
    broadcast use vstd::string::group_string_axioms;

    let mut plain = String::new();
    let mut chars: Chars<'_> = rate.chars();
    let ghost mut done: Seq<char> = Seq::empty();
    proof {
        reveal(Seq::filter);
    }
    loop
        invariant
            chars.obeys_prophetic_iter_laws(),
            chars.decrease() is Some,
            done + chars.remaining() == rate@,
            plain@ == without_separators(done),
        ensures
            done == rate@,
        decreases chars.decrease()->0,
    {
        let ghost before = chars.remaining();
        match chars.next() {
            Some(c) => {
                if c != SEPARATOR {
                    plain.push(c);
                }
                proof {
                    lemma_without_separators_push(done, c);
                    assert(done.push(c) + before.drop_first() =~= done + before);
                    done = done.push(c);
                }
            },
            None => {
                proof {
                    assert(done =~= rate@);
                }
                break ;
            },
        }
    }
    plain
}

} // verus!
