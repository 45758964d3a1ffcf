use vstd::prelude::*;

use vstd::arithmetic::div_mod::lemma_small_mod;

use crate::lines::{lines_of, split_lines, views};

verus! {

/// Address of the remote quote list, up to the access token that ends it.
pub const LIST_URL_BASE: &'static str = "https://twitch.center/customapi/quote/list?token=";

/// The selector that asks for the list's address instead of a quote.
pub const LIST_TOKEN: &'static str = "list";

/// The largest index that an invocation may carry.
pub const MAX_INDEX: i64 = 4294967295;

/// Why the command gave no answer.
#[derive(Clone, Copy, Debug, PartialEq, Eq, Structural)]
pub enum CommandError {
    /// The access token for the quote provider is not configured.
    ConfigMissing,
    /// The quote list could not be fetched or decoded.
    Upstream,
    /// The quote list holds no quote.
    Empty,
    /// The invocation's option has the wrong shape or an index out of range.
    InvalidUsage,
    /// The index is well formed but the list has no quote there.
    NotFound,
}

impl CommandError {
    /// The text shown to the user in place of an answer.
    pub fn message(&self) -> (r: &'static str)
        ensures
            *self == CommandError::ConfigMissing ==> r@ == "Quotes token not present"@,
            *self == CommandError::Upstream ==> r@ == "Couldn't fetch the quotes"@,
            *self == CommandError::Empty ==> r@ == "There are no quotes yet"@,
            *self == CommandError::InvalidUsage ==> r@
                == "Invalid usage: give a quote number, or `list`"@,
            *self == CommandError::NotFound ==> r@ == "Couldn't find the quote"@,
    {
        match self {
            CommandError::ConfigMissing => "Quotes token not present",
            CommandError::Upstream => "Couldn't fetch the quotes",
            CommandError::Empty => "There are no quotes yet",
            CommandError::InvalidUsage => "Invalid usage: give a quote number, or `list`",
            CommandError::NotFound => "Couldn't find the quote",
        }
    }
}

/// Why the quote list could not be fetched.
#[derive(Clone, Copy, Debug, PartialEq, Eq, Structural)]
pub enum FetchError {
    /// Transport failure or an undecodable body.
    Network,
}

/// The option that an invocation carries, already taken apart by the caller.
#[derive(Debug)]
pub enum QuoteOption {
    /// No option: answer with a random quote.
    Absent,
    /// A text selector; only `LIST_TOKEN` (surrounding whitespace aside) is known.
    Text(String),
    /// The position of a quote, counted from zero.
    Index(i64),
    /// Any other shape of option.
    Other,
}

/// The address of the quote list for `token`: the token is appended to the base address.
pub open spec fn list_url_of(token: Seq<char>) -> Seq<char> {
    LIST_URL_BASE@ + token
}

/// What `str::trim` leaves of a text: the text without its leading and trailing whitespace.
pub uninterp spec fn trim_of(s: Seq<char>) -> Seq<char>;

/// The answer to an index: out of `0..=MAX_INDEX` it is a usage error, past
/// the end of the list it is not found, else the quote at that position.
pub open spec fn index_outcome(quotes: Seq<Seq<char>>, idx: i64) -> Result<Seq<char>, CommandError> {
    if idx < 0 || idx > MAX_INDEX {
        Err(CommandError::InvalidUsage)
    } else if idx < quotes.len() {
        Ok(quotes[idx as int])
    } else {
        Err(CommandError::NotFound)
    }
}

/// The answer to a random pick given the drawn number: an empty list has
/// none, else the draw is taken modulo the list's length.
pub open spec fn draw_outcome(quotes: Seq<Seq<char>>, draw: usize) -> Result<Seq<char>, CommandError> {
    if quotes.len() == 0 {
        Err(CommandError::Empty)
    } else {
        Ok(quotes[draw as int % quotes.len() as int])
    }
}

/// The answer to an invocation, given the token, the quote list and, for a
/// random pick, the drawn number.
pub open spec fn outcome(
    option: QuoteOption,
    token: Seq<char>,
    quotes: Seq<Seq<char>>,
    draw: usize,
) -> Result<Seq<char>, CommandError> {
    match option {
        QuoteOption::Absent => draw_outcome(quotes, draw),
        QuoteOption::Text(s) => if trim_of(s@) == LIST_TOKEN@ {
            Ok(list_url_of(token))
        } else {
            Err(CommandError::InvalidUsage)
        },
        QuoteOption::Index(i) => index_outcome(quotes, i),
        QuoteOption::Other => Err(CommandError::InvalidUsage),
    }
}

/// A result with its text seen as a sequence of characters.
pub open spec fn result_view(r: Result<String, CommandError>) -> Result<Seq<char>, CommandError> {
    match r {
        Ok(s) => Ok(s@),
        Err(e) => Err(e),
    }
}

/// Builds the address of the quote list that belongs to `token`.
pub fn list_url(token: &str) -> (r: String)
    ensures
        r@ == list_url_of(token@),
{
    let mut url = String::from_str(LIST_URL_BASE);
    url.append(token);
    url
}

/// Relies on `str::trim`: the result depends on the text alone.
#[verifier::external_body]
fn trimmed<'a>(s: &'a str) -> (r: &'a str)
    ensures
        r@ == trim_of(s@),
{
    s.trim()
}

/// Relies on `fastrand::usize` over `..n`: for `n > 0` it returns a number
/// below `n` (it panics on an empty range).
#[verifier::external_body]
fn random_below(n: usize) -> (r: usize)
    requires
        n > 0,
    ensures
        r < n,
{
    fastrand::usize(..n)
}

/// Whether a selector, already trimmed, asks for the list's address.
pub fn is_list_selector(selector: &str) -> (r: bool)
    ensures
        r == (selector@ == LIST_TOKEN@),
{
    String::from_str(selector) == String::from_str(LIST_TOKEN)
}

/// The quote at position `idx`, if `idx` is a valid index into the list.
pub fn select_index(quotes: &Vec<String>, idx: i64) -> (r: Result<String, CommandError>)
    ensures
        result_view(r) == index_outcome(views(quotes@), idx),
{
    if idx < 0 || idx > MAX_INDEX {
        return Err(CommandError::InvalidUsage);
    }
    let i: u64 = idx as u64;
    if i < quotes.len() as u64 {
        Ok(quotes[i as usize].clone())
    } else {
        Err(CommandError::NotFound)
    }
}

/// The quote that the number `draw` picks from the list.
pub fn select_drawn(quotes: &Vec<String>, draw: usize) -> (r: Result<String, CommandError>)
    ensures
        result_view(r) == draw_outcome(views(quotes@), draw),
{
    if quotes.len() == 0 {
        Err(CommandError::Empty)
    } else {
        Ok(quotes[draw % quotes.len()].clone())
    }
}

/// A quote picked uniformly at random; an empty list has none.
pub fn random_quote(quotes: &Vec<String>) -> (r: Result<String, CommandError>)
    ensures
        (r == Err::<String, CommandError>(CommandError::Empty)) <==> quotes@.len() == 0,
        r is Ok <==> quotes@.len() > 0,
        r is Ok ==> exists|i: int| 0 <= i < quotes@.len() && r->Ok_0@ == quotes@[i]@,
        quotes@.len() > 0 ==> exists|d: usize|
            d < quotes@.len() && result_view(r) == #[trigger] draw_outcome(views(quotes@), d),
{
    if quotes.len() == 0 {
        return Err(CommandError::Empty);
    }
    let draw = random_below(quotes.len());
    let r = select_drawn(quotes, draw);
    proof {
        lemma_small_mod(draw as nat, quotes@.len());
        assert(r->Ok_0@ == quotes@[draw as int]@);
    }
    r
}

/// The answer to an invocation, given the token, the fetched quote list and
/// the number drawn for a random pick.
pub fn resolve(option: &QuoteOption, token: &str, quotes: &Vec<String>, draw: usize) -> (r: Result<
    String,
    CommandError,
>)
    ensures
        result_view(r) == outcome(*option, token@, views(quotes@), draw),
{
    match option {
        QuoteOption::Absent => select_drawn(quotes, draw),
        QuoteOption::Text(s) => {
            if is_list_selector(trimmed(s.as_str())) {
                Ok(list_url(token))
            } else {
                Err(CommandError::InvalidUsage)
            }
        },
        QuoteOption::Index(i) => select_index(quotes, *i),
        QuoteOption::Other => Err(CommandError::InvalidUsage),
    }
}

/// Answers an invocation from the fetched response body: a failed fetch is
/// an upstream error; otherwise the body is split into lines and the option
/// resolved against them, with a fresh random draw when no option is given.
pub fn respond(option: &QuoteOption, token: &str, body: Result<String, FetchError>) -> (r: Result<
    String,
    CommandError,
>)
    ensures
        body is Err ==> r == Err::<String, CommandError>(CommandError::Upstream),
        body is Ok ==> exists|d: usize|
            (lines_of(body->Ok_0@).len() > 0 ==> d < lines_of(body->Ok_0@).len()) && result_view(r)
                == #[trigger] outcome(*option, token@, lines_of(body->Ok_0@), d),
        body is Ok && *option is Absent ==> {
            let quotes = lines_of(body->Ok_0@);
            &&& r is Ok <==> quotes.len() > 0
            &&& r is Ok ==> exists|i: int| 0 <= i < quotes.len() && r->Ok_0@ == quotes[i]
        },
{
    let quotes = match body {
        Ok(text) => split_lines(text.as_str()),
        Err(_) => return Err(CommandError::Upstream),
    };
    let draw: usize = match option {
        QuoteOption::Absent => if quotes.len() > 0 {
            random_below(quotes.len())
        } else {
            0
        },
        _ => 0,
    };
    let r = resolve(option, token, &quotes, draw);
    proof {
        let lines = views(quotes@);
        assert(result_view(r) == outcome(*option, token@, lines, draw));
        if *option is Absent && lines.len() > 0 {
            lemma_small_mod(draw as nat, lines.len());
            assert(r->Ok_0@ == lines[draw as int]);
        }
    }
    r
}

/// Asking for the list's address gives the same answer whatever the list
/// holds and whatever was drawn: the address built from the token alone.
pub proof fn lemma_list_ignores_contents(
    selector: String,
    token: Seq<char>,
    quotes1: Seq<Seq<char>>,
    quotes2: Seq<Seq<char>>,
    draw1: usize,
    draw2: usize,
)
    requires
        trim_of(selector@) == LIST_TOKEN@,
    ensures
        outcome(QuoteOption::Text(selector), token, quotes1, draw1) == outcome(
            QuoteOption::Text(selector),
            token,
            quotes2,
            draw2,
        ),
        outcome(QuoteOption::Text(selector), token, quotes1, draw1) == Ok::<Seq<char>, CommandError>(
            list_url_of(token),
        ),
{
}

/// A random pick from a non-empty list always succeeds with one of its
/// quotes, whatever number was drawn.
pub proof fn lemma_random_pick_is_member(token: Seq<char>, quotes: Seq<Seq<char>>, draw: usize)
    requires
        quotes.len() > 0,
    ensures
        outcome(QuoteOption::Absent, token, quotes, draw) is Ok,
        quotes.contains(outcome(QuoteOption::Absent, token, quotes, draw)->Ok_0),
{
    let i = draw as int % quotes.len() as int;
    assert(0 <= i < quotes.len());
    assert(quotes[i] == outcome(QuoteOption::Absent, token, quotes, draw)->Ok_0);
}

} // verus!
