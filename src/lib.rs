//! The `quote` chat command: fetches a plain-text quote list, splits it into
//! lines and answers an invocation with one quote, a random quote, or the
//! list's own address.
pub mod command;
pub mod lines;

pub use command::{
    is_list_selector, list_url, random_quote, resolve, respond, select_drawn, select_index,
    CommandError, FetchError, QuoteOption, LIST_TOKEN, LIST_URL_BASE, MAX_INDEX,
};
pub use lines::split_lines;
