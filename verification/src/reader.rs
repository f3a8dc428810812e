//! Line-oriented readers over a buffered input source.
//!
//! These wrap a `std::io::BufRead` source: `Reader` hands out raw lines,
//! `JsonObjectReader` parses each line as a JSON value. What a read
//! returns depends on the source's state, so nothing can be promised of
//! the text itself.

use vstd::prelude::*;

use crate::json::{parse_json, JsonValue};

verus! {

/// Hands out the lines of a buffered input source, one per call.
pub struct Reader<IN> {
    /// The input source.
    pub input: IN,
}

impl<IN> Reader<IN> {
    /// Wraps an input source.
    pub fn new(input: IN) -> (r: Reader<IN>)
        ensures
            r == (Reader { input }),
    {
        Reader { input }
    }
}

impl<IN: std::io::BufRead> Reader<IN> {
    /// Relies on `std::io::BufRead::read_line`: the next line of the
    /// source, newline included, or the empty string at end of input;
    /// `None` on a read error. The text depends on the source's state, so
    /// nothing is promised of it.
    #[verifier::external_body]
    pub fn next_line(&mut self) -> Option<String> {
        let mut s = String::new();
        match self.input.read_line(&mut s) {
            Err(_) => None,
            Ok(_) => Some(s),
        }
    }
}

/// Hands out one parsed JSON value per line of a buffered input source.
pub struct JsonObjectReader<IN> {
    /// The underlying line reader.
    pub reader: Reader<IN>,
}

impl<IN> JsonObjectReader<IN> {
    /// Wraps a line reader.
    pub fn new(reader: Reader<IN>) -> (r: JsonObjectReader<IN>)
        ensures
            r == (JsonObjectReader { reader }),
    {
        JsonObjectReader { reader }
    }
}

impl<IN: std::io::BufRead> JsonObjectReader<IN> {
    /// The next line's JSON value; `None` on a read error or when the line
    /// does not parse. What comes back depends on the source's state.
    pub fn next_value(&mut self) -> Option<JsonValue> {
        match self.reader.next_line() {
            None => None,
            Some(s) => match parse_json(s.as_str()) {
                Ok(v) => Some(v),
                Err(_) => None,
            },
        }
    }
}

} // verus!
