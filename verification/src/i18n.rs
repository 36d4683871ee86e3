//! What the window says, as the identifier of a translated message and its
//! arguments. Looking the message up in the user's language is the
//! application's part.

use vstd::prelude::*;

verus! {

/// A value a message is filled in with.
#[derive(Debug, PartialEq, Eq)]
pub enum Arg {
    /// Text shown as it is.
    Text(String),
    /// A number, which may also choose the message's plural form.
    Count(i64),
    /// A size in bytes, shown in decimal units.
    Size(u64),
    /// A Unix time, shown as a local date and time.
    Time(i64),
    /// Another message, translated first.
    Phrase(Box<Phrase>),
}

/// A translated message: its identifier and its named arguments.
#[derive(Debug, PartialEq, Eq)]
pub struct Phrase {
    pub id: String,
    pub args: Vec<(String, Arg)>,
}

impl Phrase {
    /// The message's identifier is `id` and it takes no arguments.
    pub open spec fn is(&self, id: Seq<char>) -> bool {
        self.id@ == id && self.args@.len() == 0
    }

    /// The message's identifier is `id` and its one argument is `name`.
    pub open spec fn with(&self, id: Seq<char>, name: Seq<char>, arg: Arg) -> bool {
        self.id@ == id && self.args@.len() == 1 && self.args@[0].0@ == name && self.args@[0].1 == arg
    }

    /// The message `id`, without arguments.
    pub fn plain(id: &str) -> (r: Phrase)
        ensures
            r.is(id@),
    {
        Phrase { id: id.to_owned(), args: Vec::new() }
    }

    /// The message `id` with the one argument `name`.
    pub fn one(id: &str, name: &str, arg: Arg) -> (r: Phrase)
        ensures
            r.with(id@, name@, arg),
    {
        let mut args: Vec<(String, Arg)> = Vec::new();
        args.push((name.to_owned(), arg));
        Phrase { id: id.to_owned(), args }
    }
}

} // verus!
