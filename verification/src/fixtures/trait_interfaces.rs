//! A library with a trait interface, two objects that implement it, and a
//! registry that hands them out behind the trait.

use std::sync::Arc;
use vstd::prelude::*;
use crate::text::join3;

verus! {

/// Something that greets by name.
pub trait Greeter {
    /// What `greet` answers to `name`.
    spec fn answer(&self, name: Seq<char>) -> Seq<char>;

    fn greet(&self, name: String) -> (line: String)
        ensures
            line@ == self.answer(name@),
    ;
}

/// The capitals of `text`, by the rules of Unicode.
pub uninterp spec fn uppercase(text: Seq<char>) -> Seq<char>;

/// `str::to_uppercase`: the capitals of `text` by the rules of Unicode,
/// which depend on nothing but the text.
#[verifier::external_body]
fn to_uppercase(text: &str) -> (r: String)
    ensures
        r@ == uppercase(text@),
{
    text.to_uppercase()
}

/// Two texts with a space between them.
pub fn spaced(first: &str, second: &str) -> (line: String)
    ensures
        line@ == first@ + " "@ + second@,
{
    join3(first, " ", second)
}

/// The name of an object with what it holds in brackets.
pub fn labelled(kind: &str, content: &str) -> (label: String)
    ensures
        label@ == kind@ + "("@ + content@ + ")"@,
{
    let mut out = join3(kind, "(", content);
    vstd::string::StringExecFns::append(&mut out, ")");
    out
}

/// A greeter that says its phrase and then the name.
#[derive(Debug, Clone, PartialEq, Eq, Hash)]
pub struct FriendlyGreeter {
    phrase: String,
}

impl FriendlyGreeter {
    /// The phrase it greets with.
    pub closed spec fn phrase(&self) -> Seq<char> {
        self.phrase@
    }

    pub fn new(phrase: String) -> (greeter: Arc<Self>)
        ensures
            greeter.phrase() == phrase@,
    {
        Arc::new(Self { phrase })
    }

    /// The greeter behind the trait.
    pub fn to_trait(self: Arc<Self>) -> (shared: SharedGreeter)
        ensures
            shared == SharedGreeter::Friendly(self),
    {
        SharedGreeter::Friendly(self)
    }

    pub fn greet(&self, name: String) -> (line: String)
        ensures
            line@ == self.phrase() + " "@ + name@,
    {
        <Self as Greeter>::greet(self, name)
    }

    /// What the object shows itself as.
    pub fn describe(&self) -> (label: String)
        ensures
            label@ == "FriendlyGreeter"@ + "("@ + self.phrase() + ")"@,
    {
        labelled("FriendlyGreeter", self.phrase.as_str())
    }
}

impl Greeter for FriendlyGreeter {
    open spec fn answer(&self, name: Seq<char>) -> Seq<char> {
        self.phrase() + " "@ + name
    }

    fn greet(&self, name: String) -> (line: String) {
        spaced(self.phrase.as_str(), name.as_str())
    }
}

/// A greeter that says its phrase and then the name, both in capitals.
#[derive(Debug, Clone, PartialEq, Eq, Hash)]
pub struct ProcFriendlyGreeter {
    phrase: String,
}

impl ProcFriendlyGreeter {
    /// The phrase it greets with.
    pub closed spec fn phrase(&self) -> Seq<char> {
        self.phrase@
    }

    pub fn new(phrase: String) -> (greeter: Arc<Self>)
        ensures
            greeter.phrase() == phrase@,
    {
        Arc::new(Self { phrase })
    }

    /// The greeter behind the trait.
    pub fn to_trait(self: Arc<Self>) -> (shared: SharedGreeter)
        ensures
            shared == SharedGreeter::Proc(self),
    {
        SharedGreeter::Proc(self)
    }

    pub fn greet(&self, name: String) -> (line: String)
        ensures
            line@ == uppercase(self.phrase()) + " "@ + uppercase(name@),
    {
        <Self as Greeter>::greet(self, name)
    }

    /// What the object shows itself as.
    pub fn describe(&self) -> (label: String)
        ensures
            label@ == "ProcFriendlyGreeter"@ + "("@ + self.phrase() + ")"@,
    {
        labelled("ProcFriendlyGreeter", self.phrase.as_str())
    }
}

impl Greeter for ProcFriendlyGreeter {
    open spec fn answer(&self, name: Seq<char>) -> Seq<char> {
        uppercase(self.phrase()) + " "@ + uppercase(name)
    }

    fn greet(&self, name: String) -> (line: String) {
        let phrase = to_uppercase(self.phrase.as_str());
        let name = to_uppercase(name.as_str());
        spaced(phrase.as_str(), name.as_str())
    }
}

/// A greeter of either kind, held behind the trait.
#[derive(Debug, Clone, PartialEq, Eq, Hash)]
pub enum SharedGreeter {
    Friendly(Arc<FriendlyGreeter>),
    Proc(Arc<ProcFriendlyGreeter>),
}

impl Greeter for SharedGreeter {
    open spec fn answer(&self, name: Seq<char>) -> Seq<char> {
        match self {
            SharedGreeter::Friendly(greeter) => greeter.answer(name),
            SharedGreeter::Proc(greeter) => greeter.answer(name),
        }
    }

    fn greet(&self, name: String) -> (line: String) {
        match self {
            SharedGreeter::Friendly(greeter) => <FriendlyGreeter as Greeter>::greet(greeter, name),
            SharedGreeter::Proc(greeter) => <ProcFriendlyGreeter as Greeter>::greet(greeter, name),
        }
    }
}

/// Hands out greeters behind the trait.
#[derive(Debug)]
pub struct Registry;

impl Registry {
    pub fn new() -> (registry: Arc<Self>) {
        Arc::new(Registry)
    }

    /// A greeter that says `phrase` and then the name.
    pub fn make_friendly(&self, phrase: String) -> (shared: SharedGreeter)
        ensures
            shared matches SharedGreeter::Friendly(greeter) && greeter.phrase() == phrase@,
    {
        FriendlyGreeter::new(phrase).to_trait()
    }

    /// A greeter that says `phrase` and then the name, both in capitals.
    pub fn make_proc(&self, phrase: String) -> (shared: SharedGreeter)
        ensures
            shared matches SharedGreeter::Proc(greeter) && greeter.phrase() == phrase@,
    {
        ProcFriendlyGreeter::new(phrase).to_trait()
    }
}

} // verus!
