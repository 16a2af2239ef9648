//! Things that can be summed up in a line of text.

use vstd::prelude::*;
use vstd::string::StringExecFns;

verus! {

/// Something that a short text can stand for.
pub trait Summary {
    /// The text that `summarize` returns.
    spec fn summary(&self) -> Seq<char>;

    /// A short text that stands for `self`.
    fn summarize(&self) -> (text: String)
        ensures
            text@ == self.summary(),
    ;
}

/// The summary of something that has nothing of its own to say.
pub fn default_summary() -> (text: String)
    ensures
        text@ == "(Read more)"@,
{
    String::from_str("(Read more)")
}

/// A short public message and who wrote it.
pub struct Tweet {
    pub username: String,
    pub content: String,
    pub reply: bool,
    pub retweet: bool,
}

impl Summary for Tweet {
    /// `@`, the author's name, a colon and a space, then the message.
    open spec fn summary(&self) -> Seq<char> {
        "@"@ + self.username@ + ": "@ + self.content@
    }

    fn summarize(&self) -> (text: String) {
        let mut text = String::from_str("@");
        text.append(self.username.as_str());
        text.append(": ");
        text.append(self.content.as_str());
        text
    }
}

/// A news article.
pub struct Article {
    pub headline: String,
    pub location: String,
    pub author: String,
    pub content: String,
}

impl Summary for Article {
    /// The headline, then `, by ` and the author, then the place in brackets.
    open spec fn summary(&self) -> Seq<char> {
        self.headline@ + ", by "@ + self.author@ + " ("@ + self.location@ + ")"@
    }

    fn summarize(&self) -> (text: String) {
        let mut text = self.headline.clone();
        text.append(", by ");
        text.append(self.author.as_str());
        text.append(" (");
        text.append(self.location.as_str());
        text.append(")");
        text
    }
}

/// The announcement of `item`: its summary behind `Breaking News! `.
pub fn notify<T: Summary>(item: &T) -> (news: String)
    ensures
        news@ == "Breaking News! "@ + item.summary(),
{
    let mut news = String::from_str("Breaking News! ");
    let summary = item.summarize();
    news.append(summary.as_str());
    news
}

} // verus!
