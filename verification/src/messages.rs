//! Messages before translation: a translation key and its named values. A
//! value is text, a number, or another key whose translation is the value.

use vstd::prelude::*;

verus! {

/// A named value of a message.
#[derive(Debug, PartialEq, Eq)]
pub enum Arg {
    Text(String),
    Number(i64),
    /// The translation of this key.
    Translated(&'static str),
    /// In a chain of messages, the translation of the message that follows.
    Next,
}

/// A value as a value: its text, its number or the key to translate.
pub enum ArgView {
    Text(Seq<char>),
    Number(i64),
    Translated(Seq<char>),
    Next,
}

pub open spec fn arg_view(arg: Arg) -> ArgView {
    match arg {
        Arg::Text(t) => ArgView::Text(t@),
        Arg::Number(n) => ArgView::Number(n),
        Arg::Translated(k) => ArgView::Translated(k@),
        Arg::Next => ArgView::Next,
    }
}

/// A message to translate.
#[derive(Debug, PartialEq, Eq)]
pub struct Message {
    pub key: String,
    pub args: Vec<(&'static str, Arg)>,
}

/// A message as a value: its key and its named values, in order.
pub struct MessageView {
    pub key: Seq<char>,
    pub args: Seq<(Seq<char>, ArgView)>,
}

impl MessageView {
    /// The same message with one more named value.
    pub open spec fn with(self, name: Seq<char>, value: ArgView) -> MessageView {
        MessageView { key: self.key, args: self.args.push((name, value)) }
    }
}

impl View for Message {
    type V = MessageView;

    open spec fn view(&self) -> MessageView {
        MessageView {
            key: self.key@,
            args: self.args@.map_values(|a: (&'static str, Arg)| (a.0@, arg_view(a.1))),
        }
    }
}

/// A message without values.
pub open spec fn plain(key: Seq<char>) -> MessageView {
    MessageView { key, args: Seq::empty() }
}

/// A message about a path.
pub open spec fn about_path(key: Seq<char>, path: Seq<char>) -> MessageView {
    plain(key).with("path"@, ArgView::Text(path))
}

/// A message about a path and the reason it failed.
pub open spec fn path_reason(key: Seq<char>, path: Seq<char>, reason: Seq<char>) -> MessageView {
    about_path(key, path).with("reason"@, ArgView::Text(reason))
}

impl Message {
    /// A message with no values yet.
    pub fn new(key: &str) -> (m: Message)
        ensures
            m@ == plain(key@),
    {
        let m = Message { key: key.to_owned(), args: Vec::new() };
        assert(m@.args =~= Seq::<(Seq<char>, ArgView)>::empty());
        m
    }

    fn add(self, name: &'static str, value: Arg) -> (m: Message)
        ensures
            m@ == self@.with(name@, arg_view(value)),
    {
        let mut m = self;
        let ghost before = m@;
        let ghost added = (name@, arg_view(value));
        m.args.push((name, value));
        assert(m@.args =~= before.args.push(added));
        m
    }

    /// Adds a text value.
    pub fn text(self, name: &'static str, value: &str) -> (m: Message)
        ensures
            m@ == self@.with(name@, ArgView::Text(value@)),
    {
        self.add(name, Arg::Text(value.to_owned()))
    }

    /// Adds a number.
    pub fn number(self, name: &'static str, value: i64) -> (m: Message)
        ensures
            m@ == self@.with(name@, ArgView::Number(value)),
    {
        self.add(name, Arg::Number(value))
    }

    /// Adds a value that is the translation of the next message of a chain.
    pub fn next(self, name: &'static str) -> (m: Message)
        ensures
            m@ == self@.with(name@, ArgView::Next),
    {
        self.add(name, Arg::Next)
    }

    /// Adds a value that is the translation of `key`.
    pub fn translated(self, name: &'static str, key: &'static str) -> (m: Message)
        ensures
            m@ == self@.with(name@, ArgView::Translated(key@)),
    {
        self.add(name, Arg::Translated(key))
    }
}

/// A message about a path.
pub fn path_message(key: &'static str, path: &str) -> (m: Message)
    ensures
        m@ == about_path(key@, path@),
{
    Message::new(key).text("path", path)
}

/// A message about a path and the reason it failed.
pub fn path_reason_message(key: &'static str, path: &str, reason: &str) -> (m: Message)
    ensures
        m@ == path_reason(key@, path@, reason@),
{
    Message::new(key).text("path", path).text("reason", reason)
}

/// A count as a message number: counts beyond the range of `i64` are shown as its maximum.
pub fn count_value(n: usize) -> (v: i64)
    ensures
        v == if n <= i64::MAX {
            n as i64
        } else {
            i64::MAX
        },
{
    if n as u64 <= i64::MAX as u64 {
        n as i64
    } else {
        i64::MAX
    }
}

/// The messages of a chain as values.
pub open spec fn chain_view(chain: Seq<Message>) -> Seq<MessageView> {
    chain.map_values(|m: Message| m@)
}

/// Puts a message before a chain.
pub fn chain_before(first: Message, rest: Vec<Message>) -> (chain: Vec<Message>)
    ensures
        chain_view(chain@) == seq![first@] + chain_view(rest@),
{
    let mut chain: Vec<Message> = Vec::new();
    chain.push(first);
    let mut rest = rest;
    let ghost tail = rest@;
    chain.append(&mut rest);
    assert(chain_view(chain@) =~= seq![first@] + chain_view(tail));
    chain
}

/// A line of a report: a message to translate, text shown as it is, or a
/// chain of messages whose value `Next` is the translation of the message
/// after it.
#[derive(Debug, PartialEq, Eq)]
pub enum Line {
    Translated(Message),
    Verbatim(String),
    Chain(Vec<Message>),
}

pub enum LineView {
    Translated(MessageView),
    Verbatim(Seq<char>),
    Chain(Seq<MessageView>),
}

pub open spec fn line_view(line: Line) -> LineView {
    match line {
        Line::Translated(m) => LineView::Translated(m@),
        Line::Verbatim(t) => LineView::Verbatim(t@),
        Line::Chain(c) => LineView::Chain(chain_view(c@)),
    }
}

pub open spec fn lines_view(lines: Seq<Line>) -> Seq<LineView> {
    lines.map_values(|l: Line| line_view(l))
}

/// Appends a line to a report.
pub fn push_report_line(lines: &mut Vec<Line>, line: Line)
    ensures
        lines_view(final(lines)@) == lines_view(old(lines)@).push(line_view(line)),
{
    let ghost added = line_view(line);
    lines.push(line);
    assert(lines_view(lines@) =~= lines_view(old(lines)@).push(added));
}

} // verus!
