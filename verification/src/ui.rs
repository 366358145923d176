//! What the tool tells its user.
use vstd::prelude::*;

use crate::text;

verus! {

/// How a line is shown.
#[derive(Debug, Clone, Copy, PartialEq, Eq, Structural)]
pub enum Level {
    Plain,
    Debug,
    Info,
    Success,
    Warning,
    Critical,
}

/// One line for the user.
#[derive(Debug, Clone, PartialEq, Eq)]
pub struct Message {
    pub level: Level,
    pub text: String,
}

/// The views of a list of messages.
pub open spec fn said(messages: Seq<Message>) -> Seq<(Level, Seq<char>)> {
    messages.map_values(|m: Message| (m.level, m.text@))
}

/// Adds a line.
pub fn say(out: &mut Vec<Message>, level: Level, text: String)
    ensures
        said(final(out)@) == said(old(out)@).push((level, text@)),
{
    let ghost before = said(out@);
    let m = Message { level, text };
    out.push(m);
    assert(said(out@) =~= before.push((level, text@)));
}

/// One line for each string of a list, between a prefix and a suffix.
pub open spec fn each(
    level: Level,
    prefix: Seq<char>,
    list: Seq<Seq<char>>,
    suffix: Seq<char>,
) -> Seq<(Level, Seq<char>)> {
    list.map_values(|s: Seq<char>| (level, prefix + s + suffix))
}

/// Adds one line for each string of a list.
pub fn say_each(
    out: &mut Vec<Message>,
    level: Level,
    prefix: &str,
    list: &Vec<String>,
    suffix: &str,
)
    ensures
        said(final(out)@) == said(old(out)@) + each(
            level,
            prefix@,
            text::texts(list@),
            suffix@,
        ),
{
    let ghost all = each(level, prefix@, text::texts(list@), suffix@);
    let ghost before = said(out@);
    let mut i: usize = 0;
    assert(said(out@) =~= before + all.take(0));
    while i < list.len()
        invariant
            i <= list@.len(),
            all == each(level, prefix@, text::texts(list@), suffix@),
            said(out@) == before + all.take(i as int),
        decreases list@.len() - i,
    {
        let mut line = text::owned(prefix);
        line.append(list[i].as_str());
        line.append(suffix);
        say(out, level, line);
        assert(all.take(i + 1) =~= all.take(i as int).push(all[i as int]));
        i += 1;
    }
    assert(all.take(i as int) =~= all);
}

} // verus!
