//! The protocol side of a chat client for Twitch's variant of IRC: the lines
//! that open a session, the parser of inbound lines, and the decisions of the
//! connection's life cycle and of its read loop. The socket itself is the
//! caller's: this library says what to write to it and what to make of what
//! was read from it.

use vstd::prelude::*;
use vstd::string::StringExecFns;

pub mod error;
pub mod message;
pub mod stream;
pub mod text;

verus! {

/// The credentials and the lists of channels and capabilities from which the
/// opening lines of a session are rendered.
pub struct Config {
    pub pass: String,
    pub nick: String,
    pub channels: Vec<String>,
    pub perms: Vec<String>,
}

/// The mathematical value of a `Config`.
pub struct ConfigView {
    pub pass: Seq<char>,
    pub nick: Seq<char>,
    pub channels: Seq<Seq<char>>,
    pub perms: Seq<Seq<char>>,
}

/// A sequence of strings read as a sequence of character sequences.
pub open spec fn texts(items: Seq<String>) -> Seq<Seq<char>> {
    Seq::new(items.len(), |i: int| items[i]@)
}

impl View for Config {
    type V = ConfigView;

    open spec fn view(&self) -> ConfigView {
        ConfigView {
            pass: self.pass@,
            nick: self.nick@,
            channels: texts(self.channels@),
            perms: texts(self.perms@),
        }
    }
}

/// The items one after another, each with `before` in front of it and
/// `after` behind it.
pub open spec fn wrapped(items: Seq<Seq<char>>, before: Seq<char>, after: Seq<char>) -> Seq<char>
    decreases items.len(),
{
    if items.len() == 0 {
        Seq::empty()
    } else {
        wrapped(items.drop_last(), before, after) + before + items.last() + after
    }
}

/// The line that requests the capabilities `perms`: each is named under
/// `twitch.tv/` and followed by a space, the last one too.
pub open spec fn perm_line(perms: Seq<Seq<char>>) -> Seq<char> {
    "CAP REQ :"@ + wrapped(perms, "twitch.tv/"@, " "@) + "\r\n"@
}

/// The line that authenticates with the token `pass`.
pub open spec fn pass_line(pass: Seq<char>) -> Seq<char> {
    "PASS oauth:"@ + pass + "\r\n"@
}

/// The line that sets the nickname.
pub open spec fn nick_line(nick: Seq<char>) -> Seq<char> {
    "NICK "@ + nick + "\r\n"@
}

/// The line that joins `channels`: each gets a `#` in front of it and a
/// comma behind it, the last one too.
pub open spec fn join_line(channels: Seq<Seq<char>>) -> Seq<char> {
    "JOIN "@ + wrapped(channels, "#"@, ","@) + "\r\n"@
}

/// `line` with each of `items` appended to it, wrapped in `before` and
/// `after`.
fn append_wrapped(line: &mut String, items: &Vec<String>, before: &str, after: &str)
    ensures
        final(line)@ == old(line)@ + wrapped(texts(items@), before@, after@),
{
    let ghost start = line@;
    let ghost all = texts(items@);
    assert(all.take(0) =~= Seq::<Seq<char>>::empty());
    assert(line@ =~= start + wrapped(all.take(0), before@, after@));
    let mut k: usize = 0;
    while k < items.len()
        invariant
            k <= items@.len(),
            all == texts(items@),
            line@ == start + wrapped(all.take(k as int), before@, after@),
        decreases items@.len() - k,
    {
        line.append(before);
        line.append(items[k].as_str());
        line.append(after);
        proof {
            assert(all.take(k + 1).drop_last() =~= all.take(k as int));
            assert(all.take(k + 1).last() == items@[k as int]@);
            assert(line@ =~= start + wrapped(all.take(k + 1), before@, after@));
        }
        k += 1;
    }
    assert(all.take(k as int) =~= all);
}

impl Config {
    pub fn new(pass: String, nick: String, channels: Vec<String>, perms: Vec<String>) -> (cfg: Self)
        ensures
            cfg.pass == pass,
            cfg.nick == nick,
            cfg.channels == channels,
            cfg.perms == perms,
    {
        Self { pass, nick, channels, perms }
    }

    /// The capability request, the first line of a session.
    pub fn create_perm_string(&self) -> (line: String)
        ensures
            line@ == perm_line(self@.perms),
    {
        let mut line: String = "CAP REQ :".to_owned();
        append_wrapped(&mut line, &self.perms, "twitch.tv/", " ");
        line.append("\r\n");
        line
    }

    /// The password line, the second line of a session.
    pub fn create_pass_string(&self) -> (line: String)
        ensures
            line@ == pass_line(self@.pass),
    {
        let mut line: String = "PASS oauth:".to_owned();
        line.append(self.pass.as_str());
        line.append("\r\n");
        line
    }

    /// The nickname line, the third line of a session.
    pub fn create_nick_string(&self) -> (line: String)
        ensures
            line@ == nick_line(self@.nick),
    {
        let mut line: String = "NICK ".to_owned();
        line.append(self.nick.as_str());
        line.append("\r\n");
        line
    }

    /// The join line, the fourth and last line with which a session opens.
    pub fn create_join_string(&self) -> (line: String)
        ensures
            line@ == join_line(self@.channels),
    {
        let mut line: String = "JOIN ".to_owned();
        append_wrapped(&mut line, &self.channels, "#", ",");
        line.append("\r\n");
        line
    }
}

} // verus!
