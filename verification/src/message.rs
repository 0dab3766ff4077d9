//! One inbound protocol line as a structured message: the tags in front of
//! it, the sender, the command and the trailing payload.

use crate::error::ChatError;
use crate::text::{
    chars_of, find, find_in, lemma_find, lemma_find_is, lemma_split_first, lemma_split_join,
    lemma_split_single, ranges_cut, slice_string, split, split_ranges, trim,
    trim_range,
};
use vstd::hash_map::StringHashMap;
use vstd::prelude::*;
use vstd::string::StringExecFns;

verus! {

/// What a line asks of the client.
#[derive(Debug, Clone, Copy, PartialEq, Eq, Structural)]
pub enum MessageType {
    /// A liveness probe of the server; the payload is to be echoed back.
    PING,
    /// A chat message in a room.
    PRIVMSG,
    /// Any other line, handed on as it is.
    NONE,
}

/// The mathematical value of a `Tags`: the plain tags by key, and for each
/// badge category the badges by name.
pub struct TagsView {
    pub tags: Map<Seq<char>, Seq<char>>,
    pub badges: Map<Seq<char>, Map<Seq<char>, Seq<char>>>,
}

/// The tags that stood in front of a line.
pub struct Tags {
    pub badges: StringHashMap<StringHashMap<String>>,
    pub tags: StringHashMap<String>,
}

/// A map of strings read as a map of character sequences.
pub open spec fn text_map(m: Map<Seq<char>, String>) -> Map<Seq<char>, Seq<char>> {
    Map::new(|k: Seq<char>| m.contains_key(k), |k: Seq<char>| m[k]@)
}

/// A map of string maps read as a map of maps of character sequences.
pub open spec fn nested_text_map(m: Map<Seq<char>, StringHashMap<String>>) -> Map<
    Seq<char>,
    Map<Seq<char>, Seq<char>>,
> {
    Map::new(|k: Seq<char>| m.contains_key(k), |k: Seq<char>| text_map(m[k]@))
}

impl View for Tags {
    type V = TagsView;

    open spec fn view(&self) -> TagsView {
        TagsView { tags: text_map(self.tags@), badges: nested_text_map(self.badges@) }
    }
}

/// The tag set that holds nothing.
pub open spec fn no_tags() -> TagsView {
    TagsView { tags: Map::empty(), badges: Map::empty() }
}

/// Whether `key` names a badge category, whose value is a list of badges.
pub open spec fn is_badge_key(key: Seq<char>) -> bool {
    key == "badges"@ || key == "badge-info"@
}

/// `bucket` after one entry of a badge list: an entry `name/value` sets
/// `name` to `value` (what follows a second `/` is left out), and an entry
/// without `/` changes nothing.
pub open spec fn with_badge(bucket: Map<Seq<char>, Seq<char>>, entry: Seq<char>) -> Map<
    Seq<char>,
    Seq<char>,
> {
    let parts = split(entry, '/');
    if parts.len() >= 2 {
        bucket.insert(parts[0], parts[1])
    } else {
        bucket
    }
}

/// The badges that a list of entries gives, a later entry overriding an
/// earlier one of the same name.
pub open spec fn badge_bucket(entries: Seq<Seq<char>>) -> Map<Seq<char>, Seq<char>>
    decreases entries.len(),
{
    if entries.len() == 0 {
        Map::empty()
    } else {
        with_badge(badge_bucket(entries.drop_last()), entries.last())
    }
}

/// `acc` after one token of a tag list. A token without `=` changes nothing.
/// Otherwise the key stands before the first `=` and the value after it. A
/// badge key sets its category to the badges of the comma-separated value;
/// any other key sets the plain tag. Either way a later token overrides an
/// earlier one of the same key.
pub open spec fn with_tag(acc: TagsView, token: Seq<char>) -> TagsView {
    let i = find(token, '=');
    if 0 <= i < token.len() {
        let key = token.take(i);
        let value = token.skip(i + 1);
        if is_badge_key(key) {
            TagsView { tags: acc.tags, badges: acc.badges.insert(key, badge_bucket(split(value, ','))) }
        } else {
            TagsView { tags: acc.tags.insert(key, value), badges: acc.badges }
        }
    } else {
        acc
    }
}

/// `acc` after the tokens of a tag list, taken from left to right.
pub open spec fn tags_onto(acc: TagsView, tokens: Seq<Seq<char>>) -> TagsView
    decreases tokens.len(),
{
    if tokens.len() == 0 {
        acc
    } else {
        with_tag(tags_onto(acc, tokens.drop_last()), tokens.last())
    }
}

/// The tag set that the text of a tag prefix denotes: its tokens stand
/// between semicolons.
pub open spec fn parse_tags(raw: Seq<char>) -> TagsView {
    tags_onto(no_tags(), split(raw, ';'))
}

/// Taking the tokens of two lists in turn is taking those of the joined
/// list.
pub proof fn lemma_tags_onto_concat(acc: TagsView, first: Seq<Seq<char>>, second: Seq<Seq<char>>)
    ensures
        tags_onto(acc, first + second) == tags_onto(tags_onto(acc, first), second),
    decreases second.len(),
{
    if second.len() == 0 {
        assert(first + second =~= first);
    } else {
        assert((first + second).drop_last() =~= first + second.drop_last());
        assert((first + second).last() == second.last());
        lemma_tags_onto_concat(acc, first, second.drop_last());
    }
}

/// A token without `=` is dropped: with it or without it between two parts
/// of a tag prefix, in front of one or behind one, the tags are the same.
pub proof fn lemma_valueless_token_dropped(before: Seq<char>, token: Seq<char>, after: Seq<char>)
    requires
        !token.contains('='),
        !token.contains(';'),
    ensures
        parse_tags(before + seq![';'] + token + seq![';'] + after) == parse_tags(
            before + seq![';'] + after,
        ),
        parse_tags(token + seq![';'] + after) == parse_tags(after),
        parse_tags(before + seq![';'] + token) == parse_tags(before),
        parse_tags(token) == no_tags(),
{
    let one = seq![token];
    let head = split(before, ';');
    let rest = split(after, ';');
    lemma_split_single(token, ';');
    lemma_find(token, '=');
    if find(token, '=') < token.len() {
        assert(token.contains('='));
    }
    assert(one.drop_last() =~= Seq::<Seq<char>>::empty());
    assert(one.last() == token);
    assert forall|acc: TagsView| tags_onto(acc, one) == acc by {
        assert(tags_onto(acc, one.drop_last()) == acc);
    }

    lemma_split_join(before + seq![';'] + token, after, ';');
    lemma_split_join(before, token, ';');
    lemma_split_join(before, after, ';');
    lemma_split_join(token, after, ';');
    lemma_tags_onto_concat(no_tags(), head + one, rest);
    lemma_tags_onto_concat(no_tags(), head, one);
    lemma_tags_onto_concat(no_tags(), head, rest);
    lemma_tags_onto_concat(no_tags(), one, rest);
}

/// The token `key=value` sets the plain tag `key` to `value`, where `key`
/// holds no `=` and names no badge category.
pub proof fn lemma_with_plain_tag(acc: TagsView, key: Seq<char>, value: Seq<char>)
    requires
        !key.contains('='),
        !is_badge_key(key),
    ensures
        with_tag(acc, key + seq!['='] + value) == (TagsView {
            tags: acc.tags.insert(key, value),
            badges: acc.badges,
        }),
{
    let token = key + seq!['='] + value;
    assert forall|j: int| 0 <= j < key.len() implies token[j] != '=' by {
        assert(token[j] == key[j]);
        if key[j] == '=' {
            assert(key.contains('='));
        }
    }
    assert(token[key.len() as int] == '=');
    lemma_find_is(token, '=', key.len() as int);
    assert(token.take(key.len() as int) =~= key);
    assert(token.skip(key.len() as int + 1) =~= value);
}

/// A tag prefix of two plain tags, `k1=v1;k2=v2`, gives exactly these two
/// tags (the second alone where the keys are the same) and no badges. The
/// keys hold neither `=` nor `;` and name no badge category; the values hold
/// no `;`.
pub proof fn lemma_two_plain_tags(k1: Seq<char>, v1: Seq<char>, k2: Seq<char>, v2: Seq<char>)
    requires
        !k1.contains('=') && !k1.contains(';') && !is_badge_key(k1),
        !k2.contains('=') && !k2.contains(';') && !is_badge_key(k2),
        !v1.contains(';'),
        !v2.contains(';'),
    ensures
        parse_tags(k1 + seq!['='] + v1 + seq![';'] + k2 + seq!['='] + v2) == (TagsView {
            tags: Map::<Seq<char>, Seq<char>>::empty().insert(k1, v1).insert(k2, v2),
            badges: Map::empty(),
        }),
{
    let t1 = k1 + seq!['='] + v1;
    let t2 = k2 + seq!['='] + v2;
    lemma_token_has_no_semicolon(k1, v1);
    lemma_token_has_no_semicolon(k2, v2);
    lemma_split_single(t1, ';');
    lemma_split_single(t2, ';');
    lemma_split_join(t1, t2, ';');
    assert(k1 + seq!['='] + v1 + seq![';'] + k2 + seq!['='] + v2 =~= t1 + seq![';'] + t2);
    let tokens = seq![t1] + seq![t2];
    assert(tokens.drop_last() =~= seq![t1]);
    assert(tokens.last() == t2);
    assert(seq![t1].drop_last() =~= Seq::<Seq<char>>::empty());
    assert(seq![t1].last() == t1);
    assert(tags_onto(no_tags(), seq![t1].drop_last()) == no_tags());
    lemma_with_plain_tag(no_tags(), k1, v1);
    lemma_with_plain_tag(tags_onto(no_tags(), seq![t1]), k2, v2);
}

/// A key and a value without `;` make a token without `;`.
proof fn lemma_token_has_no_semicolon(key: Seq<char>, value: Seq<char>)
    requires
        !key.contains(';'),
        !value.contains(';'),
    ensures
        !(key + seq!['='] + value).contains(';'),
{
    let token = key + seq!['='] + value;
    if token.contains(';') {
        let j = choose|j: int| 0 <= j < token.len() && token[j] == ';';
        if j < key.len() {
            assert(key[j] == ';');
            assert(key.contains(';'));
        } else if j > key.len() {
            assert(value[j - key.len() - 1] == ';');
            assert(value.contains(';'));
        }
    }
}

/// The badges of the comma-separated list `chars[from..to]`.
fn parse_badges(text: &str, chars: &Vec<char>, from: usize, to: usize) -> (bucket: StringHashMap<String>)
    requires
        chars@ == text@,
        from <= to <= chars@.len(),
    ensures
        text_map(bucket@) == badge_bucket(split(chars@.subrange(from as int, to as int), ',')),
{
    let ghost entries = split(chars@.subrange(from as int, to as int), ',');
    let ranges = split_ranges(chars, from, to, ',');
    let mut bucket: StringHashMap<String> = StringHashMap::new();
    assert(text_map(bucket@) =~= badge_bucket(entries.take(0)));
    let mut k: usize = 0;
    while k < ranges.len()
        invariant
            chars@ == text@,
            k <= ranges@.len(),
            ranges_cut(chars@, ranges@, entries),
            text_map(bucket@) == badge_bucket(entries.take(k as int)),
        decreases ranges@.len() - k,
    {
        let (a, b) = ranges[k];
        let parts = split_ranges(chars, a, b, '/');
        let ghost before = bucket@;
        if parts.len() >= 2 {
            let (na, nb) = parts[0];
            let (va, vb) = parts[1];
            let name = slice_string(text, na, nb);
            let value = slice_string(text, va, vb);
            bucket.insert(name, value);
            assert(text_map(bucket@) =~= text_map(before).insert(name@, value@));
        }
        proof {
            assert(entries.take(k + 1).drop_last() =~= entries.take(k as int));
            assert(entries.take(k + 1).last() == entries[k as int]);
        }
        k += 1;
    }
    assert(entries.take(k as int) =~= entries);
    bucket
}

impl Tags {
    /// Reads the text of a tag prefix, without the `@` in front of it and
    /// the space behind it. Values are kept as they are written: no escape
    /// sequence is decoded and no white space is taken off.
    pub fn new(tags: &str) -> (t: Self)
        ensures
            t@ == parse_tags(tags@),
    {
        let chars = chars_of(tags);
        let ghost tokens = split(tags@, ';');
        assert(chars@.subrange(0, chars@.len() as int) =~= tags@);
        let ranges = split_ranges(&chars, 0, chars.len(), ';');
        let badges_key: String = "badges".to_owned();
        let info_key: String = "badge-info".to_owned();
        let mut t = Tags::empty();
        assert(t@ == tags_onto(no_tags(), tokens.take(0)));
        let mut k: usize = 0;
        while k < ranges.len()
            invariant
                chars@ == tags@,
                badges_key@ == "badges"@,
                info_key@ == "badge-info"@,
                k <= ranges@.len(),
                ranges_cut(chars@, ranges@, tokens),
                t@ == tags_onto(no_tags(), tokens.take(k as int)),
            decreases ranges@.len() - k,
        {
            let (a, b) = ranges[k];
            let e = find_in(&chars, a, b, '=');
            let ghost before = t;
            let ghost token = chars@.subrange(a as int, b as int);
            if e < b {
                let key = slice_string(tags, a, e);
                assert(key@ =~= token.take(e - a));
                assert(chars@.subrange(e + 1, b as int) =~= token.skip(e - a + 1));
                if key == badges_key || key == info_key {
                    let bucket = parse_badges(tags, &chars, e + 1, b);
                    t.badges.insert(key, bucket);
                    assert(t@.badges =~= before@.badges.insert(key@, text_map(bucket@)));
                } else {
                    let value = slice_string(tags, e + 1, b);
                    t.tags.insert(key, value);
                    assert(t@.tags =~= before@.tags.insert(key@, value@));
                }
            }
            proof {
                assert(tokens.take(k + 1).drop_last() =~= tokens.take(k as int));
                assert(tokens.take(k + 1).last() == tokens[k as int]);
            }
            k += 1;
        }
        assert(tokens.take(k as int) =~= tokens);
        t
    }

    /// The tag set of a line without a tag prefix.
    pub fn empty() -> (t: Self)
        ensures
            t@ == no_tags(),
    {
        let t = Self { tags: StringHashMap::new(), badges: StringHashMap::new() };
        assert(t@.tags =~= no_tags().tags);
        assert(t@.badges =~= no_tags().badges);
        t
    }
}

/// The mathematical value of a `ChatMessage`.
pub struct MessageView {
    pub user: Seq<char>,
    pub room: Seq<char>,
    pub message: Seq<char>,
    pub kind: MessageType,
    pub tags: TagsView,
}

/// One parsed inbound line.
pub struct ChatMessage {
    /// The name of the sender; empty where the line names none.
    pub user: String,
    /// The room of a chat message, as the line writes it (with its `#`);
    /// empty for any other line.
    pub room: String,
    /// The trailing payload; empty where the line has none.
    pub message: String,
    pub kind: MessageType,
    pub tags: Tags,
}

impl View for ChatMessage {
    type V = MessageView;

    open spec fn view(&self) -> MessageView {
        MessageView {
            user: self.user@,
            room: self.room@,
            message: self.message@,
            kind: self.kind,
            tags: self.tags@,
        }
    }
}

/// How many characters of `line` the tag prefix takes, the `@` in front and
/// the space behind it included: 0 unless the line starts with `@` and holds
/// a space.
pub open spec fn tag_prefix_len(line: Seq<char>) -> int {
    let sp = find(line, ' ');
    if line.len() > 0 && line[0] == '@' && sp < line.len() {
        sp + 1
    } else {
        0
    }
}

/// The tags of `line`: those of the text between the `@` and the first
/// space, or none where the line has no tag prefix.
pub open spec fn line_tags(line: Seq<char>) -> TagsView {
    if tag_prefix_len(line) > 0 {
        parse_tags(line.subrange(1, find(line, ' ')))
    } else {
        no_tags()
    }
}

/// Whether `rest`, a line without its tag prefix, names a sender: it holds
/// a colon and a space, and its first space stands behind its first colon.
pub open spec fn has_sender(rest: Seq<char>) -> bool {
    find(rest, ':') < find(rest, ' ') < rest.len()
}

/// The name of the sender: of what stands between the first colon and the
/// first space, the part before the first `!`. Empty where no sender is
/// named.
pub open spec fn sender(rest: Seq<char>) -> Seq<char> {
    if has_sender(rest) {
        split(rest.subrange(find(rest, ':') + 1, find(rest, ' ')), '!')[0]
    } else {
        Seq::empty()
    }
}

/// What is left of `rest` behind the sender: it starts with the space that
/// ends the sender. All of `rest` where no sender is named.
pub open spec fn after_sender(rest: Seq<char>) -> Seq<char> {
    if has_sender(rest) {
        rest.skip(find(rest, ' '))
    } else {
        rest
    }
}

/// The words of the command section: what stands before the first colon of
/// `tail`, without the white space at its ends, cut at each space.
pub open spec fn command_words(tail: Seq<char>) -> Seq<Seq<char>> {
    split(trim(tail.take(find(tail, ':'))), ' ')
}

/// The classification that a command word stands for.
pub open spec fn kind_of(word: Seq<char>) -> MessageType {
    if word == "PRIVMSG"@ {
        MessageType::PRIVMSG
    } else if word == "PING"@ {
        MessageType::PING
    } else {
        MessageType::NONE
    }
}

/// The message that a raw line denotes. Read from left to right: the tag
/// prefix, the sender, the command section up to the first colon behind
/// them, and the payload behind that colon. A line without such a colon has
/// no payload, no room and no classification.
pub open spec fn parse_line(line: Seq<char>) -> MessageView {
    let rest = line.skip(tag_prefix_len(line));
    let tail = after_sender(rest);
    let colon = find(tail, ':');
    let words = command_words(tail);
    if colon < tail.len() {
        MessageView {
            user: sender(rest),
            room: if kind_of(words[0]) == MessageType::PRIVMSG && words.len() >= 2 {
                words[1]
            } else {
                Seq::empty()
            },
            message: tail.skip(colon + 1),
            kind: kind_of(words[0]),
            tags: line_tags(line),
        }
    } else {
        MessageView {
            user: sender(rest),
            room: Seq::empty(),
            message: Seq::empty(),
            kind: MessageType::NONE,
            tags: line_tags(line),
        }
    }
}

/// The line that answers a chat message in its thread.
pub open spec fn reply_line(id: Seq<char>, room: Seq<char>, text: Seq<char>) -> Seq<char> {
    "@reply-parent-msg-id="@ + id + " PRIVMSG "@ + room + " :"@ + text + "\r\n"@
}

/// Only a chat message has a room, and a line without a payload has no
/// classification.
pub proof fn lemma_message_shape(line: Seq<char>)
    ensures
        parse_line(line).kind != MessageType::PRIVMSG ==> parse_line(line).room == Seq::<char>::empty(),
        parse_line(line).kind != MessageType::NONE ==> ({
            let tail = after_sender(line.skip(tag_prefix_len(line)));
            &&& find(tail, ':') < tail.len()
            &&& parse_line(line).message == tail.skip(find(tail, ':') + 1)
        }),
{
}

/// Parsing keeps no state: two messages read from the same line are the
/// same, field for field.
pub proof fn lemma_same_line_same_message(first: ChatMessage, second: ChatMessage, line: Seq<char>)
    requires
        first@ == parse_line(line),
        second@ == parse_line(line),
    ensures
        first@ == second@,
        first.user@ == second.user@,
        first.room@ == second.room@,
        first.message@ == second.message@,
        first.kind == second.kind,
        first.tags@ == second.tags@,
{
}

impl ChatMessage {
    /// The line to write in reply to this message with the text `msg`.
    ///
    /// Only a chat message is replied to: for any other message there is
    /// nothing to write, which is no error. The reply names the message by
    /// its `id` tag; a chat message without that tag gets
    /// `ChatError::ReplyPreconditionUnmet`. The room is written as the message holds it.
    pub fn reply(&self, msg: &str) -> (r: Result<Option<String>, ChatError>)
        ensures
            self.kind != MessageType::PRIVMSG ==> r == Ok::<Option<String>, ChatError>(None),
            self.kind == MessageType::PRIVMSG && !self@.tags.tags.contains_key("id"@) ==> r == Err::<
                Option<String>,
                ChatError,
            >(ChatError::ReplyPreconditionUnmet),
            self.kind == MessageType::PRIVMSG && self@.tags.tags.contains_key("id"@) ==> r is Ok
                && r->Ok_0 is Some && r->Ok_0->Some_0@ == reply_line(
                self@.tags.tags["id"@],
                self.room@,
                msg@,
            ),
    {
        match self.kind {
            MessageType::PRIVMSG => {
                match self.tags.tags.get("id") {
                    Some(id) => {
                        let mut line: String = "@reply-parent-msg-id=".to_owned();
                        line.append(id.as_str());
                        line.append(" PRIVMSG ");
                        line.append(self.room.as_str());
                        line.append(" :");
                        line.append(msg);
                        line.append("\r\n");
                        Ok(Some(line))
                    },
                    None => Err(ChatError::ReplyPreconditionUnmet),
                }
            },
            _ => Ok(None),
        }
    }

    /// Parses one raw line, without its line terminator. Every line gives a
    /// message: what a line lacks is left empty, and a line that is not
    /// understood has the kind `NONE`.
    pub fn new(message: &str) -> (msg: Self)
        ensures
            msg@ == parse_line(message@),
    {
        let chars = chars_of(message);
        let (tags, start) = read_tags(message, &chars);
        let (user, pos) = read_sender(message, &chars, start);
        let (kind, room, payload) = read_command(message, &chars, pos);
        ChatMessage { user, room, message: payload, kind, tags }
    }
}

/// The tags of the line and the index at which the rest of it starts.
fn read_tags(message: &str, chars: &Vec<char>) -> (r: (Tags, usize))
    requires
        chars@ == message@,
    ensures
        r.1 == tag_prefix_len(message@),
        r.1 <= chars@.len(),
        r.0@ == line_tags(message@),
{
    let n: usize = chars.len();
    assert(chars@.subrange(0, n as int) =~= message@);
    if n > 0 && chars[0] == '@' {
        let sp = find_in(chars, 0, n, ' ');
        if sp < n {
            proof {
                lemma_find(message@, ' ');
            }
            let tags = Tags::new(message.substring_char(1, sp));
            return (tags, sp + 1);
        }
    }
    (Tags::empty(), 0)
}

/// The name of the sender in `chars[start..]` and the index at which what
/// follows the sender starts.
fn read_sender(message: &str, chars: &Vec<char>, start: usize) -> (r: (String, usize))
    requires
        chars@ == message@,
        start <= chars@.len(),
    ensures
        r.0@ == sender(message@.skip(start as int)),
        start <= r.1 <= chars@.len(),
        message@.skip(r.1 as int) == after_sender(message@.skip(start as int)),
{
    let n: usize = chars.len();
    let ghost rest = message@.skip(start as int);
    assert(chars@.subrange(start as int, n as int) =~= rest);
    let colon = find_in(chars, start, n, ':');
    let sp = find_in(chars, start, n, ' ');
    if colon < sp && sp < n {
        let bang = find_in(chars, colon + 1, sp, '!');
        let user = slice_string(message, colon + 1, bang);
        proof {
            let source = rest.subrange(colon - start + 1, sp - start);
            assert(chars@.subrange(colon + 1, sp as int) =~= source);
            lemma_split_first(source, '!');
            assert(user@ =~= source.take(find(source, '!')));
            assert(message@.skip(sp as int) =~= rest.skip(sp - start));
        }
        (user, sp)
    } else {
        (String::new(), start)
    }
}

/// The classification, the room and the payload that `chars[pos..]` holds.
fn read_command(message: &str, chars: &Vec<char>, pos: usize) -> (r: (MessageType, String, String))
    requires
        chars@ == message@,
        pos <= chars@.len(),
    ensures
        ({
            let tail = message@.skip(pos as int);
            let colon = find(tail, ':');
            let words = command_words(tail);
            if colon < tail.len() {
                &&& r.0 == kind_of(words[0])
                &&& r.1@ == if kind_of(words[0]) == MessageType::PRIVMSG && words.len() >= 2 {
                    words[1]
                } else {
                    Seq::empty()
                }
                &&& r.2@ == tail.skip(colon + 1)
            } else {
                &&& r.0 == MessageType::NONE
                &&& r.1@ == Seq::<char>::empty()
                &&& r.2@ == Seq::<char>::empty()
            }
        }),
{
    let n: usize = chars.len();
    let ghost tail = message@.skip(pos as int);
    assert(chars@.subrange(pos as int, n as int) =~= tail);
    let mut room = String::new();
    let mut kind = MessageType::NONE;
    let end = find_in(chars, pos, n, ':');
    if end < n {
        let (lo, hi) = trim_range(chars, pos, end);
        assert(chars@.subrange(pos as int, end as int) =~= tail.take(end - pos));
        let words = split_ranges(chars, lo, hi, ' ');
        proof {
            lemma_split_first(trim(tail.take(end - pos)), ' ');
        }
        let (a, b) = words[0];
        let word = slice_string(message, a, b);
        if word == "PRIVMSG".to_owned() {
            kind = MessageType::PRIVMSG;
            if words.len() >= 2 {
                let (ra, rb) = words[1];
                room = slice_string(message, ra, rb);
            }
        } else if word == "PING".to_owned() {
            kind = MessageType::PING;
        }
        let payload = slice_string(message, end + 1, n);
        assert(payload@ =~= tail.skip(end - pos + 1));
        (kind, room, payload)
    } else {
        (kind, room, String::new())
    }
}

} // verus!
