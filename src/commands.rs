//! The decisions behind chat commands: which command a message asks for,
//! whether to greet, and what a `!put` request names.

use crate::channel::{channel_id, SlackChannel};
use crate::text::{contains_text, find_char, has_infix, has_prefix, same_text, starts_with};
use vstd::prelude::*;
use vstd::string::*;

verus! {

/// The command a message asks for.
#[derive(Clone, Copy, Debug, PartialEq, Eq, Structural)]
pub enum Command {
    /// Record a link: `!put <url>`.
    Put,
    /// List the latest records: `!last`.
    Last,
    /// Nothing to do.
    Ignore,
}

/// What to do about one chat message.
#[derive(Clone, Copy, Debug, PartialEq, Eq, Structural)]
pub struct MessageAction {
    pub command: Command,
    /// Whether to answer a greeting addressed to the bot.
    pub greet: bool,
}

/// Whether commands are taken in the channel with this identifier.
pub open spec fn takes_commands(channel: Seq<char>) -> bool {
    channel == channel_id(SlackChannel::Library) || channel == channel_id(SlackChannel::BattleBots)
}

/// The command a message in `channel` asks for.
pub open spec fn command_of(channel: Seq<char>, text: Seq<char>) -> Command {
    if !takes_commands(channel) {
        Command::Ignore
    } else if has_prefix(text, "!put "@) {
        Command::Put
    } else if has_prefix(text, "!last"@) {
        Command::Last
    } else {
        Command::Ignore
    }
}

/// The greeting addressed to the bot: `<@id> hi`.
pub open spec fn greeting_of(bot_id: Seq<char>) -> Seq<char> {
    "<@"@ + bot_id + "> hi"@
}

/// The greeting addressed to the bot with identifier `bot_id`.
pub fn greeting(bot_id: &str) -> (r: String)
    ensures
        r@ == greeting_of(bot_id@),
{
    let mut r = String::from_str("<@");
    r.append(bot_id);
    r.append("> hi");
    r
}

/// Decides what to do about a message with `text` in `channel`, for the bot
/// with identifier `bot_id`.
pub fn classify_message(channel: &str, text: &str, bot_id: &str) -> (r: MessageAction)
    ensures
        r.command == command_of(channel@, text@),
        r.greet == (has_infix(text@, bot_id@) && has_infix(text@, greeting_of(bot_id@))),
{
    let mut command = Command::Ignore;
    if same_text(channel, SlackChannel::Library.id()) || same_text(channel, SlackChannel::BattleBots.id()) {
        if starts_with(text, "!put ") {
            command = Command::Put;
        } else if starts_with(text, "!last") {
            command = Command::Last;
        }
    }
    let mut greet = false;
    if contains_text(text, bot_id) {
        let pattern = greeting(bot_id);
        greet = contains_text(text, pattern.as_str());
    }
    MessageAction { command, greet }
}

/// A message shown as a code block.
pub fn code_block(msg: &str) -> (r: String)
    ensures
        r@ == "```"@ + msg@ + "```"@,
{
    let mut r = String::from_str("```");
    r.append(msg);
    r.append("```");
    r
}

/// The position of the first `c` in `u`, where there is one.
pub open spec fn first_index(u: Seq<char>, c: char) -> int {
    choose|k: int| 0 <= k < u.len() && u[k] == c && !u.subrange(0, k).contains(c)
}

/// The first `c` in `u` is the one at `k`.
proof fn lemma_first_index(u: Seq<char>, c: char, k: int)
    requires
        0 <= k < u.len(),
        u[k] == c,
        !u.subrange(0, k).contains(c),
    ensures
        first_index(u, c) == k,
{
    assert(exists|k: int| 0 <= k < u.len() && u[k] == c && !u.subrange(0, k).contains(c));
    let j = first_index(u, c);
    if j < k {
        assert(u.subrange(0, k)[j] == c);
    } else if j > k {
        assert(u.subrange(0, j)[k] == c);
    }
}

/// The number of `c` in `s`.
pub open spec fn count_char(s: Seq<char>, c: char) -> nat
    decreases s.len(),
{
    if s.len() == 0 {
        0
    } else {
        count_char(s.drop_last(), c) + if s.last() == c {
            1nat
        } else {
            0nat
        }
    }
}

/// A text without `c` counts none.
proof fn lemma_count_absent(s: Seq<char>, c: char)
    requires
        !s.contains(c),
    ensures
        count_char(s, c) == 0,
    decreases s.len(),
{
    if s.len() > 0 {
        assert(!s.drop_last().contains(c)) by {
            if s.drop_last().contains(c) {
                let j = choose|j: int| 0 <= j < s.drop_last().len() && s.drop_last()[j] == c;
                assert(s[j] == c);
            }
        }
        lemma_count_absent(s.drop_last(), c);
        assert(s[s.len() - 1] != c);
    }
}

/// The address inside chat link markup: `<http://a|a>` and `<http://a>`
/// both give `http://a`; a single character is kept as it is.
pub open spec fn slack_url_target(u: Seq<char>) -> Seq<char> {
    if u.len() == 1 {
        u
    } else if u.contains('|') {
        u.subrange(1, first_index(u, '|'))
    } else {
        u.subrange(1, u.len() - 1)
    }
}

/// Whether link markup can be unwrapped: it is not empty, and does not
/// start with the `|` that would end the address before it began.
pub open spec fn slack_url_readable(u: Seq<char>) -> bool {
    u.len() >= 1 && (u.len() > 1 && u.contains('|') ==> u[0] != '|')
}

/// Unwraps the address from chat link markup.
pub fn parse_slack_url(url: &str) -> (r: &str)
    requires
        slack_url_readable(url@),
    ensures
        r@ == slack_url_target(url@),
{
    let n = url.unicode_len();
    if n == 1 {
        return url;
    }
    match find_char(url, '|') {
        Some(k) => {
            proof {
                assert(url@.contains('|'));
                lemma_first_index(url@, '|', k as int);
            }
            url.substring_char(1, k)
        },
        None => url.substring_char(1, n - 1),
    }
}

/// The address a `!put` request names, as the parser of URLs writes it, or
/// `None` where it does not read as a URL.
pub uninterp spec fn url_parse_of(s: Seq<char>) -> Option<Seq<char>>;

/// Relies on `url::Url::parse` (with `String::from(Url)`): the address in
/// its serialized form, or `None` when parsing fails; the outcome depends on
/// the text alone.
#[verifier::external_body]
fn parse_url(s: &str) -> (r: Option<String>)
    ensures
        r matches Some(u) ==> url_parse_of(s@) == Some(u@),
        r is None ==> url_parse_of(s@) is None,
{
    url::Url::parse(s).ok().map(String::from)
}

/// What a `!put` message asks for.
#[derive(Clone, Debug, PartialEq, Eq)]
pub enum PutRequest {
    /// Record this address.
    Url(String),
    /// The message does not have exactly two space-separated parts; it has
    /// this many (counted up to `usize::MAX`).
    WrongPartCount(usize),
    /// The second part does not read as an address.
    NotAUrl(String),
}

/// The number of `' '`-separated parts of `s`.
pub open spec fn part_count(s: Seq<char>) -> nat {
    count_char(s, ' ') + 1
}

/// `n`, or `usize::MAX` where `n` is larger.
pub open spec fn saturated(n: nat) -> nat {
    if n > usize::MAX {
        usize::MAX as nat
    } else {
        n
    }
}

/// What a `!put` message with text `text` asks for.
pub open spec fn put_request_of(text: Seq<char>) -> PutRequestView {
    if part_count(text) != 2 {
        PutRequestView::WrongPartCount(saturated(part_count(text)))
    } else {
        let arg = text.subrange(first_index(text, ' ') + 1, text.len() as int);
        if !slack_url_readable(arg) {
            PutRequestView::NotAUrl(arg)
        } else {
            match url_parse_of(slack_url_target(arg)) {
                Some(u) => PutRequestView::Url(u),
                None => PutRequestView::NotAUrl(arg),
            }
        }
    }
}

/// A `!put` request as values.
pub enum PutRequestView {
    Url(Seq<char>),
    WrongPartCount(nat),
    NotAUrl(Seq<char>),
}

impl View for PutRequest {
    type V = PutRequestView;

    open spec fn view(&self) -> PutRequestView {
        match self {
            PutRequest::Url(u) => PutRequestView::Url(u@),
            PutRequest::WrongPartCount(n) => PutRequestView::WrongPartCount(*n as nat),
            PutRequest::NotAUrl(s) => PutRequestView::NotAUrl(s@),
        }
    }
}

/// Reads a `!put` message: exactly two space-separated parts, the second
/// being an address, bare or in chat link markup.
pub fn parse_put_text(text: &str) -> (r: PutRequest)
    ensures
        r@ == put_request_of(text@),
{
    let n = text.unicode_len();
    let mut parts: usize = 1;
    let mut i: usize = 0;
    while i < n
        invariant
            n == text@.len(),
            i <= n,
            parts == saturated(part_count(text@.subrange(0, i as int))),
        decreases n - i,
    {
        proof {
            let s = text@.subrange(0, i + 1);
            assert(s.drop_last() =~= text@.subrange(0, i as int));
        }
        if text.get_char(i) == ' ' && parts < usize::MAX {
            parts = parts + 1;
        }
        i = i + 1;
    }
    assert(text@.subrange(0, n as int) =~= text@);
    if parts != 2 {
        return PutRequest::WrongPartCount(parts);
    }
    let k = match find_char(text, ' ') {
        Some(k) => k,
        None => {
            proof {
                lemma_count_absent(text@, ' ');
            }
            return PutRequest::WrongPartCount(parts);
        },
    };
    proof {
        lemma_first_index(text@, ' ', k as int);
    }
    let arg = text.substring_char(k + 1, n);
    let an = arg.unicode_len();
    if an == 0 {
        return PutRequest::NotAUrl(String::from_str(arg));
    }
    if an > 1 && arg.get_char(0) == '|' {
        return PutRequest::NotAUrl(String::from_str(arg));
    }
    let target = parse_slack_url(arg);
    match parse_url(target) {
        Some(u) => PutRequest::Url(u),
        None => PutRequest::NotAUrl(String::from_str(arg)),
    }
}

/// A chat user as the directory describes them.
#[derive(Clone, Debug, PartialEq, Eq)]
pub struct SlackUser {
    pub name: Option<String>,
    pub real_name: Option<String>,
}

/// What the directory answered about a user.
#[derive(Clone, Debug, PartialEq, Eq)]
pub struct UserInfo {
    pub user: Option<SlackUser>,
}

/// The handle of the user that `info` describes, if the lookup succeeded.
pub fn get_user_handle(info: Option<UserInfo>) -> (r: Option<String>)
    requires
        info matches Some(i) ==> i.user is Some,
    ensures
        info is None ==> r is None,
        info matches Some(i) ==> r == i.user->Some_0.name,
{
    match info {
        Some(i) => match i.user {
            Some(u) => u.name,
            None => None,
        },
        None => None,
    }
}

/// The real name of the user that `info` describes, if the lookup succeeded.
pub fn get_user_real_name(info: Option<UserInfo>) -> (r: Option<String>)
    requires
        info matches Some(i) ==> i.user matches Some(u) && u.real_name is Some,
    ensures
        info is None ==> r is None,
        info matches Some(i) ==> r == i.user->Some_0.real_name,
{
    match info {
        Some(i) => match i.user {
            Some(u) => u.real_name,
            None => None,
        },
        None => None,
    }
}

} // verus!
