//! The streaming cosmetic prefix put in front of a member's display name
//! while they stream. The presence plumbing lives outside this crate; here
//! stand the pure name computations, which the nickname lottery also uses to
//! preserve the prefix when it renames someone mid-stream.

use vstd::prelude::*;

verus! {

/// The prefix marking a streaming member's display name.
pub const STREAMING_PREFIX: &'static str = "\u{1F534} ";

/// The prefix as a character sequence: a red circle and a space.
pub open spec fn streaming_prefix() -> Seq<char> {
    seq!['\u{1F534}', ' ']
}

/// Whether a display name starts with the streaming prefix.
pub open spec fn has_streaming_prefix(s: Seq<char>) -> bool {
    s.len() >= 2 && s[0] == '\u{1F534}' && s[1] == ' '
}

/// The marked form of a name: the prefix, then the name's first thirty
/// characters.
pub open spec fn marked_spec(s: Seq<char>) -> Seq<char> {
    streaming_prefix() + s.take(if s.len() > 30 {
        30int
    } else {
        s.len() as int
    })
}

/// The nickname bookkeeping around streaming: marking a name when a stream
/// starts and unmarking it when it ends.
pub struct StreamIndicator;

impl StreamIndicator {
    /// Whether a display name carries the streaming prefix.
    pub fn is_marked(nick: &String) -> (r: bool)
        ensures
            r == has_streaming_prefix(nick@),
    {
        let s = nick.as_str();
        s.unicode_len() >= 2 && s.get_char(0) == '\u{1F534}' && s.get_char(1) == ' '
    }

    /// Mark a name: the prefix followed by the name truncated to thirty
    /// characters.
    pub fn marked(nick: &String) -> (r: String)
        ensures
            r@ == marked_spec(nick@),
    {
        let s = nick.as_str();
        let n = s.unicode_len();
        let keep = if n > 30 {
            30
        } else {
            n
        };
        let body = s.substring_char(0, keep);
        let mut out = prefix_string();
        out.append(body);
        out
    }

    /// Unmark a name: drop the two prefix characters.
    pub fn unmarked(nick: &String) -> (r: String)
        requires
            has_streaming_prefix(nick@),
        ensures
            r@ == nick@.skip(2),
    {
        let s = nick.as_str();
        let n = s.unicode_len();
        let body = s.substring_char(2, n);
        proof {
            assert(nick@.subrange(2, nick@.len() as int) =~= nick@.skip(2));
        }
        String::from_str(body)
    }
}

/// The streaming prefix as an owned string, with its characters known.
pub fn prefix_string() -> (r: String)
    ensures
        r@ == streaming_prefix(),
{
    proof {
        reveal_strlit("\u{1F534} ");
        assert(STREAMING_PREFIX@.len() == 2);
    }
    let r = String::from_str(STREAMING_PREFIX);
    proof {
        assert(r@ =~= streaming_prefix());
    }
    r
}

} // verus!
