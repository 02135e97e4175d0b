//! The data shapes of decoded API responses and of inbound queue
//! events. Decoding itself happens outside the library; these types
//! carry the decoded values.

use vstd::prelude::*;

verus! {

/// An event received from the message queue.
#[derive(Debug, Clone)]
pub struct Event {
    pub event: i64,
    pub time: u64,
    pub actor: Option<String>,
    pub receptor: Option<String>,
    pub origin: Option<String>,
    pub destination: Option<String>,
    pub category: String,
    pub data: Vec<String>,
}

/// The root of a World Assembly member-list response: the members as
/// one comma-separated string.
pub struct WaMemberRoot {
    pub members: String,
}

/// The root of a message-board response.
pub struct RmbRoot {
    pub messages: Messages,
}

/// The message list of a message-board response.
#[derive(Debug)]
pub struct Messages {
    pub posts: Vec<Post>,
}

/// The moderation state of a message-board post. The wire encodes it
/// as a number; see [`PostStatus::code`].
#[derive(Debug, Clone, Copy, PartialEq, Eq, Structural)]
pub enum PostStatus {
    Regular,
    Suppressed,
    SelfDeleted,
    ModDeleted,
}

impl PostStatus {
    /// The number the wire uses for this state.
    pub fn code(&self) -> (r: u8)
        ensures
            *self is Regular ==> r == 0,
            *self is Suppressed ==> r == 1,
            *self is SelfDeleted ==> r == 2,
            *self is ModDeleted ==> r == 9,
    {
        match self {
            PostStatus::Regular => 0,
            PostStatus::Suppressed => 1,
            PostStatus::SelfDeleted => 2,
            PostStatus::ModDeleted => 9,
        }
    }

    /// The state a wire number denotes, where it denotes one.
    pub fn from_code(code: u8) -> (r: Option<PostStatus>)
        ensures
            code == 0 ==> r == Some(PostStatus::Regular),
            code == 1 ==> r == Some(PostStatus::Suppressed),
            code == 2 ==> r == Some(PostStatus::SelfDeleted),
            code == 9 ==> r == Some(PostStatus::ModDeleted),
            code != 0 && code != 1 && code != 2 && code != 9 ==> r is None,
    {
        match code {
            0 => Some(PostStatus::Regular),
            1 => Some(PostStatus::Suppressed),
            2 => Some(PostStatus::SelfDeleted),
            9 => Some(PostStatus::ModDeleted),
            _ => None,
        }
    }
}

/// The index of the first comma at or after `i`, or the end.
pub open spec fn sep_end(s: Seq<char>, i: int) -> int
    decreases s.len() - i,
{
    if i < 0 || i >= s.len() {
        s.len() as int
    } else if s[i] == ',' {
        i
    } else {
        sep_end(s, i + 1)
    }
}

proof fn lemma_sep_end_bounds(s: Seq<char>, i: int)
    requires
        0 <= i <= s.len(),
    ensures
        i <= sep_end(s, i) <= s.len(),
    decreases s.len() - i,
{
    if i < s.len() && s[i] != ',' {
        lemma_sep_end_bounds(s, i + 1);
    }
}

proof fn lemma_sep_end_is(s: Seq<char>, i: int, j: int)
    requires
        0 <= i <= j <= s.len(),
        forall|k: int| i <= k < j ==> s[k] != ',',
        j == s.len() || s[j] == ',',
    ensures
        sep_end(s, i) == j,
    decreases j - i,
{
    if i < j {
        lemma_sep_end_is(s, i + 1, j);
    }
}

/// The pieces of a text cut at every comma, commas dropped; a text
/// with no comma is one piece, and an empty text one empty piece.
pub open spec fn split_commas(s: Seq<char>) -> Seq<Seq<char>>
    decreases s.len(),
    via split_commas_decreases
{
    let p = sep_end(s, 0);
    if p == s.len() {
        seq![s]
    } else {
        seq![s.take(p)] + split_commas(s.skip(p + 1))
    }
}

#[via_fn]
proof fn split_commas_decreases(s: Seq<char>) {
    lemma_sep_end_bounds(s, 0);
}

/// Cuts a comma-separated member list into its entries, in order.
pub fn split_members(s: &str) -> (r: Vec<String>)
    ensures
        r.deep_view() == split_commas(s@),
{
    let n = s.unicode_len();
    let mut out: Vec<String> = Vec::new();
    let mut start: usize = 0;
    let mut i: usize = 0;
    proof {
        assert(s@.skip(0) =~= s@);
        assert(out.deep_view() + split_commas(s@.skip(0)) =~= split_commas(s@));
    }
    loop
        invariant_except_break
            out.deep_view() + split_commas(s@.skip(start as int)) =~= split_commas(s@),
        invariant
            start <= i <= n,
            n == s@.len(),
            forall|k: int| start <= k < i ==> s@[k] != ',',
        ensures
            out.deep_view() =~= split_commas(s@),
        decreases n - i,
    {
        if i == n {
            let tok = String::from_str(s.substring_char(start, i));
            let ghost pre = out.deep_view();
            out.push(tok);
            proof {
                let rest = s@.skip(start as int);
                assert forall|k: int| 0 <= k < rest.len() implies rest[k] != ',' by {
                    assert(rest[k] == s@[k + start]);
                }
                lemma_sep_end_is(rest, 0, rest.len() as int);
                assert(split_commas(rest) == seq![rest]);
                assert(tok@ =~= rest);
                assert(out.deep_view() =~= pre.push(tok@));
                assert(pre.push(rest) =~= pre + seq![rest]);
                assert(out.deep_view() =~= split_commas(s@));
            }
            break;
        }
        let c = s.get_char(i);
        if c == ',' {
            let tok = String::from_str(s.substring_char(start, i));
            let ghost pre = out.deep_view();
            out.push(tok);
            proof {
                let rest = s@.skip(start as int);
                assert forall|k: int| 0 <= k < i - start implies rest[k] != ',' by {
                    assert(rest[k] == s@[k + start]);
                }
                assert(rest[i - start] == s@[i as int]);
                lemma_sep_end_is(rest, 0, i - start);
                assert(split_commas(rest) == seq![rest.take(i - start)] + split_commas(
                    rest.skip(i - start + 1),
                ));
                assert(rest.skip(i - start + 1) =~= s@.skip(i + 1));
                assert(tok@ =~= rest.take(i - start));
                assert(out.deep_view() =~= pre.push(tok@));
                assert(out.deep_view() + split_commas(s@.skip(i + 1)) =~= pre + (seq![
                    rest.take(i - start),
                ] + split_commas(rest.skip(i - start + 1))));
                assert(pre + split_commas(rest) =~= split_commas(s@));
                assert(out.deep_view() + split_commas(s@.skip(i + 1)) =~= split_commas(s@));
            }
            start = i + 1;
        }
        i = i + 1;
    }
    out
}

/// One message-board post.
#[derive(Debug)]
pub struct Post {
    pub id: String,
    pub timestamp: u64,
    pub nation: String,
    pub status: PostStatus,
    pub likes: u64,
    pub likers: Option<String>,
    pub embassy: Option<String>,
    pub suppressor: Option<String>,
    pub message: Option<String>,
}

} // verus!
