//! The identifying user-agent the API's terms require: program,
//! version, author, and the operating user's canonical nation name.

use vstd::prelude::*;
use crate::format::{canon_seq, canonicalize_name};

verus! {

/// Who is calling the API: the program, its version and author, and
/// the user it acts for, kept in canonical name form.
#[derive(Clone)]
pub struct UserAgent {
    pub program: &'static str,
    pub version: &'static str,
    pub author: &'static str,
    pub user: String,
}

impl UserAgent {
    /// Builds the agent, canonicalizing the user's name.
    pub fn new(program: &'static str, version: &'static str, author: &'static str, user: &str) -> (r:
        UserAgent)
        ensures
            r.program@ == program@,
            r.version@ == version@,
            r.author@ == author@,
            r.user@ == canon_seq(user@),
    {
        UserAgent { program, version, author, user: canonicalize_name(user) }
    }

    /// The agent line sent with API requests.
    pub fn api(&self) -> (r: String)
        ensures
            r@ == self.program@ + "/"@ + self.version@ + " by "@ + self.author@ + ", in use by "@
                + self.user@,
    {
        let mut out = String::from_str(self.program);
        out.append("/");
        out.append(self.version);
        out.append(" by ");
        out.append(self.author);
        out.append(", in use by ");
        out.append(self.user.as_str());
        out
    }

    /// The agent form used in page URLs, with no spaces.
    pub fn web(&self) -> (r: String)
        ensures
            r@ == self.program@ + "__"@ + self.version@ + "__by_"@ + self.author@ + "__usedBy_"@
                + self.user@,
    {
        let mut out = String::from_str(self.program);
        out.append("__");
        out.append(self.version);
        out.append("__by_");
        out.append(self.author);
        out.append("__usedBy_");
        out.append(self.user.as_str());
        out
    }
}

} // verus!
