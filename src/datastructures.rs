//! Webhook events, the messages written for them, the responses sent back,
//! query-token authorization, and the unit of work handed to delivery.

use vstd::prelude::*;
use crate::text::{
    after_last, before_first, chars_of, copy_range, decimal, find_first, first_index_of,
    lemma_first_index_bounds, lemma_split_on_nonempty, prefix_chars, push_decimal, range_equals,
    split_after_last, split_before_first, split_on,
};

verus! {

/// The version reported in every response.
pub const SERVER_VERSION: &'static str = "1.0.0";

/// Events that name their repository and the branch they happened on.
pub trait DisplayableEvent {
    spec fn spec_full_name(&self) -> Seq<char>;

    spec fn spec_branch_name(&self) -> Seq<char>;

    fn get_full_name(&self) -> (r: &String)
        ensures
            r@ == self.spec_full_name(),
    ;

    fn branch_name(&self) -> (r: String)
        ensures
            r@ == self.spec_branch_name(),
    ;
}

/// The repository an event belongs to.
#[derive(Debug, Clone)]
pub struct Repository {
    pub full_name: String,
}

impl Repository {
    pub fn full_name(&self) -> (r: &String)
        ensures
            r@ == self.full_name@,
    {
        &self.full_name
    }
}

/// The first look at a body: only the repository, to pick its secret.
#[derive(Debug, Clone)]
pub struct GitHubEarlyParse {
    pub repository: Repository,
}

impl GitHubEarlyParse {
    pub fn repository(&self) -> (r: &Repository)
        ensures
            r.full_name@ == self.repository.full_name@,
    {
        &self.repository
    }

    pub fn get_full_name(&self) -> (r: &String)
        ensures
            r@ == self.repository.full_name@,
    {
        &self.repository.full_name
    }
}

/// A `ping` event, sent when a webhook is set up.
#[derive(Debug, Clone)]
pub struct GitHubPingEvent {
    pub zen: String,
}

impl GitHubPingEvent {
    pub fn zen(&self) -> (r: &str)
        ensures
            r@ == self.zen@,
    {
        self.zen.as_str()
    }
}

/// One commit of a push.
#[derive(Debug, Clone)]
pub struct Commit {
    pub id: String,
    pub message: String,
    pub url: String,
}

/// The commit id as shown: its first eight characters, or all of it when shorter.
pub open spec fn short_id(id: Seq<char>) -> Seq<char> {
    id.take(if id.len() < 8 { id.len() as int } else { 8 })
}

/// A commit as one line of HTML: a link on its short id, then its message,
/// only the first line of it when `title_only`.
pub open spec fn commit_line(c: Commit, title_only: bool) -> Seq<char> {
    "<a href=\""@ + c.url@ + "\">"@ + short_id(c.id@) + "</a>: "@ + if title_only {
        before_first(c.message@, '\n')
    } else {
        c.message@
    }
}

impl Commit {
    pub fn id(&self) -> (r: &String)
        ensures
            r@ == self.id@,
    {
        &self.id
    }

    pub fn message(&self) -> (r: &str)
        ensures
            r@ == self.message@,
    {
        self.message.as_str()
    }

    pub fn url(&self) -> (r: &str)
        ensures
            r@ == self.url@,
    {
        self.url.as_str()
    }

    /// The commit as a line of the message; see [`commit_line`].
    pub fn display(&self, title_only: bool) -> (r: String)
        ensures
            r@ == commit_line(*self, title_only),
    {
        let content = if title_only {
            split_before_first(self.message.as_str(), '\n')
        } else {
            self.message.as_str()
        };
        let mut r = String::new();
        r.append("<a href=\"");
        r.append(self.url.as_str());
        r.append("\">");
        r.append(prefix_chars(self.id.as_str(), 8));
        r.append("</a>: ");
        r.append(content);
        r
    }
}

/// A `push` event: the commits that were pushed to a branch.
#[derive(Debug, Clone)]
pub struct GitHubPushEvent {
    pub remote_ref: String,
    pub after: String,
    pub before: String,
    pub commits: Vec<Commit>,
    pub compare: String,
    pub repository: Repository,
}

/// The branch of a ref: what follows its last `/`.
pub open spec fn branch_of(remote_ref: Seq<char>) -> Seq<char> {
    after_last(remote_ref, '/')
}

/// The commits' title lines, one per line.
pub open spec fn title_lines(commits: Seq<Commit>) -> Seq<char>
    decreases commits.len(),
{
    if commits.len() == 0 {
        Seq::empty()
    } else if commits.len() == 1 {
        commit_line(commits[0], true)
    } else {
        title_lines(commits.drop_last()) + "\n"@ + commit_line(commits.last(), true)
    }
}

/// `owner/name:branch` for a push.
pub open spec fn push_target(e: GitHubPushEvent) -> Seq<char> {
    e.repository.full_name@ + ":"@ + branch_of(e.remote_ref@)
}

/// The chat message for a push. A single commit is shown in full, linked to
/// itself; several are shown by their titles, linked to the comparison.
pub open spec fn push_message(e: GitHubPushEvent) -> Seq<char> {
    if e.commits@.len() == 1 {
        "🔨 <a href=\""@ + e.commits@[0].url@ + "\">1 new commit</a> <b>to "@ + push_target(e)
            + "</b>:\n\n"@ + commit_line(e.commits@[0], false)
    } else {
        "🔨 <a href=\""@ + e.compare@ + "\">"@ + decimal(e.commits@.len()) + " new commits</a> <b>to "@
            + push_target(e) + "</b>:\n\n"@ + title_lines(e.commits@)
    }
}

impl GitHubPushEvent {
    pub fn remote_ref(&self) -> (r: &str)
        ensures
            r@ == self.remote_ref@,
    {
        self.remote_ref.as_str()
    }

    pub fn commits(&self) -> (r: &Vec<Commit>)
        ensures
            r@ == self.commits@,
    {
        &self.commits
    }

    pub fn compare(&self) -> (r: &str)
        ensures
            r@ == self.compare@,
    {
        self.compare.as_str()
    }

    pub fn repository(&self) -> (r: &Repository)
        ensures
            r.full_name@ == self.repository.full_name@,
    {
        &self.repository
    }

    pub fn after(&self) -> (r: &str)
        ensures
            r@ == self.after@,
    {
        self.after.as_str()
    }

    pub fn before(&self) -> (r: &str)
        ensures
            r@ == self.before@,
    {
        self.before.as_str()
    }

    fn append_title_lines(&self, out: &mut String)
        ensures
            final(out)@ == old(out)@ + title_lines(self.commits@),
    {
        let ghost start = out@;
        let mut i: usize = 0;
        while i < self.commits.len()
            invariant
                i <= self.commits@.len(),
                out@ == start + title_lines(self.commits@.take(i as int)),
            decreases self.commits.len() - i,
        {
            let ghost prefix = self.commits@.take(i + 1);
            assert(prefix.drop_last() == self.commits@.take(i as int));
            if i > 0 {
                out.append("\n");
            }
            let line = self.commits[i].display(true);
            out.append(line.as_str());
            proof {
                if i == 0 {
                    assert(title_lines(self.commits@.take(i as int)) =~= Seq::empty());
                    assert(out@ =~= start + title_lines(prefix));
                } else {
                    assert(out@ =~= start + title_lines(prefix));
                }
            }
            i = i + 1;
        }
        assert(self.commits@.take(self.commits@.len() as int) == self.commits@);
    }

    /// The chat message for this push; see [`push_message`].
    pub fn to_message(&self) -> (r: String)
        ensures
            r@ == push_message(*self),
    {
        let branch = split_after_last(self.remote_ref.as_str(), '/');
        let mut r = String::new();
        if self.commits.len() == 1 {
            let item = &self.commits[0];
            r.append("🔨 <a href=\"");
            r.append(item.url.as_str());
            r.append("\">1 new commit</a> <b>to ");
            r.append(self.repository.full_name.as_str());
            r.append(":");
            r.append(branch);
            r.append("</b>:\n\n");
            let line = item.display(false);
            r.append(line.as_str());
        } else {
            r.append("🔨 <a href=\"");
            r.append(self.compare.as_str());
            r.append("\">");
            push_decimal(&mut r, self.commits.len() as u64);
            r.append(" new commits</a> <b>to ");
            r.append(self.repository.full_name.as_str());
            r.append(":");
            r.append(branch);
            r.append("</b>:\n\n");
            self.append_title_lines(&mut r);
        }
        r
    }
}

impl DisplayableEvent for GitHubPushEvent {
    open spec fn spec_full_name(&self) -> Seq<char> {
        self.repository.full_name@
    }

    open spec fn spec_branch_name(&self) -> Seq<char> {
        branch_of(self.remote_ref@)
    }

    fn get_full_name(&self) -> (r: &String) {
        &self.repository.full_name
    }

    /// What follows the last `/` of the ref (all of it when it has none).
    fn branch_name(&self) -> (r: String) {
        String::from_str(split_after_last(self.remote_ref.as_str(), '/'))
    }
}

/// The answer to a webhook request: a status code and a reason, reported as
/// `{version, status, reason}`; an `empty` response carries no body at all.
#[derive(Debug, Clone)]
pub struct Response {
    pub version: String,
    pub status: u16,
    pub reason: String,
    pub empty: bool,
}

impl Response {
    /// A response with `status` and no reason.
    pub fn new(status: u16) -> (r: Self)
        ensures
            r.version@ == SERVER_VERSION@,
            r.status == status,
            r.reason@ == Seq::<char>::empty(),
            !r.empty,
    {
        Response { version: String::from_str(SERVER_VERSION), status, reason: String::new(), empty: false }
    }

    /// A `200` response with no reason.
    pub fn new_ok() -> (r: Self)
        ensures
            r.version@ == SERVER_VERSION@,
            r.status == 200,
            r.reason@ == Seq::<char>::empty(),
            !r.empty,
    {
        Self::new(200)
    }

    /// A response with `status` and `reason`.
    pub fn reason(status: u16, reason: &str) -> (r: Self)
        ensures
            r.version@ == SERVER_VERSION@,
            r.status == status,
            r.reason@ == reason@,
            !r.empty,
    {
        Response {
            version: String::from_str(SERVER_VERSION),
            status,
            reason: String::from_str(reason),
            empty: false,
        }
    }

    /// The body-less `204` response.
    pub fn new_empty() -> (r: Self)
        ensures
            r.version@ == SERVER_VERSION@,
            r.status == 204,
            r.reason@ == Seq::<char>::empty(),
            r.empty,
    {
        Response { version: String::from_str(SERVER_VERSION), status: 204, reason: String::new(), empty: true }
    }
}

/// Whether one `key=value` piece of a query string carries `token`: the key,
/// before the first `=`, is `token`, and the rest equals the token.
pub open spec fn piece_grants(piece: Seq<char>, token: Seq<char>) -> bool {
    let k = first_index_of(piece, '=');
    k >= 0 && piece.take(k) == "token"@ && piece.skip(k + 1) == token
}

/// Whether a request with query string `query` is let in when the configured
/// token is `token`: an empty token lets everyone in; otherwise one of the
/// `&`-separated pieces must carry it.
pub open spec fn query_authorizes(token: Seq<char>, query: Option<Seq<char>>) -> bool {
    if token.len() == 0 {
        true
    } else {
        match query {
            None => false,
            Some(q) => query_carries(q, token),
        }
    }
}

/// Whether one of the `&`-separated pieces of `query` carries `token`.
pub open spec fn query_carries(query: Seq<char>, token: Seq<char>) -> bool {
    exists|j: int|
        0 <= j < split_on(query, '&').len() && piece_grants(#[trigger] split_on(query, '&')[j], token)
}

/// The status a request that is not let in is refused with.
pub const FORBIDDEN: u16 = 403;

/// Proof that a request passed the query-token check.
#[derive(Debug)]
pub struct AuthorizationGuard {}

fn piece_grants_exec(v: &Vec<char>, start: usize, end: usize, key: &Vec<char>, token: &Vec<char>) -> (r: bool)
    requires
        start <= end <= v@.len(),
        key@ == "token"@,
    ensures
        r == piece_grants(v@.subrange(start as int, end as int), token@),
{
    let piece = copy_range(v, start, end);
    proof {
        lemma_first_index_bounds(piece@, '=');
    }
    match find_first(&piece, '=') {
        None => false,
        Some(k) => {
            assert(piece@.subrange(0, k as int) == piece@.take(k as int));
            assert(piece@.subrange(k + 1, piece@.len() as int) == piece@.skip(k + 1));
            range_equals(&piece, 0, k, key) && range_equals(&piece, k + 1, piece.len(), token)
        },
    }
}

impl AuthorizationGuard {
    /// Lets a request in when the configured `token` is empty or one piece of
    /// its `query` string is `token=<token>`; refuses it with `403` otherwise.
    pub fn check(token: &str, query: Option<&str>) -> (r: Result<AuthorizationGuard, u16>)
        ensures
            r is Ok <==> query_authorizes(
                token@,
                match query {
                    Some(q) => Some(q@),
                    None => None,
                },
            ),
            r is Err ==> r == Err::<AuthorizationGuard, u16>(FORBIDDEN),
    {
        if token.is_empty() {
            return Ok(AuthorizationGuard {});
        }
        let q = match query {
            None => return Err(FORBIDDEN),
            Some(q) => q,
        };
        let v = chars_of(q);
        let tk = chars_of(token);
        let key = chars_of("token");
        let ghost mut done: Seq<Seq<char>> = Seq::empty();
        let mut start: usize = 0;
        let mut i: usize = 0;
        assert(v@.take(0) =~= Seq::<char>::empty());
        assert(done.push(v@.subrange(0, 0)) =~= seq![Seq::<char>::empty()]);
        while i < v.len()
            invariant
                start <= i <= v@.len(),
                query == Some(q),
                token@.len() > 0,
                v@ == q@,
                tk@ == token@,
                key@ == "token"@,
                split_on(v@.take(i as int), '&') == done.push(v@.subrange(start as int, i as int)),
                forall|j: int| 0 <= j < done.len() ==> !piece_grants(#[trigger] done[j], token@),
            decreases v.len() - i,
        {
            let ghost prefix = v@.take(i + 1);
            assert(prefix.drop_last() == v@.take(i as int));
            if v[i] == '&' {
                if piece_grants_exec(&v, start, i, &key, &tk) {
                    proof {
                        let cur = v@.subrange(start as int, i as int);
                        let pieces = split_on(prefix, '&');
                        assert(pieces =~= done.push(cur).push(Seq::empty()));
                        assert(pieces[done.len() as int] == cur);
                        lemma_split_prefix_pieces(v@, i + 1, done.len() as int);
                        assert(piece_grants(split_on(q@, '&')[done.len() as int], token@));
                        assert(0 <= done.len() < split_on(q@, '&').len());
                        assert(query_carries(q@, token@));
                    }
                    return Ok(AuthorizationGuard {});
                }
                proof {
                    done = done.push(v@.subrange(start as int, i as int));
                    assert(v@.subrange(i + 1, i + 1) =~= Seq::<char>::empty());
                }
                start = i + 1;
            } else {
                assert(v@.subrange(start as int, i + 1) =~= v@.subrange(start as int, i as int).push(v@[i as int]));
                assert(split_on(prefix, '&') =~= done.push(v@.subrange(start as int, i + 1)));
            }
            i = i + 1;
        }
        assert(v@.take(v@.len() as int) == v@);
        if piece_grants_exec(&v, start, v.len(), &key, &tk) {
            assert(split_on(q@, '&')[done.len() as int] == v@.subrange(start as int, v@.len() as int));
            Ok(AuthorizationGuard {})
        } else {
            assert forall|j: int| 0 <= j < split_on(q@, '&').len() implies !piece_grants(
                #[trigger] split_on(q@, '&')[j],
                token@,
            ) by {
                if j < done.len() {
                    assert(split_on(q@, '&')[j] == done[j]);
                }
            }
            Err(FORBIDDEN)
        }
    }
}

/// The pieces of a prefix of `s` that are already closed by a separator stay
/// pieces of `s`.
proof fn lemma_split_prefix_pieces(s: Seq<char>, n: int, j: int)
    requires
        0 <= n <= s.len(),
        0 <= j < split_on(s.take(n), '&').len() - 1,
    ensures
        split_on(s, '&')[j] == split_on(s.take(n), '&')[j],
        j < split_on(s, '&').len(),
    decreases s.len() - n,
{
    if n < s.len() {
        let t = s.take(n + 1);
        assert(t.drop_last() == s.take(n));
        lemma_split_on_nonempty(s.take(n), '&');
        lemma_split_prefix_pieces(s, n + 1, j);
    } else {
        assert(s.take(n) == s);
    }
}

/// A message to deliver, and the chats to deliver it to.
#[derive(Debug, Clone)]
pub struct CommandBundle {
    pub receiver: Vec<i64>,
    pub text: String,
}

impl CommandBundle {
    pub fn new(receiver: Vec<i64>, text: String) -> (r: Self)
        ensures
            r.receiver == receiver,
            r.text == text,
    {
        CommandBundle { receiver, text }
    }

    pub fn receiver(&self) -> (r: &Vec<i64>)
        ensures
            r@ == self.receiver@,
    {
        &self.receiver
    }

    pub fn text(&self) -> (r: &str)
        ensures
            r@ == self.text@,
    {
        self.text.as_str()
    }
}

} // verus!
