//! Filtering posts by reports: the posts with fewer reports than a limit.
use vstd::prelude::*;
use crate::chain::{Response, MessageInfo, attrs_view};

verus! {

/// The errors of the filter contract.
#[derive(Debug, PartialEq, Eq)]
pub enum ContractError {
    /// The new limit equals the stored one.
    EqualsReportLimits {},
}

/// The message that instantiates the contract.
pub struct InstantiateMsg {
    /// The most reports a post may have, less one, before it is filtered out.
    pub reports_limit: u16,
}

/// The messages that the contract executes.
pub enum ExecuteMsg {
    EditReportsLimit { reports_limit: u16 },
}

/// The queries of the contract.
pub enum QueryMsg {
    /// The posts reported fewer than `reports_limit` times.
    GetFilteredPosts { reports_limit: u16 },
}

/// The state of the contract.
pub struct State {
    pub default_reports_limit: u16,
}

/// Instantiates the contract with the default limit.
pub fn instantiate(msg: InstantiateMsg) -> (r: (State, Response<()>))
    ensures
        r.0.default_reports_limit == msg.reports_limit,
        attrs_view(r.1.attributes@) == seq![("action"@, "set_default_reports_limit"@)],
        r.1.messages@.len() == 0,
{
    let mut resp: Response<()> = Response::new();
    resp.add_attribute("action", "set_default_reports_limit");
    proof { assert(attrs_view(resp.attributes@) =~= seq![("action"@, "set_default_reports_limit"@)]); }
    (State { default_reports_limit: msg.reports_limit }, resp)
}

impl State {
    /// Sets the default limit, which must change.
    pub fn handle_report_limit_edit(&mut self, info: &MessageInfo, report_limit: u16) -> (r: Result<Response<()>, ContractError>)
        ensures
            if old(self).default_reports_limit == report_limit {
                r == Err::<Response<()>, ContractError>(ContractError::EqualsReportLimits {}) && *final(self) == *old(self)
            } else {
                final(self).default_reports_limit == report_limit
                    && (r matches Ok(resp) && resp.messages@.len() == 0
                    && attrs_view(resp.attributes@) == seq![("action"@, "edit_reports_limit"@), ("editor"@, info.sender@)])
            },
    {
        if self.default_reports_limit == report_limit {
            return Err(ContractError::EqualsReportLimits {});
        }
        self.default_reports_limit = report_limit;
        let mut resp: Response<()> = Response::new();
        resp.add_attribute("action", "edit_reports_limit");
        resp.add_attribute("editor", info.sender.as_str());
        proof {
            assert(attrs_view(resp.attributes@) =~= seq![("action"@, "edit_reports_limit"@), ("editor"@, info.sender@)]);
        }
        Ok(resp)
    }

    /// Executes a message.
    pub fn execute(&mut self, info: &MessageInfo, msg: ExecuteMsg) -> (r: Result<Response<()>, ContractError>)
        ensures
            match msg {
                ExecuteMsg::EditReportsLimit { reports_limit } => if old(self).default_reports_limit == reports_limit {
                    r == Err::<Response<()>, ContractError>(ContractError::EqualsReportLimits {}) && *final(self) == *old(self)
                } else {
                    final(self).default_reports_limit == reports_limit
                        && (r matches Ok(resp) && resp.messages@.len() == 0
                        && attrs_view(resp.attributes@) == seq![("action"@, "edit_reports_limit"@), ("editor"@, info.sender@)])
                },
            },
    {
        match msg {
            ExecuteMsg::EditReportsLimit { reports_limit } => self.handle_report_limit_edit(info, reports_limit),
        }
    }
}

/// A post with `reports` reports is under the limit: it has fewer reports.
pub open spec fn under_limit(reports: usize, reports_limit: u16) -> bool {
    reports < reports_limit
}

/// Whether a post with `reports` reports is under the limit.
pub fn is_under_reports_limit(reports: usize, reports_limit: u16) -> (r: bool)
    ensures
        r == under_limit(reports, reports_limit),
{
    reports < reports_limit as usize
}

/// The posts among the first `n` that are under the limit, in order.
pub open spec fn kept<T>(posts: Seq<T>, reports: Seq<usize>, reports_limit: u16, n: int) -> Seq<T>
    decreases n,
{
    if n <= 0 {
        Seq::empty()
    } else if under_limit(reports[n - 1], reports_limit) {
        kept(posts, reports, reports_limit, n - 1).push(posts[n - 1])
    } else {
        kept(posts, reports, reports_limit, n - 1)
    }
}

/// The posts that have fewer reports than the limit, in order; `reports`
/// holds the number of reports of each post.
pub fn query_filtered_posts<T>(posts: Vec<T>, reports: Vec<usize>, reports_limit: u16) -> (r: Vec<T>)
    requires
        reports@.len() == posts@.len(),
    ensures
        r@ == kept(posts@, reports@, reports_limit, posts@.len() as int),
{
    let ghost all = posts@;
    let total = posts.len();
    let mut rest = posts;
    proof { assert(all.skip(0) =~= all); }
    let mut out: Vec<T> = Vec::new();
    let mut i: usize = 0;
    while rest.len() > 0
        invariant
            all.len() == reports@.len(),
            all.len() == total,
            i + rest@.len() == all.len(),
            rest@ == all.skip(i as int),
            out@ == kept(all, reports@, reports_limit, i as int),
        decreases rest.len(),
    {
        let post = rest.remove(0);
        proof {
            assert(post == all[i as int]);
            assert(rest@ =~= all.skip(i + 1));
        }
        if is_under_reports_limit(reports[i], reports_limit) {
            out.push(post);
        }
        i = i + 1;
    }
    out
}


/// `x` is one of the first `n` posts, and that post is under the limit.
pub open spec fn answered_from<T>(posts: Seq<T>, reports: Seq<usize>, reports_limit: u16, n: int, x: T) -> bool {
    exists|i: int| 0 <= i < n && under_limit(reports[i], reports_limit) && #[trigger] posts[i] == x
}

/// Filtering keeps exactly the posts under the limit: every post it answers is
/// one of the posts with fewer reports than the limit, and every such post is
/// answered, in the order of the posts.
pub proof fn law_filter_keeps_posts_under_limit<T>(posts: Seq<T>, reports: Seq<usize>, reports_limit: u16, n: int)
    requires
        0 <= n <= posts.len(),
        reports.len() == posts.len(),
    ensures
        forall|k: int| 0 <= k < kept(posts, reports, reports_limit, n).len() ==>
            answered_from(posts, reports, reports_limit, n, #[trigger] kept(posts, reports, reports_limit, n)[k]),
        forall|i: int| 0 <= i < n && under_limit(reports[i], reports_limit) ==>
            #[trigger] kept(posts, reports, reports_limit, n).contains(posts[i]),
    decreases n,
{
    if n > 0 {
        law_filter_keeps_posts_under_limit(posts, reports, reports_limit, n - 1);
        let prev = kept(posts, reports, reports_limit, n - 1);
        let cur = kept(posts, reports, reports_limit, n);
        assert forall|k: int| 0 <= k < cur.len() implies answered_from(posts, reports, reports_limit, n, #[trigger] cur[k]) by {
            if k < prev.len() {
                assert(cur[k] == prev[k]);
                assert(answered_from(posts, reports, reports_limit, n - 1, prev[k]));
                let i = choose|i: int| 0 <= i < n - 1 && under_limit(reports[i], reports_limit) && #[trigger] posts[i] == prev[k];
                assert(posts[i] == cur[k]);
            } else {
                assert(under_limit(reports[n - 1], reports_limit));
                assert(posts[n - 1] == cur[k]);
            }
        }
        assert forall|i: int| 0 <= i < n && under_limit(reports[i], reports_limit) implies #[trigger] cur.contains(posts[i]) by {
            if i < n - 1 {
                assert(prev.contains(posts[i]));
                let k = choose|k: int| 0 <= k < prev.len() && prev[k] == posts[i];
                assert(cur[k] == posts[i]);
            } else {
                assert(cur[cur.len() - 1] == posts[i]);
            }
        }
    }
}

} // verus!
