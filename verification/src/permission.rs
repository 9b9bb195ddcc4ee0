//! Arbitration of tool-execution requests.
//!
//! A request is allowed, denied or handed to a human, by policy, by the lists
//! of approved tools, and by a few rules on the tool's input.

use vstd::prelude::*;
use crate::assoc::StrMap;
use crate::clock::now_rfc3339;
use crate::json::{as_text, clone_value, field, json_of, text_member, Json};
use crate::text::{
    clone_strings, concat2, ends_with, lowercase_of, owned, starts_with, str_eq, to_lowercase,
    trim, trim_of, views,
};

verus! {

/// The outcome of a permission check.
#[derive(Debug)]
pub enum PermissionDecision {
    /// The tool may run; `always` says that the approval is a standing one.
    Allow { always: bool },
    /// The tool may not run.
    Deny { reason: String },
    /// A human has to decide.
    RequireHuman {
        request_id: String,
        tool_name: String,
        tool_input: serde_json::Value,
        options: Vec<String>,
    },
}

/// The mathematical content of a [`PermissionDecision`].
pub enum PermissionDecisionView {
    Allow { always: bool },
    Deny { reason: Seq<char> },
    RequireHuman {
        request_id: Seq<char>,
        tool_name: Seq<char>,
        tool_input: Json,
        options: Seq<Seq<char>>,
    },
}

impl View for PermissionDecision {
    type V = PermissionDecisionView;

    open spec fn view(&self) -> PermissionDecisionView {
        match *self {
            PermissionDecision::Allow { always } => PermissionDecisionView::Allow { always },
            PermissionDecision::Deny { reason } => PermissionDecisionView::Deny { reason: reason@ },
            PermissionDecision::RequireHuman {
                request_id,
                tool_name,
                tool_input,
                options,
            } => PermissionDecisionView::RequireHuman {
                request_id: request_id@,
                tool_name: tool_name@,
                tool_input: json_of(tool_input),
                options: views(options@),
            },
        }
    }
}

impl Clone for PermissionDecision {
    fn clone(&self) -> (r: Self)
        ensures
            r@ == self@,
    {
        match self {
            PermissionDecision::Allow { always } => PermissionDecision::Allow { always: *always },
            PermissionDecision::Deny { reason } => PermissionDecision::Deny { reason: reason.clone() },
            PermissionDecision::RequireHuman {
                request_id,
                tool_name,
                tool_input,
                options,
            } => PermissionDecision::RequireHuman {
                request_id: request_id.clone(),
                tool_name: tool_name.clone(),
                tool_input: clone_value(tool_input),
                options: clone_strings(options),
            },
        }
    }
}

/// How strict the manager is.
#[derive(Debug, Clone, Copy, PartialEq, Eq, Structural)]
pub enum PermissionPolicy {
    /// Decides as `Standard` does.
    ReadOnly,
    /// Approved tools run, the rest is decided by rule or by a human.
    Standard,
    /// A human decides everything.
    Strict,
    /// Everything is allowed.
    Permissive,
}

impl Default for PermissionPolicy {
    fn default() -> (r: Self)
        ensures
            r == PermissionPolicy::Standard,
    {
        PermissionPolicy::Standard
    }
}

/// A request that waits for a human.
#[derive(Debug)]
pub struct PermissionRequest {
    pub request_id: String,
    pub tool_name: String,
    pub tool_input: serde_json::Value,
    pub options: Vec<String>,
    /// When the request was made, in RFC 3339 form.
    pub timestamp: String,
}

/// The mathematical content of a [`PermissionRequest`].
pub struct PermissionRequestView {
    pub request_id: Seq<char>,
    pub tool_name: Seq<char>,
    pub tool_input: Json,
    pub options: Seq<Seq<char>>,
    pub timestamp: Seq<char>,
}

impl View for PermissionRequest {
    type V = PermissionRequestView;

    open spec fn view(&self) -> PermissionRequestView {
        PermissionRequestView {
            request_id: self.request_id@,
            tool_name: self.tool_name@,
            tool_input: json_of(self.tool_input),
            options: views(self.options@),
            timestamp: self.timestamp@,
        }
    }
}

impl Clone for PermissionRequest {
    fn clone(&self) -> (r: Self)
        ensures
            r@ == self@,
    {
        PermissionRequest {
            request_id: self.request_id.clone(),
            tool_name: self.tool_name.clone(),
            tool_input: clone_value(&self.tool_input),
            options: clone_strings(&self.options),
            timestamp: self.timestamp.clone(),
        }
    }
}

/// The request that is stored for a human, made at the time `stamp`.
pub open spec fn stored_request(
    tool_name: Seq<char>,
    tool_input: Json,
    request_id: Seq<char>,
    stamp: Seq<char>,
) -> PermissionRequestView {
    PermissionRequestView {
        request_id,
        tool_name,
        tool_input,
        options: default_options(),
        timestamp: stamp,
    }
}

/// The pending requests after a decision: a request that needs a human is
/// stored under its id, any other leaves them as they are.
pub open spec fn pending_after(
    pending: Map<Seq<char>, PermissionRequestView>,
    d: PermissionDecisionView,
    tool_name: Seq<char>,
    tool_input: Json,
    request_id: Seq<char>,
    stamp: Seq<char>,
) -> Map<Seq<char>, PermissionRequestView> {
    if d is RequireHuman {
        pending.insert(request_id, stored_request(tool_name, tool_input, request_id, stamp))
    } else {
        pending
    }
}

// ---------------------------------------------------------------------------
// The rules
// ---------------------------------------------------------------------------

/// The tools and shell patterns that a new manager approves.
pub open spec fn default_pre_approved() -> Seq<Seq<char>> {
    seq![
        "Read"@,
        "Grep"@,
        "Glob"@,
        "Bash(ls:*)"@,
        "Bash(cat:*)"@,
        "Bash(head:*)"@,
        "Bash(tail:*)"@,
        "Bash(git status:*)"@,
        "Bash(git log:*)"@,
        "Bash(git diff:*)"@,
        "Bash(git show:*)"@,
        "Bash(pwd)"@,
        "Bash(which:*)"@,
        "Bash(echo:*)"@,
    ]
}

/// The answers offered to a human.
pub open spec fn default_options() -> Seq<Seq<char>> {
    seq!["Yes"@, "Yes, always for this session"@, "No"@]
}

/// The command prefix of a pattern of the form `Bash(<prefix>:*)`.
pub open spec fn bash_prefix(pattern: Seq<char>) -> Option<Seq<char>> {
    if pattern.len() >= 8 && "Bash("@.is_prefix_of(pattern) && ":*)"@.is_suffix_of(pattern) {
        Some(pattern.subrange(5, pattern.len() - 3))
    } else {
        None
    }
}

/// True when `pattern` is a shell pattern whose prefix, in lowercase, starts
/// the lowercase form of `command`.
pub open spec fn pattern_allows(pattern: Seq<char>, command: Seq<char>) -> bool {
    match bash_prefix(pattern) {
        Some(p) => lowercase_of(p).is_prefix_of(lowercase_of(command)),
        None => false,
    }
}

/// True when some pattern of `pre` allows `command`.
pub open spec fn some_pattern_allows(pre: Seq<Seq<char>>, command: Seq<char>) -> bool {
    exists|i: int| 0 <= i < pre.len() && #[trigger] pattern_allows(pre[i], command)
}

/// Pre-approval: the tool's name is listed as it is written, or the tool is
/// `Bash` and a listed shell pattern allows its command.
pub open spec fn pre_approved_for(pre: Seq<Seq<char>>, tool: Seq<char>, input: Json) -> bool {
    pre.contains(tool) || (tool == "Bash"@ && match text_member(input, "command"@) {
        Some(command) => some_pattern_allows(pre, command),
        None => false,
    })
}

pub open spec fn allow_once() -> PermissionDecisionView {
    PermissionDecisionView::Allow { always: false }
}

pub open spec fn deny_dangerous(what: Seq<char>) -> PermissionDecisionView {
    PermissionDecisionView::Deny { reason: "Dangerous command: "@ + what }
}

/// The rule for a trimmed shell command: read-only commands are allowed,
/// destructive ones denied, the rest is left open.
pub open spec fn bash_rule(c: Seq<char>) -> Option<PermissionDecisionView> {
    if "ls "@.is_prefix_of(c) || "cat "@.is_prefix_of(c) || "head "@.is_prefix_of(c)
        || "tail "@.is_prefix_of(c) || "find "@.is_prefix_of(c) || "grep "@.is_prefix_of(c)
        || "rg "@.is_prefix_of(c) {
        Some(allow_once())
    } else if "rm -rf"@.is_prefix_of(c) {
        Some(deny_dangerous("rm -rf"@))
    } else if "rm -r"@.is_prefix_of(c) {
        Some(deny_dangerous("rm -r"@))
    } else if "mkfs"@.is_prefix_of(c) {
        Some(deny_dangerous("mkfs"@))
    } else if "dd if="@.is_prefix_of(c) {
        Some(deny_dangerous("dd if="@))
    } else if "> /dev/"@.is_prefix_of(c) {
        Some(deny_dangerous("> /dev/"@))
    } else if "chmod 777"@.is_prefix_of(c) {
        Some(deny_dangerous("chmod 777"@))
    } else {
        None
    }
}

/// The automatic rules: what can be decided from the tool and its input
/// alone.
pub open spec fn auto_decision(tool: Seq<char>, input: Json) -> Option<PermissionDecisionView> {
    if tool == "Edit"@ {
        match (text_member(input, "old_string"@), text_member(input, "new_string"@)) {
            (Some(old), Some(new)) => if old == new || old.len() == 0 {
                Some(allow_once())
            } else {
                None
            },
            _ => None,
        }
    } else if tool == "Write"@ {
        match text_member(input, "file_path"@) {
            Some(path) => if "/tmp/"@.is_prefix_of(path) || "/var/folders/"@.is_prefix_of(path) {
                Some(allow_once())
            } else {
                None
            },
            None => None,
        }
    } else if tool == "Bash"@ {
        match text_member(input, "command"@) {
            Some(command) => bash_rule(trim_of(command)),
            None => None,
        }
    } else {
        None
    }
}

pub open spec fn ask_human(
    tool: Seq<char>,
    input: Json,
    request_id: Seq<char>,
) -> PermissionDecisionView {
    PermissionDecisionView::RequireHuman {
        request_id,
        tool_name: tool,
        tool_input: input,
        options: default_options(),
    }
}

/// The decision for a request, in the order in which the checks apply.
pub open spec fn decision_for(
    policy: PermissionPolicy,
    pre: Seq<Seq<char>>,
    session: Seq<Seq<char>>,
    tool: Seq<char>,
    input: Json,
    request_id: Seq<char>,
) -> PermissionDecisionView {
    if policy == PermissionPolicy::Permissive {
        allow_once()
    } else if policy == PermissionPolicy::Strict {
        ask_human(tool, input, request_id)
    } else if pre_approved_for(pre, tool, input) {
        PermissionDecisionView::Allow { always: true }
    } else if session.contains(tool) {
        allow_once()
    } else {
        match auto_decision(tool, input) {
            Some(d) => d,
            None => ask_human(tool, input, request_id),
        }
    }
}

/// The views of the requests of a map.
pub open spec fn requests_view(
    m: Map<Seq<char>, PermissionRequest>,
) -> Map<Seq<char>, PermissionRequestView> {
    m.map_values(|r: PermissionRequest| r@)
}

/// The views of the decisions of a map.
pub open spec fn decisions_view(
    m: Map<Seq<char>, PermissionDecision>,
) -> Map<Seq<char>, PermissionDecisionView> {
    m.map_values(|d: PermissionDecision| d@)
}

/// `list` with `item` at its end, unless it is already in it.
pub open spec fn with_item(list: Seq<Seq<char>>, item: Seq<char>) -> Seq<Seq<char>> {
    if list.contains(item) {
        list
    } else {
        list.push(item)
    }
}

/// The session approvals after a human's answer: a standing approval adds
/// the tool of the pending request that it answers.
pub open spec fn session_after_answer(
    session: Seq<Seq<char>>,
    pending: Map<Seq<char>, PermissionRequestView>,
    request_id: Seq<char>,
    decision: PermissionDecisionView,
) -> Seq<Seq<char>> {
    if decision == (PermissionDecisionView::Allow { always: true }) && pending.contains_key(
        request_id,
    ) {
        with_item(session, pending[request_id].tool_name)
    } else {
        session
    }
}

/// The command-line arguments that hand the approved tools to the agent:
/// the flag and the tool, once for each.
pub open spec fn allowed_tools_args(pre: Seq<Seq<char>>) -> Seq<Seq<char>>
    decreases pre.len(),
{
    if pre.len() == 0 {
        Seq::empty()
    } else {
        allowed_tools_args(pre.drop_last()).push("--allowed-tools"@).push(pre.last())
    }
}

fn list_contains(list: &Vec<String>, item: &str) -> (r: bool)
    ensures
        r == views(list@).contains(item@),
{
    let mut i: usize = 0;
    while i < list.len()
        invariant
            0 <= i <= list.len(),
            forall|k: int| 0 <= k < i ==> views(list@)[k] != item@,
        decreases list.len() - i,
    {
        if str_eq(list[i].as_str(), item) {
            assert(views(list@)[i as int] == item@);
            return true;
        }
        i = i + 1;
    }
    false
}

fn list_add(list: &mut Vec<String>, item: &str)
    requires
        views(old(list)@).no_duplicates(),
    ensures
        views(final(list)@).no_duplicates(),
        views(final(list)@) == with_item(views(old(list)@), item@),
{
    if !list_contains(list, item) {
        let ghost before = views(list@);
        list.push(owned(item));
        proof {
            assert(views(list@) =~= before.push(item@));
        }
    }
}

/// What one turn of waiting for a human gives.
#[derive(Debug)]
pub enum HumanWait {
    /// The human has answered.
    Decided(PermissionDecision),
    /// No answer within the time allowed.
    TimedOut(String),
    /// No answer yet: sleep this many milliseconds and ask again.
    Sleep { millis: u64 },
}

/// The pause between two looks for a human's answer, in milliseconds.
pub const HUMAN_POLL_MILLIS: u64 = 200;

/// The manager of tool permissions of one agent.
#[derive(Debug)]
pub struct PermissionManager {
    policy: PermissionPolicy,
    pre_approved: Vec<String>,
    session_approved: Vec<String>,
    pending_requests: StrMap<PermissionRequest>,
    human_responses: StrMap<PermissionDecision>,
}

impl PermissionManager {
    /// The policy in force.
    pub closed spec fn policy(&self) -> PermissionPolicy {
        self.policy
    }

    /// The pre-approved tools and patterns, oldest first.
    pub closed spec fn pre_approved(&self) -> Seq<Seq<char>> {
        views(self.pre_approved@)
    }

    /// The tools approved for this session, oldest first.
    pub closed spec fn session_approved(&self) -> Seq<Seq<char>> {
        views(self.session_approved@)
    }

    /// The requests that wait for a human, by request id.
    pub closed spec fn pending(&self) -> Map<Seq<char>, PermissionRequestView> {
        requests_view(self.pending_requests.map())
    }

    /// The answers of humans that nobody has fetched yet, by request id.
    pub closed spec fn responses(&self) -> Map<Seq<char>, PermissionDecisionView> {
        decisions_view(self.human_responses.map())
    }

    /// No tool is listed twice, and the two maps are well formed.
    pub closed spec fn wf(&self) -> bool {
        &&& views(self.pre_approved@).no_duplicates()
        &&& views(self.session_approved@).no_duplicates()
        &&& self.pending_requests.wf()
        &&& self.human_responses.wf()
    }

    /// A manager with the `Standard` policy and the default approvals.
    pub fn new() -> (r: Self)
        ensures
            r.wf(),
            r.policy() == PermissionPolicy::Standard,
            r.pre_approved().no_duplicates(),
            forall|t: Seq<char>| r.pre_approved().contains(t) <==> default_pre_approved().contains(t),
            r.session_approved() == Seq::<Seq<char>>::empty(),
            r.pending() == Map::<Seq<char>, PermissionRequestView>::empty(),
            r.responses() == Map::<Seq<char>, PermissionDecisionView>::empty(),
    {
        let mut manager = PermissionManager {
            policy: PermissionPolicy::Standard,
            pre_approved: Vec::new(),
            session_approved: Vec::new(),
            pending_requests: StrMap::new(),
            human_responses: StrMap::new(),
        };
        proof {
            assert(views(manager.pre_approved@) =~= Seq::<Seq<char>>::empty());
            assert(views(manager.session_approved@) =~= Seq::<Seq<char>>::empty());
            assert(manager.pending() =~= Map::<Seq<char>, PermissionRequestView>::empty());
            assert(manager.responses() =~= Map::<Seq<char>, PermissionDecisionView>::empty());
        }
        manager.initialize_default_permissions();
        manager
    }

    fn initialize_default_permissions(&mut self)
        requires
            old(self).wf(),
            old(self).pre_approved() == Seq::<Seq<char>>::empty(),
        ensures
            final(self).wf(),
            final(self).policy() == old(self).policy(),
            final(self).session_approved() == old(self).session_approved(),
            final(self).pending() == old(self).pending(),
            final(self).responses() == old(self).responses(),
            forall|t: Seq<char>|
                final(self).pre_approved().contains(t) <==> default_pre_approved().contains(t),
    {
        let ghost d = default_pre_approved();
        list_add(&mut self.pre_approved, "Read");
        list_add(&mut self.pre_approved, "Grep");
        list_add(&mut self.pre_approved, "Glob");
        list_add(&mut self.pre_approved, "Bash(ls:*)");
        list_add(&mut self.pre_approved, "Bash(cat:*)");
        list_add(&mut self.pre_approved, "Bash(head:*)");
        list_add(&mut self.pre_approved, "Bash(tail:*)");
        let ghost mid = views(self.pre_approved@);
        proof {
            assert forall|t: Seq<char>| mid.contains(t) <==> (exists|i: int|
                0 <= i < 7 && d[i] == t) by {
                assert(d[0] == "Read"@ && d[1] == "Grep"@ && d[2] == "Glob"@ && d[3]
                    == "Bash(ls:*)"@ && d[4] == "Bash(cat:*)"@ && d[5] == "Bash(head:*)"@ && d[6]
                    == "Bash(tail:*)"@);
                lemma_with_item_contains_all();
            }
        }
        list_add(&mut self.pre_approved, "Bash(git status:*)");
        list_add(&mut self.pre_approved, "Bash(git log:*)");
        list_add(&mut self.pre_approved, "Bash(git diff:*)");
        list_add(&mut self.pre_approved, "Bash(git show:*)");
        list_add(&mut self.pre_approved, "Bash(pwd)");
        list_add(&mut self.pre_approved, "Bash(which:*)");
        list_add(&mut self.pre_approved, "Bash(echo:*)");
        proof {
            let fin = views(self.pre_approved@);
            assert forall|t: Seq<char>| fin.contains(t) <==> d.contains(t) by {
                assert(d[7] == "Bash(git status:*)"@ && d[8] == "Bash(git log:*)"@ && d[9]
                    == "Bash(git diff:*)"@ && d[10] == "Bash(git show:*)"@ && d[11]
                    == "Bash(pwd)"@ && d[12] == "Bash(which:*)"@ && d[13] == "Bash(echo:*)"@);
                lemma_with_item_contains_all();
                if d.contains(t) {
                    let i = choose|i: int| 0 <= i < d.len() && d[i] == t;
                    assert(0 <= i < 14);
                }
            }
        }
    }

    /// The policy in force.
    pub fn current_policy(&self) -> (r: PermissionPolicy)
        ensures
            r == self.policy(),
    {
        self.policy
    }

    /// The request that waits for a human under `request_id`.
    pub fn pending_request(&self, request_id: &str) -> (r: Option<PermissionRequest>)
        requires
            self.wf(),
        ensures
            r is Some == self.pending().contains_key(request_id@),
            r matches Some(p) ==> p@ == self.pending()[request_id@],
    {
        match self.pending_requests.get(request_id) {
            Some(p) => Some(p.clone()),
            None => None,
        }
    }

    /// Sets the policy.
    pub fn set_policy(&mut self, policy: PermissionPolicy)
        requires
            old(self).wf(),
        ensures
            final(self).wf(),
            final(self).policy() == policy,
            final(self).pre_approved() == old(self).pre_approved(),
            final(self).session_approved() == old(self).session_approved(),
            final(self).pending() == old(self).pending(),
            final(self).responses() == old(self).responses(),
    {
        self.policy = policy;
    }

    /// Adds a tool or pattern to the pre-approved list, unless it is there.
    pub fn add_pre_approved(&mut self, tool: &str)
        requires
            old(self).wf(),
        ensures
            final(self).wf(),
            final(self).pre_approved() == with_item(old(self).pre_approved(), tool@),
            final(self).policy() == old(self).policy(),
            final(self).session_approved() == old(self).session_approved(),
            final(self).pending() == old(self).pending(),
            final(self).responses() == old(self).responses(),
    {
        list_add(&mut self.pre_approved, tool);
    }

    /// True when the tool is pre-approved for this input.
    pub fn is_pre_approved(&self, tool_name: &str, tool_input: &serde_json::Value) -> (r: bool)
        requires
            self.wf(),
        ensures
            r == pre_approved_for(self.pre_approved(), tool_name@, json_of(*tool_input)),
    {
        if list_contains(&self.pre_approved, tool_name) {
            return true;
        }
        if !str_eq(tool_name, "Bash") {
            return false;
        }
        let command = match field(tool_input, "command") {
            Some(v) => match as_text(v) {
                Some(c) => c,
                None => {
                    return false;
                },
            },
            None => {
                return false;
            },
        };
        let lowered = to_lowercase(command);
        let mut i: usize = 0;
        while i < self.pre_approved.len()
            invariant
                0 <= i <= self.pre_approved.len(),
                lowered@ == lowercase_of(command@),
                tool_name@ == "Bash"@,
                text_member(json_of(*tool_input), "command"@) == Some(command@),
                forall|k: int|
                    0 <= k < i ==> !#[trigger] pattern_allows(
                        views(self.pre_approved@)[k],
                        command@,
                    ),
            decreases self.pre_approved.len() - i,
        {
            let pattern = self.pre_approved[i].as_str();
            let n = pattern.unicode_len();
            if n >= 8 && starts_with(pattern, "Bash(") && ends_with(pattern, ":*)") {
                let prefix = pattern.substring_char(5, n - 3);
                let lowered_prefix = to_lowercase(prefix);
                if starts_with(lowered.as_str(), lowered_prefix.as_str()) {
                    assert(pattern_allows(views(self.pre_approved@)[i as int], command@));
                    return true;
                }
            }
            i = i + 1;
        }
        false
    }

    /// The automatic rules: what can be decided from the tool and its input
    /// alone.
    pub fn auto_decide(&self, tool_name: &str, tool_input: &serde_json::Value) -> (r: Option<
        PermissionDecision,
    >)
        ensures
            match r {
                Some(d) => Some(d@),
                None => None,
            } == auto_decision(tool_name@, json_of(*tool_input)),
    {
        if str_eq(tool_name, "Edit") {
            let old = match field(tool_input, "old_string") {
                Some(v) => as_text(v),
                None => None,
            };
            let new = match field(tool_input, "new_string") {
                Some(v) => as_text(v),
                None => None,
            };
            match (old, new) {
                (Some(old), Some(new)) => {
                    if str_eq(old, new) || old.is_empty() {
                        Some(PermissionDecision::Allow { always: false })
                    } else {
                        None
                    }
                },
                _ => None,
            }
        } else if str_eq(tool_name, "Write") {
            let path = match field(tool_input, "file_path") {
                Some(v) => as_text(v),
                None => None,
            };
            match path {
                Some(path) => {
                    if starts_with(path, "/tmp/") || starts_with(path, "/var/folders/") {
                        Some(PermissionDecision::Allow { always: false })
                    } else {
                        None
                    }
                },
                None => None,
            }
        } else if str_eq(tool_name, "Bash") {
            let command = match field(tool_input, "command") {
                Some(v) => as_text(v),
                None => None,
            };
            match command {
                Some(command) => bash_decision(trim(command)),
                None => None,
            }
        } else {
            None
        }
    }

    /// Decides a request. A request that needs a human is stored as pending
    /// under its id, stamped with `stamp`.
    pub fn check_permission_at(
        &mut self,
        tool_name: &str,
        tool_input: &serde_json::Value,
        request_id: &str,
        stamp: String,
    ) -> (r: PermissionDecision)
        requires
            old(self).wf(),
        ensures
            final(self).wf(),
            r@ == decision_for(
                old(self).policy(),
                old(self).pre_approved(),
                old(self).session_approved(),
                tool_name@,
                json_of(*tool_input),
                request_id@,
            ),
            final(self).pending() == pending_after(
                old(self).pending(),
                r@,
                tool_name@,
                json_of(*tool_input),
                request_id@,
                stamp@,
            ),
            final(self).policy() == old(self).policy(),
            final(self).pre_approved() == old(self).pre_approved(),
            final(self).session_approved() == old(self).session_approved(),
            final(self).responses() == old(self).responses(),
    {
        match self.policy {
            PermissionPolicy::Permissive => {
                return PermissionDecision::Allow { always: false };
            },
            PermissionPolicy::Strict => {
                return self.require_human_approval(tool_name, tool_input, request_id, stamp);
            },
            _ => {},
        }
        if self.is_pre_approved(tool_name, tool_input) {
            return PermissionDecision::Allow { always: true };
        }
        if list_contains(&self.session_approved, tool_name) {
            return PermissionDecision::Allow { always: false };
        }
        match self.auto_decide(tool_name, tool_input) {
            Some(d) => d,
            None => self.require_human_approval(tool_name, tool_input, request_id, stamp),
        }
    }

    /// Decides a request. A request that needs a human is stored as pending
    /// under its id, stamped with the time that the clock gives.
    pub fn check_permission(
        &mut self,
        tool_name: &str,
        tool_input: &serde_json::Value,
        request_id: &str,
    ) -> (r: PermissionDecision)
        requires
            old(self).wf(),
        ensures
            final(self).wf(),
            r@ == decision_for(
                old(self).policy(),
                old(self).pre_approved(),
                old(self).session_approved(),
                tool_name@,
                json_of(*tool_input),
                request_id@,
            ),
            exists|stamp: Seq<char>|
                final(self).pending() == #[trigger] pending_after(
                    old(self).pending(),
                    r@,
                    tool_name@,
                    json_of(*tool_input),
                    request_id@,
                    stamp,
                ),
            final(self).policy() == old(self).policy(),
            final(self).pre_approved() == old(self).pre_approved(),
            final(self).session_approved() == old(self).session_approved(),
            final(self).responses() == old(self).responses(),
    {
        let stamp = now_rfc3339();
        let ghost t = stamp@;
        let r = self.check_permission_at(tool_name, tool_input, request_id, stamp);
        proof {
            assert(self.pending() == pending_after(
                old(self).pending(),
                r@,
                tool_name@,
                json_of(*tool_input),
                request_id@,
                t,
            ));
        }
        r
    }

    fn require_human_approval(
        &mut self,
        tool_name: &str,
        tool_input: &serde_json::Value,
        request_id: &str,
        stamp: String,
    ) -> (r: PermissionDecision)
        requires
            old(self).wf(),
        ensures
            final(self).wf(),
            r@ == ask_human(tool_name@, json_of(*tool_input), request_id@),
            final(self).pending() == old(self).pending().insert(
                request_id@,
                stored_request(tool_name@, json_of(*tool_input), request_id@, stamp@),
            ),
            final(self).policy() == old(self).policy(),
            final(self).pre_approved() == old(self).pre_approved(),
            final(self).session_approved() == old(self).session_approved(),
            final(self).responses() == old(self).responses(),
    {
        let request = PermissionRequest {
            request_id: owned(request_id),
            tool_name: owned(tool_name),
            tool_input: clone_value(tool_input),
            options: default_option_list(),
            timestamp: stamp,
        };
        let options = clone_strings(&request.options);
        let ghost rv = request@;
        let _ = self.pending_requests.insert(owned(request_id), request);
        proof {
            assert(self.pending() =~= old(self).pending().insert(request_id@, rv));
        }
        PermissionDecision::RequireHuman {
            request_id: owned(request_id),
            tool_name: owned(tool_name),
            tool_input: clone_value(tool_input),
            options,
        }
    }

    /// Takes a human's answer: the request stops being pending, the answer
    /// is kept until it is fetched, and a standing approval adds the tool of
    /// the request to the session approvals.
    pub fn submit_human_response(&mut self, request_id: &str, decision: PermissionDecision) -> (r:
        Result<(), String>)
        requires
            old(self).wf(),
        ensures
            final(self).wf(),
            r is Ok,
            final(self).pending() == old(self).pending().remove(request_id@),
            final(self).responses() == old(self).responses().insert(request_id@, decision@),
            final(self).session_approved() == session_after_answer(
                old(self).session_approved(),
                old(self).pending(),
                request_id@,
                decision@,
            ),
            final(self).policy() == old(self).policy(),
            final(self).pre_approved() == old(self).pre_approved(),
    {
        let removed = self.pending_requests.remove(request_id);
        proof {
            assert(self.pending() =~= old(self).pending().remove(request_id@));
        }
        let standing = match &decision {
            PermissionDecision::Allow { always } => *always,
            _ => false,
        };
        if standing {
            match &removed {
                Some(request) => {
                    list_add(&mut self.session_approved, request.tool_name.as_str());
                },
                None => {},
            }
        }
        let ghost dv = decision@;
        let _ = self.human_responses.insert(owned(request_id), decision);
        proof {
            assert(self.responses() =~= old(self).responses().insert(request_id@, dv));
        }
        Ok(())
    }

    /// One turn of waiting for a human's answer to `request_id`. An answer
    /// that has arrived is handed over and forgotten; otherwise the wait
    /// ends once `elapsed_secs` has reached `timeout_secs`, and goes on after
    /// a pause until then.
    pub fn poll_human_response(&mut self, request_id: &str, elapsed_secs: u64, timeout_secs: u64) -> (r:
        HumanWait)
        requires
            old(self).wf(),
        ensures
            final(self).wf(),
            final(self).responses() == old(self).responses().remove(request_id@),
            final(self).pending() == old(self).pending(),
            final(self).session_approved() == old(self).session_approved(),
            final(self).policy() == old(self).policy(),
            final(self).pre_approved() == old(self).pre_approved(),
            match r {
                HumanWait::Decided(d) => old(self).responses().contains_key(request_id@) && d@
                    == old(self).responses()[request_id@],
                HumanWait::TimedOut(m) => !old(self).responses().contains_key(request_id@)
                    && elapsed_secs >= timeout_secs && m@
                    == "Timeout waiting for human response: "@ + request_id@,
                HumanWait::Sleep { millis } => !old(self).responses().contains_key(request_id@)
                    && elapsed_secs < timeout_secs && millis == HUMAN_POLL_MILLIS,
            },
    {
        let found = self.human_responses.remove(request_id);
        proof {
            assert(self.responses() =~= old(self).responses().remove(request_id@));
        }
        match found {
            Some(d) => HumanWait::Decided(d),
            None => {
                if elapsed_secs >= timeout_secs {
                    HumanWait::TimedOut(concat2("Timeout waiting for human response: ", request_id))
                } else {
                    HumanWait::Sleep { millis: HUMAN_POLL_MILLIS }
                }
            },
        }
    }

    /// Forgets the approvals of this session.
    pub fn clear_session_approvals(&mut self)
        requires
            old(self).wf(),
        ensures
            final(self).wf(),
            final(self).session_approved() == Seq::<Seq<char>>::empty(),
            final(self).policy() == old(self).policy(),
            final(self).pre_approved() == old(self).pre_approved(),
            final(self).pending() == old(self).pending(),
            final(self).responses() == old(self).responses(),
    {
        self.session_approved.clear();
        proof {
            assert(views(self.session_approved@) =~= Seq::<Seq<char>>::empty());
        }
    }

    /// The command-line arguments that hand the approved tools to the agent.
    pub fn generate_allowed_tools_args(&self) -> (r: Vec<String>)
        ensures
            views(r@) == allowed_tools_args(self.pre_approved()),
    {
        let mut args: Vec<String> = Vec::new();
        let mut i: usize = 0;
        proof {
            assert(views(self.pre_approved@).take(0) =~= Seq::empty());
            assert(views(args@) =~= Seq::<Seq<char>>::empty());
        }
        while i < self.pre_approved.len()
            invariant
                0 <= i <= self.pre_approved.len(),
                views(args@) == allowed_tools_args(views(self.pre_approved@).take(i as int)),
            decreases self.pre_approved.len() - i,
        {
            let ghost before = views(args@);
            proof {
                let next = views(self.pre_approved@).take(i as int + 1);
                assert(next.drop_last() =~= views(self.pre_approved@).take(i as int));
                assert(next.last() == self.pre_approved@[i as int]@);
            }
            args.push(owned("--allowed-tools"));
            args.push(self.pre_approved[i].clone());
            proof {
                assert(views(args@) =~= before.push("--allowed-tools"@).push(
                    self.pre_approved@[i as int]@,
                ));
            }
            i = i + 1;
        }
        proof {
            assert(views(self.pre_approved@).take(self.pre_approved.len() as int) =~= views(
                self.pre_approved@,
            ));
        }
        args
    }
}

impl Default for PermissionManager {
    fn default() -> (r: Self)
        ensures
            r.wf(),
            r.policy() == PermissionPolicy::Standard,
    {
        PermissionManager::new()
    }
}

proof fn lemma_with_item_contains_all()
    ensures
        forall|list: Seq<Seq<char>>, item: Seq<char>, t: Seq<char>|
            #[trigger] with_item(list, item).contains(t) <==> (list.contains(t) || t == item),
{
    assert forall|list: Seq<Seq<char>>, item: Seq<char>, t: Seq<char>| #[trigger] with_item(
        list,
        item,
    ).contains(t) <==> (list.contains(t) || t == item) by {
        let w = with_item(list, item);
        if list.contains(item) {
        } else {
            if w.contains(t) {
                let i = choose|i: int| 0 <= i < w.len() && w[i] == t;
                if i < list.len() {
                    assert(list[i] == t);
                }
            }
            if list.contains(t) {
                let i = choose|i: int| 0 <= i < list.len() && list[i] == t;
                assert(w[i] == t);
            }
            if t == item {
                assert(w[list.len() as int] == t);
            }
        }
    }
}

fn default_option_list() -> (r: Vec<String>)
    ensures
        views(r@) == default_options(),
{
    let mut v: Vec<String> = Vec::new();
    v.push(owned("Yes"));
    v.push(owned("Yes, always for this session"));
    v.push(owned("No"));
    proof {
        assert(views(v@) =~= default_options());
    }
    v
}

fn deny(what: &str) -> (r: Option<PermissionDecision>)
    ensures
        r matches Some(d) && d@ == deny_dangerous(what@),
{
    Some(PermissionDecision::Deny { reason: concat2("Dangerous command: ", what) })
}

fn bash_decision(c: &str) -> (r: Option<PermissionDecision>)
    ensures
        match r {
            Some(d) => Some(d@),
            None => None,
        } == bash_rule(c@),
{
    if starts_with(c, "ls ") || starts_with(c, "cat ") || starts_with(c, "head ") || starts_with(
        c,
        "tail ",
    ) || starts_with(c, "find ") || starts_with(c, "grep ") || starts_with(c, "rg ") {
        Some(PermissionDecision::Allow { always: false })
    } else if starts_with(c, "rm -rf") {
        deny("rm -rf")
    } else if starts_with(c, "rm -r") {
        deny("rm -r")
    } else if starts_with(c, "mkfs") {
        deny("mkfs")
    } else if starts_with(c, "dd if=") {
        deny("dd if=")
    } else if starts_with(c, "> /dev/") {
        deny("> /dev/")
    } else if starts_with(c, "chmod 777") {
        deny("chmod 777")
    } else {
        None
    }
}

fn list_of(items: [&str; 7]) -> (r: Vec<String>)
    ensures
        r@.len() == 7,
        forall|i: int| 0 <= i < 7 ==> r@[i]@ == items@[i]@,
{
    let mut v: Vec<String> = Vec::new();
    let mut i: usize = 0;
    while i < 7
        invariant
            0 <= i <= 7,
            v@.len() == i,
            forall|k: int| 0 <= k < i ==> v@[k]@ == items@[k]@,
        decreases 7 - i,
    {
        v.push(owned(items[i]));
        i = i + 1;
    }
    v
}

/// The tools that are safe to approve without asking.
pub open spec fn auto_approve_list() -> Seq<Seq<char>> {
    seq![
        "Read"@,
        "Grep"@,
        "Glob"@,
        "Bash(ls:*)"@,
        "Bash(cat:*)"@,
        "Bash(git status:*)"@,
        "Bash(git log:*)"@,
    ]
}

/// The tools that need a human's confirmation.
pub open spec fn require_confirmation_list() -> Seq<Seq<char>> {
    seq![
        "Edit"@,
        "Write"@,
        "Bash(rm:*)"@,
        "Bash(mv:*)"@,
        "Bash(mkdir:*)"@,
        "Bash(npm:*)"@,
        "Bash(cargo:*)"@,
    ]
}

/// The tools that are safe to approve without asking.
pub fn auto_approve_tools() -> (r: Vec<String>)
    ensures
        views(r@) == auto_approve_list(),
{
    let v = list_of(
        ["Read", "Grep", "Glob", "Bash(ls:*)", "Bash(cat:*)", "Bash(git status:*)", "Bash(git log:*)"],
    );
    proof {
        assert(views(v@) =~= auto_approve_list());
    }
    v
}

/// The tools that need a human's confirmation.
pub fn require_confirmation_tools() -> (r: Vec<String>)
    ensures
        views(r@) == require_confirmation_list(),
{
    let v = list_of(
        ["Edit", "Write", "Bash(rm:*)", "Bash(mv:*)", "Bash(mkdir:*)", "Bash(npm:*)", "Bash(cargo:*)"],
    );
    proof {
        assert(views(v@) =~= require_confirmation_list());
    }
    v
}

// ---------------------------------------------------------------------------
// Laws of the pre-approval matcher
// ---------------------------------------------------------------------------

/// On `Bash` commands the matcher ignores case: two commands with the same
/// lowercase form are pre-approved alike.
pub proof fn lemma_bash_match_ignores_case(pre: Seq<Seq<char>>, input1: Json, input2: Json)
    requires
        text_member(input1, "command"@) is Some,
        text_member(input2, "command"@) is Some,
        lowercase_of(text_member(input1, "command"@).unwrap()) == lowercase_of(
            text_member(input2, "command"@).unwrap(),
        ),
    ensures
        pre_approved_for(pre, "Bash"@, input1) == pre_approved_for(pre, "Bash"@, input2),
{
    let c1 = text_member(input1, "command"@).unwrap();
    let c2 = text_member(input2, "command"@).unwrap();
    if some_pattern_allows(pre, c1) {
        let i = choose|i: int| 0 <= i < pre.len() && #[trigger] pattern_allows(pre[i], c1);
        assert(pattern_allows(pre[i], c2));
    }
    if some_pattern_allows(pre, c2) {
        let i = choose|i: int| 0 <= i < pre.len() && #[trigger] pattern_allows(pre[i], c2);
        assert(pattern_allows(pre[i], c1));
    }
}

/// On tool names the matcher is exact: a tool other than `Bash` is
/// pre-approved only if its name is listed as it is written.
pub proof fn lemma_tool_names_match_exactly(pre: Seq<Seq<char>>, tool: Seq<char>, input: Json)
    requires
        tool != "Bash"@,
    ensures
        pre_approved_for(pre, tool, input) == pre.contains(tool),
{
}

} // verus!
