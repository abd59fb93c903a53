//! Ownership and permission bits of a Unix socket file: which changes to make
//! after the socket is bound, and in which order.

use crate::endpoint::{optional_text, UnixDomainSocket, UnixDomainSocketView};
use crate::text::{holds, lemma_holds_part, numeric_id, parse_numeric_id};
use nix::errno::Errno;
use nix::unistd::{Group, User};
use vstd::prelude::*;

verus! {

#[verifier::external_type_specification]
#[verifier::external_body]
pub struct ExErrno(Errno);

/// The two kinds of account that can own a socket file.
#[derive(Debug, Clone, Copy, PartialEq, Eq, Structural)]
pub enum Account {
    User,
    Group,
}

/// What the account database said of a name.
#[derive(Debug, Clone, PartialEq, Eq)]
pub enum Lookup {
    /// The name has an entry, with this numeric id.
    Found(u32),
    /// The name has no entry.
    Missing,
    /// The database could not be asked; the text says why.
    Failed(String),
}

/// What a `Lookup` holds, as mathematical values.
pub enum LookupView {
    Found(u32),
    Missing,
    Failed(Seq<char>),
}

impl View for Lookup {
    type V = LookupView;

    open spec fn view(&self) -> LookupView {
        match self {
            Lookup::Found(id) => LookupView::Found(*id),
            Lookup::Missing => LookupView::Missing,
            Lookup::Failed(cause) => LookupView::Failed(cause@),
        }
    }
}

/// One change to a socket file.
#[derive(Debug, Clone, Copy, PartialEq, Eq, Structural)]
pub enum PermissionStep {
    /// Give the file this owner and group; a part that is `None` stays as it
    /// is.
    ChangeOwner { uid: Option<u32>, gid: Option<u32> },
    /// Give the file exactly these permission bits.
    ChangeMode { mode: u32 },
}

/// A result whose error text is taken as its characters.
pub open spec fn with_error_text<T>(result: Result<T, String>) -> Result<T, Seq<char>> {
    match result {
        Ok(value) => Ok(value),
        Err(message) => Err(message@),
    }
}

/// A plan, or the reason why there is none, as mathematical values.
pub open spec fn plan_view(plan: Result<Vec<PermissionStep>, String>) -> Result<
    Seq<PermissionStep>,
    Seq<char>,
> {
    match plan {
        Ok(steps) => Ok(steps@),
        Err(message) => Err(message@),
    }
}

/// Whether `name` holds a NUL character. No account has such a name.
pub open spec fn holds_nul(name: Seq<char>) -> bool {
    name.contains('\0')
}

/// Whether the account database can say `lookup` of `name`. Of most names
/// it can say anything; of a name that holds a NUL character it says that
/// there is no entry.
pub open spec fn possible_answer(name: Seq<char>, lookup: LookupView) -> bool {
    holds_nul(name) ==> lookup == LookupView::Missing
}

/// Whether `lookup` can be the answer for an optional owner or group.
pub open spec fn possible_for(value: Option<Seq<char>>, lookup: LookupView) -> bool {
    match value {
        Some(name) => possible_answer(name, lookup),
        None => true,
    }
}

/// Whether the two lookups can be the answers for a socket's owner and
/// group.
pub open spec fn possible_answers(
    socket: UnixDomainSocketView,
    owner_lookup: LookupView,
    group_lookup: LookupView,
) -> bool {
    possible_for(socket.owner, owner_lookup) && possible_for(socket.group, group_lookup)
}

/// How an account of this kind is called in messages.
pub open spec fn account_word(kind: Account) -> Seq<char> {
    match kind {
        Account::User => "user"@,
        Account::Group => "group"@,
    }
}

/// The report of an account that is not found.
pub open spec fn not_found_message(kind: Account, name: Seq<char>) -> Seq<char> {
    account_word(kind) + " '"@ + name + "' not found"@
}

/// The report of a name that could not be resolved: the account is not
/// found, whether it is absent or the lookup itself failed; in the second
/// case the cause follows.
pub open spec fn unresolved_report(kind: Account, name: Seq<char>, cause: Option<Seq<char>>) -> Seq<
    char,
> {
    match cause {
        Some(cause) => not_found_message(kind, name) + ": "@ + cause,
        None => not_found_message(kind, name),
    }
}

/// The error for an ownership change that could not be made on the file at
/// `path`.
pub open spec fn ownership_failure_message(path: Seq<char>, cause: Seq<char>) -> Seq<char> {
    "Failed to change owner and group of '"@ + path + "': "@ + cause
}

/// The error for a mode change that could not be made on the file at
/// `path`.
pub open spec fn mode_failure_message(path: Seq<char>, cause: Seq<char>) -> Seq<char> {
    "Failed to set permissions for '"@ + path + "': "@ + cause
}

/// The error for a step that the system refused.
pub open spec fn step_failure_message(step: PermissionStep, path: Seq<char>, cause: Seq<char>) -> Seq<
    char,
> {
    match step {
        PermissionStep::ChangeOwner { .. } => ownership_failure_message(path, cause),
        PermissionStep::ChangeMode { .. } => mode_failure_message(path, cause),
    }
}

/// The error for an owner or group of the socket at `path` that could not
/// be resolved: the failed ownership change, with the report of the name as
/// its cause.
pub open spec fn resolution_failure_message(
    kind: Account,
    path: Seq<char>,
    name: Seq<char>,
    cause: Option<Seq<char>>,
) -> Seq<char> {
    ownership_failure_message(path, unresolved_report(kind, name, cause))
}

/// The numeric id that `value` stands for, as owner or group of the socket
/// at `path`. A numeric identifier stands for itself, whatever the database
/// holds; any other value is a name, and stands for the entry that the
/// database has for it. Without an entry, or without an answer, it is not
/// found.
pub open spec fn resolved_id(
    kind: Account,
    path: Seq<char>,
    value: Seq<char>,
    lookup: LookupView,
) -> Result<u32, Seq<char>> {
    match numeric_id(value) {
        Some(id) => Ok(id),
        None => match lookup {
            LookupView::Found(id) => Ok(id),
            LookupView::Missing => Err(resolution_failure_message(kind, path, value, None)),
            LookupView::Failed(cause) => Err(
                resolution_failure_message(kind, path, value, Some(cause)),
            ),
        },
    }
}

/// The id for an optional value: none where none is asked for.
pub open spec fn resolved_optional(
    kind: Account,
    path: Seq<char>,
    value: Option<Seq<char>>,
    lookup: LookupView,
) -> Result<Option<u32>, Seq<char>> {
    match value {
        None => Ok(None),
        Some(value) => match resolved_id(kind, path, value, lookup) {
            Ok(id) => Ok(Some(id)),
            Err(message) => Err(message),
        },
    }
}

/// The ownership change for a socket, given what the database said of its
/// owner and of its group. The owner is resolved first, and its failure is
/// the one reported.
pub open spec fn ownership_step(
    socket: UnixDomainSocketView,
    owner_lookup: LookupView,
    group_lookup: LookupView,
) -> Result<PermissionStep, Seq<char>> {
    match resolved_optional(Account::User, socket.path, socket.owner, owner_lookup) {
        Err(message) => Err(message),
        Ok(uid) => match resolved_optional(
            Account::Group,
            socket.path,
            socket.group,
            group_lookup,
        ) {
            Err(message) => Err(message),
            Ok(gid) => Ok(PermissionStep::ChangeOwner { uid, gid }),
        },
    }
}

/// The mode change for a socket: one only where permission bits are set.
pub open spec fn mode_step(socket: UnixDomainSocketView) -> Option<PermissionStep> {
    match socket.mode {
        Some(mode) => Some(PermissionStep::ChangeMode { mode }),
        None => None,
    }
}

/// The changes to make to a socket file after it is bound, in order: the
/// ownership change, then the mode change if there is one.
pub open spec fn permission_plan(
    socket: UnixDomainSocketView,
    owner_lookup: LookupView,
    group_lookup: LookupView,
) -> Result<Seq<PermissionStep>, Seq<char>> {
    match ownership_step(socket, owner_lookup, group_lookup) {
        Err(message) => Err(message),
        Ok(ownership) => match mode_step(socket) {
            Some(mode) => Ok(seq![ownership, mode]),
            None => Ok(seq![ownership]),
        },
    }
}

/// Whether an optional owner or group can be resolved without the account
/// database: it is not set, or it is a numeric identifier.
pub open spec fn needs_no_lookup(value: Option<Seq<char>>) -> bool {
    match value {
        None => true,
        Some(value) => numeric_id(value) is Some,
    }
}

/// Looks up the user named `name` with `nix::unistd::User::from_name` and
/// keeps the numeric id of the entry found. The outcome depends on the
/// system's account database, with one exception that is claimed here: a name
/// that holds a NUL character is not looked up at all and has no entry.
#[verifier::external_body]
fn user_id_by_name(name: &str) -> (found: Result<Option<u32>, Errno>)
    ensures
        holds_nul(name@) ==> (found matches Ok(None)),
{
    match User::from_name(name) {
        Ok(Some(user)) => Ok(Some(user.uid.as_raw())),
        Ok(None) => Ok(None),
        Err(error) => Err(error),
    }
}

/// Looks up the group named `name` with `nix::unistd::Group::from_name` and
/// keeps the numeric id of the entry found. The outcome depends on the
/// system's account database, with one exception that is claimed here: a name
/// that holds a NUL character is not looked up at all and has no entry.
#[verifier::external_body]
fn group_id_by_name(name: &str) -> (found: Result<Option<u32>, Errno>)
    ensures
        holds_nul(name@) ==> (found matches Ok(None)),
{
    match Group::from_name(name) {
        Ok(Some(group)) => Ok(Some(group.gid.as_raw())),
        Ok(None) => Ok(None),
        Err(error) => Err(error),
    }
}

/// The text that `nix::errno::Errno` displays for an error. Nothing is
/// claimed of it.
#[verifier::external_body]
fn errno_text(error: &Errno) -> (text: String) {
    format!("{error}")
}

fn account_text(kind: Account) -> (word: &'static str)
    ensures
        word@ == account_word(kind),
{
    match kind {
        Account::User => "user",
        Account::Group => "group",
    }
}

fn ownership_failure(path: &str, cause: &str) -> (message: String)
    ensures
        message@ == ownership_failure_message(path@, cause@),
{
    let mut message = String::new();
    message.append("Failed to change owner and group of '");
    message.append(path);
    message.append("': ");
    message.append(cause);
    assert(message@ =~= ownership_failure_message(path@, cause@));
    message
}

fn mode_failure(path: &str, cause: &str) -> (message: String)
    ensures
        message@ == mode_failure_message(path@, cause@),
{
    let mut message = String::new();
    message.append("Failed to set permissions for '");
    message.append(path);
    message.append("': ");
    message.append(cause);
    assert(message@ =~= mode_failure_message(path@, cause@));
    message
}

fn resolution_failure(kind: Account, path: &str, name: &str, cause: Option<&str>) -> (message:
    String)
    ensures
        message@ == resolution_failure_message(
            kind,
            path@,
            name@,
            match cause {
                Some(cause) => Some(cause@),
                None => None,
            },
        ),
{
    let mut report = String::new();
    report.append(account_text(kind));
    report.append(" '");
    report.append(name);
    report.append("' not found");
    assert(report@ =~= not_found_message(kind, name@));
    match cause {
        Some(cause) => {
            report.append(": ");
            report.append(cause);
        },
        None => {},
    }
    ownership_failure(path, report.as_str())
}

impl Lookup {
    /// Asks the account database for `name`.
    pub fn of(kind: Account, name: &str) -> (found: Lookup)
        ensures
            possible_answer(name@, found@),
    {
        let outcome = match kind {
            Account::User => user_id_by_name(name),
            Account::Group => group_id_by_name(name),
        };
        match outcome {
            Ok(Some(id)) => Lookup::Found(id),
            Ok(None) => Lookup::Missing,
            Err(error) => Lookup::Failed(errno_text(&error)),
        }
    }
}

/// The id that `value` stands for as owner or group of the socket at
/// `path`, given what the database said of it.
pub fn resolve_with(kind: Account, path: &str, value: &str, lookup: &Lookup) -> (id: Result<
    u32,
    String,
>)
    ensures
        with_error_text(id) == resolved_id(kind, path@, value@, lookup@),
        id matches Err(message) ==> holds(message@, path@),
{
    proof {
        lemma_resolution_failure_holds_path_and_cause(
            kind,
            path@,
            value@,
            match lookup@ {
                LookupView::Failed(cause) => Some(cause),
                _ => None,
            },
        );
    }
    match parse_numeric_id(value) {
        Some(id) => Ok(id),
        None => match lookup {
            Lookup::Found(id) => Ok(*id),
            Lookup::Missing => Err(resolution_failure(kind, path, value, None)),
            Lookup::Failed(cause) => Err(
                resolution_failure(kind, path, value, Some(cause.as_str())),
            ),
        },
    }
}

/// The id that `value` stands for as owner or group of the socket at
/// `path`. The account database is asked only where `value` is no numeric
/// identifier; the outcome is the one that `resolved_id` gives for its
/// answer.
pub fn resolve(kind: Account, path: &str, value: &str) -> (id: Result<u32, String>)
    ensures
        exists|lookup: LookupView|
            possible_answer(value@, lookup) && with_error_text(id) == resolved_id(
                kind,
                path@,
                value@,
                lookup,
            ),
        numeric_id(value@) is Some ==> (id matches Ok(number) && numeric_id(value@) == Some(
            number,
        )),
        numeric_id(value@) is None && holds_nul(value@) ==> (id matches Err(message) && message@
            == resolution_failure_message(kind, path@, value@, None)),
        id matches Err(message) ==> holds(message@, path@),
{
    match parse_numeric_id(value) {
        Some(id) => {
            let id: Result<u32, String> = Ok(id);
            assert(possible_answer(value@, LookupView::Missing) && with_error_text(id)
                == resolved_id(kind, path@, value@, LookupView::Missing));
            id
        },
        None => {
            let lookup = Lookup::of(kind, value);
            let id = resolve_with(kind, path, value, &lookup);
            assert(possible_answer(value@, lookup@) && with_error_text(id) == resolved_id(
                kind,
                path@,
                value@,
                lookup@,
            ));
            id
        },
    }
}

fn lookup_if_name(kind: Account, value: &Option<String>) -> (found: Lookup)
    ensures
        possible_for(optional_text(*value), found@),
{
    match value {
        Some(value) => match parse_numeric_id(value.as_str()) {
            Some(_) => Lookup::Missing,
            None => Lookup::of(kind, value.as_str()),
        },
        None => Lookup::Missing,
    }
}

fn resolve_optional_with(kind: Account, path: &str, value: &Option<String>, lookup: &Lookup) -> (id:
    Result<Option<u32>, String>)
    ensures
        with_error_text(id) == resolved_optional(kind, path@, optional_text(*value), lookup@),
{
    match value {
        None => Ok(None),
        Some(value) => match resolve_with(kind, path, value.as_str(), lookup) {
            Ok(id) => Ok(Some(id)),
            Err(message) => Err(message),
        },
    }
}

impl PermissionStep {
    /// The error to report when the system refused this step on the file at
    /// `path`; `cause` is the system's own description of what went wrong.
    pub fn failure(&self, path: &str, cause: &str) -> (message: String)
        ensures
            message@ == step_failure_message(*self, path@, cause@),
            holds(message@, path@),
            holds(message@, cause@),
    {
        proof {
            lemma_step_failure_holds_path_and_cause(*self, path@, cause@);
        }
        match self {
            PermissionStep::ChangeOwner { .. } => ownership_failure(path, cause),
            PermissionStep::ChangeMode { .. } => mode_failure(path, cause),
        }
    }
}

impl UnixDomainSocket {
    /// The mode change to make: one only where permission bits are set, and
    /// then with exactly those bits.
    pub fn chmod(&self) -> (step: Option<PermissionStep>)
        ensures
            step == mode_step(self@),
    {
        match self.mode {
            Some(mode) => Some(PermissionStep::ChangeMode { mode }),
            None => None,
        }
    }

    /// Asks the account database what the plan needs of it: the owner where
    /// it is a name, and then the group where it is a name and the owner was
    /// found. Where nothing is asked, the answer is `Missing` and has no
    /// bearing on the plan.
    pub fn lookups(&self) -> (answers: (Lookup, Lookup))
        ensures
            possible_answers(self@, answers.0@, answers.1@),
    {
        let owner = lookup_if_name(Account::User, &self.owner);
        let owner_resolved = resolve_optional_with(
            Account::User,
            self.path.as_str(),
            &self.owner,
            &owner,
        ).is_ok();
        let group = if owner_resolved {
            lookup_if_name(Account::Group, &self.group)
        } else {
            Lookup::Missing
        };
        (owner, group)
    }

    /// The ownership change to make, given what the account database said
    /// of the owner and of the group. An owner or group given as a numeric
    /// identifier is taken as it is; any other is a name and stands for the
    /// entry found. A part that is not set stays unchanged.
    ///
    /// Fails where a name is not found, the owner's first. The error holds
    /// the path of the socket and, where the lookup itself failed, its cause.
    pub fn chown_with(&self, owner: &Lookup, group: &Lookup) -> (step: Result<
        PermissionStep,
        String,
    >)
        ensures
            with_error_text(step) == ownership_step(self@, owner@, group@),
            step matches Err(message) ==> holds(message@, self@.path),
    {
        proof {
            if permission_plan(self@, owner@, group@) is Err {
                lemma_plan_failure_holds_path_and_cause(self@, owner@, group@);
            }
        }
        let uid = match resolve_optional_with(
            Account::User,
            self.path.as_str(),
            &self.owner,
            owner,
        ) {
            Ok(uid) => uid,
            Err(message) => {
                return Err(message);
            },
        };
        match resolve_optional_with(Account::Group, self.path.as_str(), &self.group, group) {
            Ok(gid) => Ok(PermissionStep::ChangeOwner { uid, gid }),
            Err(message) => Err(message),
        }
    }

    /// The changes to make to the socket file once it is bound, given what
    /// the account database said of the owner and of the group, in the order
    /// in which they are to be made: ownership first, permission bits last,
    /// so that a platform that clears mode bits on a change of owner cannot
    /// undo them.
    pub fn set_permissions_with(&self, owner: &Lookup, group: &Lookup) -> (plan: Result<
        Vec<PermissionStep>,
        String,
    >)
        ensures
            plan_view(plan) == permission_plan(self@, owner@, group@),
            plan matches Err(message) ==> holds(message@, self@.path),
    {
        let ownership = match self.chown_with(owner, group) {
            Ok(ownership) => ownership,
            Err(message) => {
                return Err(message);
            },
        };
        let mut steps: Vec<PermissionStep> = Vec::new();
        steps.push(ownership);
        match self.chmod() {
            Some(mode) => {
                steps.push(mode);
            },
            None => {},
        }
        assert(steps@ =~= permission_plan(self@, owner@, group@)->Ok_0);
        Ok(steps)
    }

    /// The ownership change to make, with names looked up in the account
    /// database. Whatever the database says, the outcome is the one that
    /// `chown_with` gives for its answers; where neither owner nor group is
    /// a name, nothing is asked and the change is certain.
    pub fn chown(&self) -> (step: Result<PermissionStep, String>)
        ensures
            exists|owner_lookup: LookupView, group_lookup: LookupView|
                possible_answers(self@, owner_lookup, group_lookup) && with_error_text(step)
                    == ownership_step(self@, owner_lookup, group_lookup),
            needs_no_lookup(self@.owner) && needs_no_lookup(self@.group) ==> with_error_text(step)
                == ownership_step(self@, LookupView::Missing, LookupView::Missing) && step is Ok,
            step matches Err(message) ==> holds(message@, self@.path),
    {
        let (owner, group) = self.lookups();
        let step = self.chown_with(&owner, &group);
        assert(possible_answers(self@, owner@, group@) && with_error_text(step) == ownership_step(
            self@,
            owner@,
            group@,
        ));
        step
    }

    /// The changes to make to the socket file once it is bound, with names
    /// looked up in the account database. Whatever the database says, the
    /// outcome is the one that `set_permissions_with` gives for its answers;
    /// where neither owner nor group is a name, nothing is asked and there is
    /// a plan.
    pub fn set_permissions(&self) -> (plan: Result<Vec<PermissionStep>, String>)
        ensures
            exists|owner_lookup: LookupView, group_lookup: LookupView|
                possible_answers(self@, owner_lookup, group_lookup) && plan_view(plan)
                    == permission_plan(self@, owner_lookup, group_lookup),
            needs_no_lookup(self@.owner) && needs_no_lookup(self@.group) ==> plan_view(plan)
                == permission_plan(self@, LookupView::Missing, LookupView::Missing) && plan is Ok,
            plan matches Err(message) ==> holds(message@, self@.path),
    {
        let (owner, group) = self.lookups();
        let plan = self.set_permissions_with(&owner, &group);
        assert(possible_answers(self@, owner@, group@) && plan_view(plan) == permission_plan(
            self@,
            owner@,
            group@,
        ));
        plan
    }
}

/// Where neither the owner nor the group is a name, there is a plan, and it
/// is the same whatever the account database holds.
pub proof fn lemma_plan_without_names(
    socket: UnixDomainSocketView,
    owner_lookup: LookupView,
    group_lookup: LookupView,
    other_owner_lookup: LookupView,
    other_group_lookup: LookupView,
)
    requires
        needs_no_lookup(socket.owner),
        needs_no_lookup(socket.group),
    ensures
        permission_plan(socket, owner_lookup, group_lookup) is Ok,
        permission_plan(socket, owner_lookup, group_lookup) == permission_plan(
            socket,
            other_owner_lookup,
            other_group_lookup,
        ),
{
}

/// Every plan changes ownership exactly once, as its first step, and changes
/// the mode after that: at most once, only where permission bits are set, and
/// then to exactly those bits.
pub proof fn lemma_ownership_precedes_mode(
    socket: UnixDomainSocketView,
    owner_lookup: LookupView,
    group_lookup: LookupView,
)
    requires
        permission_plan(socket, owner_lookup, group_lookup) is Ok,
    ensures
        ({
            let steps = permission_plan(socket, owner_lookup, group_lookup)->Ok_0;
            &&& steps.len() == if socket.mode is Some {
                2nat
            } else {
                1nat
            }
            &&& steps[0] is ChangeOwner
            &&& forall|i: int|
                1 <= i < steps.len() ==> #[trigger] steps[i] == (PermissionStep::ChangeMode {
                    mode: socket.mode->Some_0,
                })
        }),
{
}

/// An owner that is a name and is not found leaves no plan, whatever the
/// group is and whether the account is absent or the lookup itself failed;
/// the error is that of the owner.
pub proof fn lemma_unknown_owner_fails(
    socket: UnixDomainSocketView,
    name: Seq<char>,
    owner_lookup: LookupView,
    group_lookup: LookupView,
)
    requires
        socket.owner == Some(name),
        numeric_id(name) is None,
        !(owner_lookup is Found),
    ensures
        permission_plan(socket, owner_lookup, group_lookup) is Err,
        permission_plan(socket, owner_lookup, group_lookup)->Err_0 == resolution_failure_message(
            Account::User,
            socket.path,
            name,
            match owner_lookup {
                LookupView::Failed(cause) => Some(cause),
                _ => None,
            },
        ),
{
}

/// The error of a refused step holds the path of the file and the system's
/// description of what went wrong.
pub proof fn lemma_step_failure_holds_path_and_cause(
    step: PermissionStep,
    path: Seq<char>,
    cause: Seq<char>,
)
    ensures
        holds(step_failure_message(step, path, cause), path),
        holds(step_failure_message(step, path, cause), cause),
{
    let message = step_failure_message(step, path, cause);
    let opening = match step {
        PermissionStep::ChangeOwner { .. } => "Failed to change owner and group of '"@,
        PermissionStep::ChangeMode { .. } => "Failed to set permissions for '"@,
    };
    assert(message =~= opening + path + ("': "@ + cause));
    lemma_holds_part(opening, path, "': "@ + cause);
    assert(message =~= (opening + path + "': "@) + cause + Seq::<char>::empty());
    lemma_holds_part(opening + path + "': "@, cause, Seq::empty());
}

/// The error of a name that could not be resolved holds the path of the
/// socket, says that the account is not found, and, where the lookup itself
/// failed, holds its cause.
pub proof fn lemma_resolution_failure_holds_path_and_cause(
    kind: Account,
    path: Seq<char>,
    name: Seq<char>,
    cause: Option<Seq<char>>,
)
    ensures
        holds(resolution_failure_message(kind, path, name, cause), path),
        holds(resolution_failure_message(kind, path, name, cause), not_found_message(kind, name)),
        cause matches Some(text) ==> holds(
            resolution_failure_message(kind, path, name, cause),
            text,
        ),
{
    let message = resolution_failure_message(kind, path, name, cause);
    let report = unresolved_report(kind, name, cause);
    let opening = "Failed to change owner and group of '"@;
    let lead = opening + path + "': "@;
    let found = not_found_message(kind, name);
    assert(message =~= opening + path + ("': "@ + report));
    lemma_holds_part(opening, path, "': "@ + report);
    match cause {
        Some(text) => {
            assert(message =~= lead + found + (": "@ + text));
            lemma_holds_part(lead, found, ": "@ + text);
            assert(message =~= (lead + found + ": "@) + text + Seq::<char>::empty());
            lemma_holds_part(lead + found + ": "@, text, Seq::empty());
        },
        None => {
            assert(message =~= lead + found + Seq::<char>::empty());
            lemma_holds_part(lead, found, Seq::empty());
        },
    }
}

/// Every failure to plan the permissions of a socket holds the path of the
/// socket and, where a lookup failed, the cause of the failure that is
/// reported: the owner's, or else the group's.
pub proof fn lemma_plan_failure_holds_path_and_cause(
    socket: UnixDomainSocketView,
    owner_lookup: LookupView,
    group_lookup: LookupView,
)
    requires
        permission_plan(socket, owner_lookup, group_lookup) is Err,
    ensures
        ({
            let error = permission_plan(socket, owner_lookup, group_lookup)->Err_0;
            let owner_failed = resolved_optional(
                Account::User,
                socket.path,
                socket.owner,
                owner_lookup,
            ) is Err;
            &&& ownership_step(socket, owner_lookup, group_lookup) == Err::<
                PermissionStep,
                Seq<char>,
            >(error)
            &&& holds(error, socket.path)
            &&& owner_failed ==> holds(
                error,
                not_found_message(Account::User, socket.owner->Some_0),
            )
            &&& !owner_failed ==> holds(
                error,
                not_found_message(Account::Group, socket.group->Some_0),
            )
            &&& owner_failed && owner_lookup is Failed ==> holds(error, owner_lookup->Failed_0)
            &&& !owner_failed && group_lookup is Failed ==> holds(error, group_lookup->Failed_0)
        }),
{
    let owner_failed = resolved_optional(Account::User, socket.path, socket.owner, owner_lookup)
        is Err;
    if owner_failed {
        lemma_resolution_failure_holds_path_and_cause(
            Account::User,
            socket.path,
            socket.owner->Some_0,
            match owner_lookup {
                LookupView::Failed(cause) => Some(cause),
                _ => None,
            },
        );
    } else {
        lemma_resolution_failure_holds_path_and_cause(
            Account::Group,
            socket.path,
            socket.group->Some_0,
            match group_lookup {
                LookupView::Failed(cause) => Some(cause),
                _ => None,
            },
        );
    }
}

} // verus!
