//! Which texts of a request are checked before anything is done with it, and in which order.
use vstd::prelude::*;
use crate::api::anthropic::opt_str_view;
use crate::reply::{Reply, ReplyView};

verus! {

/// Which bound the length of a text is held to.
#[derive(Debug, Clone, Copy, PartialEq, Eq, Structural)]
pub enum Limit {
    Name,
    Url,
    Secret,
    Description,
}

/// A check of one text.
#[derive(Debug, PartialEq, Eq)]
pub enum Check {
    /// That the text under a field is not too long.
    Length { field: &'static str, value: String, limit: Limit },
    /// That a text names a repository.
    Repository(String),
}

/// The model of a check.
pub enum CheckView {
    Length { field: Seq<char>, value: Seq<char>, limit: Limit },
    Repository(Seq<char>),
}

impl View for Check {
    type V = CheckView;

    open spec fn view(&self) -> CheckView {
        match self {
            Check::Length { field, value, limit } => CheckView::Length {
                field: field@,
                value: value@,
                limit: *limit,
            },
            Check::Repository(value) => CheckView::Repository(value@),
        }
    }
}

/// The models of some checks.
pub open spec fn check_views(s: Seq<Check>) -> Seq<CheckView> {
    s.map_values(|c: Check| c@)
}

/// The checks so far and, where a text is given, one of its length.
pub open spec fn with_length(
    s: Seq<CheckView>,
    field: Seq<char>,
    value: Option<Seq<char>>,
    limit: Limit,
) -> Seq<CheckView> {
    match value {
        Some(t) => s.push(CheckView::Length { field, value: t, limit }),
        None => s,
    }
}

/// Adds a check of a text's length, where one is given.
fn add_length(out: &mut Vec<Check>, field: &'static str, value: Option<&str>, limit: Limit)
    ensures
        check_views(final(out)@) == with_length(
            check_views(old(out)@),
            field@,
            opt_str_view(value),
            limit,
        ),
{
    if let Some(t) = value {
        out.push(Check::Length { field, value: t.to_owned(), limit });
        assert(check_views(out@) =~= with_length(
            check_views(old(out)@),
            field@,
            opt_str_view(value),
            limit,
        ));
    }
}

/// What is checked of the texts given for an identity provider.
pub open spec fn checks_of_idp(
    name: Option<Seq<char>>,
    issuer: Option<Seq<char>>,
    client_id: Option<Seq<char>>,
    client_secret: Option<Seq<char>>,
) -> Seq<CheckView> {
    let s = with_length(Seq::empty(), "name"@, name, Limit::Name);
    let s = with_length(s, "issuer"@, issuer, Limit::Url);
    let s = with_length(s, "client_id"@, client_id, Limit::Name);
    with_length(s, "client_secret"@, client_secret, Limit::Secret)
}

/// What is checked of a request to create or change an identity provider.
pub fn idp_checks(
    name: Option<&str>,
    issuer: Option<&str>,
    client_id: Option<&str>,
    client_secret: Option<&str>,
) -> (r: Vec<Check>)
    ensures
        check_views(r@) == checks_of_idp(
            opt_str_view(name),
            opt_str_view(issuer),
            opt_str_view(client_id),
            opt_str_view(client_secret),
        ),
{
    let mut out: Vec<Check> = Vec::new();
    assert(check_views(out@) =~= Seq::empty());
    add_length(&mut out, "name", name, Limit::Name);
    add_length(&mut out, "issuer", issuer, Limit::Url);
    add_length(&mut out, "client_id", client_id, Limit::Name);
    add_length(&mut out, "client_secret", client_secret, Limit::Secret);
    out
}

/// What is checked of the texts given for a model category.
pub open spec fn checks_of_category(
    name: Option<Seq<char>>,
    description: Option<Seq<char>>,
) -> Seq<CheckView> {
    let s = with_length(Seq::empty(), "name"@, name, Limit::Name);
    with_length(s, "description"@, description, Limit::Description)
}

/// What is checked of a request to create or change a model category.
pub fn category_checks(name: Option<&str>, description: Option<&str>) -> (r: Vec<Check>)
    ensures
        check_views(r@) == checks_of_category(opt_str_view(name), opt_str_view(description)),
{
    let mut out: Vec<Check> = Vec::new();
    assert(check_views(out@) =~= Seq::empty());
    add_length(&mut out, "name", name, Limit::Name);
    add_length(&mut out, "description", description, Limit::Description);
    out
}

/// What is checked of a repository that is given under a field: that it is not too long, then that
/// it is one.
pub open spec fn checks_of_repository(field: Seq<char>, repo: Seq<char>) -> Seq<CheckView> {
    with_length(Seq::empty(), field, Some(repo), Limit::Name).push(CheckView::Repository(repo))
}

/// What is checked of a request that names a repository.
pub fn repository_checks(field: &'static str, repo: &str) -> (r: Vec<Check>)
    ensures
        check_views(r@) == checks_of_repository(field@, repo@),
{
    let mut out: Vec<Check> = Vec::new();
    assert(check_views(out@) =~= Seq::empty());
    add_length(&mut out, field, Some(repo), Limit::Name);
    let ghost before = check_views(out@);
    out.push(Check::Repository(repo.to_owned()));
    assert(check_views(out@) =~= before.push(CheckView::Repository(repo@)));
    out
}

/// The refusal that is answered, given what each check came to in turn: that of the first check
/// that was not passed.
pub open spec fn refusal_of(verdicts: Seq<Option<Reply>>) -> Option<ReplyView>
    decreases verdicts.len(),
{
    if verdicts.len() == 0 {
        None
    } else {
        match verdicts[0] {
            Some(reply) => Some(reply@),
            None => refusal_of(verdicts.drop_first()),
        }
    }
}

/// The view of a refusal.
pub open spec fn opt_reply_view(o: Option<Reply>) -> Option<ReplyView> {
    match o {
        Some(reply) => Some(reply@),
        None => None,
    }
}

/// The refusal that is answered, given what each check came to in turn.
pub fn first_refusal(verdicts: Vec<Option<Reply>>) -> (r: Option<Reply>)
    ensures
        opt_reply_view(r) == refusal_of(verdicts@),
{
    let mut i: usize = 0;
    assert(verdicts@.skip(0) =~= verdicts@);
    while i < verdicts.len()
        invariant
            i <= verdicts@.len(),
            refusal_of(verdicts@.skip(i as int)) == refusal_of(verdicts@),
        decreases verdicts@.len() - i,
    {
        assert(verdicts@.skip(i as int).drop_first() =~= verdicts@.skip(i + 1));
        if let Some(reply) = &verdicts[i] {
            return Some(Reply { status: reply.status, body: reply.body.copy() });
        }
        i += 1;
    }
    None
}

} // verus!
