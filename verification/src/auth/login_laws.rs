//! What logins, keys and sessions amount to.
use vstd::prelude::*;
use crate::auth::bootstrap::bootstrap_active;
use crate::auth::oidc::{
    callback_failure_reply, client_key, login_failure_reply, login_outcome, provider_entry,
    CallbackFailure, LoginFailure,
};
use crate::auth::rate_limit::{attempt, counter_of};
use crate::auth::session::{admin_refusal, me_reply, request_key, tokens_in, SessionAuth};
use crate::config::AppConfig;
use crate::json::{lemma_lookup_push, JsonView};
use crate::text::{find_char, has_prefix, lemma_find_char_first, opt_view, split_on, trimmed};

verus! {

/// The key of a request is what follows `Bearer ` in its authorization; without such an
/// authorization it is the key in the other header.
pub proof fn law_key_of_a_request(t: Seq<char>, other: Seq<char>, x: Option<Seq<char>>)
    requires
        !has_prefix(other, "Bearer "@),
    ensures
        request_key(Some("Bearer "@ + t), x) == Some(t),
        request_key(Some(other), x) == x,
        request_key(None, x) == x,
{
    let a = "Bearer "@ + t;
    let n = "Bearer "@.len() as int;
    assert(a.subrange(0, n) =~= "Bearer "@);
    assert(a.skip(n) =~= t);
}

/// The tokens of a session are the values of the cookies with its name, in order; other cookies
/// give none. White space around a cookie does not matter.
pub proof fn law_session_cookies(cookies: Seq<Seq<char>>, c: Seq<char>, t: Seq<char>)
    ensures
        tokens_in(Seq::empty()) == Seq::<Seq<char>>::empty(),
        trimmed(c) == "se_session="@ + t ==> tokens_in(cookies.push(c)) == tokens_in(cookies).push(
            t,
        ),
        !has_prefix(trimmed(c), "se_session="@) ==> tokens_in(cookies.push(c)) == tokens_in(
            cookies,
        ),
{
    assert(cookies.push(c).drop_last() =~= cookies);
    let n = "se_session="@.len() as int;
    let a = "se_session="@ + t;
    assert(a.subrange(0, n) =~= "se_session="@);
    assert(a.skip(n) =~= t);
}

/// A client is told from others by the first address that its request was forwarded for; clients
/// without one count as one.
pub proof fn law_clients_are_told_apart(a: Seq<char>, rest: Seq<char>)
    requires
        !a.contains(','),
    ensures
        trimmed(a).len() > 0 ==> client_key(Some(a)) == trimmed(a),
        trimmed(a).len() > 0 ==> client_key(Some(a.push(',') + rest)) == trimmed(a),
        trimmed(a).len() == 0 ==> client_key(Some(a)) == client_key(None),
{
    lemma_find_char_first(a, ',');
    let i = find_char(a, ',');
    if i < a.len() {
        assert(a[i] == ',');
    }
    assert(split_on(a, ',')[0] == a);
    let v = a.push(',') + rest;
    lemma_find_char_first(v, ',');
    let k = find_char(v, ',');
    assert(v[a.len() as int] == ',');
    if k < a.len() {
        assert(v[k] == a[k]);
        assert(a.contains(','));
    }
    assert(k == a.len());
    assert(v.take(k) =~= a);
    assert(split_on(v, ',')[0] == a);
}

/// Five logins may be tried in sixty seconds, counted from the first; after that the count begins
/// anew. Times are in nanoseconds.
pub proof fn law_five_tries_a_minute(count: u32, start: u64, now: u64)
    ensures
        attempt(None, now) == (true, (1u32, now)),
        start <= now < start + 60_000_000_000 && count < 5 ==> attempt(Some((count, start)), now)
            == (true, ((count + 1) as u32, start)),
        start <= now < start + 60_000_000_000 && count >= 5 ==> attempt(Some((count, start)), now)
            == (false, (count, start)),
        now >= start + 60_000_000_000 ==> attempt(Some((count, start)), now) == (true, (1u32, now)),
{
}

/// The bootstrap administrator is let in exactly with both the name and the password that were set,
/// and only where that way in was opened.
pub proof fn law_bootstrap(c: AppConfig, user: Seq<char>, pass: Seq<char>)
    ensures
        c.bootstrap_matches(user, pass) <==> {
            &&& c.bootstrap_user is Some && c.bootstrap_user->0@ == user
            &&& c.bootstrap_password is Some && c.bootstrap_password->0@ == pass
        },
        bootstrap_active(c) <==> c.break_glass && c.bootstrap_user is Some
            && c.bootstrap_password is Some,
{
}

/// Every attempt to log in as the bootstrap administrator counts for its client and for no other;
/// it succeeds exactly with the right credentials while attempts are left. Where the way in is
/// closed, nothing is said and nothing counts.
pub proof fn law_bootstrap_logins(
    c: AppConfig,
    m: Map<Seq<char>, (u32, u64)>,
    key: Seq<char>,
    other: Seq<char>,
    now: u64,
    user: Seq<char>,
    pass: Seq<char>,
)
    requires
        other != key,
    ensures
        ({
            let (r, n) = login_outcome(c, m, key, now, user, pass);
            let open = c.break_glass && c.bootstrap_user is Some && c.bootstrap_password is Some;
            let left = attempt(counter_of(m, key), now).0;
            let right = c.bootstrap_user->0@ == user && c.bootstrap_password->0@ == pass;
            &&& !open ==> r is Hidden && n == m
            &&& open ==> counter_of(n, key) == Some(attempt(counter_of(m, key), now).1)
            &&& counter_of(n, other) == counter_of(m, other)
            &&& r is Accepted <==> open && left && right
            &&& open && !left ==> r is Refused && r->Refused_0.status == 429
            &&& open && left && !right ==> r is Refused && r->Refused_0.status == 401
        }),
{
}

/// Only administrators pass: a request without a session is asked to log in, one of another user is
/// forbidden.
pub proof fn law_administrators_only(s: SessionAuth)
    ensures
        admin_refusal(None) is Some && admin_refusal(None)->0.status == 401,
        admin_refusal(Some(s)) is None <==> s.is_admin,
        !s.is_admin ==> admin_refusal(Some(s))->0.status == 403,
{
}

proof fn lemma_session_keys()
    ensures
        "user_id"@.len() == 7,
        "email"@.len() == 5,
        "display_name"@.len() == 12,
        "is_admin"@.len() == 8,
        "chat_url"@.len() == 8,
        "id"@.len() == 2,
        "name"@.len() == 4,
        "is_admin"@ != "chat_url"@,
{
    reveal_strlit("user_id");
    reveal_strlit("email");
    reveal_strlit("display_name");
    reveal_strlit("is_admin");
    reveal_strlit("chat_url");
    reveal_strlit("id");
    reveal_strlit("name");
    assert("chat_url"@[0] == 'c');
    assert("is_admin"@[0] == 'i');
}

/// A session tells who the user is, each value under its own name; without a session there is only
/// a refusal.
pub proof fn law_session_tells_the_user(s: SessionAuth, url: Seq<char>)
    ensures
        ({
            let r = me_reply(Some(s), url);
            &&& r.status == 200
            &&& r.body.text_field("user_id"@) == Some(s.user_id@)
            &&& r.body.text_field("email"@) == opt_view(s.email)
            &&& r.body.text_field("display_name"@) == opt_view(s.display_name)
            &&& r.body.field("is_admin"@) == Some(JsonView::Bool(s.is_admin))
            &&& r.body.text_field("chat_url"@) == Some(url)
            &&& s.email is None ==> r.body.field("email"@) == Some(JsonView::Null)
            &&& s.display_name is None ==> r.body.field("display_name"@) == Some(JsonView::Null)
        }),
        me_reply(None, url).status == 401,
{
    broadcast use lemma_lookup_push;

    lemma_session_keys();
}

/// A provider is offered under its identifier and its name.
pub proof fn law_providers_are_offered(id: String, name: String)
    ensures
        provider_entry((id, name)).text_field("id"@) == Some(id@),
        provider_entry((id, name)).text_field("name"@) == Some(name@),
{
    broadcast use lemma_lookup_push;

    lemma_session_keys();
}

/// A login that fails for a reason on the client's side is told so; any other failure is the
/// server's.
pub proof fn law_failed_logins(f: CallbackFailure, g: LoginFailure)
    ensures
        callback_failure_reply(f).status == (if f is State || f is Verification {
            400u16
        } else {
            500u16
        }),
        login_failure_reply(g).status == (if g is UnknownProvider {
            400u16
        } else {
            500u16
        }),
{
}

} // verus!
