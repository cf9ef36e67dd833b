//! The PC's own Tailscale identity, read from what `tailscale status --json` prints: the MagicDNS
//! name ("<pc>.<tailnet>.ts.net.") that `tailscale serve` offers HTTPS on, and the login of the
//! Tailscale user owning this PC.

use vstd::prelude::*;
use crate::access;
use crate::access::{TailscaleSelf, TailscaleView};
use crate::json;
use crate::json::Json;
use crate::number;
use crate::text;
use serde_json::Value;

verus! {

/// The member `key` of an optional value.
pub open spec fn inner(j: Option<Json>, key: Seq<char>) -> Option<Json> {
    match j {
        Some(x) => json::member(x, key),
        None => None,
    }
}

/// The login of the user with the given id.
pub open spec fn login_of(status: Json, id: u64) -> Option<Seq<char>> {
    json::maybe_string(
        inner(
            inner(json::member(status, "User"@), number::decimal(id as nat)),
            "LoginName"@,
        ),
    )
}

/// The id of the user owning this PC.
pub open spec fn owner_of(status: Json) -> Option<u64> {
    match inner(json::member(status, "Self"@), "UserID"@) {
        Some(id) => json::natural_in(id),
        None => None,
    }
}

/// The identity in a status: there is one if this PC has a name other than dots; the login may be
/// unknown.
pub open spec fn identity_in(status: Json) -> Option<TailscaleView> {
    match json::maybe_string(inner(json::member(status, "Self"@), "DNSName"@)) {
        Some(name) => if text::trim_end_of(name, '.').len() == 0 {
            None
        } else {
            Some(
                TailscaleView {
                    host: text::trim_end_of(name, '.'),
                    login: match owner_of(status) {
                        Some(id) => login_of(status, id),
                        None => None,
                    },
                },
            )
        },
        None => None,
    }
}

/// The login of the user with the given id.
fn find_login(status: &Value, id: u64) -> (r: Option<String>)
    ensures
        match r {
            Some(s) => login_of(json::json_of(*status), id) == Some(s@),
            None => login_of(json::json_of(*status), id) is None,
        },
{
    let Some(users) = json::get(status, "User") else {
        return None;
    };
    let Some(user) = json::get(users, &number::to_decimal(id)) else {
        return None;
    };
    let Some(login) = json::get(user, "LoginName") else {
        return None;
    };
    match json::as_str(login) {
        Some(s) => Some(s.to_owned()),
        None => None,
    }
}

/// The identity in a status.
pub fn read_status(status: &Value) -> (r: Option<TailscaleSelf>)
    ensures
        access::identity_view(r) == identity_in(json::json_of(*status)),
{
    let Some(me) = json::get(status, "Self") else {
        return None;
    };
    let Some(name) = json::get(me, "DNSName") else {
        return None;
    };
    let Some(name) = json::as_str(name) else {
        return None;
    };
    let host = text::trim_end_char(&text::chars_of(name), '.');
    if host.len() == 0 {
        return None;
    }
    let login: Option<String> = match json::get(me, "UserID") {
        Some(id) => match json::as_u64(id) {
            Some(id) => find_login(status, id),
            None => None,
        },
        None => None,
    };
    Some(TailscaleSelf { host: text::string_of(&host), login })
}

/// The identity in what `tailscale status --json` printed, if it is JSON.
pub fn parse_tailscale_status(printed: &[u8]) -> (r: Option<TailscaleSelf>)
    ensures
        access::identity_view(r) == (match json::json_text(printed@) {
            Some(status) => identity_in(status),
            None => None,
        }),
{
    match json::parse(printed) {
        Some(status) => read_status(&status),
        None => None,
    }
}

/// A name that was read is not empty and does not end with a dot, so that it can be compared with a
/// Host header.
pub proof fn names_have_no_trailing_dot(status: Json)
    requires
        identity_in(status) is Some,
    ensures
        identity_in(status)->0.host.len() > 0,
        identity_in(status)->0.host.last() != '.',
{
    let name = json::maybe_string(inner(json::member(status, "Self"@), "DNSName"@))->0;
    lemma_trim_end_of(name, '.');
}

proof fn lemma_trim_end_of(s: Seq<char>, c: char)
    ensures
        text::trim_end_of(s, c).len() > 0 ==> text::trim_end_of(s, c).last() != c,
    decreases s.len(),
{
    if s.len() > 0 && s.last() == c {
        lemma_trim_end_of(s.drop_last(), c);
    }
}

/// What the identity is read from: the PC's name from "DNSName" under "Self", without the dots at its
/// end; the login from "LoginName" of that user under "User" whose id stands in "UserID" under "Self".
pub proof fn where_the_identity_comes_from(
    status: Map<Seq<char>, Json>,
    me: Map<Seq<char>, Json>,
    users: Map<Seq<char>, Json>,
    user: Map<Seq<char>, Json>,
    name: Seq<char>,
    login: Seq<char>,
    id: u64,
    digits: Seq<char>,
)
    requires
        status.contains_key("Self"@),
        status["Self"@] == Json::Object(me),
        me.contains_key("DNSName"@),
        me["DNSName"@] == Json::Text(name),
    ensures
        ({
            let found = identity_in(Json::Object(status));
            let owned = me.contains_key("UserID"@) && me["UserID"@] == (Json::Number {
                text: digits,
                natural: Some(id),
            });
            let listed = status.contains_key("User"@) && status["User"@] == Json::Object(users)
                && users.contains_key(number::decimal(id as nat)) && users[number::decimal(
                id as nat,
            )] == Json::Object(user) && user.contains_key("LoginName"@) && user["LoginName"@]
                == Json::Text(login);
            let named = exists|i: int| 0 <= i < name.len() && #[trigger] name[i] != '.';
            &&& found is Some <==> named
            &&& found matches Some(t) ==> {
                &&& t.host.len() <= name.len()
                &&& t.host == name.take(t.host.len() as int)
                &&& t.host.last() != '.'
                &&& forall|i: int| t.host.len() <= i < name.len() ==> #[trigger] name[i] == '.'
                &&& owned && listed ==> t.login == Some(login)
                &&& !me.contains_key("UserID"@) || !status.contains_key("User"@) ==> t.login is None
            }
        }),
{
    text::the_run_at_the_end_goes(name, '.');
    let host = text::trim_end_of(name, '.');
    if host.len() > 0 {
        assert(name[host.len() - 1] == host.last());
    }
}

/// A status without "Self", or whose "DNSName" there is missing or no text, has no identity.
pub proof fn no_name_no_identity(status: Map<Seq<char>, Json>, me: Map<Seq<char>, Json>)
    ensures
        !status.contains_key("Self"@) ==> identity_in(Json::Object(status)) is None,
        status.contains_key("Self"@) && status["Self"@] == Json::Object(me) && (!me.contains_key(
            "DNSName"@,
        ) || !(me["DNSName"@] is Text)) ==> identity_in(Json::Object(status)) is None,
{
}

} // verus!
