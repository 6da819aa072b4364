//! Method selection and the credential table.

use crate::bytes::same_bytes;
use crate::protocol::AuthMethods;
use vstd::prelude::*;
use vstd::string::StringSliceAdditionalSpecFns;
use vstd::utf8::encode_utf8;

verus! {

/// One entry of the credential table.
#[derive(Clone, Debug, PartialEq)]
pub struct User {
    pub username: String,
    password: String,
}

impl User {
    /// The octets of the user name, as a client presents them.
    pub closed spec fn name_bytes(&self) -> Seq<u8> {
        encode_utf8(self.username@)
    }

    /// The octets of the password, as a client presents them.
    pub closed spec fn pass_bytes(&self) -> Seq<u8> {
        encode_utf8(self.password@)
    }

    pub fn new(username: String, password: String) -> (u: User)
        ensures
            u.name_bytes() == encode_utf8(username@),
            u.pass_bytes() == encode_utf8(password@),
    {
        User { username, password }
    }

    /// The password, for a caller that keeps the entry in a form of its own.
    pub fn password(&self) -> (p: &str)
        ensures
            encode_utf8(p@) == self.pass_bytes(),
    {
        self.password.as_str()
    }

    /// Whether the presented pair is this entry, octet for octet.
    pub fn matches(&self, username: &[u8], password: &[u8]) -> (r: bool)
        ensures
            r == (self.name_bytes() == username@ && self.pass_bytes() == password@),
    {
        same_bytes(self.username.as_str().as_bytes(), username) && same_bytes(
            self.password.as_str().as_bytes(),
            password,
        )
    }
}

/// The pair stands in the table.
pub open spec fn in_table(users: Seq<User>, username: Seq<u8>, password: Seq<u8>) -> bool {
    exists|i: int|
        0 <= i < users.len() && (#[trigger] users[i]).name_bytes() == username
            && users[i].pass_bytes() == password
}

/// The presented pair is accepted: neither field is empty and the pair
/// stands in the table.
pub open spec fn accepted(users: Seq<User>, username: Seq<u8>, password: Seq<u8>) -> bool {
    username.len() >= 1 && password.len() >= 1 && in_table(users, username, password)
}

/// Only a pair of UTF-8 texts is ever accepted: the table holds strings.
pub proof fn lemma_accepted_is_utf8(users: Seq<User>, username: Seq<u8>, password: Seq<u8>)
    requires
        accepted(users, username, password),
    ensures
        vstd::utf8::valid_utf8(username),
        vstd::utf8::valid_utf8(password),
{
    let i = choose|i: int|
        0 <= i < users.len() && (#[trigger] users[i]).name_bytes() == username
            && users[i].pass_bytes() == password;
    vstd::utf8::encode_utf8_valid_utf8(users[i].username@);
    vstd::utf8::encode_utf8_valid_utf8(users[i].password@);
}

/// Check if a username + password pair is valid.
pub fn authed(users: &[User], username: &[u8], password: &[u8]) -> (r: bool)
    ensures
        r == accepted(users@, username@, password@),
{
    if username.len() == 0 || password.len() == 0 {
        return false;
    }
    let mut i: usize = 0;
    while i < users.len()
        invariant
            i <= users.len(),
            username@.len() >= 1,
            password@.len() >= 1,
            forall|k: int|
                0 <= k < i ==> !((#[trigger] users@[k]).name_bytes() == username@
                    && users@[k].pass_bytes() == password@),
        decreases users.len() - i,
    {
        if users[i].matches(username, password) {
            assert(users@[i as int].name_bytes() == username@);
            return true;
        }
        i += 1;
    }
    false
}

/// Whether `m` stands in `methods`.
pub fn has_method(methods: &[AuthMethods], m: AuthMethods) -> (r: bool)
    ensures
        r == methods@.contains(m),
{
    let mut i: usize = 0;
    while i < methods.len()
        invariant
            i <= methods.len(),
            forall|k: int| 0 <= k < i ==> methods@[k] != m,
        decreases methods.len() - i,
    {
        if methods[i] == m {
            return true;
        }
        i += 1;
    }
    false
}

/// The offered methods that the server has enabled, in the order offered.
pub open spec fn available(offered: Seq<u8>, enabled: Seq<AuthMethods>) -> Seq<AuthMethods>
    decreases offered.len(),
{
    if offered.len() == 0 {
        Seq::empty()
    } else {
        let rest = available(offered.drop_last(), enabled);
        let m = AuthMethods::of_code(offered.last());
        if enabled.contains(m) {
            rest.push(m)
        } else {
            rest
        }
    }
}

/// A method is available exactly if it is offered and enabled.
pub proof fn lemma_available_contains(offered: Seq<u8>, enabled: Seq<AuthMethods>, m: AuthMethods)
    ensures
        available(offered, enabled).contains(m) <==> (enabled.contains(m) && exists|i: int|
            0 <= i < offered.len() && AuthMethods::of_code(#[trigger] offered[i]) == m),
    decreases offered.len(),
{
    if offered.len() > 0 {
        let front = offered.drop_last();
        let rest = available(front, enabled);
        let last = AuthMethods::of_code(offered.last());
        lemma_available_contains(front, enabled, m);
        if available(offered, enabled).contains(m) {
            if rest.contains(m) {
                let i = choose|i: int|
                    0 <= i < front.len() && AuthMethods::of_code(#[trigger] front[i]) == m;
                assert(offered[i] == front[i]);
            } else {
                assert(enabled.contains(last));
                let k = choose|k: int|
                    0 <= k < available(offered, enabled).len() && available(offered, enabled)[k]
                        == m;
                if k < rest.len() {
                    assert(rest[k] == m);
                    assert(false);
                }
                assert(last == m);
                assert(AuthMethods::of_code(offered[offered.len() - 1]) == m);
            }
        }
        if enabled.contains(m) && exists|i: int|
            0 <= i < offered.len() && AuthMethods::of_code(#[trigger] offered[i]) == m {
            let i = choose|i: int|
                0 <= i < offered.len() && AuthMethods::of_code(#[trigger] offered[i]) == m;
            if i < front.len() {
                assert(front[i] == offered[i]);
                assert(rest.contains(m));
                let k = choose|k: int| 0 <= k < rest.len() && rest[k] == m;
                assert(available(offered, enabled)[k] == m);
            } else {
                assert(last == m);
                assert(available(offered, enabled) == rest.push(m));
                assert(rest.push(m)[rest.len() as int] == m);
            }
        }
    }
}

/// Return the offered methods that the server has enabled.
pub fn get_avalible_methods(offered: &[u8], enabled: &[AuthMethods]) -> (methods: Vec<AuthMethods>)
    ensures
        methods@ == available(offered@, enabled@),
{
    let mut methods: Vec<AuthMethods> = Vec::new();
    let mut i: usize = 0;
    while i < offered.len()
        invariant
            i <= offered.len(),
            methods@ == available(offered@.take(i as int), enabled@),
        decreases offered.len() - i,
    {
        let m: AuthMethods = AuthMethods::from(offered[i]);
        assert(offered@.take(i + 1).drop_last() =~= offered@.take(i as int));
        if has_method(enabled, m) {
            methods.push(m);
        }
        i += 1;
    }
    assert(offered@.take(i as int) =~= offered@);
    methods
}

/// The method that the server selects among the available ones: user name
/// and password before no authentication, and no other.
pub open spec fn preferred(methods: Seq<AuthMethods>) -> AuthMethods {
    if methods.contains(AuthMethods::UserPass) {
        AuthMethods::UserPass
    } else if methods.contains(AuthMethods::NoAuth) {
        AuthMethods::NoAuth
    } else {
        AuthMethods::NoMethods
    }
}

/// Whether some offered octet stands for `m`.
pub open spec fn offers(offered: Seq<u8>, m: AuthMethods) -> bool {
    exists|i: int| 0 <= i < offered.len() && AuthMethods::of_code(#[trigger] offered[i]) == m
}

/// The method that the server selects for a greeting.
pub open spec fn selection(offered: Seq<u8>, enabled: Seq<AuthMethods>) -> AuthMethods {
    if offers(offered, AuthMethods::UserPass) && enabled.contains(AuthMethods::UserPass) {
        AuthMethods::UserPass
    } else if offers(offered, AuthMethods::NoAuth) && enabled.contains(AuthMethods::NoAuth) {
        AuthMethods::NoAuth
    } else {
        AuthMethods::NoMethods
    }
}

/// Where user name and password are both offered and enabled, they are
/// selected, whatever else is offered or enabled.
pub proof fn lemma_user_pass_preferred(offered: Seq<u8>, enabled: Seq<AuthMethods>)
    requires
        offers(offered, AuthMethods::UserPass),
        enabled.contains(AuthMethods::UserPass),
    ensures
        selection(offered, enabled) == AuthMethods::UserPass,
{
}

/// Select the method for a greeting's method octets.
pub fn select_method(offered: &[u8], enabled: &[AuthMethods]) -> (m: AuthMethods)
    ensures
        m == selection(offered@, enabled@),
        m == preferred(available(offered@, enabled@)),
{
    let methods = get_avalible_methods(offered, enabled);
    proof {
        lemma_available_contains(offered@, enabled@, AuthMethods::UserPass);
        lemma_available_contains(offered@, enabled@, AuthMethods::NoAuth);
    }
    if has_method(methods.as_slice(), AuthMethods::UserPass) {
        AuthMethods::UserPass
    } else if has_method(methods.as_slice(), AuthMethods::NoAuth) {
        AuthMethods::NoAuth
    } else {
        AuthMethods::NoMethods
    }
}

/// The selection depends only on which methods are offered and which are
/// enabled: neither their order nor their repetition changes it.
pub proof fn lemma_selection_by_sets(
    offered_a: Seq<u8>,
    offered_b: Seq<u8>,
    enabled_a: Seq<AuthMethods>,
    enabled_b: Seq<AuthMethods>,
)
    requires
        offered_a.to_set() == offered_b.to_set(),
        enabled_a.to_set() == enabled_b.to_set(),
    ensures
        selection(offered_a, enabled_a) == selection(offered_b, enabled_b),
{
    assert forall|m: AuthMethods| enabled_a.contains(m) == enabled_b.contains(m) by {
        assert(enabled_a.contains(m) == enabled_a.to_set().contains(m));
        assert(enabled_b.contains(m) == enabled_b.to_set().contains(m));
    }
    assert forall|m: AuthMethods| offers(offered_a, m) == offers(offered_b, m) by {
        if offers(offered_a, m) {
            lemma_offers_by_set(offered_a, offered_b, m);
        }
        if offers(offered_b, m) {
            lemma_offers_by_set(offered_b, offered_a, m);
        }
    }
}

proof fn lemma_offers_by_set(a: Seq<u8>, b: Seq<u8>, m: AuthMethods)
    requires
        a.to_set() == b.to_set(),
        offers(a, m),
    ensures
        offers(b, m),
{
    let i = choose|i: int| 0 <= i < a.len() && AuthMethods::of_code(#[trigger] a[i]) == m;
    assert(a.contains(a[i]));
    assert(a.to_set().contains(a[i]));
    assert(b.to_set().contains(a[i]));
    assert(b.contains(a[i]));
    let j = choose|j: int| 0 <= j < b.len() && b[j] == a[i];
    assert(AuthMethods::of_code(b[j]) == m);
}

} // verus!
