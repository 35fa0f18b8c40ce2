//! Credentials given through environment variables. `SYSAND_CRED_<X>`
//! holds the URL pattern of credential `<X>`; `SYSAND_CRED_<X>_BASIC_USER`
//! and `SYSAND_CRED_<X>_BASIC_PASS` hold an HTTP basic user and password;
//! `SYSAND_CRED_<X>_BEARER_TOKEN` holds a bearer token. This module turns
//! the variables into authentication rules, or refuses an incomplete set.

use vstd::prelude::*;

use crate::purl::slice_chars;
use crate::text::{chars_equal, chars_of, ends_with_chars, ends_with_seq, starts_with_chars, starts_with_seq, string_from_chars};

verus! {

/// What a credential variable holds.
#[derive(Debug, Clone, Copy, PartialEq, Eq, Structural)]
pub enum CredKind {
    /// The URL pattern.
    Pattern,
    /// The user name of HTTP basic authentication.
    BasicUser,
    /// The password of HTTP basic authentication.
    BasicPass,
    /// A bearer token.
    BearerToken,
}

/// `SYSAND_CRED_`.
pub open spec fn cred_prefix() -> Seq<char> {
    "SYSAND_CRED_"@
}

/// What a variable name declares: the kind and the credential's name, or
/// `None` for a variable that is not a credential.
pub open spec fn classify_key(key: Seq<char>) -> Option<(CredKind, Seq<char>)> {
    if starts_with_seq(key, cred_prefix()) {
        let rest = key.skip(cred_prefix().len() as int);
        if ends_with_seq(rest, "_BASIC_USER"@) {
            Some((CredKind::BasicUser, rest.take(rest.len() - "_BASIC_USER"@.len())))
        } else if ends_with_seq(rest, "_BASIC_PASS"@) {
            Some((CredKind::BasicPass, rest.take(rest.len() - "_BASIC_PASS"@.len())))
        } else if ends_with_seq(rest, "_BEARER_TOKEN"@) {
            Some((CredKind::BearerToken, rest.take(rest.len() - "_BEARER_TOKEN"@.len())))
        } else {
            Some((CredKind::Pattern, rest))
        }
    } else {
        None
    }
}

/// The value of the last variable declaring `kind` of credential `name`.
pub open spec fn last_value(vars: Seq<(Seq<char>, Seq<char>)>, kind: CredKind, name: Seq<char>) -> Option<
    Seq<char>,
>
    decreases vars.len(),
{
    if vars.len() == 0 {
        None
    } else if classify_key(vars.last().0) == Some((kind, name)) {
        Some(vars.last().1)
    } else {
        last_value(vars.drop_last(), kind, name)
    }
}

/// The credential names the variables declare, in order of first
/// declaration.
pub open spec fn cred_names(vars: Seq<(Seq<char>, Seq<char>)>) -> Seq<Seq<char>>
    decreases vars.len(),
{
    if vars.len() == 0 {
        Seq::empty()
    } else {
        let prev = cred_names(vars.drop_last());
        match classify_key(vars.last().0) {
            Some((_, n)) => if prev.contains(n) {
                prev
            } else {
                prev.push(n)
            },
            None => prev,
        }
    }
}

/// One authentication rule: credentials for the URLs matching a pattern.
pub enum AuthRule {
    /// HTTP basic authentication.
    Basic { pattern: String, user: String, password: String },
    /// A bearer token.
    Bearer { pattern: String, token: String },
}

/// The plain content of an [`AuthRule`].
pub enum AuthRuleView {
    Basic { pattern: Seq<char>, user: Seq<char>, password: Seq<char> },
    Bearer { pattern: Seq<char>, token: Seq<char> },
}

impl View for AuthRule {
    type V = AuthRuleView;

    open spec fn view(&self) -> AuthRuleView {
        match self {
            AuthRule::Basic { pattern, user, password } => AuthRuleView::Basic {
                pattern: pattern@,
                user: user@,
                password: password@,
            },
            AuthRule::Bearer { pattern, token } => AuthRuleView::Bearer {
                pattern: pattern@,
                token: token@,
            },
        }
    }
}

/// Why the credential variables are refused.
pub enum CredentialError {
    /// A pattern has no authentication scheme.
    NoScheme { name: String, pattern: String },
    /// Only one of the basic user and password is given.
    PartialBasic { name: String },
    /// Credentials are given without a pattern.
    MissingPattern { name: String },
}

/// The plain content of a [`CredentialError`].
pub enum CredentialErrorView {
    NoScheme { name: Seq<char>, pattern: Seq<char> },
    PartialBasic { name: Seq<char> },
    MissingPattern { name: Seq<char> },
}

impl View for CredentialError {
    type V = CredentialErrorView;

    open spec fn view(&self) -> CredentialErrorView {
        match self {
            CredentialError::NoScheme { name, pattern } => CredentialErrorView::NoScheme {
                name: name@,
                pattern: pattern@,
            },
            CredentialError::PartialBasic { name } => CredentialErrorView::PartialBasic {
                name: name@,
            },
            CredentialError::MissingPattern { name } => CredentialErrorView::MissingPattern {
                name: name@,
            },
        }
    }
}

/// The rules of one credential: a pattern is required; basic
/// authentication needs both user and password; at least one scheme must be
/// given. Basic comes before bearer.
pub open spec fn rules_for(vars: Seq<(Seq<char>, Seq<char>)>, name: Seq<char>) -> Result<
    Seq<AuthRuleView>,
    CredentialErrorView,
> {
    let user = last_value(vars, CredKind::BasicUser, name);
    let pass = last_value(vars, CredKind::BasicPass, name);
    let token = last_value(vars, CredKind::BearerToken, name);
    match last_value(vars, CredKind::Pattern, name) {
        None => Err(CredentialErrorView::MissingPattern { name }),
        Some(pattern) => if user is None && pass is None && token is None {
            Err(CredentialErrorView::NoScheme { name, pattern })
        } else if (user is Some) != (pass is Some) {
            Err(CredentialErrorView::PartialBasic { name })
        } else {
            let basic = if user is Some {
                seq![
                    AuthRuleView::Basic {
                        pattern,
                        user: user->Some_0,
                        password: pass->Some_0,
                    },
                ]
            } else {
                Seq::empty()
            };
            let bearer = if token is Some {
                seq![AuthRuleView::Bearer { pattern, token: token->Some_0 }]
            } else {
                Seq::empty()
            };
            Ok(basic + bearer)
        },
    }
}

/// What one credential's rules hold, for all variables: every rule is for
/// its pattern; a bearer rule with the token is present exactly when a
/// token is set, whether or not basic authentication is set too; a basic
/// rule with the user and password exactly when both are set. A credential
/// with a pattern and a complete scheme is accepted.
pub proof fn lemma_credential_rules_follow_the_variables(
    vars: Seq<(Seq<char>, Seq<char>)>,
    name: Seq<char>,
)
    ensures
        rules_for(vars, name) matches Ok(rs) ==> {
            let pattern = last_value(vars, CredKind::Pattern, name);
            let user = last_value(vars, CredKind::BasicUser, name);
            let pass = last_value(vars, CredKind::BasicPass, name);
            let token = last_value(vars, CredKind::BearerToken, name);
            &&& pattern is Some
            &&& forall|t: Seq<char>|
                (exists|i: int|
                    0 <= i < rs.len() && #[trigger] rs[i] == AuthRuleView::Bearer {
                        pattern: pattern->Some_0,
                        token: t,
                    }) <==> token == Some(t)
            &&& (exists|i: int| 0 <= i < rs.len() && #[trigger] rs[i] is Bearer) <==> token is Some
            &&& (exists|i: int| 0 <= i < rs.len() && #[trigger] rs[i] is Basic) <==> (user is Some
                && pass is Some)
            &&& forall|i: int|
                0 <= i < rs.len() && #[trigger] rs[i] is Basic ==> rs[i] == AuthRuleView::Basic {
                    pattern: pattern->Some_0,
                    user: user->Some_0,
                    password: pass->Some_0,
                }
        },
        last_value(vars, CredKind::Pattern, name) is Some && (last_value(
            vars,
            CredKind::BasicUser,
            name,
        ) is Some) == (last_value(vars, CredKind::BasicPass, name) is Some) && (last_value(
            vars,
            CredKind::BasicUser,
            name,
        ) is Some || last_value(vars, CredKind::BearerToken, name) is Some) ==> rules_for(vars, name)
            is Ok,
{
    let user = last_value(vars, CredKind::BasicUser, name);
    let pass = last_value(vars, CredKind::BasicPass, name);
    let token = last_value(vars, CredKind::BearerToken, name);
    if let Ok(rs) = rules_for(vars, name) {
        let pattern = last_value(vars, CredKind::Pattern, name)->Some_0;
        if let Some(t) = token {
            let i = if user is Some { 1int } else { 0int };
            assert(rs[i] == AuthRuleView::Bearer { pattern, token: t });
        }
        if user is Some {
            assert(rs[0] is Basic);
        }
    }
}

/// The rules of the credentials `names`, in order; the first refused
/// credential decides the error.
pub open spec fn rules_for_names(vars: Seq<(Seq<char>, Seq<char>)>, names: Seq<Seq<char>>) -> Result<
    Seq<AuthRuleView>,
    CredentialErrorView,
>
    decreases names.len(),
{
    if names.len() == 0 {
        Ok(Seq::empty())
    } else {
        match rules_for_names(vars, names.drop_last()) {
            Err(e) => Err(e),
            Ok(prev) => match rules_for(vars, names.last()) {
                Err(e) => Err(e),
                Ok(rs) => Ok(prev + rs),
            },
        }
    }
}

/// `x` is a rule of one of the credentials `names`.
pub open spec fn rule_of_some(vars: Seq<(Seq<char>, Seq<char>)>, names: Seq<Seq<char>>, x: AuthRuleView) -> bool {
    exists|j: int| 0 <= j < names.len() && #[trigger] rules_for(vars, names[j])->Ok_0.contains(x)
}

/// The rules of a whole set of credentials: the set is accepted exactly
/// when each credential is, and then its rules are exactly the rules of its
/// credentials: each credential's every rule is among them, and each of
/// them is a rule of one of the credentials.
pub proof fn lemma_plan_holds_each_credentials_rules(
    vars: Seq<(Seq<char>, Seq<char>)>,
    names: Seq<Seq<char>>,
)
    ensures
        rules_for_names(vars, names) is Ok <==> forall|j: int|
            0 <= j < names.len() ==> #[trigger] rules_for(vars, names[j]) is Ok,
        rules_for_names(vars, names) is Ok ==> forall|j: int, i: int|
            0 <= j < names.len() && 0 <= i < rules_for(vars, names[j])->Ok_0.len() ==> rules_for_names(
                vars,
                names,
            )->Ok_0.contains(#[trigger] rules_for(vars, names[j])->Ok_0[i]),
        rules_for_names(vars, names) is Ok ==> forall|k: int|
            0 <= k < rules_for_names(vars, names)->Ok_0.len() ==> rule_of_some(
                vars,
                names,
                #[trigger] rules_for_names(vars, names)->Ok_0[k],
            ),
    decreases names.len(),
{
    if names.len() == 0 {
        assert(rules_for_names(vars, names)->Ok_0 =~= Seq::<AuthRuleView>::empty());
    } else {
        let pre = names.drop_last();
        let last = names.last();
        lemma_plan_holds_each_credentials_rules(vars, pre);
        assert forall|j: int| 0 <= j < pre.len() implies #[trigger] pre[j] == names[j] by {}
        if rules_for_names(vars, names) is Ok {
            let prev = rules_for_names(vars, pre)->Ok_0;
            let rs = rules_for(vars, last)->Ok_0;
            let all = rules_for_names(vars, names)->Ok_0;
            assert(all == prev + rs);
            assert forall|j: int, i: int|
                0 <= j < names.len() && 0 <= i < rules_for(vars, names[j])->Ok_0.len() implies all.contains(
                #[trigger] rules_for(vars, names[j])->Ok_0[i],
            ) by {
                if j < pre.len() {
                    assert(pre[j] == names[j]);
                    let x = rules_for(vars, names[j])->Ok_0[i];
                    assert(prev.contains(x));
                    let m = choose|m: int| 0 <= m < prev.len() && prev[m] == x;
                    assert(all[m] == x);
                } else {
                    assert(all[prev.len() + i] == rs[i]);
                }
            }
            assert forall|k: int| 0 <= k < all.len() implies rule_of_some(vars, names, #[trigger] all[k]) by {
                if k < prev.len() {
                    assert(all[k] == prev[k]);
                    assert(rules_for_names(vars, pre)->Ok_0[k] == prev[k]);
                    assert(rule_of_some(vars, pre, prev[k]));
                    let j = choose|j: int|
                        0 <= j < pre.len() && #[trigger] rules_for(vars, pre[j])->Ok_0.contains(prev[k]);
                    assert(pre[j] == names[j]);
                    assert(rules_for(vars, names[j])->Ok_0.contains(all[k]));
                } else {
                    assert(all[k] == rs[k - prev.len()]);
                    assert(names[names.len() - 1] == last);
                    assert(rules_for(vars, names[names.len() - 1])->Ok_0.contains(all[k]));
                }
            }
        }
        if forall|j: int| 0 <= j < names.len() ==> #[trigger] rules_for(vars, names[j]) is Ok {
            assert forall|j: int| 0 <= j < pre.len() implies #[trigger] rules_for(vars, pre[j]) is Ok by {
                assert(pre[j] == names[j]);
            }
            assert(rules_for(vars, names[names.len() - 1]) is Ok);
        }
        if rules_for_names(vars, names) is Ok {
            assert forall|j: int| 0 <= j < names.len() implies #[trigger] rules_for(vars, names[j]) is Ok by {
                if j < pre.len() {
                    assert(pre[j] == names[j]);
                    assert(rules_for(vars, pre[j]) is Ok);
                }
            }
        }
    }
}

/// The plain content of the variables.
pub open spec fn var_views(vars: Seq<(String, String)>) -> Seq<(Seq<char>, Seq<char>)> {
    Seq::new(vars.len(), |i: int| (vars[i].0@, vars[i].1@))
}

/// The plain content of a list of rules.
pub open spec fn rule_views(rs: Seq<AuthRule>) -> Seq<AuthRuleView> {
    Seq::new(rs.len(), |i: int| rs[i]@)
}

fn literal(s: &str) -> (r: Vec<char>)
    ensures
        r@ == s@,
{
    chars_of(s)
}

/// What a variable name declares.
pub fn classify(key: &str) -> (r: Option<(CredKind, String)>)
    ensures
        match r {
            Some((k, n)) => classify_key(key@) == Some((k, n@)),
            None => classify_key(key@) is None,
        },
{
    let cs = chars_of(key);
    let prefix = literal("SYSAND_CRED_");
    if !starts_with_chars(&cs, &prefix) {
        return None;
    }
    proof {
        reveal_strlit("SYSAND_CRED_");
    }
    let rest = slice_chars(&cs, prefix.len(), cs.len());
    assert(rest@ =~= key@.skip(cred_prefix().len() as int));
    let user = literal("_BASIC_USER");
    let pass = literal("_BASIC_PASS");
    let token = literal("_BEARER_TOKEN");
    if ends_with_chars(&rest, &user) {
        let name = slice_chars(&rest, 0, rest.len() - user.len());
        return Some((CredKind::BasicUser, string_from_chars(name.as_slice())));
    }
    if ends_with_chars(&rest, &pass) {
        let name = slice_chars(&rest, 0, rest.len() - pass.len());
        return Some((CredKind::BasicPass, string_from_chars(name.as_slice())));
    }
    if ends_with_chars(&rest, &token) {
        let name = slice_chars(&rest, 0, rest.len() - token.len());
        return Some((CredKind::BearerToken, string_from_chars(name.as_slice())));
    }
    Some((CredKind::Pattern, string_from_chars(rest.as_slice())))
}

/// The value of the last variable declaring `kind` of credential `name`.
fn find_last_value(vars: &Vec<(String, String)>, kind: CredKind, name: &str) -> (r: Option<String>)
    ensures
        match r {
            Some(v) => last_value(var_views(vars@), kind, name@) == Some(v@),
            None => last_value(var_views(vars@), kind, name@) is None,
        },
{
    let ghost vs = var_views(vars@);
    let mut i: usize = vars.len();
    assert(vs.take(i as int) =~= vs);
    while i > 0
        invariant
            i <= vars@.len(),
            vs == var_views(vars@),
            last_value(vs.take(i as int), kind, name@) == last_value(vs, kind, name@),
        decreases i,
    {
        let ghost pre = vs.take(i as int);
        assert(pre.drop_last() =~= vs.take(i - 1));
        assert(pre.last() == vs[i - 1]);
        let k = i - 1;
        match classify(vars[k].0.as_str()) {
            Some((kk, n)) => {
                if kk == kind && chars_equal(&chars_of(n.as_str()), &chars_of(name)) {
                    return Some(vars[k].1.clone());
                }
            },
            None => {},
        }
        i = k;
    }
    None
}

/// The credential names declared by the variables, in order of first
/// declaration.
fn collect_names(vars: &Vec<(String, String)>) -> (r: Vec<String>)
    ensures
        Seq::new(r@.len(), |j: int| r@[j]@) == cred_names(var_views(vars@)),
{
    let ghost vs = var_views(vars@);
    let mut out: Vec<String> = Vec::new();
    let n: usize = vars.len();
    let mut i: usize = 0;
    while i < n
        invariant
            n == vars@.len(),
            i <= n,
            vs == var_views(vars@),
            Seq::new(out@.len(), |j: int| out@[j]@) == cred_names(vs.take(i as int)),
        decreases n - i,
    {
        let ghost before = Seq::new(out@.len(), |j: int| out@[j]@);
        assert(vs.take(i + 1).drop_last() =~= vs.take(i as int));
        assert(vs.take(i + 1).last() == vs[i as int]);
        match classify(vars[i].0.as_str()) {
            Some((_, nm)) => {
                let mut seen = false;
                let mut j: usize = 0;
                while j < out.len()
                    invariant
                        j <= out@.len(),
                        before == Seq::new(out@.len(), |m: int| out@[m]@),
                        seen == exists|m: int| 0 <= m < j && #[trigger] before[m] == nm@,
                    decreases out@.len() - j,
                {
                    if chars_equal(&chars_of(out[j].as_str()), &chars_of(nm.as_str())) {
                        assert(before[j as int] == nm@);
                        seen = true;
                    }
                    j = j + 1;
                }
                assert(seen == before.contains(nm@));
                if !seen {
                    out.push(nm);
                    assert(Seq::new(out@.len(), |m: int| out@[m]@) =~= before.push(
                        out@[out@.len() - 1]@,
                    ));
                }
            },
            None => {},
        }
        i = i + 1;
    }
    assert(vs.take(n as int) =~= vs);
    out
}

/// The rules of one credential.
fn credential_rules(vars: &Vec<(String, String)>, name: &str) -> (r: Result<
    Vec<AuthRule>,
    CredentialError,
>)
    ensures
        match r {
            Ok(rs) => rules_for(var_views(vars@), name@) == Ok::<
                Seq<AuthRuleView>,
                CredentialErrorView,
            >(rule_views(rs@)),
            Err(e) => rules_for(var_views(vars@), name@) == Err::<
                Seq<AuthRuleView>,
                CredentialErrorView,
            >(e@),
        },
{
    let user = find_last_value(vars, CredKind::BasicUser, name);
    let pass = find_last_value(vars, CredKind::BasicPass, name);
    let token = find_last_value(vars, CredKind::BearerToken, name);
    let pattern = match find_last_value(vars, CredKind::Pattern, name) {
        None => return Err(CredentialError::MissingPattern { name: name.to_string() }),
        Some(p) => p,
    };
    if user.is_none() && pass.is_none() && token.is_none() {
        return Err(CredentialError::NoScheme { name: name.to_string(), pattern });
    }
    if user.is_some() != pass.is_some() {
        return Err(CredentialError::PartialBasic { name: name.to_string() });
    }
    let mut rules: Vec<AuthRule> = Vec::new();
    match (user, pass) {
        (Some(u), Some(p)) => {
            rules.push(AuthRule::Basic { pattern: pattern.clone(), user: u, password: p });
        },
        _ => {},
    }
    match token {
        Some(t) => {
            rules.push(AuthRule::Bearer { pattern, token: t });
        },
        None => {},
    }
    assert(rule_views(rules@) =~= match rules_for(var_views(vars@), name@) {
        Ok(v) => v,
        Err(_) => Seq::empty(),
    });
    Ok(rules)
}

/// Turns the environment's variables into authentication rules: for each
/// credential, in order of first declaration, its basic rule then its
/// bearer rule. The last of several variables declaring the same thing
/// wins. Refused when a credential has no pattern, a pattern has no
/// scheme, or basic authentication lacks its user or its password; the
/// first such credential decides the error.
pub fn plan_credentials(vars: &Vec<(String, String)>) -> (r: Result<
    Vec<AuthRule>,
    CredentialError,
>)
    ensures
        match r {
            Ok(rs) => rules_for_names(var_views(vars@), cred_names(var_views(vars@))) == Ok::<
                Seq<AuthRuleView>,
                CredentialErrorView,
            >(rule_views(rs@)),
            Err(e) => rules_for_names(var_views(vars@), cred_names(var_views(vars@))) == Err::<
                Seq<AuthRuleView>,
                CredentialErrorView,
            >(e@),
        },
{
    let names = collect_names(vars);
    let ghost ns = Seq::new(names@.len(), |j: int| names@[j]@);
    let ghost vs = var_views(vars@);
    let mut out: Vec<AuthRule> = Vec::new();
    let n: usize = names.len();
    let mut i: usize = 0;
    assert(ns.take(0) =~= Seq::<Seq<char>>::empty());
    assert(rule_views(out@) =~= Seq::<AuthRuleView>::empty());
    while i < n
        invariant
            n == names@.len(),
            i <= n,
            ns == Seq::new(names@.len(), |j: int| names@[j]@),
            ns == cred_names(vs),
            vs == var_views(vars@),
            rules_for_names(vs, ns.take(i as int)) == Ok::<Seq<AuthRuleView>, CredentialErrorView>(
                rule_views(out@),
            ),
        decreases n - i,
    {
        assert(ns.take(i + 1).drop_last() =~= ns.take(i as int));
        assert(ns.take(i + 1).last() == names@[i as int]@);
        match credential_rules(vars, names[i].as_str()) {
            Err(e) => {
                proof {
                    lemma_rules_error_persists(vs, ns, i + 1);
                }
                return Err(e);
            },
            Ok(rs) => {
                let ghost before = rule_views(out@);
                let ghost added = rule_views(rs@);
                let mut rs = rs;
                let mut k: usize = 0;
                let m: usize = rs.len();
                let ghost rs0 = rs@;
                while rs.len() > 0
                    invariant
                        rs0.len() == m,
                        rs@.len() + k == m,
                        rs@ == rs0.skip(k as int),
                        rule_views(out@) == before + rule_views(rs0.take(k as int)),
                    decreases rs@.len(),
                {
                    let rule = rs.remove(0);
                    let ghost prev_out = rule_views(out@);
                    out.push(rule);
                    assert(rule_views(out@) =~= prev_out.push(rule@));
                    assert(rs0.take(k + 1) =~= rs0.take(k as int).push(rule));
                    assert(rule_views(rs0.take(k + 1)) =~= rule_views(rs0.take(k as int)).push(
                        rule@,
                    ));
                    assert(rule_views(out@) =~= before + rule_views(rs0.take(k + 1)));
                    k = k + 1;
                    assert(rs@ =~= rs0.skip(k as int));
                }
                assert(rs0.take(k as int) =~= rs0);
                assert(rule_views(rs0) == added);
            },
        }
        i = i + 1;
    }
    assert(ns.take(n as int) =~= ns);
    Ok(out)
}

/// Once the rules of a prefix of the names are refused, so are the rules of
/// every longer prefix, with the same error.
proof fn lemma_rules_error_persists(
    vars: Seq<(Seq<char>, Seq<char>)>,
    names: Seq<Seq<char>>,
    k: int,
)
    requires
        0 <= k <= names.len(),
        rules_for_names(vars, names.take(k)) is Err,
    ensures
        rules_for_names(vars, names) == rules_for_names(vars, names.take(k)),
    decreases names.len() - k,
{
    if k < names.len() {
        assert(names.take(k + 1).drop_last() =~= names.take(k));
        lemma_rules_error_persists(vars, names, k + 1);
    } else {
        assert(names.take(k) =~= names);
    }
}

} // verus!
