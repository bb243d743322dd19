//! Registry authentication: bearer challenges and token requests.
use vstd::prelude::*;

verus! {

/// A bearer challenge from a `WWW-Authenticate` header.
#[derive(Debug, Clone)]
pub struct AuthChallenge {
    pub realm: String,
    pub service: Option<String>,
    pub scopes: Vec<String>,
}

/// The abstract value of an [`AuthChallenge`].
pub ghost struct AuthChallengeView {
    pub realm: Seq<char>,
    pub service: Option<Seq<char>>,
    pub scopes: Seq<Seq<char>>,
}

/// The text of an optional string.
pub open spec fn opt_view(o: Option<String>) -> Option<Seq<char>> {
    match o {
        Some(s) => Some(s@),
        None => None,
    }
}

/// The texts of a list of strings.
pub open spec fn strings_view(v: Seq<String>) -> Seq<Seq<char>> {
    v.map_values(|s: String| s@)
}

impl View for AuthChallenge {
    type V = AuthChallengeView;

    open spec fn view(&self) -> AuthChallengeView {
        AuthChallengeView {
            realm: self.realm@,
            service: opt_view(self.service),
            scopes: strings_view(self.scopes@),
        }
    }
}

/// One challenge of a header as the `http_auth` parser gives it: the scheme
/// and the parameters, values unescaped, in header order.
#[derive(Debug, Clone)]
pub struct ParsedChallenge {
    pub scheme: String,
    pub params: Vec<(String, String)>,
}

/// A parameter as plain text.
pub type ParamView = (Seq<char>, Seq<char>);

/// A challenge as plain text.
pub type ChallengeView = (Seq<char>, Seq<ParamView>);

/// A parameter as plain text.
pub open spec fn param_view(p: (String, String)) -> ParamView {
    (p.0@, p.1@)
}

/// A parsed challenge as plain text.
pub open spec fn challenge_view(c: ParsedChallenge) -> ChallengeView {
    (c.scheme@, c.params@.map_values(|p: (String, String)| param_view(p)))
}

/// A parse result as plain text.
pub open spec fn parse_result_view(r: Result<Vec<ParsedChallenge>, String>) -> Result<
    Seq<ChallengeView>,
    Seq<char>,
> {
    match r {
        Ok(v) => Ok(v@.map_values(|c: ParsedChallenge| challenge_view(c))),
        Err(e) => Err(e@),
    }
}

/// What `http_auth::parse_challenges` makes of a header: its challenges
/// (scheme, then parameters with unescaped values), or the text of its
/// parse error.
pub uninterp spec fn parsed_challenges(header: Seq<char>) -> Result<Seq<ChallengeView>, Seq<char>>;

/// Calls `http_auth::parse_challenges` and copies each challenge out as
/// owned text, unescaping parameter values with `ParamValue::to_unescaped`;
/// a parse error becomes its `Debug` text. Claimed: the result is the named
/// parse of `header`.
#[verifier::external_body]
fn parse_challenges(header: &str) -> (r: Result<Vec<ParsedChallenge>, String>)
    ensures
        parse_result_view(r) == parsed_challenges(header@),
{
    match http_auth::parse_challenges(header) {
        Ok(challenges) => Ok(challenges.into_iter().map(|c| ParsedChallenge {
            scheme: c.scheme.to_owned(),
            params: c.params.into_iter().map(|(k, v)| (k.to_owned(), v.to_unescaped())).collect(),
        }).collect()),
        Err(error) => Err(format!("{error:?}")),
    }
}

/// Why registry authentication failed.
#[derive(Debug, Clone)]
pub enum AuthError {
    /// The header is not a list of challenges.
    InvalidChallenge { header: String, detail: String },
    /// No challenge uses the bearer scheme.
    UnsupportedChallenge { header: String },
    /// The bearer challenge names no realm.
    MissingRealm,
    /// The bearer challenge names an empty realm.
    EmptyRealm,
    /// A 401 response came without a `WWW-Authenticate` header.
    MissingAuthenticateHeader,
    /// The token response held neither `token` nor `access_token`.
    MissingToken,
}

/// The abstract value of an [`AuthError`].
pub ghost enum AuthErrorView {
    InvalidChallenge { header: Seq<char>, detail: Seq<char> },
    UnsupportedChallenge { header: Seq<char> },
    MissingRealm,
    EmptyRealm,
    MissingAuthenticateHeader,
    MissingToken,
}

impl View for AuthError {
    type V = AuthErrorView;

    open spec fn view(&self) -> AuthErrorView {
        match self {
            AuthError::InvalidChallenge { header, detail } => AuthErrorView::InvalidChallenge {
                header: header@,
                detail: detail@,
            },
            AuthError::UnsupportedChallenge { header } => AuthErrorView::UnsupportedChallenge {
                header: header@,
            },
            AuthError::MissingRealm => AuthErrorView::MissingRealm,
            AuthError::EmptyRealm => AuthErrorView::EmptyRealm,
            AuthError::MissingAuthenticateHeader => AuthErrorView::MissingAuthenticateHeader,
            AuthError::MissingToken => AuthErrorView::MissingToken,
        }
    }
}

/// The message of an authentication failure.
pub open spec fn auth_error_message(e: AuthErrorView) -> Seq<char> {
    match e {
        AuthErrorView::InvalidChallenge { header, detail } => "failed to parse registry auth challenge `"@ + header
            + "`: "@ + detail,
        AuthErrorView::UnsupportedChallenge { header } => "unsupported registry auth challenge `"@ + header + "`"@,
        AuthErrorView::MissingRealm => "registry auth challenge did not include a realm"@,
        AuthErrorView::EmptyRealm => "registry auth challenge included an empty realm"@,
        AuthErrorView::MissingAuthenticateHeader => "registry returned 401 without a WWW-Authenticate header"@,
        AuthErrorView::MissingToken => "registry auth token response did not include a token"@,
    }
}

impl AuthError {
    /// The message shown for this error.
    pub fn to_string(&self) -> (s: String)
        ensures
            s@ == auth_error_message(self@),
    {
        match self {
            AuthError::InvalidChallenge { header, detail } => {
                let mut s = "failed to parse registry auth challenge `".to_owned();
                s.push_str(header.as_str());
                s.push_str("`: ");
                s.push_str(detail.as_str());
                s
            },
            AuthError::UnsupportedChallenge { header } => {
                let mut s = "unsupported registry auth challenge `".to_owned();
                s.push_str(header.as_str());
                s.push_str("`");
                s
            },
            AuthError::MissingRealm => "registry auth challenge did not include a realm".to_owned(),
            AuthError::EmptyRealm => "registry auth challenge included an empty realm".to_owned(),
            AuthError::MissingAuthenticateHeader => "registry returned 401 without a WWW-Authenticate header".to_owned(),
            AuthError::MissingToken => "registry auth token response did not include a token".to_owned(),
        }
    }
}

/// A character folded to ASCII lowercase, as a code point.
pub open spec fn ascii_fold(c: char) -> u32 {
    if 'A' <= c <= 'Z' {
        (c as u32 + 32) as u32
    } else {
        c as u32
    }
}

/// Equality up to ASCII case.
pub open spec fn eq_ignore_ascii_case(a: Seq<char>, b: Seq<char>) -> bool {
    a.len() == b.len() && forall|i: int| 0 <= i < a.len() ==> ascii_fold(a[i]) == ascii_fold(b[i])
}

/// The scheme name `Bearer`.
pub open spec fn bearer_chars() -> Seq<char> {
    seq!['B', 'e', 'a', 'r', 'e', 'r']
}

/// The parameter name `realm`.
pub open spec fn realm_chars() -> Seq<char> {
    seq!['r', 'e', 'a', 'l', 'm']
}

/// The parameter name `service`.
pub open spec fn service_chars() -> Seq<char> {
    seq!['s', 'e', 'r', 'v', 'i', 'c', 'e']
}

/// The parameter name `scope`.
pub open spec fn scope_chars() -> Seq<char> {
    seq!['s', 'c', 'o', 'p', 'e']
}

/// Whether a challenge uses the bearer scheme.
pub open spec fn is_bearer(c: ChallengeView) -> bool {
    eq_ignore_ascii_case(c.0, bearer_chars())
}

/// `i` is the first bearer challenge.
pub open spec fn is_first_bearer(cs: Seq<ChallengeView>, i: int) -> bool {
    &&& 0 <= i < cs.len()
    &&& is_bearer(cs[i])
    &&& forall|j: int| 0 <= j < i ==> !is_bearer(cs[j])
}

/// The realm, service and scopes that parameters set: the last `realm` and
/// `service` win, every `scope` counts, other keys are ignored.
pub open spec fn collect_params(p: Seq<ParamView>) -> (Option<Seq<char>>, Option<Seq<char>>, Seq<Seq<char>>)
    decreases p.len(),
{
    if p.len() == 0 {
        (None, None, Seq::empty())
    } else {
        let (realm, service, scopes) = collect_params(p.drop_last());
        let (key, value) = p.last();
        if key == realm_chars() {
            (Some(value), service, scopes)
        } else if key == service_chars() {
            (realm, Some(value), scopes)
        } else if key == scope_chars() {
            (realm, service, scopes.push(value))
        } else {
            (realm, service, scopes)
        }
    }
}

/// The bearer challenge that a header holds, given the parse of the header.
pub open spec fn bearer_challenge(header: Seq<char>, parsed: Result<Seq<ChallengeView>, Seq<char>>) -> Result<
    AuthChallengeView,
    AuthErrorView,
> {
    match parsed {
        Err(detail) => Err(AuthErrorView::InvalidChallenge { header, detail }),
        Ok(cs) => if exists|i: int| is_first_bearer(cs, i) {
            let i = choose|i: int| is_first_bearer(cs, i);
            let (realm, service, scopes) = collect_params(cs[i].1);
            match realm {
                None => Err(AuthErrorView::MissingRealm),
                Some(realm) => Ok(AuthChallengeView { realm, service, scopes }),
            }
        } else {
            Err(AuthErrorView::UnsupportedChallenge { header })
        },
    }
}

fn ascii_fold_exec(c: char) -> (r: u32)
    ensures
        r == ascii_fold(c),
{
    if 'A' <= c && c <= 'Z' {
        c as u32 + 32
    } else {
        c as u32
    }
}

fn is_bearer_scheme(scheme: &str) -> (r: bool)
    ensures
        r == eq_ignore_ascii_case(scheme@, bearer_chars()),
{
    let v = crate::text::chars_of(scheme);
    let word = ['B', 'e', 'a', 'r', 'e', 'r'];
    assert(word@ == bearer_chars());
    if v.len() != 6 {
        return false;
    }
    let mut i: usize = 0;
    while i < 6
        invariant
            v@ == scheme@,
            v@.len() == 6,
            word@ == bearer_chars(),
            i <= 6,
            forall|j: int| 0 <= j < i ==> ascii_fold(v@[j]) == ascii_fold(word@[j]),
        decreases 6 - i,
    {
        if ascii_fold_exec(v[i]) != ascii_fold_exec(word[i]) {
            return false;
        }
        i = i + 1;
    }
    true
}

/// Picks the bearer challenge out of a parsed header.
pub fn bearer_challenge_from(header: &str, parsed: Result<Vec<ParsedChallenge>, String>) -> (r: Result<
    AuthChallenge,
    AuthError,
>)
    ensures
        match (r, bearer_challenge(header@, parse_result_view(parsed))) {
            (Ok(c), Ok(v)) => c@ == v,
            (Err(e), Err(f)) => e@ == f,
            _ => false,
        },
{
    let challenges = match parsed {
        Ok(cs) => cs,
        Err(detail) => {
            return Err(AuthError::InvalidChallenge { header: header.to_owned(), detail });
        },
    };
    let ghost cs = challenges@.map_values(|c: ParsedChallenge| challenge_view(c));
    let mut i: usize = 0;
    while i < challenges.len()
        invariant
            i <= challenges@.len(),
            cs == challenges@.map_values(|c: ParsedChallenge| challenge_view(c)),
            forall|j: int| 0 <= j < i ==> !is_bearer(cs[j]),
        ensures
            i == challenges@.len() || (i < challenges@.len() && is_bearer(cs[i as int])),
        decreases challenges@.len() - i,
    {
        if is_bearer_scheme(challenges[i].scheme.as_str()) {
            assert(cs[i as int] == challenge_view(challenges@[i as int]));
            break;
        }
        i = i + 1;
    }
    if i == challenges.len() {
        assert(!exists|k: int| is_first_bearer(cs, k));
        return Err(AuthError::UnsupportedChallenge { header: header.to_owned() });
    }
    proof {
        assert(is_first_bearer(cs, i as int));
        let k = choose|k: int| is_first_bearer(cs, k);
        assert(k == i);
    }
    let params = &challenges[i].params;
    let ghost ps = params@.map_values(|p: (String, String)| param_view(p));
    assert(ps == cs[i as int].1);
    let realm_word = ['r', 'e', 'a', 'l', 'm'];
    let service_word = ['s', 'e', 'r', 'v', 'i', 'c', 'e'];
    let scope_word = ['s', 'c', 'o', 'p', 'e'];
    assert(realm_word@ == realm_chars());
    assert(service_word@ == service_chars());
    assert(scope_word@ == scope_chars());
    let mut realm: Option<String> = None;
    let mut service: Option<String> = None;
    let mut scopes: Vec<String> = Vec::new();
    let mut j: usize = 0;
    while j < params.len()
        invariant
            j <= params@.len(),
            ps == params@.map_values(|p: (String, String)| param_view(p)),
            realm_word@ == realm_chars(),
            service_word@ == service_chars(),
            scope_word@ == scope_chars(),
            collect_params(ps.take(j as int)) == (opt_view(realm), opt_view(service), strings_view(scopes@)),
        decreases params@.len() - j,
    {
        let (key, value) = &params[j];
        assert(ps.take(j + 1).drop_last() == ps.take(j as int));
        assert(ps.take(j + 1).last() == param_view(params@[j as int]));
        if crate::text::string_is(key, &realm_word) {
            realm = Some(crate::text::copy_string(value));
        } else if crate::text::string_is(key, &service_word) {
            service = Some(crate::text::copy_string(value));
        } else if crate::text::string_is(key, &scope_word) {
            let ghost old_scopes = scopes@;
            scopes.push(crate::text::copy_string(value));
            assert(strings_view(scopes@) == strings_view(old_scopes).push(value@));
        }
        j = j + 1;
    }
    assert(ps.take(j as int) == ps);
    match realm {
        None => Err(AuthError::MissingRealm),
        Some(realm) => Ok(AuthChallenge { realm, service, scopes }),
    }
}

/// Parses a `WWW-Authenticate` header and picks its bearer challenge.
pub fn parse_bearer_challenge(header: &str) -> (r: Result<AuthChallenge, AuthError>)
    ensures
        match (r, bearer_challenge(header@, parsed_challenges(header@))) {
            (Ok(c), Ok(v)) => c@ == v,
            (Err(e), Err(f)) => e@ == f,
            _ => false,
        },
{
    let parsed = parse_challenges(header);
    bearer_challenge_from(header, parsed)
}


/// The header that carries the challenge of a 401 response: the
/// `WWW-Authenticate` lookup, else the `Www-Authenticate` one.
pub fn auth_header_from_unauthorized<'a>(www_authenticate: Option<&'a str>, fallback: Option<&'a str>) -> (r: Result<
    &'a str,
    AuthError,
>)
    ensures
        match (www_authenticate, fallback) {
            (Some(h), _) => r == Ok::<&str, AuthError>(h),
            (None, Some(h)) => r == Ok::<&str, AuthError>(h),
            (None, None) => r matches Err(e) && e@ == AuthErrorView::MissingAuthenticateHeader,
        },
{
    match www_authenticate {
        Some(h) => Ok(h),
        None => match fallback {
            Some(h) => Ok(h),
            None => Err(AuthError::MissingAuthenticateHeader),
        },
    }
}

/// The bearer challenge that a header holds, refused when its realm is empty.
pub open spec fn usable_challenge(header: Seq<char>) -> Result<AuthChallengeView, AuthErrorView> {
    match bearer_challenge(header, parsed_challenges(header)) {
        Err(e) => Err(e),
        Ok(c) => if c.realm.len() == 0 {
            Err(AuthErrorView::EmptyRealm)
        } else {
            Ok(c)
        },
    }
}

/// The challenge to answer after a 401 response, given its
/// `WWW-Authenticate` header lookups.
pub fn challenge_from_unauthorized(www_authenticate: Option<&str>, fallback: Option<&str>) -> (r: Result<
    AuthChallenge,
    AuthError,
>)
    ensures
        match www_authenticate {
            Some(h) => match (r, usable_challenge(h@)) {
                (Ok(c), Ok(v)) => c@ == v,
                (Err(e), Err(f)) => e@ == f,
                _ => false,
            },
            None => match fallback {
                Some(h) => match (r, usable_challenge(h@)) {
                    (Ok(c), Ok(v)) => c@ == v,
                    (Err(e), Err(f)) => e@ == f,
                    _ => false,
                },
                None => r matches Err(e) && e@ == AuthErrorView::MissingAuthenticateHeader,
            },
        },
{
    let header = auth_header_from_unauthorized(www_authenticate, fallback)?;
    let challenge = parse_bearer_challenge(header)?;
    if challenge.realm.as_str().is_empty() {
        return Err(AuthError::EmptyRealm);
    }
    Ok(challenge)
}

/// The parameter name `client_id`.
pub open spec fn client_id_chars() -> Seq<char> {
    seq!['c', 'l', 'i', 'e', 'n', 't', '_', 'i', 'd']
}

/// The client id `pakstak`.
pub open spec fn pakstak_chars() -> Seq<char> {
    seq!['p', 'a', 'k', 's', 't', 'a', 'k']
}

/// The query of a token request: the client id, the service when the
/// challenge names one, then every scope in order.
pub open spec fn token_query_view(c: AuthChallengeView) -> Seq<ParamView> {
    seq![(client_id_chars(), pakstak_chars())] + match c.service {
        Some(s) => seq![(service_chars(), s)],
        None => Seq::empty(),
    } + c.scopes.map_values(|scope: Seq<char>| (scope_chars(), scope))
}

/// The query parameters of the token request that answers `challenge`.
pub fn token_query(challenge: &AuthChallenge) -> (q: Vec<(String, String)>)
    ensures
        q@.map_values(|p: (String, String)| param_view(p)) == token_query_view(challenge@),
{
    proof {
        reveal_strlit("client_id");
        reveal_strlit("pakstak");
        reveal_strlit("service");
        reveal_strlit("scope");
    }
    let mut q: Vec<(String, String)> = Vec::new();
    let client_id = "client_id".to_owned();
    let pakstak = "pakstak".to_owned();
    assert(client_id@ =~= client_id_chars());
    assert(pakstak@ =~= pakstak_chars());
    q.push((client_id, pakstak));
    let ghost head = q@.map_values(|p: (String, String)| param_view(p));
    assert(head =~= seq![(client_id_chars(), pakstak_chars())]);
    match &challenge.service {
        Some(service) => {
            let key = "service".to_owned();
            assert(key@ =~= service_chars());
            q.push((key, crate::text::copy_string(service)));
            assert(q@.map_values(|p: (String, String)| param_view(p)) =~= head + seq![(service_chars(), service@)]);
        },
        None => {},
    }
    let ghost prefix = q@.map_values(|p: (String, String)| param_view(p));
    assert(prefix =~= seq![(client_id_chars(), pakstak_chars())] + match challenge@.service {
        Some(s) => seq![(service_chars(), s)],
        None => Seq::<ParamView>::empty(),
    });
    let ghost scopes = challenge@.scopes;
    let start = q.len();
    let mut i: usize = 0;
    while i < challenge.scopes.len()
        invariant
            i <= challenge.scopes@.len(),
            scopes == strings_view(challenge.scopes@),
            start == prefix.len(),
            q@.len() == start + i,
            q@.map_values(|p: (String, String)| param_view(p)) == prefix + scopes.take(i as int).map_values(
                |scope: Seq<char>| (scope_chars(), scope),
            ),
        decreases challenge.scopes@.len() - i,
    {
        let ghost before = q@;
        let key = "scope".to_owned();
        proof {
            reveal_strlit("scope");
        }
        assert(key@ =~= scope_chars());
        q.push((key, crate::text::copy_string(&challenge.scopes[i])));
        assert(scopes.take(i + 1) == scopes.take(i as int).push(scopes[i as int]));
        assert(q@.map_values(|p: (String, String)| param_view(p)) =~= before.map_values(
            |p: (String, String)| param_view(p),
        ).push((scope_chars(), scopes[i as int])));
        assert(scopes.take(i + 1).map_values(|scope: Seq<char>| (scope_chars(), scope)) =~= scopes.take(
            i as int,
        ).map_values(|scope: Seq<char>| (scope_chars(), scope)).push((scope_chars(), scopes[i as int])));
        i = i + 1;
    }
    assert(scopes.take(i as int) == scopes);
    q
}

/// The token that a token response carries: `token`, else `access_token`.
pub fn select_token(token: Option<String>, access_token: Option<String>) -> (r: Result<String, AuthError>)
    ensures
        match (token, access_token) {
            (Some(t), _) => r == Ok::<String, AuthError>(t),
            (None, Some(t)) => r == Ok::<String, AuthError>(t),
            (None, None) => r matches Err(e) && e@ == AuthErrorView::MissingToken,
        },
{
    match token {
        Some(t) => Ok(t),
        None => match access_token {
            Some(t) => Ok(t),
            None => Err(AuthError::MissingToken),
        },
    }
}

} // verus!
