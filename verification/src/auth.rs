//! Bearer-token handling and JWT claim checks.
//!
//! `parse_bearer_token` picks the token out of an authorization header
//! value. `principal_from_claims` turns decoded JWT claims into an
//! authenticated principal, holding them against the expected issuer and
//! audience; decoding the token itself is the host's concern.

use vstd::prelude::*;
use vstd::string::StrSliceExecFns;
use vstd::string::StringExecFns;

use crate::domain::is_blank;
use crate::domain::is_ws_char;
use crate::domain::ws_char;
use crate::strutil::str_eq;

verus! {

broadcast use vstd::std_specs::vec::group_vec_axioms;

/// Why a request was turned away at the authentication boundary.
#[derive(Debug, Clone)]
pub enum AuthRejection {
    MissingAuthorization,
    InvalidToken(String),
    Misconfigured(String),
}

/// Model of a rejection.
pub ghost enum AuthRejectionModel {
    MissingAuthorization,
    InvalidToken(Seq<char>),
    Misconfigured(Seq<char>),
}

impl View for AuthRejection {
    type V = AuthRejectionModel;

    open spec fn view(&self) -> AuthRejectionModel {
        match self {
            AuthRejection::MissingAuthorization => AuthRejectionModel::MissingAuthorization,
            AuthRejection::InvalidToken(m) => AuthRejectionModel::InvalidToken(m@),
            AuthRejection::Misconfigured(m) => AuthRejectionModel::Misconfigured(m@),
        }
    }
}

/// The position of the first space, or the length when there is none.
pub open spec fn first_space(s: Seq<char>) -> int
    decreases s.len(),
{
    if s.len() == 0 {
        0
    } else if s[0] == ' ' {
        0
    } else {
        1 + first_space(s.skip(1))
    }
}

/// The scheme part of an authorization value: everything before the
/// first space.
pub open spec fn spec_scheme(s: Seq<char>) -> Seq<char> {
    s.take(first_space(s))
}

/// The token part of an authorization value: everything after the first
/// space, or empty when there is none.
pub open spec fn spec_token_raw(s: Seq<char>) -> Seq<char> {
    if first_space(s) < s.len() {
        s.skip(first_space(s) + 1)
    } else {
        Seq::empty()
    }
}

/// The first space splits the value into scheme and token.
pub proof fn lemma_first_space(s: Seq<char>)
    ensures
        0 <= first_space(s) <= s.len(),
        forall|i: int| 0 <= i < first_space(s) ==> s[i] != ' ',
        first_space(s) < s.len() ==> s[first_space(s)] == ' ',
    decreases s.len(),
{
    if s.len() > 0 && s[0] != ' ' {
        lemma_first_space(s.skip(1));
        assert forall|i: int| 0 <= i < first_space(s) implies s[i] != ' ' by {
            if i >= 1 {
                assert(s.skip(1)[i - 1] == s[i]);
            }
        }
        if first_space(s) < s.len() {
            assert(s.skip(1)[first_space(s) - 1] == s[first_space(s)]);
        }
    }
}

/// An ASCII letter folded to lower case.
pub open spec fn lower_ascii(c: char) -> char {
    let u = c as u32;
    if 65 <= u <= 90 {
        ((u + 32) as char)
    } else {
        c
    }
}

/// Whether a scheme equals `bearer`, ASCII case ignored.
pub open spec fn is_bearer_scheme(s: Seq<char>) -> bool {
    s.len() == 6 && forall|i: int|
        0 <= i < 6 ==> lower_ascii(#[trigger] s[i]) == "bearer"@[i]
}

/// Folds one character to lower case.
fn lower_ascii_char(c: char) -> (r: char)
    ensures
        r == lower_ascii(c),
{
    let u = c as u32;
    if 65 <= u && u <= 90 {
        proof {
            vstd::utf8::char_u32_cast(c, u);
        }
        ((u + 32) as u8) as char
    } else {
        c
    }
}

/// Decides whether a scheme is `bearer`, ASCII case ignored.
fn scheme_is_bearer(s: &str) -> (r: bool)
    ensures
        r == is_bearer_scheme(s@),
{
    proof {
        reveal_strlit("bearer");
    }
    let n = s.unicode_len();
    if n != 6 {
        return false;
    }
    let bearer = "bearer";
    let mut i: usize = 0;
    while i < 6
        invariant
            n == s@.len(),
            n == 6,
            bearer@ == "bearer"@,
            bearer@.len() == 6,
            i <= 6,
            forall|j: int| 0 <= j < i ==> lower_ascii(#[trigger] s@[j]) == "bearer"@[j],
        decreases 6 - i,
    {
        if lower_ascii_char(s.get_char(i)) != bearer.get_char(i) {
            return false;
        }
        i += 1;
    }
    true
}

/// The count of leading white-space characters.
pub open spec fn ws_prefix_len(s: Seq<char>) -> int
    decreases s.len(),
{
    if s.len() > 0 && is_ws_char(s[0]) {
        1 + ws_prefix_len(s.skip(1))
    } else {
        0
    }
}

/// The count of trailing white-space characters.
pub open spec fn ws_suffix_len(s: Seq<char>) -> int
    decreases s.len(),
{
    if s.len() > 0 && is_ws_char(s[s.len() - 1]) {
        1 + ws_suffix_len(s.take(s.len() - 1))
    } else {
        0
    }
}

/// A string with its leading and trailing white space removed.
pub open spec fn spec_trim(s: Seq<char>) -> Seq<char> {
    let rest = s.skip(ws_prefix_len(s));
    rest.take(rest.len() - ws_suffix_len(rest))
}

/// The bounds of the trim are within the string.
pub proof fn lemma_ws_bounds(s: Seq<char>)
    ensures
        0 <= ws_prefix_len(s) <= s.len(),
        0 <= ws_suffix_len(s) <= s.len(),
        forall|i: int| 0 <= i < ws_prefix_len(s) ==> is_ws_char(#[trigger] s[i]),
        forall|i: int| s.len() - ws_suffix_len(s) <= i < s.len() ==> is_ws_char(#[trigger] s[i]),
        ws_prefix_len(s) < s.len() ==> !is_ws_char(s[ws_prefix_len(s)]),
        ws_suffix_len(s) < s.len() ==> !is_ws_char(s[s.len() - ws_suffix_len(s) - 1]),
    decreases s.len(),
{
    if s.len() > 0 && is_ws_char(s[0]) {
        lemma_ws_bounds(s.skip(1));
        assert forall|i: int| 0 <= i < ws_prefix_len(s) implies is_ws_char(#[trigger] s[i]) by {
            if i >= 1 {
                assert(s.skip(1)[i - 1] == s[i]);
            }
        }
        if ws_prefix_len(s) < s.len() {
            assert(s.skip(1)[ws_prefix_len(s) - 1] == s[ws_prefix_len(s)]);
        }
    }
    if s.len() > 0 && is_ws_char(s[s.len() - 1]) {
        lemma_ws_bounds(s.take(s.len() - 1));
        assert forall|i: int| s.len() - ws_suffix_len(s) <= i < s.len() implies is_ws_char(
            #[trigger] s[i],
        ) by {
            if i < s.len() - 1 {
                assert(s.take(s.len() - 1)[i] == s[i]);
            }
        }
        if ws_suffix_len(s) < s.len() {
            assert(s.take(s.len() - 1)[s.len() - ws_suffix_len(s) - 1] == s[s.len() - ws_suffix_len(
                s,
            ) - 1]);
        }
    }
}

/// Trims white space off both ends of a string slice.
pub fn trim_str<'a>(s: &'a str) -> (r: &'a str)
    ensures
        r@ == spec_trim(s@),
{
    proof {
        lemma_ws_bounds(s@);
    }
    let n = s.unicode_len();
    let mut a: usize = 0;
    while a < n && ws_char(s.get_char(a))
        invariant
            n == s@.len(),
            a <= n,
            forall|j: int| 0 <= j < a ==> is_ws_char(#[trigger] s@[j]),
            a <= ws_prefix_len(s@),
        decreases n - a,
    {
        proof {
            lemma_ws_bounds(s@);
            if !(a + 1 <= ws_prefix_len(s@)) {
                assert(a == ws_prefix_len(s@));
                assert(!is_ws_char(s@[a as int]));
            }
        }
        a += 1;
    }
    proof {
        lemma_ws_bounds(s@);
        if a < n {
            assert(!is_ws_char(s@[a as int]));
            if a < ws_prefix_len(s@) {
                assert(is_ws_char(s@[a as int]));
            }
            assert(a == ws_prefix_len(s@));
        } else {
            assert(a == ws_prefix_len(s@));
        }
    }
    let mut b: usize = n;
    proof {
        lemma_ws_bounds(s@.skip(a as int));
    }
    while b > a && ws_char(s.get_char(b - 1))
        invariant
            n == s@.len(),
            a <= b <= n,
            a == ws_prefix_len(s@),
            forall|j: int| b <= j < n ==> is_ws_char(#[trigger] s@[j]),
            n - b <= ws_suffix_len(s@.skip(a as int)),
        decreases b,
    {
        proof {
            let rest = s@.skip(a as int);
            lemma_ws_bounds(rest);
            assert(s@[b - 1] == rest[b - 1 - a]);
            if !(n - (b - 1) <= ws_suffix_len(rest)) {
                assert(n - b == ws_suffix_len(rest));
                assert(!is_ws_char(rest[rest.len() - ws_suffix_len(rest) - 1]));
            }
        }
        b -= 1;
    }
    proof {
        let rest = s@.skip(a as int);
        lemma_ws_bounds(rest);
        if b > a {
            assert(s@[b - 1] == rest[b - 1 - a]);
            assert(!is_ws_char(rest[b - 1 - a]));
            if n - b < ws_suffix_len(rest) {
                assert(is_ws_char(rest[rest.len() - (n - b) - 1]));
            }
            assert(n - b == ws_suffix_len(rest));
        } else {
            assert(rest.len() == n - a);
            assert(n - b == rest.len());
            assert(ws_suffix_len(rest) <= rest.len());
            assert forall|j: int| 0 <= j < rest.len() implies is_ws_char(#[trigger] rest[j]) by {
                assert(rest[j] == s@[a + j]);
            }
            if ws_suffix_len(rest) < rest.len() {
                assert(!is_ws_char(rest[rest.len() - ws_suffix_len(rest) - 1]));
            }
            assert(n - b == ws_suffix_len(rest));
        }
        assert(spec_trim(s@) =~= s@.subrange(a as int, b as int));
    }
    s.substring_char(a, b)
}

/// Picks the token out of an authorization header value: the scheme must
/// be `bearer` in any ASCII case and the token must not be blank; the
/// token comes back trimmed.
pub fn parse_bearer_token<'a>(value: &'a str) -> (r: Result<&'a str, AuthRejection>)
    ensures
        match r {
            Ok(t) => is_bearer_scheme(spec_scheme(value@)) && !is_blank(spec_token_raw(value@))
                && t@ == spec_trim(spec_token_raw(value@)),
            Err(e) => (!is_bearer_scheme(spec_scheme(value@)) || is_blank(spec_token_raw(value@)))
                && e@ == AuthRejectionModel::InvalidToken(
                "authorization header must be Bearer <token>"@,
            ),
        },
{
    proof {
        lemma_first_space(value@);
    }
    let n = value.unicode_len();
    let mut k: usize = 0;
    while k < n && value.get_char(k) != ' '
        invariant
            n == value@.len(),
            k <= n,
            forall|j: int| 0 <= j < k ==> value@[j] != ' ',
            k <= first_space(value@),
        decreases n - k,
    {
        proof {
            lemma_first_space(value@);
            if !(k + 1 <= first_space(value@)) {
                assert(k == first_space(value@));
            }
        }
        k += 1;
    }
    proof {
        lemma_first_space(value@);
        if k < n {
            if k < first_space(value@) {
                assert(value@[k as int] != ' ');
            }
            assert(k == first_space(value@));
        } else {
            assert(k == first_space(value@));
        }
    }
    let scheme = value.substring_char(0, k);
    assert(scheme@ =~= spec_scheme(value@));
    let token: &str = if k < n {
        let t = value.substring_char(k + 1, n);
        assert(t@ =~= spec_token_raw(value@));
        t
    } else {
        proof {
            reveal_strlit("");
            assert(""@ =~= Seq::<char>::empty());
        }
        ""
    };
    assert(token@ == spec_token_raw(value@));
    let trimmed = trim_str(token);
    let token_ok = {
        let blank = crate::domain::str_is_blank(token);
        proof {
            lemma_ws_bounds(token@);
            if blank {
                assert(trimmed@.len() == 0) by {
                    assert(ws_prefix_len(token@) == token@.len()) by {
                        lemma_ws_all(token@);
                    }
                    assert(token@.skip(token@.len() as int) =~= Seq::<char>::empty());
                }
            } else {
                let i = choose|i: int| 0 <= i < token@.len() && !is_ws_char(token@[i]);
                assert(trimmed@.len() > 0) by {
                    lemma_ws_trim_keeps(token@, i);
                }
            }
        }
        !blank
    };
    if !scheme_is_bearer(scheme) || !token_ok {
        return Err(
            AuthRejection::InvalidToken(
                String::from_str("authorization header must be Bearer <token>"),
            ),
        );
    }
    Ok(trimmed)
}

/// A blank string is all leading white space.
proof fn lemma_ws_all(s: Seq<char>)
    requires
        is_blank(s),
    ensures
        ws_prefix_len(s) == s.len(),
    decreases s.len(),
{
    if s.len() > 0 {
        assert(is_ws_char(s[0]));
        assert(is_blank(s.skip(1))) by {
            assert(forall|i: int|
                0 <= i < s.skip(1).len() ==> is_ws_char(#[trigger] s.skip(1)[i]));
        }
        lemma_ws_all(s.skip(1));
    }
}

/// A non-blank string trims to something non-empty.
proof fn lemma_ws_trim_keeps(s: Seq<char>, i: int)
    requires
        0 <= i < s.len(),
        !is_ws_char(s[i]),
    ensures
        spec_trim(s).len() > 0,
{
    lemma_ws_bounds(s);
    let a = ws_prefix_len(s);
    assert(a <= i);
    let rest = s.skip(a);
    lemma_ws_bounds(rest);
    let b = ws_suffix_len(rest);
    assert(rest[i - a] == s[i]);
    assert(i - a < rest.len() - b || is_ws_char(rest[i - a]));
}

/// What a token must prove about its caller.
#[derive(Debug, Clone)]
pub struct JwtValidationConfig {
    pub secret: String,
    pub expected_issuer: Option<String>,
    pub expected_audience: Option<String>,
}

/// The authenticated caller.
#[derive(Debug, Clone)]
pub struct AuthPrincipal {
    pub subject: String,
    pub issuer: Option<String>,
    pub audience: Vec<String>,
    pub scopes: Vec<String>,
}

/// Model of a principal.
pub ghost struct PrincipalModel {
    pub subject: Seq<char>,
    pub issuer: Option<Seq<char>>,
    pub audience: Seq<Seq<char>>,
    pub scopes: Seq<Seq<char>>,
}

impl View for AuthPrincipal {
    type V = PrincipalModel;

    open spec fn view(&self) -> PrincipalModel {
        PrincipalModel {
            subject: self.subject@,
            issuer: crate::descriptor::opt_str_model(self.issuer),
            audience: self.audience@.map_values(|s: String| s@),
            scopes: self.scopes@.map_values(|s: String| s@),
        }
    }
}

/// The audience claim of a token: one name, or several.
#[derive(Debug, Clone)]
pub enum AudienceClaim {
    One(String),
    Many(Vec<String>),
}

/// Model of an audience claim.
pub ghost enum AudienceModel {
    One(Seq<char>),
    Many(Seq<Seq<char>>),
}

impl View for AudienceClaim {
    type V = AudienceModel;

    open spec fn view(&self) -> AudienceModel {
        match self {
            AudienceClaim::One(v) => AudienceModel::One(v@),
            AudienceClaim::Many(vs) => AudienceModel::Many(vs@.map_values(|s: String| s@)),
        }
    }
}

/// The names an audience claim carries.
pub open spec fn audience_names(a: Option<AudienceModel>) -> Seq<Seq<char>> {
    match a {
        None => Seq::empty(),
        Some(AudienceModel::One(v)) => seq![v],
        Some(AudienceModel::Many(vs)) => vs,
    }
}

impl AudienceClaim {
    /// The claim's names as a list.
    pub fn into_vec(self) -> (r: Vec<String>)
        ensures
            r@.map_values(|s: String| s@) == audience_names(Some(self@)),
    {
        match self {
            AudienceClaim::One(value) => {
                let mut v: Vec<String> = Vec::new();
                v.push(value);
                proof {
                    assert(v@.map_values(|s: String| s@) =~= audience_names(Some(self@)));
                }
                v
            },
            AudienceClaim::Many(values) => values,
        }
    }
}

/// The claims a decoded token carries.
#[derive(Debug, Clone)]
pub struct JwtClaims {
    pub sub: String,
    pub exp: usize,
    pub iss: Option<String>,
    pub aud: Option<AudienceClaim>,
    pub scope: Option<String>,
}

/// Model of a claim set.
pub ghost struct ClaimsModel {
    pub sub: Seq<char>,
    pub exp: usize,
    pub iss: Option<Seq<char>>,
    pub aud: Option<AudienceModel>,
    pub scope: Option<Seq<char>>,
}

impl View for JwtClaims {
    type V = ClaimsModel;

    open spec fn view(&self) -> ClaimsModel {
        ClaimsModel {
            sub: self.sub@,
            exp: self.exp,
            iss: crate::descriptor::opt_str_model(self.iss),
            aud: match self.aud {
                Some(a) => Some(a@),
                None => None,
            },
            scope: crate::descriptor::opt_str_model(self.scope),
        }
    }
}

/// How claim validation fails.
#[derive(Debug, Clone)]
pub enum AuthError {
    InvalidToken(String),
    IssuerMismatch,
    AudienceMismatch,
}

/// Model of a validation failure.
pub ghost enum AuthErrorKind {
    InvalidToken(Seq<char>),
    IssuerMismatch,
    AudienceMismatch,
}

impl View for AuthError {
    type V = AuthErrorKind;

    open spec fn view(&self) -> AuthErrorKind {
        match self {
            AuthError::InvalidToken(m) => AuthErrorKind::InvalidToken(m@),
            AuthError::IssuerMismatch => AuthErrorKind::IssuerMismatch,
            AuthError::AudienceMismatch => AuthErrorKind::AudienceMismatch,
        }
    }
}

/// The state of a white-space split after the first `n` characters:
/// finished pieces and the unfinished run.
pub open spec fn split_ws_state(s: Seq<char>, n: int) -> (Seq<Seq<char>>, Seq<char>)
    decreases n,
{
    if n <= 0 || n > s.len() {
        (Seq::empty(), Seq::empty())
    } else {
        let prev = split_ws_state(s, n - 1);
        let c = s[n - 1];
        if is_ws_char(c) {
            if prev.1.len() > 0 {
                (prev.0.push(prev.1), Seq::empty())
            } else {
                prev
            }
        } else {
            (prev.0, prev.1.push(c))
        }
    }
}

/// The maximal non-white-space runs of a string, in order.
pub open spec fn split_ws(s: Seq<char>) -> Seq<Seq<char>> {
    let st = split_ws_state(s, s.len() as int);
    if st.1.len() > 0 {
        st.0.push(st.1)
    } else {
        st.0
    }
}

/// Splits a string at white space into its non-empty runs.
pub fn split_whitespace_vec(s: &str) -> (r: Vec<String>)
    ensures
        r@.map_values(|p: String| p@) == split_ws(s@),
{
    let n = s.unicode_len();
    let mut out: Vec<String> = Vec::new();
    let mut start: usize = 0;
    let mut in_run = false;
    let mut i: usize = 0;
    proof {
        assert(out@.map_values(|p: String| p@) =~= split_ws_state(s@, 0).0);
    }
    while i < n
        invariant
            n == s@.len(),
            i <= n,
            in_run ==> start <= i,
            out@.map_values(|p: String| p@) == split_ws_state(s@, i as int).0,
            in_run ==> split_ws_state(s@, i as int).1 == s@.subrange(start as int, i as int)
                && s@.subrange(start as int, i as int).len() > 0,
            !in_run ==> split_ws_state(s@, i as int).1 == Seq::<char>::empty(),
        decreases n - i,
    {
        let c = s.get_char(i);
        if ws_char(c) {
            if in_run {
                out.push(s.substring_char(start, i).to_owned());
                proof {
                    assert(out@.map_values(|p: String| p@) =~= split_ws_state(s@, i + 1).0);
                }
                in_run = false;
            }
        } else {
            if !in_run {
                start = i;
                in_run = true;
            }
            proof {
                assert(s@.subrange(start as int, i + 1) =~= s@.subrange(start as int, i as int).push(
                    s@[i as int],
                ));
            }
        }
        i += 1;
    }
    if in_run {
        out.push(s.substring_char(start, n).to_owned());
        proof {
            assert(out@.map_values(|p: String| p@) =~= split_ws(s@));
        }
    } else {
        assert(out@.map_values(|p: String| p@) =~= split_ws(s@));
    }
    out
}

/// The claims' scope names: its white-space-separated pieces.
pub open spec fn spec_scopes(scope: Option<Seq<char>>) -> Seq<Seq<char>> {
    match scope {
        Some(s) => split_ws(s),
        None => Seq::empty(),
    }
}

/// The view of an optional borrowed name.
pub open spec fn opt_ref_model(o: Option<&str>) -> Option<Seq<char>> {
    match o {
        Some(s) => Some(s@),
        None => None,
    }
}

/// What claim validation returns: the issuer must match when one is
/// expected, the audience must contain the expected name when one is
/// expected, and the principal carries subject, issuer, audience and the
/// scope names.
pub open spec fn spec_principal(
    claims: ClaimsModel,
    expected_issuer: Option<Seq<char>>,
    expected_audience: Option<Seq<char>>,
) -> Result<PrincipalModel, AuthErrorKind> {
    if expected_issuer is Some && claims.iss != expected_issuer {
        Err(AuthErrorKind::IssuerMismatch)
    } else {
        let audience = audience_names(claims.aud);
        if expected_audience matches Some(e) && !(exists|i: int|
            0 <= i < audience.len() && audience[i] == e) {
            Err(AuthErrorKind::AudienceMismatch)
        } else {
            Ok(
                PrincipalModel {
                    subject: claims.sub,
                    issuer: claims.iss,
                    audience,
                    scopes: spec_scopes(claims.scope),
                },
            )
        }
    }
}

/// Turns decoded claims into a principal, holding them against the
/// expected issuer and audience.
pub fn principal_from_claims(
    claims: JwtClaims,
    expected_issuer: Option<&str>,
    expected_audience: Option<&str>,
) -> (r: Result<AuthPrincipal, AuthError>)
    ensures
        match (r, spec_principal(
            claims@,
            opt_ref_model(expected_issuer),
            opt_ref_model(expected_audience),
        )) {
            (Ok(p), Ok(m)) => p@ == m,
            (Err(e), Err(m)) => e@ == m,
            _ => false,
        },
{
    let ghost cm = claims@;
    match &expected_issuer {
        Some(expected) => {
            let issuer_matches = match &claims.iss {
                Some(iss) => str_eq(iss.as_str(), expected),
                None => false,
            };
            if !issuer_matches {
                return Err(AuthError::IssuerMismatch);
            }
        },
        None => {},
    }

    let audience: Vec<String> = match claims.aud {
        Some(a) => a.into_vec(),
        None => Vec::new(),
    };
    proof {
        assert(audience@.map_values(|s: String| s@) =~= audience_names(cm.aud));
    }

    match &expected_audience {
        Some(expected) => {
            let ghost names = audience_names(cm.aud);
            let mut found = false;
            let mut i: usize = 0;
            while i < audience.len()
                invariant
                    i <= audience.len(),
                    names == audience@.map_values(|s: String| s@),
                    names.len() == audience@.len(),
                    found <==> exists|j: int| 0 <= j < i && names[j] == expected@,
                decreases audience.len() - i,
            {
                proof {
                    assert(names[i as int] == audience@[i as int]@);
                }
                if str_eq(audience[i].as_str(), expected) {
                    found = true;
                    assert(names[i as int] == expected@);
                } else {
                    assert(names[i as int] != expected@);
                }
                i += 1;
            }
            if !found {
                return Err(AuthError::AudienceMismatch);
            }
        },
        None => {},
    }

    let scopes: Vec<String> = match &claims.scope {
        Some(scope) => split_whitespace_vec(scope.as_str()),
        None => Vec::new(),
    };
    proof {
        assert(scopes@.map_values(|s: String| s@) =~= spec_scopes(cm.scope));
    }

    let p = AuthPrincipal { subject: claims.sub, issuer: claims.iss, audience, scopes };
    assert(p@ == spec_principal(
        cm,
        opt_ref_model(expected_issuer),
        opt_ref_model(expected_audience),
    )->Ok_0);
    Ok(p)
}

} // verus!
