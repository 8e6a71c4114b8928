//! Authentication state: the credentials known for each registry, the login
//! steps, and the bearer cache that authenticated requests read.

use vstd::prelude::*;
use crate::client::{
    get_base64_bearer, login_url, login_url_of, permission_views, token_from_response,
    ImagePermission, ImagePermissions, LoginCredentials, OciClientError, PermissionModel,
};
use crate::maps::KeyedMap;
use crate::text::{concat_str, contains_seq};

verus! {

/// Credentials for registries: one per registry URL, an optional default,
/// and a GitHub token for GitHub's registry.
#[derive(Debug)]
pub struct CredentialStore {
    pub hostname_to_login: KeyedMap<LoginCredentials>,
    pub default_login: Option<LoginCredentials>,
    pub github_token: Option<String>,
}

pub open spec fn opt_credentials(o: Option<LoginCredentials>) -> Option<(Seq<char>, Seq<char>)> {
    match o {
        Some(c) => Some(c@),
        None => None,
    }
}

/// The credentials to use for a registry: its own, else the default, else
/// (for GitHub's registry) the GitHub token under the user name `github`.
pub open spec fn credentials_for(
    hosts: Map<Seq<char>, (Seq<char>, Seq<char>)>,
    default_login: Option<(Seq<char>, Seq<char>)>,
    github_token: Option<Seq<char>>,
    registry: Seq<char>,
) -> Option<(Seq<char>, Seq<char>)> {
    if hosts.dom().contains(registry) {
        Some(hosts[registry])
    } else if default_login is Some {
        default_login
    } else if contains_seq(registry, "ghcr.io"@) && github_token is Some {
        Some(("github"@, github_token->0))
    } else {
        None
    }
}

impl CredentialStore {
    pub open spec fn credentials_spec(&self, registry: Seq<char>) -> Option<(Seq<char>, Seq<char>)> {
        credentials_for(
            self.hostname_to_login@,
            opt_credentials(self.default_login),
            match self.github_token {
                Some(t) => Some(t@),
                None => None,
            },
            registry,
        )
    }

    /// The credentials to use for `registry_url`.
    pub fn get_credentials(&self, registry_url: &str) -> (r: Result<LoginCredentials, OciClientError>)
        ensures
            match self.credentials_spec(registry_url@) {
                Some(c) => r is Ok && r->Ok_0@ == c,
                None => r is Err,
            },
    {
        match self.hostname_to_login.get(registry_url) {
            Some(c) => Ok(c.clone()),
            None => match &self.default_login {
                Some(d) => Ok(d.clone()),
                None => {
                    let github = crate::text::contains_str(registry_url, "ghcr.io");
                    match &self.github_token {
                        Some(t) => {
                            if github {
                                Ok(LoginCredentials { username: String::from_str("github"), password: t.clone() })
                            } else {
                                Err(OciClientError(concat_str("No credentials found for registry: ", registry_url)))
                            }
                        },
                        None => Err(OciClientError(concat_str("No credentials found for registry: ", registry_url))),
                    }
                },
            },
        }
    }
}

/// What to do next while logging in to one registry.
#[derive(Debug)]
pub enum LoginStep {
    /// The bearer is known: store it.
    Done(String),
    /// Send a token request to `url`, with basic authentication when
    /// credentials are given.
    Request { url: String, credentials: Option<LoginCredentials> },
    /// The login failed.
    Failed(OciClientError),
}

/// The first step of a login to the registry of `image_permissions[0]`, for
/// all of `image_permissions`: GitHub's registry takes a known password as a
/// bearer directly; otherwise a token request, with credentials if any.
pub fn begin_login(store: &CredentialStore, image_permissions: &[ImagePermission]) -> (r: LoginStep)
    requires
        image_permissions@.len() > 0,
    ensures
        ({
            let reference = image_permissions@[0].full_image@;
            let creds = store.credentials_spec(reference.registry);
            if contains_seq(reference.registry, "ghcr.io"@) && creds is Some {
                r is Done && r->Done_0@ == "Bearer "@ + crate::client::base64_of((creds->0).1)
            } else {
                r is Request && r->url@ == login_url_of(reference, permission_views(image_permissions@))
                    && opt_credentials(r->credentials) == creds
            }
        }),
{
    let reference = &image_permissions[0].full_image;
    let creds = store.get_credentials(reference.registry.as_str());
    if reference.is_github_registry() {
        if let Ok(c) = &creds {
            return LoginStep::Done(get_base64_bearer(c.password.as_str()));
        }
    }
    let url = login_url(reference, image_permissions);
    match creds {
        Ok(c) => LoginStep::Request { url, credentials: Some(c) },
        Err(_) => LoginStep::Request { url, credentials: None },
    }
}

/// The step after a token request to `url`, given the response body of a
/// 200 response or the failure: a failed request that carried credentials
/// is tried once more anonymously.
pub fn after_login_response(
    url: &str,
    used_credentials: bool,
    response: Result<String, OciClientError>,
) -> (r: LoginStep)
    ensures
        match response {
            Ok(body) => match crate::client::token_choice(
                crate::client::json_string_field(body@, "access_token"@),
                crate::client::json_string_field(body@, "token"@),
                body@,
            ) {
                Some(t) => r is Done && r->Done_0@ == "Bearer "@ + t,
                None => if used_credentials {
                    r is Request && r->url@ == url@ && r->credentials is None
                } else {
                    r is Failed
                },
            },
            Err(_) => if used_credentials {
                r is Request && r->url@ == url@ && r->credentials is None
            } else {
                r is Failed
            },
        },
{
    let outcome = match response {
        Ok(body) => token_from_response(body.as_str()),
        Err(e) => Err(e),
    };
    match outcome {
        Ok(bearer) => LoginStep::Done(bearer),
        Err(e) => {
            if used_credentials {
                LoginStep::Request { url: String::from_str(url), credentials: None }
            } else {
                LoginStep::Failed(e)
            }
        },
    }
}

/// One cached bearer.
#[derive(Debug)]
pub struct BearerEntry {
    pub permission: ImagePermission,
    pub bearer: String,
}

/// The bearers that logins have obtained, per image and permission.
#[derive(Debug)]
pub struct BearerCache {
    entries: Vec<BearerEntry>,
}

/// The cache contents of a list of entries: a later entry for the same
/// image and permission replaces an earlier one.
pub open spec fn bearer_map(es: Seq<BearerEntry>) -> Map<PermissionModel, Seq<char>>
    decreases es.len(),
{
    if es.len() == 0 {
        Map::empty()
    } else {
        bearer_map(es.drop_last()).insert(es.last().permission@, es.last().bearer@)
    }
}

/// The cache after a login for `ps` obtained `bearer`: every permission
/// asked for is stored, and a `Push` also stores the `Pull` that it implies.
pub open spec fn after_login(
    m: Map<PermissionModel, Seq<char>>,
    ps: Seq<PermissionModel>,
    bearer: Seq<char>,
) -> Map<PermissionModel, Seq<char>>
    decreases ps.len(),
{
    if ps.len() == 0 {
        m
    } else {
        let before = after_login(m, ps.drop_last(), bearer);
        let p = ps.last();
        let stored = before.insert(p, bearer);
        if p.1 == ImagePermissions::Push {
            stored.insert((p.0, ImagePermissions::Pull), bearer)
        } else {
            stored
        }
    }
}

proof fn lemma_bearer_map_suffix(es: Seq<BearerEntry>, i: int, k: PermissionModel)
    requires
        0 <= i <= es.len(),
        forall|j: int| i <= j < es.len() ==> es[j].permission@ != k,
    ensures
        bearer_map(es).dom().contains(k) == bearer_map(es.subrange(0, i)).dom().contains(k),
        bearer_map(es).dom().contains(k) ==> bearer_map(es)[k] == bearer_map(es.subrange(0, i))[k],
    decreases es.len() - i,
{
    if i < es.len() {
        lemma_bearer_map_suffix(es.drop_last(), i, k);
        assert(es.drop_last().subrange(0, i) =~= es.subrange(0, i));
    } else {
        assert(es.subrange(0, i) =~= es);
    }
}

impl View for BearerCache {
    type V = Map<PermissionModel, Seq<char>>;

    closed spec fn view(&self) -> Map<PermissionModel, Seq<char>> {
        bearer_map(self.entries@)
    }
}

/// Every permission that a login asked for is cached afterwards with the
/// bearer it obtained, and so is the `Pull` implied by each `Push`.
pub proof fn lemma_after_login_caches(
    m: Map<PermissionModel, Seq<char>>,
    ps: Seq<PermissionModel>,
    bearer: Seq<char>,
    p: PermissionModel,
)
    requires
        ps.contains(p),
    ensures
        after_login(m, ps, bearer).dom().contains(p),
        after_login(m, ps, bearer)[p] == bearer,
        p.1 == ImagePermissions::Push ==> after_login(m, ps, bearer).dom().contains((p.0, ImagePermissions::Pull))
            && after_login(m, ps, bearer)[(p.0, ImagePermissions::Pull)] == bearer,
    decreases ps.len(),
{
    let last = ps.last();
    if last != p {
        let i = choose|i: int| 0 <= i < ps.len() && ps[i] == p;
        assert(ps.drop_last()[i] == p);
        lemma_after_login_caches(m, ps.drop_last(), bearer, p);
    } else if p.1 == ImagePermissions::Push {
        if last.1 == ImagePermissions::Pull {
        }
    }
}

impl BearerCache {
    /// An empty cache.
    pub fn new() -> (r: Self)
        ensures
            r@ == Map::<PermissionModel, Seq<char>>::empty(),
    {
        BearerCache { entries: Vec::new() }
    }

    /// Stores `bearer` for `permission`.
    pub fn insert(&mut self, permission: ImagePermission, bearer: String)
        ensures
            final(self)@ == old(self)@.insert(permission@, bearer@),
    {
        let ghost before = self.entries@;
        self.entries.push(BearerEntry { permission, bearer });
        assert(self.entries@.drop_last() =~= before);
    }

    /// The bearer cached for `permission`, if any.
    pub fn lookup(&self, permission: &ImagePermission) -> (r: Option<String>)
        ensures
            match r {
                Some(b) => self@.dom().contains(permission@) && b@ == self@[permission@],
                None => !self@.dom().contains(permission@),
            },
    {
        let mut i: usize = self.entries.len();
        while i > 0
            invariant
                i <= self.entries@.len(),
                forall|j: int| i <= j < self.entries@.len() ==> self.entries@[j].permission@ != permission@,
            decreases i,
        {
            if self.entries[i - 1].permission == *permission {
                proof {
                    lemma_bearer_map_suffix(self.entries@, i as int, permission@);
                    let pre = self.entries@.subrange(0, i as int);
                    assert(pre.drop_last() =~= self.entries@.subrange(0, i - 1));
                }
                return Some(self.entries[i - 1].bearer.clone());
            }
            i = i - 1;
        }
        proof {
            lemma_bearer_map_suffix(self.entries@, 0, permission@);
            assert(self.entries@.subrange(0, 0) =~= Seq::<BearerEntry>::empty());
        }
        None
    }

    /// Stores the bearer that a login for `image_permissions` obtained.
    pub fn store_login(&mut self, image_permissions: &[ImagePermission], bearer: &String)
        ensures
            final(self)@ == after_login(old(self)@, permission_views(image_permissions@), bearer@),
    {
        let ghost ps = permission_views(image_permissions@);
        let ghost start = self@;
        let mut i: usize = 0;
        while i < image_permissions.len()
            invariant
                i <= image_permissions@.len(),
                ps == permission_views(image_permissions@),
                self@ == after_login(start, ps.subrange(0, i as int), bearer@),
            decreases image_permissions@.len() - i,
        {
            let p = &image_permissions[i];
            let ghost sub = ps.subrange(0, i + 1);
            assert(sub.drop_last() =~= ps.subrange(0, i as int));
            self.insert(p.clone(), bearer.clone());
            if p.permissions == ImagePermissions::Push {
                let pull = ImagePermission { full_image: p.full_image.clone(), permissions: ImagePermissions::Pull };
                self.insert(pull, bearer.clone());
            }
            i = i + 1;
        }
        assert(ps.subrange(0, i as int) =~= ps);
    }

    /// The permissions of `image_permissions` that have no cached bearer:
    /// those that still need a login.
    pub fn missing(&self, image_permissions: &[ImagePermission]) -> (r: Vec<ImagePermission>)
        ensures
            forall|j: int| 0 <= j < r@.len() ==> !self@.dom().contains(#[trigger] r@[j]@)
                && permission_views(image_permissions@).contains(r@[j]@),
            forall|i: int| 0 <= i < image_permissions@.len() && !self@.dom().contains(#[trigger] image_permissions@[i]@)
                ==> permission_views(r@).contains(image_permissions@[i]@),
    {
        let mut r: Vec<ImagePermission> = Vec::new();
        let mut i: usize = 0;
        while i < image_permissions.len()
            invariant
                i <= image_permissions@.len(),
                forall|j: int| 0 <= j < r@.len() ==> !self@.dom().contains(#[trigger] r@[j]@)
                    && permission_views(image_permissions@).contains(r@[j]@),
                forall|k: int| 0 <= k < i && !self@.dom().contains(#[trigger] image_permissions@[k]@)
                    ==> permission_views(r@).contains(image_permissions@[k]@),
            decreases image_permissions@.len() - i,
        {
            let p = &image_permissions[i];
            if self.lookup(p).is_none() {
                let ghost before = r@;
                r.push(p.clone());
                proof {
                    assert(permission_views(image_permissions@)[i as int] == p@);
                    assert(permission_views(r@)[before.len() as int] == p@);
                    assert forall|k: int| 0 <= k < i && !self@.dom().contains(#[trigger] image_permissions@[k]@)
                        implies permission_views(r@).contains(image_permissions@[k]@) by {
                        let j = choose|j: int| 0 <= j < permission_views(before).len() && permission_views(before)[j] == image_permissions@[k]@;
                        assert(permission_views(r@)[j] == permission_views(before)[j]);
                    }
                }
            } else {
                assert(self@.dom().contains(image_permissions@[i as int]@));
            }
            i = i + 1;
        }
        r
    }

    /// The value of the one `Authorization` header of a request made with
    /// `permission`: the cached bearer. Fails when no login obtained one.
    pub fn auth_headers(&self, permission: &ImagePermission) -> (r: Result<String, OciClientError>)
        ensures
            match r {
                Ok(b) => self@.dom().contains(permission@) && b@ == self@[permission@],
                Err(_) => !self@.dom().contains(permission@),
            },
    {
        match self.lookup(permission) {
            Some(b) => Ok(b),
            None => Err(OciClientError(String::from_str("No bearer token found for image permission"))),
        }
    }
}

} // verus!
