use ocitool::auth::{after_login_response, begin_login, BearerCache, CredentialStore, LoginStep};
use ocitool::client::{
    get_base64_bearer, get_bearer, group_by_registry, login_url, merge_permissions, scope_for, select_token,
    token_from_response, ImagePermission, ImagePermissions, LoginCredentials, OciClientError,
};
use ocitool::execution::Blob;
use ocitool::maps::KeyedMap;
use ocitool::parser::FullImage;
use ocitool::uploader::{after_manifest_put, resolve_location, upload_url, OciUploader, PushStep};

fn perm(name: &str, p: ImagePermissions) -> ImagePermission {
    ImagePermission { full_image: FullImage::from_image_name(name), permissions: p }
}

#[test]
fn push_over_pull_merges_to_one_push() {
    let ps = vec![perm("alpine:3.19", ImagePermissions::Pull), perm("busybox", ImagePermissions::Pull), perm("alpine:3.19", ImagePermissions::Push)];
    let merged = merge_permissions(&ps);
    assert_eq!(merged.len(), 2);
    let alpine: Vec<_> = merged.iter().filter(|p| p.full_image.library_name == "library/alpine").collect();
    assert_eq!(alpine.len(), 1);
    assert_eq!(alpine[0].permissions, ImagePermissions::Push);
    assert_eq!(merged[1].permissions, ImagePermissions::Pull);
}

#[test]
fn groups_follow_registries() {
    let ps = vec![perm("ghcr.io/a/b", ImagePermissions::Pull), perm("alpine", ImagePermissions::Pull), perm("ghcr.io/c/d", ImagePermissions::Push)];
    let gs = group_by_registry(&ps);
    assert_eq!(gs.len(), 2);
    assert_eq!(gs[0].len(), 2);
    assert_eq!(gs[0][1].full_image.library_name, "c/d");
    assert_eq!(gs[1][0].full_image.library_name, "library/alpine");
}

#[test]
fn scopes_and_login_url() {
    let ps = vec![perm("alpine", ImagePermissions::Pull), perm("owner/app", ImagePermissions::Push)];
    assert_eq!(scope_for(&ps[1]), "repository:owner/app:pull,push");
    let url = login_url(&ps[0].full_image, &ps);
    assert_eq!(url, "https://auth.docker.io/token?service=registry.docker.io&scope=repository:library/alpine:pull&scope=repository:owner/app:pull,push");
}

#[test]
fn bearer_forms() {
    assert_eq!(get_bearer("abc"), "Bearer abc");
    assert_eq!(get_base64_bearer("hello"), "Bearer aGVsbG8=");
}

#[test]
fn token_from_login_responses() {
    assert_eq!(token_from_response("{\"token\":\"t1\"}").unwrap(), "Bearer t1");
    assert_eq!(token_from_response("{\"access_token\":\"a1\",\"token\":\"t1\"}").unwrap(), "Bearer a1");
    assert_eq!(token_from_response("plain-token").unwrap(), "Bearer plain-token");
    assert!(token_from_response("{\"other\":1}").is_err());
    assert_eq!(select_token(&Some(None), &Some(Some("x".to_string())), "{}").unwrap(), "Bearer x");
    assert!(select_token(&Some(None), &Some(None), "{}").is_err());
    assert_eq!(select_token(&None, &None, "raw").unwrap(), "Bearer raw");
}

fn store(with_default: bool, github: Option<&str>) -> CredentialStore {
    let mut hosts = KeyedMap::new();
    hosts.insert("https://registry.example.com".to_string(), LoginCredentials { username: "u".to_string(), password: "p".to_string() });
    CredentialStore {
        hostname_to_login: hosts,
        default_login: if with_default { Some(LoginCredentials { username: "d".to_string(), password: "dp".to_string() }) } else { None },
        github_token: github.map(|s| s.to_string()),
    }
}

#[test]
fn credential_lookup_order() {
    let s = store(true, Some("gh"));
    assert_eq!(s.get_credentials("https://registry.example.com").unwrap().username, "u");
    assert_eq!(s.get_credentials("https://other.io").unwrap().username, "d");
    let s = store(false, Some("gh"));
    let c = s.get_credentials("https://ghcr.io").unwrap();
    assert_eq!(c.username, "github");
    assert_eq!(c.password, "gh");
    assert!(s.get_credentials("https://other.io").is_err());
}

#[test]
fn github_login_uses_password_directly() {
    let s = store(false, Some("tok"));
    let ps = vec![perm("ghcr.io/owner/app", ImagePermissions::Push)];
    match begin_login(&s, &ps) {
        LoginStep::Done(b) => assert_eq!(b, "Bearer dG9r"),
        _ => panic!("expected a bearer"),
    }
}

#[test]
fn regular_login_then_anonymous_retry() {
    let s = store(false, None);
    let ps = vec![perm("registry.example.com/team/app", ImagePermissions::Pull)];
    let (url, creds) = match begin_login(&s, &ps) {
        LoginStep::Request { url, credentials } => (url, credentials),
        _ => panic!("expected a request"),
    };
    assert_eq!(url, "https://registry.example.com/auth?service=registry.example.com&scope=repository:team/app:pull");
    assert_eq!(creds.unwrap().username, "u");
    match after_login_response(&url, true, Err(OciClientError("401".to_string()))) {
        LoginStep::Request { credentials, .. } => assert!(credentials.is_none()),
        _ => panic!("expected an anonymous retry"),
    }
    assert!(matches!(after_login_response(&url, false, Err(OciClientError("401".to_string()))), LoginStep::Failed(_)));
    match after_login_response(&url, false, Ok("{\"token\":\"z\"}".to_string())) {
        LoginStep::Done(b) => assert_eq!(b, "Bearer z"),
        _ => panic!("expected a bearer"),
    }
}

#[test]
fn bearer_cache_after_login() {
    let mut cache = BearerCache::new();
    let push = perm("owner/app", ImagePermissions::Push);
    let pull = perm("owner/app", ImagePermissions::Pull);
    assert!(cache.auth_headers(&pull).is_err());
    assert_eq!(cache.missing(&[push.clone()]).len(), 1);
    cache.store_login(&[push.clone()], &"Bearer b1".to_string());
    assert_eq!(cache.auth_headers(&push).unwrap(), "Bearer b1");
    assert_eq!(cache.auth_headers(&pull).unwrap(), "Bearer b1");
    assert!(cache.missing(&[push.clone(), pull.clone()]).is_empty());
    cache.store_login(&[pull.clone()], &"Bearer b2".to_string());
    assert_eq!(cache.lookup(&pull).unwrap(), "Bearer b2");
    assert_eq!(cache.lookup(&push).unwrap(), "Bearer b1");
}

#[test]
fn upload_locations() {
    assert_eq!(resolve_location("https://r.io", "/v2/x/blobs/uploads/123"), "https://r.io/v2/x/blobs/uploads/123");
    assert_eq!(resolve_location("https://r.io", "https://cdn.io/up/1"), "https://cdn.io/up/1");
    assert_eq!(upload_url("https://r.io/up/1?state=a", "sha256:d"), "https://r.io/up/1?state=a&digest=sha256:d");
    assert_eq!(upload_url("https://r.io/up/1", "sha256:d"), "https://r.io/up/1?digest=sha256:d");
}

#[test]
fn blob_push_steps() {
    let image = FullImage::from_image_name("r.io/team/app");
    let blob = Blob { digest: "sha256:aa".to_string(), data: vec![1, 2, 3] };
    let mut up = OciUploader::new();
    match up.begin_push(&image, &blob) {
        PushStep::Head(url) => assert_eq!(url, "https://r.io/v2/team/app/blobs/sha256:aa"),
        _ => panic!("expected HEAD"),
    }
    assert!(matches!(up.after_head(&image, &blob, 503), PushStep::Failed(_)));
    match up.after_head(&image, &blob, 404) {
        PushStep::Post(url) => assert_eq!(url, "https://r.io/v2/team/app/blobs/uploads/"),
        _ => panic!("expected POST"),
    }
    assert!(matches!(up.after_post(&image, &blob, 202, None), PushStep::Failed(_)));
    match up.after_post(&image, &blob, 202, Some("/v2/team/app/blobs/uploads/u1")) {
        PushStep::Put(url) => assert_eq!(url, "https://r.io/v2/team/app/blobs/uploads/u1?digest=sha256:aa"),
        _ => panic!("expected PUT"),
    }
    assert!(matches!(up.after_put(&blob, 500), PushStep::Failed(_)));
    assert!(matches!(up.after_put(&blob, 201), PushStep::Done));
    assert!(up.was_uploaded("sha256:aa"));
    assert!(matches!(up.begin_push(&image, &blob), PushStep::Done));
}

#[test]
fn present_blob_is_never_put() {
    let image = FullImage::from_image_name("r.io/team/app");
    let blob = Blob { digest: "sha256:bb".to_string(), data: vec![] };
    let mut up = OciUploader::new();
    assert!(matches!(up.after_head(&image, &blob, 200), PushStep::Done));
    assert!(matches!(up.begin_push(&image, &blob), PushStep::Done));
    assert!(after_manifest_put(201).is_ok());
    assert!(after_manifest_put(200).is_err());
}

#[test]
fn put_url_keeps_the_location_query() {
    let image = FullImage::from_image_name("r.io/team/app");
    let blob = Blob { digest: "sha256:cc".to_string(), data: vec![] };
    let up = OciUploader::new();
    match up.after_post(&image, &blob, 202, Some("https://cdn.io/up/9?state=x")) {
        PushStep::Put(url) => assert_eq!(url, "https://cdn.io/up/9?state=x&digest=sha256:cc"),
        _ => panic!("expected PUT"),
    }
    match up.after_post(&image, &blob, 201, Some("/up/9")) {
        PushStep::Put(url) => assert_eq!(url, "https://r.io/up/9?digest=sha256:cc"),
        _ => panic!("expected PUT"),
    }
}
