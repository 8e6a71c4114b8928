//! Registry authentication: permissions, login requests, tokens and the
//! bearer cache that every authenticated request reads.

use vstd::prelude::*;
use base64::Engine;
use crate::parser::{auth_url_of, FullImage, ImageRef};
use crate::text::{concat_str, str_eq};

verus! {

/// What a login asks to be allowed on an image.
#[derive(Debug, Clone, Copy, PartialEq, Eq, Structural, Hash)]
pub enum ImagePermissions {
    Pull,
    Push,
}

/// A permission on one image.
#[derive(Debug, Hash)]
pub struct ImagePermission {
    pub full_image: FullImage,
    pub permissions: ImagePermissions,
}

/// The abstract value of an image permission.
pub type PermissionModel = (ImageRef, ImagePermissions);

impl View for ImagePermission {
    type V = PermissionModel;

    open spec fn view(&self) -> PermissionModel {
        (self.full_image@, self.permissions)
    }
}

impl Clone for ImagePermission {
    fn clone(&self) -> (r: Self)
        ensures
            r@ == self@,
    {
        ImagePermission { full_image: self.full_image.clone(), permissions: self.permissions }
    }
}

impl PartialEq for ImagePermission {
    fn eq(&self, other: &Self) -> (r: bool)
        ensures
            r == (self@ == other@),
    {
        self.full_image == other.full_image && self.permissions == other.permissions
    }
}

impl vstd::std_specs::cmp::PartialEqSpecImpl for ImagePermission {
    open spec fn obeys_eq_spec() -> bool {
        true
    }

    open spec fn eq_spec(&self, other: &Self) -> bool {
        self@ == other@
    }
}

impl Eq for ImagePermission {}

/// A user name and password for one registry.
#[derive(Debug, Hash)]
pub struct LoginCredentials {
    pub username: String,
    pub password: String,
}

impl View for LoginCredentials {
    type V = (Seq<char>, Seq<char>);

    open spec fn view(&self) -> (Seq<char>, Seq<char>) {
        (self.username@, self.password@)
    }
}

impl Clone for LoginCredentials {
    fn clone(&self) -> (r: Self)
        ensures
            r@ == self@,
    {
        LoginCredentials { username: self.username.clone(), password: self.password.clone() }
    }
}

impl crate::maps::Duplicate for LoginCredentials {
    fn duplicate(&self) -> (r: Self)
        ensures
            r@ == self@,
    {
        self.clone()
    }
}

impl PartialEq for LoginCredentials {
    fn eq(&self, other: &Self) -> (r: bool)
        ensures
            r == (self@ == other@),
    {
        self.username == other.username && self.password == other.password
    }
}

impl vstd::std_specs::cmp::PartialEqSpecImpl for LoginCredentials {
    open spec fn obeys_eq_spec() -> bool {
        true
    }

    open spec fn eq_spec(&self, other: &Self) -> bool {
        self@ == other@
    }
}

impl Eq for LoginCredentials {}

/// An authentication failure, with its description.
#[derive(Debug)]
pub struct OciClientError(pub String);

impl OciClientError {
    /// The description of the failure.
    pub fn message(&self) -> (r: String)
        ensures
            r@ == self.0@,
    {
        self.0.clone()
    }
}

/// The strongest permission that `ps` asks for on `img`: `Push` implies
/// `Pull`.
pub open spec fn strongest_permission(ps: Seq<PermissionModel>, img: ImageRef) -> ImagePermissions {
    if exists|i: int| 0 <= i < ps.len() && ps[i].0 == img && ps[i].1 == ImagePermissions::Push {
        ImagePermissions::Push
    } else {
        ImagePermissions::Pull
    }
}

pub open spec fn permission_views(ps: Seq<ImagePermission>) -> Seq<PermissionModel> {
    ps.map_values(|p: ImagePermission| p@)
}

/// Some entry of `ps` is for `img`.
pub open spec fn names_image(ps: Seq<PermissionModel>, img: ImageRef) -> bool {
    exists|i: int| 0 <= i < ps.len() && ps[i].0 == img
}

/// `r` holds one entry per image that `ps` names, with the strongest
/// permission asked for it.
pub open spec fn is_merged_permissions(ps: Seq<PermissionModel>, r: Seq<PermissionModel>) -> bool {
    &&& forall|i: int, j: int| 0 <= i < j < r.len() ==> r[i].0 != r[j].0
    &&& forall|img: ImageRef| #[trigger] names_image(ps, img) <==> names_image(r, img)
    &&& forall|j: int| 0 <= j < r.len() ==> #[trigger] r[j].1 == strongest_permission(ps, r[j].0)
}

/// Where `r` holds an entry for `img`, if it does.
fn find_image(r: &Vec<ImagePermission>, img: &FullImage) -> (found: Option<usize>)
    ensures
        match found {
            Some(k) => k < r@.len() && r@[k as int].full_image@ == img@,
            None => forall|k: int| 0 <= k < r@.len() ==> r@[k].full_image@ != img@,
        },
{
    let mut j: usize = 0;
    while j < r.len()
        invariant
            j <= r@.len(),
            forall|k: int| 0 <= k < j ==> r@[k].full_image@ != img@,
        decreases r@.len() - j,
    {
        if r[j].full_image == *img {
            return Some(j);
        }
        j = j + 1;
    }
    None
}

/// Which group holds the permissions for `registry`, if one does.
fn find_group(gs: &Vec<Vec<ImagePermission>>, registry: &String) -> (found: Option<usize>)
    requires
        forall|h: int| 0 <= h < gs@.len() ==> #[trigger] gs@[h]@.len() > 0,
    ensures
        match found {
            Some(k) => k < gs@.len() && gs@[k as int]@[0].full_image.registry@ == registry@,
            None => forall|h: int| 0 <= h < gs@.len() ==> #[trigger] gs@[h]@[0].full_image.registry@ != registry@,
        },
{
    let mut g: usize = 0;
    while g < gs.len()
        invariant
            g <= gs@.len(),
            forall|h: int| 0 <= h < gs@.len() ==> #[trigger] gs@[h]@.len() > 0,
            forall|h: int| 0 <= h < g ==> #[trigger] gs@[h]@[0].full_image.registry@ != registry@,
        decreases gs@.len() - g,
    {
        assert(gs@[g as int]@.len() > 0);
        if str_eq(gs[g][0].full_image.registry.as_str(), registry.as_str()) {
            return Some(g);
        }
        g = g + 1;
    }
    None
}

proof fn lemma_names_push(pre: Seq<PermissionModel>, p: PermissionModel, img: ImageRef)
    ensures
        names_image(pre.push(p), img) == (names_image(pre, img) || img == p.0),
{
    let post = pre.push(p);
    if names_image(post, img) {
        let a = choose|a: int| 0 <= a < post.len() && post[a].0 == img;
        if a < pre.len() {
            assert(pre[a] == post[a]);
        }
    }
    if names_image(pre, img) {
        let a = choose|a: int| 0 <= a < pre.len() && pre[a].0 == img;
        assert(post[a] == pre[a]);
    }
    if img == p.0 {
        assert(post[pre.len() as int] == p);
    }
}

proof fn lemma_strongest_push(pre: Seq<PermissionModel>, p: PermissionModel, img: ImageRef)
    ensures
        strongest_permission(pre.push(p), img) == if p.0 == img && p.1 == ImagePermissions::Push {
            ImagePermissions::Push
        } else {
            strongest_permission(pre, img)
        },
{
    let post = pre.push(p);
    if exists|a: int| 0 <= a < post.len() && post[a].0 == img && post[a].1 == ImagePermissions::Push {
        let a = choose|a: int| 0 <= a < post.len() && post[a].0 == img && post[a].1 == ImagePermissions::Push;
        if a < pre.len() {
            assert(pre[a] == post[a]);
        }
    }
    if exists|a: int| 0 <= a < pre.len() && pre[a].0 == img && pre[a].1 == ImagePermissions::Push {
        let a = choose|a: int| 0 <= a < pre.len() && pre[a].0 == img && pre[a].1 == ImagePermissions::Push;
        assert(post[a] == pre[a]);
    }
    if p.0 == img && p.1 == ImagePermissions::Push {
        assert(post[pre.len() as int] == p);
    }
}

proof fn lemma_merge_found(pre: Seq<PermissionModel>, p: PermissionModel, before: Seq<PermissionModel>, k: int)
    requires
        is_merged_permissions(pre, before),
        0 <= k < before.len(),
        before[k].0 == p.0,
    ensures
        is_merged_permissions(pre.push(p), if p.1 == ImagePermissions::Push {
            before.update(k, (p.0, ImagePermissions::Push))
        } else {
            before
        }),
{
    let post = pre.push(p);
    let after = if p.1 == ImagePermissions::Push {
        before.update(k, (p.0, ImagePermissions::Push))
    } else {
        before
    };
    assert forall|b: int| 0 <= b < after.len() implies #[trigger] after[b].0 == before[b].0 by {}
    assert(names_image(before, p.0));
    assert forall|img: ImageRef| #[trigger] names_image(post, img) <==> names_image(after, img) by {
        lemma_names_push(pre, p, img);
        if names_image(after, img) {
            let b = choose|b: int| 0 <= b < after.len() && after[b].0 == img;
            assert(before[b].0 == img);
        }
        if names_image(before, img) {
            let b = choose|b: int| 0 <= b < before.len() && before[b].0 == img;
            assert(after[b].0 == img);
        }
    }
    assert forall|b: int| 0 <= b < after.len() implies #[trigger] after[b].1 == strongest_permission(post, after[b].0) by {
        lemma_strongest_push(pre, p, after[b].0);
        assert(before[b].1 == strongest_permission(pre, before[b].0));
        if b != k {
            assert(before[b].0 != before[k].0);
        }
    }
}

proof fn lemma_merge_new(pre: Seq<PermissionModel>, p: PermissionModel, before: Seq<PermissionModel>)
    requires
        is_merged_permissions(pre, before),
        forall|k: int| 0 <= k < before.len() ==> before[k].0 != p.0,
    ensures
        is_merged_permissions(pre.push(p), before.push(p)),
{
    let post = pre.push(p);
    let after = before.push(p);
    let n = before.len() as int;
    assert forall|b: int| 0 <= b < n implies #[trigger] after[b] == before[b] by {}
    assert(after[n] == p);
    assert forall|img: ImageRef| #[trigger] names_image(post, img) <==> names_image(after, img) by {
        lemma_names_push(pre, p, img);
        lemma_names_push(before, p, img);
    }
    assert(!names_image(before, p.0));
    assert(!names_image(pre, p.0));
    assert forall|b: int| 0 <= b < after.len() implies #[trigger] after[b].1 == strongest_permission(post, after[b].0) by {
        lemma_strongest_push(pre, p, after[b].0);
        if b < n {
            assert(before[b].1 == strongest_permission(pre, before[b].0));
        } else {
            if !(exists|a: int| 0 <= a < pre.len() && pre[a].0 == p.0 && pre[a].1 == ImagePermissions::Push) {
            } else {
                let a = choose|a: int| 0 <= a < pre.len() && pre[a].0 == p.0 && pre[a].1 == ImagePermissions::Push;
                assert(names_image(pre, p.0));
            }
        }
    }
}

/// Merges the permissions asked for: one entry per image, `Push` where any
/// entry for the image asks for it.
pub fn merge_permissions(image_permissions: &[ImagePermission]) -> (r: Vec<ImagePermission>)
    ensures
        is_merged_permissions(permission_views(image_permissions@), permission_views(r@)),
{
    let ghost ps = permission_views(image_permissions@);
    let mut r: Vec<ImagePermission> = Vec::new();
    let mut i: usize = 0;
    while i < image_permissions.len()
        invariant
            i <= image_permissions@.len(),
            ps == permission_views(image_permissions@),
            is_merged_permissions(ps.subrange(0, i as int), permission_views(r@)),
        decreases image_permissions@.len() - i,
    {
        let p = &image_permissions[i];
        let ghost before = permission_views(r@);
        let ghost pre = ps.subrange(0, i as int);
        let ghost post = ps.subrange(0, i + 1);
        assert(post =~= pre.push(p@));
        let found = find_image(&r, &p.full_image);
        match found {
            Some(k) => {
                if p.permissions == ImagePermissions::Push {
                    let q = ImagePermission { full_image: r[k].full_image.clone(), permissions: ImagePermissions::Push };
                    r.set(k, q);
                    proof {
                        assert(permission_views(r@) =~= before.update(k as int, (p@.0, ImagePermissions::Push)));
                    }
                }
                proof {
                    lemma_merge_found(pre, p@, before, k as int);
                }
            },
            None => {
                r.push(p.clone());
                proof {
                    assert(permission_views(r@) =~= before.push(p@));
                    lemma_merge_new(pre, p@, before);
                }
            },
        }
        i = i + 1;
    }
    assert(ps.subrange(0, i as int) =~= ps);
    r
}

/// Merging a `Push` over a `Pull` for the same image leaves exactly one
/// entry for that image, and it asks for `Push`.
pub proof fn lemma_push_over_pull(ps: Seq<PermissionModel>, r: Seq<PermissionModel>, img: ImageRef)
    requires
        is_merged_permissions(ps, r),
        exists|i: int| 0 <= i < ps.len() && ps[i] == (img, ImagePermissions::Pull),
        exists|i: int| 0 <= i < ps.len() && ps[i] == (img, ImagePermissions::Push),
    ensures
        exists|j: int| 0 <= j < r.len() && r[j] == (img, ImagePermissions::Push) && forall|k: int|
            0 <= k < r.len() && r[k].0 == img ==> k == j,
{
    let i = choose|i: int| 0 <= i < ps.len() && ps[i] == (img, ImagePermissions::Push);
    assert(ps[i].0 == img);
    assert(names_image(ps, img));
    let j = choose|j: int| 0 <= j < r.len() && r[j].0 == img;
    assert(r[j].1 == strongest_permission(ps, img));
    assert forall|k: int| 0 <= k < r.len() && r[k].0 == img implies k == j by {
        if k < j {
            assert(r[k].0 != r[j].0);
        } else if k > j {
            assert(r[j].0 != r[k].0);
        }
    }
}

/// `gs` partitions the permissions `ps` by registry.
pub open spec fn is_grouped_by_registry(ps: Seq<PermissionModel>, gs: Seq<Seq<PermissionModel>>) -> bool {
    &&& forall|g: int| 0 <= g < gs.len() ==> #[trigger] gs[g].len() > 0
    &&& forall|g: int, j: int|
        0 <= g < gs.len() && 0 <= j < gs[g].len() ==> #[trigger] gs[g][j].0.registry == gs[g][0].0.registry
    &&& forall|g: int, h: int| 0 <= g < h < gs.len() ==> gs[g][0].0.registry != gs[h][0].0.registry
    &&& forall|x: PermissionModel| #[trigger] ps.contains(x) <==> in_groups(gs, x)
}

/// Some group holds `x`.
pub open spec fn in_groups(gs: Seq<Seq<PermissionModel>>, x: PermissionModel) -> bool {
    exists|g: int| 0 <= g < gs.len() && #[trigger] gs[g].contains(x)
}

pub open spec fn group_views(gs: Seq<Vec<ImagePermission>>) -> Seq<Seq<PermissionModel>> {
    gs.map_values(|g: Vec<ImagePermission>| permission_views(g@))
}

proof fn lemma_group_extend(pre: Seq<PermissionModel>, p: PermissionModel, before: Seq<Seq<PermissionModel>>, k: int)
    requires
        is_grouped_by_registry(pre, before),
        0 <= k < before.len(),
        before[k][0].0.registry == p.0.registry,
    ensures
        is_grouped_by_registry(pre.push(p), before.update(k, before[k].push(p))),
{
    let post = pre.push(p);
    let after = before.update(k, before[k].push(p));
    assert(after[k] == before[k].push(p));
    assert forall|h: int| 0 <= h < after.len() && h != k implies #[trigger] after[h] == before[h] by {}
    assert forall|h: int| 0 <= h < after.len() implies #[trigger] after[h][0] == before[h][0] by {
        if h == k {
            assert(before[k].len() > 0);
        }
    }
    assert forall|h: int| 0 <= h < after.len() implies #[trigger] after[h].len() > 0 by {}
    assert forall|g2: int, j2: int| 0 <= g2 < after.len() && 0 <= j2 < after[g2].len() implies #[trigger] after[g2][j2].0.registry == after[g2][0].0.registry by {
        assert(after[g2][0] == before[g2][0]);
        if g2 == k && j2 < before[k].len() {
            assert(after[g2][j2] == before[g2][j2]);
        } else if g2 != k {
            assert(after[g2] == before[g2]);
        }
    }
    assert forall|g2: int, h2: int| 0 <= g2 < h2 < after.len() implies after[g2][0].0.registry != after[h2][0].0.registry by {
        assert(after[g2][0] == before[g2][0]);
        assert(after[h2][0] == before[h2][0]);
    }
    assert forall|x: PermissionModel| #[trigger] post.contains(x) <==> in_groups(after, x) by {
        assert(post.contains(x) <==> (pre.contains(x) || x == p)) by {
            if post.contains(x) {
                let a = choose|a: int| 0 <= a < post.len() && post[a] == x;
                if a < pre.len() {
                    assert(pre[a] == x);
                }
            }
            if pre.contains(x) {
                let a = choose|a: int| 0 <= a < pre.len() && pre[a] == x;
                assert(post[a] == x);
            }
            if x == p {
                assert(post[pre.len() as int] == x);
            }
        }
        assert(after[k].contains(x) <==> (before[k].contains(x) || x == p)) by {
            if after[k].contains(x) {
                let a = choose|a: int| 0 <= a < after[k].len() && after[k][a] == x;
                if a < before[k].len() {
                    assert(before[k][a] == x);
                }
            }
            if before[k].contains(x) {
                let a = choose|a: int| 0 <= a < before[k].len() && before[k][a] == x;
                assert(after[k][a] == x);
            }
            if x == p {
                assert(after[k][before[k].len() as int] == x);
            }
        }
        if in_groups(after, x) {
            let g = choose|g: int| 0 <= g < after.len() && #[trigger] after[g].contains(x);
            if g != k {
                assert(before[g].contains(x));
            } else if x != p {
                assert(before[k].contains(x));
            }
        }
        if in_groups(before, x) {
            let g = choose|g: int| 0 <= g < before.len() && #[trigger] before[g].contains(x);
            if g != k {
                assert(after[g].contains(x));
            } else {
                assert(after[k].contains(x));
            }
        }
        if x == p {
            assert(after[k].contains(x));
        }
    }
}

proof fn lemma_group_new(pre: Seq<PermissionModel>, p: PermissionModel, before: Seq<Seq<PermissionModel>>)
    requires
        is_grouped_by_registry(pre, before),
        forall|h: int| 0 <= h < before.len() ==> #[trigger] before[h][0].0.registry != p.0.registry,
    ensures
        is_grouped_by_registry(pre.push(p), before.push(seq![p])),
{
    let post = pre.push(p);
    let after = before.push(seq![p]);
    let n = before.len() as int;
    assert forall|h: int| 0 <= h < n implies #[trigger] after[h] == before[h] by {}
    assert(after[n] == seq![p]);
    assert(after[n][0] == p);
    assert forall|h: int| 0 <= h < after.len() implies #[trigger] after[h].len() > 0 by {
        if h < n {
            assert(after[h] == before[h]);
        }
    }
    assert forall|g2: int, j2: int| 0 <= g2 < after.len() && 0 <= j2 < after[g2].len() implies #[trigger] after[g2][j2].0.registry == after[g2][0].0.registry by {
        if g2 < n {
            assert(after[g2] == before[g2]);
        }
    }
    assert forall|g2: int, h2: int| 0 <= g2 < h2 < after.len() implies after[g2][0].0.registry != after[h2][0].0.registry by {
        assert(after[g2] == before[g2]);
        if h2 < n {
            assert(after[h2] == before[h2]);
        }
    }
    assert forall|x: PermissionModel| #[trigger] post.contains(x) <==> in_groups(after, x) by {
        assert(post.contains(x) <==> (pre.contains(x) || x == p)) by {
            if post.contains(x) {
                let a = choose|a: int| 0 <= a < post.len() && post[a] == x;
                if a < pre.len() {
                    assert(pre[a] == x);
                }
            }
            if pre.contains(x) {
                let a = choose|a: int| 0 <= a < pre.len() && pre[a] == x;
                assert(post[a] == x);
            }
            if x == p {
                assert(post[pre.len() as int] == x);
            }
        }
        assert(after[n].contains(x) <==> x == p) by {
            if x == p {
                assert(after[n][0] == x);
            }
        }
        if in_groups(after, x) {
            let g = choose|g: int| 0 <= g < after.len() && #[trigger] after[g].contains(x);
            if g < n {
                assert(before[g].contains(x));
            }
        }
        if in_groups(before, x) {
            let g = choose|g: int| 0 <= g < before.len() && #[trigger] before[g].contains(x);
            assert(after[g].contains(x));
        }
        if x == p {
            assert(after[n].contains(x));
        }
    }
}

/// Groups permissions by registry: each group is non-empty and holds one
/// registry, no two groups share one, and every permission is in a group.
pub fn group_by_registry(image_permissions: &[ImagePermission]) -> (r: Vec<Vec<ImagePermission>>)
    ensures
        is_grouped_by_registry(permission_views(image_permissions@), group_views(r@)),
{
    let ghost ps = permission_views(image_permissions@);
    let mut gs: Vec<Vec<ImagePermission>> = Vec::new();
    let mut i: usize = 0;
    while i < image_permissions.len()
        invariant
            i <= image_permissions@.len(),
            ps == permission_views(image_permissions@),
            is_grouped_by_registry(ps.subrange(0, i as int), group_views(gs@)),
        decreases image_permissions@.len() - i,
    {
        let p = &image_permissions[i];
        let ghost before = group_views(gs@);
        let ghost pre = ps.subrange(0, i as int);
        let ghost post = ps.subrange(0, i + 1);
        assert(post =~= pre.push(p@));
        proof {
            assert forall|h: int| 0 <= h < gs@.len() implies #[trigger] gs@[h]@.len() > 0 by {
                assert(before[h].len() > 0);
            }
        }
        let found = find_group(&gs, &p.full_image.registry);
        match found {
            Some(k) => {
                let mut group = gs.remove(k);
                proof {
                    assert(permission_views(group@) == before[k as int]);
                }
                group.push(p.clone());
                proof {
                    assert(permission_views(group@) =~= before[k as int].push(p@));
                }
                gs.insert(k, group);
                proof {
                    let after = group_views(gs@);
                    assert(after =~= before.update(k as int, before[k as int].push(p@)));
                    lemma_group_extend(pre, p@, before, k as int);
                }
            },
            None => {
                let mut group: Vec<ImagePermission> = Vec::new();
                group.push(p.clone());
                proof {
                    assert(permission_views(group@) =~= seq![p@]);
                }
                gs.push(group);
                proof {
                    let after = group_views(gs@);
                    assert(after =~= before.push(seq![p@]));
                    lemma_group_new(pre, p@, before);
                }
            },
        }
        i = i + 1;
    }
    assert(ps.subrange(0, i as int) =~= ps);
    gs
}

/// The token scope of one permission.
pub open spec fn scope_of(p: PermissionModel) -> Seq<char> {
    "repository:"@ + p.0.library_name + ":"@ + match p.1 {
        ImagePermissions::Pull => "pull"@,
        ImagePermissions::Push => "pull,push"@,
    }
}

/// `scope=<s1>&scope=<s2>...` for the permissions, in order.
pub open spec fn scope_query(ps: Seq<PermissionModel>) -> Seq<char>
    decreases ps.len(),
{
    if ps.len() == 0 {
        Seq::<char>::empty()
    } else if ps.len() == 1 {
        "scope="@ + scope_of(ps[0])
    } else {
        scope_query(ps.drop_last()) + "&scope="@ + scope_of(ps.last())
    }
}

/// The token request URL for a registry and the permissions asked of it.
pub open spec fn login_url_of(reference: ImageRef, ps: Seq<PermissionModel>) -> Seq<char> {
    auth_url_of(reference) + "?service="@ + reference.service + "&"@ + scope_query(ps)
}

/// The token scope of one permission: `repository:<library_name>:<pull|pull,push>`.
pub fn scope_for(p: &ImagePermission) -> (r: String)
    ensures
        r@ == scope_of(p@),
{
    let a = concat_str("repository:", p.full_image.library_name.as_str());
    let b = concat_str(a.as_str(), ":");
    match p.permissions {
        ImagePermissions::Pull => concat_str(b.as_str(), "pull"),
        ImagePermissions::Push => concat_str(b.as_str(), "pull,push"),
    }
}

/// The URL that asks the registry's token service for the permissions.
pub fn login_url(reference: &FullImage, image_permissions: &[ImagePermission]) -> (r: String)
    ensures
        r@ == login_url_of(reference@, permission_views(image_permissions@)),
{
    let ghost ps = permission_views(image_permissions@);
    let mut query = String::new();
    let mut i: usize = 0;
    while i < image_permissions.len()
        invariant
            i <= image_permissions@.len(),
            ps == permission_views(image_permissions@),
            query@ == scope_query(ps.subrange(0, i as int)),
        decreases image_permissions@.len() - i,
    {
        let scope = scope_for(&image_permissions[i]);
        let ghost sub = ps.subrange(0, i + 1);
        assert(sub.drop_last() =~= ps.subrange(0, i as int));
        if i == 0 {
            query = concat_str("scope=", scope.as_str());
        } else {
            let q = concat_str(query.as_str(), "&scope=");
            query = concat_str(q.as_str(), scope.as_str());
        }
        i = i + 1;
    }
    assert(ps.subrange(0, i as int) =~= ps);
    let auth = reference.get_auth_url();
    let a = concat_str(auth.as_str(), "?service=");
    let b = concat_str(a.as_str(), reference.service.as_str());
    let c = concat_str(b.as_str(), "&");
    concat_str(c.as_str(), query.as_str())
}

/// `Bearer <token>`.
pub fn get_bearer(token: &str) -> (r: String)
    ensures
        r@ == "Bearer "@ + token@,
{
    concat_str("Bearer ", token)
}

/// The standard, padded base64 encoding of a text's UTF-8 bytes.
pub uninterp spec fn base64_of(text: Seq<char>) -> Seq<char>;

/// Relies on `base64::Engine::encode` with the `STANDARD` engine: the padded
/// base64 of the UTF-8 bytes of `text`. Its only panic, on a size overflow,
/// needs an input larger than any allocation.
#[verifier::external_body]
fn base64_encode(text: &str) -> (r: String)
    ensures
        r@ == base64_of(text@),
{
    base64::engine::general_purpose::STANDARD.encode(text.as_bytes())
}

/// `Bearer <base64(token)>`, the form GitHub's registry accepts for a token.
pub fn get_base64_bearer(token: &str) -> (r: String)
    ensures
        r@ == "Bearer "@ + base64_of(token@),
{
    let encoded = base64_encode(token);
    get_bearer(encoded.as_str())
}

/// What a JSON text holds under `key` at its top level: `None` when the text
/// is not JSON, `Some(None)` when the key is absent or not a string.
pub uninterp spec fn json_string_field(text: Seq<char>, key: Seq<char>) -> Option<Option<Seq<char>>>;

pub open spec fn opt_opt_view(o: Option<Option<String>>) -> Option<Option<Seq<char>>> {
    match o {
        Some(Some(s)) => Some(Some(s@)),
        Some(None) => Some(None),
        None => None,
    }
}

/// Relies on `serde_json::from_str` into a `serde_json::Value`, read with
/// `Value::get` and `Value::as_str`.
#[verifier::external_body]
fn json_str_field(text: &str, key: &str) -> (r: Option<Option<String>>)
    ensures
        opt_opt_view(r) == json_string_field(text@, key@),
{
    match serde_json::from_str::<serde_json::Value>(text) {
        Ok(v) => Some(v.get(key).and_then(|x| x.as_str()).map(|x| x.to_string())),
        Err(_) => None,
    }
}

/// The token that a login response carries: `access_token`, else `token`
/// when the body is JSON; the body itself when it is not. `None` when a JSON
/// body carries neither.
pub open spec fn token_choice(
    access_token: Option<Option<Seq<char>>>,
    token: Option<Option<Seq<char>>>,
    body: Seq<char>,
) -> Option<Seq<char>> {
    match access_token {
        None => Some(body),
        Some(Some(t)) => Some(t),
        Some(None) => match token {
            Some(Some(t)) => Some(t),
            _ => None,
        },
    }
}

/// The bearer for a login response, given what its body holds under
/// `access_token` and `token`.
pub fn select_token(
    access_token: &Option<Option<String>>,
    token: &Option<Option<String>>,
    body: &str,
) -> (r: Result<String, OciClientError>)
    ensures
        match token_choice(opt_opt_view(*access_token), opt_opt_view(*token), body@) {
            Some(t) => r is Ok && r->Ok_0@ == "Bearer "@ + t,
            None => r is Err,
        },
{
    match access_token {
        None => Ok(get_bearer(body)),
        Some(Some(t)) => Ok(get_bearer(t.as_str())),
        Some(None) => match token {
            Some(Some(t)) => Ok(get_bearer(t.as_str())),
            _ => Err(OciClientError(concat_str("Could not get token from JSON response: ", body))),
        },
    }
}

/// The bearer for the body of a successful login response.
pub fn token_from_response(body: &str) -> (r: Result<String, OciClientError>)
    ensures
        match token_choice(
            json_string_field(body@, "access_token"@),
            json_string_field(body@, "token"@),
            body@,
        ) {
            Some(t) => r is Ok && r->Ok_0@ == "Bearer "@ + t,
            None => r is Err,
        },
{
    let access_token = json_str_field(body, "access_token");
    let token = json_str_field(body, "token");
    select_token(&access_token, &token, body)
}

} // verus!
