//! Whiteouts: which paths of the lower layers survive when a layer is laid
//! over them. Paths are relative and `/`-separated.

use vstd::prelude::*;
use crate::text::{chars_of, join_chars, join_with, lemma_split_nonempty, split_chars, split_on, str_eq, string_of};

verus! {

pub open spec fn basename(p: Seq<char>) -> Seq<char> {
    split_on(p, '/').last()
}

pub open spec fn parent_parts(p: Seq<char>) -> Seq<Seq<char>> {
    split_on(p, '/').drop_last()
}

/// The entry is a whiteout marker: its name begins with `.wh.`.
pub open spec fn is_whiteout(p: Seq<char>) -> bool {
    basename(p).len() >= 4 && basename(p).subrange(0, 4) == ".wh."@
}

/// The marker that makes its directory opaque.
pub open spec fn is_opaque(p: Seq<char>) -> bool {
    basename(p) == ".wh..wh..opq"@
}

/// What a marker hides: for the opaque marker, everything below its
/// directory (`(true, dir)`); for `.wh.<name>`, the sibling `<name>` and
/// everything below it (`(false, sibling)`).
pub open spec fn rule_of(p: Seq<char>) -> Option<(bool, Seq<char>)> {
    if !is_whiteout(p) {
        None
    } else if is_opaque(p) {
        Some((true, join_with(parent_parts(p), '/')))
    } else if basename(p).len() > 4 {
        Some((false, join_with(parent_parts(p).push(basename(p).subrange(4, basename(p).len() as int)), '/')))
    } else {
        None
    }
}

/// `q` lies below the directory `dir` (the root, when `dir` is empty).
pub open spec fn is_under(q: Seq<char>, dir: Seq<char>) -> bool {
    if dir.len() == 0 {
        q.len() > 0
    } else {
        q.len() > dir.len() && q.subrange(0, dir.len() as int) == dir && q[dir.len() as int] == '/'
    }
}

pub open spec fn hides(rule: (bool, Seq<char>), q: Seq<char>) -> bool {
    if rule.0 {
        is_under(q, rule.1)
    } else {
        q == rule.1 || is_under(q, rule.1)
    }
}

/// Some marker of the layer hides `q`.
pub open spec fn hidden_by(layer: Seq<Seq<char>>, q: Seq<char>) -> bool {
    exists|i: int| 0 <= i < layer.len() && #[trigger] rule_of(layer[i]) is Some && hides(rule_of(layer[i])->0, q)
}

/// A lower path survives when it is no marker, no marker of the layer
/// hides it, and the layer does not replace it.
pub open spec fn kept_lower(layer: Seq<Seq<char>>, q: Seq<char>) -> bool {
    !is_whiteout(q) && !hidden_by(layer, q) && !layer.contains(q)
}

/// The paths of `s` that survive under `layer`, in order.
pub open spec fn kept_from_lower(layer: Seq<Seq<char>>, s: Seq<Seq<char>>) -> Seq<Seq<char>>
    decreases s.len(),
{
    if s.len() == 0 {
        s
    } else {
        let r = kept_from_lower(layer, s.drop_last());
        if kept_lower(layer, s.last()) {
            r.push(s.last())
        } else {
            r
        }
    }
}

/// The paths of `s` that are not markers, in order.
pub open spec fn layer_entries(s: Seq<Seq<char>>) -> Seq<Seq<char>>
    decreases s.len(),
{
    if s.len() == 0 {
        s
    } else {
        let r = layer_entries(s.drop_last());
        if !is_whiteout(s.last()) {
            r.push(s.last())
        } else {
            r
        }
    }
}

/// The paths present after laying `layer` over `lower`: the lower paths
/// that survive, then the layer's own paths but its markers.
pub open spec fn layered_paths(lower: Seq<Seq<char>>, layer: Seq<Seq<char>>) -> Seq<Seq<char>> {
    kept_from_lower(layer, lower) + layer_entries(layer)
}

proof fn lemma_kept_from_lower(layer: Seq<Seq<char>>, s: Seq<Seq<char>>)
    ensures
        forall|x: Seq<char>| #[trigger] kept_from_lower(layer, s).contains(x) ==> kept_lower(layer, x),
    decreases s.len(),
{
    if s.len() > 0 {
        lemma_kept_from_lower(layer, s.drop_last());
        let r = kept_from_lower(layer, s.drop_last());
        assert forall|x: Seq<char>| #[trigger] kept_from_lower(layer, s).contains(x) implies kept_lower(layer, x) by {
            let t = kept_from_lower(layer, s);
            let k = choose|k: int| 0 <= k < t.len() && t[k] == x;
            if k < r.len() {
                assert(r[k] == x);
                assert(r.contains(x));
            }
        }
    }
}

proof fn lemma_layer_entries(s: Seq<Seq<char>>)
    ensures
        forall|x: Seq<char>| #[trigger] layer_entries(s).contains(x) ==> !is_whiteout(x) && s.contains(x),
    decreases s.len(),
{
    if s.len() > 0 {
        lemma_layer_entries(s.drop_last());
        let r = layer_entries(s.drop_last());
        assert forall|x: Seq<char>| #[trigger] layer_entries(s).contains(x) implies !is_whiteout(x) && s.contains(x) by {
            let t = layer_entries(s);
            let k = choose|k: int| 0 <= k < t.len() && t[k] == x;
            if k < r.len() {
                assert(r[k] == x);
                assert(r.contains(x));
                let j = choose|j: int| 0 <= j < s.drop_last().len() && s.drop_last()[j] == x;
                assert(s[j] == x);
            } else {
                assert(s[s.len() - 1] == x);
            }
        }
    }
}

fn is_whiteout_exec(pieces: &Vec<Vec<char>>) -> (r: bool)
    requires
        pieces@.len() >= 1,
    ensures
        r == {
            let b = pieces@.last()@;
            b.len() >= 4 && b.subrange(0, 4) == ".wh."@
        },
{
    let b = &pieces[pieces.len() - 1];
    proof {
        reveal_strlit(".wh.");
    }
    if b.len() >= 4 && b[0] == '.' && b[1] == 'w' && b[2] == 'h' && b[3] == '.' {
        assert(b@.subrange(0, 4) =~= ".wh."@);
        true
    } else {
        proof {
            if b@.len() >= 4 {
                let s = b@.subrange(0, 4);
                assert(s[0] == b@[0] && s[1] == b@[1] && s[2] == b@[2] && s[3] == b@[3]);
            }
        }
        false
    }
}

/// The hiding rule of a layer entry, if it is a marker that hides anything.
fn rule_for(path: &str) -> (r: Option<(bool, Vec<char>)>)
    ensures
        match rule_of(path@) {
            Some(rule) => r is Some && (r->0).0 == rule.0 && (r->0).1@ == rule.1,
            None => r is None,
        },
{
    let cs = chars_of(path);
    let pieces = split_chars(cs.as_slice(), '/');
    proof {
        lemma_split_nonempty(path@, '/');
    }
    let ghost views = pieces@.map_values(|p: Vec<char>| p@);
    assert(views =~= split_on(path@, '/'));
    if !is_whiteout_exec(&pieces) {
        return None;
    }
    let n = pieces.len();
    let name = &pieces[n - 1];
    let opaque = str_eq(string_of(name.as_slice()).as_str(), ".wh..wh..opq");
    let mut parents: Vec<Vec<char>> = Vec::new();
    let mut i: usize = 0;
    while i < n - 1
        invariant
            n == pieces@.len(),
            n >= 1,
            i <= n - 1,
            parents@.len() == i,
            forall|j: int| 0 <= j < i ==> #[trigger] parents@[j]@ == pieces@[j]@,
        decreases n - 1 - i,
    {
        let mut copy: Vec<char> = Vec::new();
        copy.extend_from_slice(pieces[i].as_slice());
        parents.push(copy);
        i = i + 1;
    }
    assert(parents@.map_values(|p: Vec<char>| p@) =~= parent_parts(path@));
    if opaque {
        let dir = join_chars(&parents, 0, '/');
        assert(parents@.map_values(|p: Vec<char>| p@).subrange(0, parents@.len() as int) =~= parent_parts(path@));
        return Some((true, dir));
    }
    if name.len() <= 4 {
        return None;
    }
    let mut rest: Vec<char> = Vec::new();
    let mut k: usize = 4;
    while k < name.len()
        invariant
            4 <= k <= name@.len(),
            rest@ == name@.subrange(4, k as int),
        decreases name@.len() - k,
    {
        rest.push(name[k]);
        k = k + 1;
        assert(rest@ =~= name@.subrange(4, k as int));
    }
    let ghost pv = parents@.map_values(|p: Vec<char>| p@);
    parents.push(rest);
    assert(parents@.map_values(|p: Vec<char>| p@) =~= pv.push(name@.subrange(4, name@.len() as int)));
    let target = join_chars(&parents, 0, '/');
    assert(parents@.map_values(|p: Vec<char>| p@).subrange(0, parents@.len() as int) =~= parents@.map_values(|p: Vec<char>| p@));
    Some((false, target))
}

fn is_under_exec(q: &Vec<char>, dir: &Vec<char>) -> (r: bool)
    ensures
        r == is_under(q@, dir@),
{
    if dir.len() == 0 {
        return q.len() > 0;
    }
    if q.len() <= dir.len() {
        return false;
    }
    let mut i: usize = 0;
    while i < dir.len()
        invariant
            dir@.len() < q@.len(),
            i <= dir@.len(),
            forall|j: int| 0 <= j < i ==> q@[j] == dir@[j],
        decreases dir@.len() - i,
    {
        if q[i] != dir[i] {
            assert(q@.subrange(0, dir@.len() as int)[i as int] != dir@[i as int]);
            return false;
        }
        i = i + 1;
    }
    assert(q@.subrange(0, dir@.len() as int) =~= dir@);
    q[dir.len()] == '/'
}

fn hides_exec(rule: &(bool, Vec<char>), q: &Vec<char>) -> (r: bool)
    ensures
        r == hides((rule.0, rule.1@), q@),
{
    if rule.0 {
        is_under_exec(q, &rule.1)
    } else {
        str_eq(string_of(q.as_slice()).as_str(), string_of(rule.1.as_slice()).as_str()) || is_under_exec(q, &rule.1)
    }
}

pub open spec fn path_views(v: Seq<String>) -> Seq<Seq<char>> {
    v.map_values(|s: String| s@)
}

/// The paths present after laying `layer` over `lower`.
pub fn layered_tree(lower: &Vec<String>, layer: &Vec<String>) -> (r: Vec<String>)
    ensures
        path_views(r@) == layered_paths(path_views(lower@), path_views(layer@)),
{
    let ghost lo = path_views(lower@);
    let ghost up = path_views(layer@);
    let mut rules: Vec<(bool, Vec<char>)> = Vec::new();
    let ghost mut owners: Seq<int> = Seq::empty();
    let mut i: usize = 0;
    while i < layer.len()
        invariant
            i <= layer@.len(),
            up == path_views(layer@),
            rules@.len() == owners.len(),
            forall|k: int| 0 <= k < rules@.len() ==> 0 <= #[trigger] owners[k] < i
                && rule_of(up[owners[k]]) is Some
                && rule_of(up[owners[k]])->0 == (rules@[k].0, rules@[k].1@),
            forall|j: int| 0 <= j < i && #[trigger] rule_of(up[j]) is Some ==> exists|k: int|
                0 <= k < rules@.len() && owners[k] == j,
        decreases layer@.len() - i,
    {
        assert(up[i as int] == layer@[i as int]@);
        let ghost old_owners = owners;
        let ghost old_rules = rules@;
        match rule_for(layer[i].as_str()) {
            Some(rule) => {
                proof {
                    owners = owners.push(i as int);
                }
                rules.push(rule);
                proof {
                    assert forall|k: int| 0 <= k < rules@.len() implies 0 <= #[trigger] owners[k] < i + 1
                        && rule_of(up[owners[k]]) is Some
                        && rule_of(up[owners[k]])->0 == (rules@[k].0, rules@[k].1@) by {
                        if k < old_rules.len() {
                            assert(owners[k] == old_owners[k]);
                            assert(rules@[k] == old_rules[k]);
                        }
                    }
                    assert forall|j: int| 0 <= j < i + 1 && #[trigger] rule_of(up[j]) is Some implies exists|k: int|
                        0 <= k < rules@.len() && owners[k] == j by {
                        if j == i {
                            assert(owners[rules@.len() - 1] == j);
                        } else {
                            let k = choose|k: int| 0 <= k < old_rules.len() && old_owners[k] == j;
                            assert(owners[k] == j);
                        }
                    }
                }
            },
            None => {},
        }
        i = i + 1;
    }
    let mut r: Vec<String> = Vec::new();
    let mut q: usize = 0;
    while q < lower.len()
        invariant
            q <= lower@.len(),
            lo == path_views(lower@),
            up == path_views(layer@),
            rules@.len() == owners.len(),
            forall|k: int| 0 <= k < rules@.len() ==> 0 <= #[trigger] owners[k] < up.len()
                && rule_of(up[owners[k]]) is Some
                && rule_of(up[owners[k]])->0 == (rules@[k].0, rules@[k].1@),
            forall|j: int| 0 <= j < up.len() && #[trigger] rule_of(up[j]) is Some ==> exists|k: int|
                0 <= k < rules@.len() && owners[k] == j,
            path_views(r@) == kept_from_lower(up, lo.subrange(0, q as int)),
        decreases lower@.len() - q,
    {
        let x = chars_of(lower[q].as_str());
        let xs = split_chars(x.as_slice(), '/');
        proof {
            lemma_split_nonempty(x@, '/');
            assert(xs@.map_values(|p: Vec<char>| p@) =~= split_on(x@, '/'));
        }
        let marker = is_whiteout_exec(&xs);
        let mut hidden = false;
        let mut k: usize = 0;
        while k < rules.len()
            invariant
                q < lower@.len(),
                k <= rules@.len(),
                x@ == lower@[q as int]@,
                hidden == exists|k2: int| 0 <= k2 < k && hides((rules@[k2].0, rules@[k2].1@), x@),
            decreases rules@.len() - k,
        {
            if hides_exec(&rules[k], &x) {
                hidden = true;
            }
            k = k + 1;
        }
        let mut replaced = false;
        let mut j: usize = 0;
        while j < layer.len()
            invariant
                q < lower@.len(),
                j <= layer@.len(),
                up == path_views(layer@),
                replaced == exists|j2: int| 0 <= j2 < j && up[j2] == lower@[q as int]@,
            decreases layer@.len() - j,
        {
            assert(up[j as int] == layer@[j as int]@);
            if str_eq(layer[j].as_str(), lower[q].as_str()) {
                replaced = true;
            }
            j = j + 1;
        }
        proof {
            assert(hidden == hidden_by(up, x@)) by {
                if hidden {
                    let k2 = choose|k2: int| 0 <= k2 < rules@.len() && hides((rules@[k2].0, rules@[k2].1@), x@);
                    let o = owners[k2];
                    assert(rule_of(up[o]) is Some && hides(rule_of(up[o])->0, x@));
                }
                if hidden_by(up, x@) {
                    let i2 = choose|i2: int| 0 <= i2 < up.len() && #[trigger] rule_of(up[i2]) is Some && hides(rule_of(up[i2])->0, x@);
                    let k2 = choose|k2: int| 0 <= k2 < rules@.len() && owners[k2] == i2;
                    assert(hides((rules@[k2].0, rules@[k2].1@), x@));
                }
            }
            assert(replaced == up.contains(x@)) by {
                if up.contains(x@) {
                    let j2 = choose|j2: int| 0 <= j2 < up.len() && up[j2] == x@;
                }
            }
            let sub = lo.subrange(0, q + 1);
            assert(sub.drop_last() =~= lo.subrange(0, q as int));
            assert(sub.last() == x@);
        }
        if !marker && !hidden && !replaced {
            let ghost before = r@;
            r.push(lower[q].clone());
            assert(path_views(r@) =~= path_views(before).push(x@));
        }
        q = q + 1;
    }
    assert(lo.subrange(0, q as int) =~= lo);
    let ghost first = path_views(r@);
    assert(path_views(r@) == first + layer_entries(up.subrange(0, 0)));
    let mut u: usize = 0;
    while u < layer.len()
        invariant
            u <= layer@.len(),
            up == path_views(layer@),
            path_views(r@) == first + layer_entries(up.subrange(0, u as int)),
        decreases layer@.len() - u,
    {
        let x = chars_of(layer[u].as_str());
        let xs = split_chars(x.as_slice(), '/');
        proof {
            lemma_split_nonempty(x@, '/');
            assert(xs@.map_values(|p: Vec<char>| p@) =~= split_on(x@, '/'));
            let sub = up.subrange(0, u + 1);
            assert(sub.drop_last() =~= up.subrange(0, u as int));
            assert(sub.last() == x@);
        }
        if !is_whiteout_exec(&xs) {
            let ghost before = r@;
            r.push(layer[u].clone());
            assert(path_views(r@) =~= path_views(before).push(x@));
        }
        proof {
            let sub = up.subrange(0, u + 1);
            assert(layer_entries(sub) == if !is_whiteout(x@) { layer_entries(up.subrange(0, u as int)).push(x@) } else { layer_entries(up.subrange(0, u as int)) });
        }
        u = u + 1;
    }
    assert(up.subrange(0, u as int) =~= up);
    assert(path_views(r@) =~= layered_paths(lo, up));
    r
}

/// Laying a layer with the marker `.wh.<name>` over lower layers leaves
/// neither `<name>`, nor anything below it, nor the marker, provided that
/// the layer does not itself bring such a path back.
pub proof fn lemma_whiteout_removes(lower: Seq<Seq<char>>, layer: Seq<Seq<char>>, m: int)
    requires
        0 <= m < layer.len(),
        rule_of(layer[m]) is Some,
        !(rule_of(layer[m])->0).0,
        forall|i: int| 0 <= i < layer.len() ==> !hides(rule_of(layer[m])->0, #[trigger] layer[i]),
    ensures
        forall|x: Seq<char>| #[trigger] layered_paths(lower, layer).contains(x) ==> x != layer[m]
            && !hides(rule_of(layer[m])->0, x),
{
    let a = kept_from_lower(layer, lower);
    let b = layer_entries(layer);
    lemma_kept_from_lower(layer, lower);
    lemma_layer_entries(layer);
    assert forall|x: Seq<char>| #[trigger] layered_paths(lower, layer).contains(x) implies x != layer[m]
        && !hides(rule_of(layer[m])->0, x) by {
        let s = a + b;
        let k = choose|k: int| 0 <= k < s.len() && s[k] == x;
        if k < a.len() {
            assert(a[k] == x);
            assert(a.contains(x));
            assert(kept_lower(layer, x));
            assert(is_whiteout(layer[m]));
            assert(!hidden_by(layer, x));
            if hides(rule_of(layer[m])->0, x) {
                assert(rule_of(layer[m]) is Some && hides(rule_of(layer[m])->0, x));
            }
        } else {
            assert(b[k - a.len()] == x);
            assert(b.contains(x));
            assert(!is_whiteout(x));
            let i = choose|i: int| 0 <= i < layer.len() && layer[i] == x;
        }
    }
}

/// The first `k` segments of a path.
pub open spec fn path_prefix(p: Seq<char>, k: int) -> Seq<char> {
    join_with(split_on(p, '/').subrange(0, k), '/')
}

/// `x` is a path of `ps` or one of the directories above one.
pub open spec fn is_path_or_parent(ps: Seq<Seq<char>>, x: Seq<char>) -> bool {
    exists|i: int, k: int| 0 <= i < ps.len() && 1 <= k <= split_on(ps[i], '/').len() && x == #[trigger] path_prefix(ps[i], k)
}

fn contains_path(v: &Vec<String>, x: &String) -> (r: bool)
    ensures
        r == path_views(v@).contains(x@),
{
    let mut i: usize = 0;
    while i < v.len()
        invariant
            i <= v@.len(),
            forall|j: int| 0 <= j < i ==> v@[j]@ != x@,
        decreases v@.len() - i,
    {
        if str_eq(v[i].as_str(), x.as_str()) {
            assert(path_views(v@)[i as int] == x@);
            return true;
        }
        i = i + 1;
    }
    assert forall|j: int| 0 <= j < path_views(v@).len() implies path_views(v@)[j] != x@ by {
        assert(path_views(v@)[j] == v@[j]@);
    }
    false
}

/// The paths of a layer together with every directory above them, each
/// once: the entries that unpacking the layer leaves on disk.
pub fn with_parent_dirs(paths: &Vec<String>) -> (r: Vec<String>)
    ensures
        forall|x: Seq<char>| #[trigger] path_views(r@).contains(x) <==> is_path_or_parent(path_views(paths@), x),
        path_views(r@).no_duplicates(),
{
    let ghost ps = path_views(paths@);
    let mut r: Vec<String> = Vec::new();
    let mut i: usize = 0;
    while i < paths.len()
        invariant
            i <= paths@.len(),
            ps == path_views(paths@),
            path_views(r@).no_duplicates(),
            forall|x: Seq<char>| #[trigger] path_views(r@).contains(x) <==> exists|i2: int, k: int|
                0 <= i2 < i && 1 <= k <= split_on(ps[i2], '/').len() && x == #[trigger] path_prefix(ps[i2], k),
        decreases paths@.len() - i,
    {
        let cs = chars_of(paths[i].as_str());
        let parts = split_chars(cs.as_slice(), '/');
        let ghost pv = parts@.map_values(|p: Vec<char>| p@);
        assert(pv =~= split_on(ps[i as int], '/'));
        let mut k: usize = 0;
        let mut prefix: Vec<Vec<char>> = Vec::new();
        let mut first: Vec<char> = Vec::new();
        proof {
            lemma_split_nonempty(ps[i as int], '/');
        }
        first.extend_from_slice(parts[0].as_slice());
        assert(first@ == pv[0]);
        prefix.push(first);
        assert(prefix@.map_values(|p: Vec<char>| p@) =~= pv.subrange(0, 1));
        while k < parts.len()
            invariant
                i < paths@.len(),
                ps == path_views(paths@),
                pv == parts@.map_values(|p: Vec<char>| p@),
                pv == split_on(ps[i as int], '/'),
                0 <= k <= pv.len(),
                k < pv.len() ==> prefix@.map_values(|p: Vec<char>| p@) == pv.subrange(0, k + 1),
                path_views(r@).no_duplicates(),
                forall|x: Seq<char>| #[trigger] path_views(r@).contains(x) <==> (exists|i2: int, k2: int|
                    0 <= i2 < i && 1 <= k2 <= split_on(ps[i2], '/').len() && x == #[trigger] path_prefix(ps[i2], k2))
                    || exists|k2: int| 1 <= k2 <= k && x == #[trigger] path_prefix(ps[i as int], k2),
            decreases pv.len() - k,
        {
            let joined = join_chars(&prefix, 0, '/');
            let candidate = string_of(joined.as_slice());
            proof {
                assert(prefix@.map_values(|p: Vec<char>| p@).subrange(0, prefix@.len() as int) =~= pv.subrange(0, k + 1));
                assert(candidate@ == path_prefix(ps[i as int], k + 1));
            }
            let ghost before = path_views(r@);
            let ghost cv = candidate@;
            if !contains_path(&r, &candidate) {
                r.push(candidate);
                proof {
                    assert(path_views(r@) =~= before.push(cv));
                    assert(path_views(r@)[before.len() as int] == cv);
                    assert forall|a: int, b: int| 0 <= a < b < path_views(r@).len() implies path_views(r@)[a] != path_views(r@)[b] by {
                        if b == before.len() {
                            assert(path_views(r@)[a] == before[a]);
                        } else {
                            assert(path_views(r@)[a] == before[a] && path_views(r@)[b] == before[b]);
                        }
                    }
                }
            }
            proof {
                let now = path_views(r@);
                let cand = path_prefix(ps[i as int], k + 1);
                assert(cv == cand);
                assert(now.contains(cand));
                assert forall|x: Seq<char>| #[trigger] now.contains(x) <==> (exists|i2: int, k2: int|
                    0 <= i2 < i && 1 <= k2 <= split_on(ps[i2], '/').len() && x == #[trigger] path_prefix(ps[i2], k2))
                    || exists|k2: int| 1 <= k2 <= k + 1 && x == #[trigger] path_prefix(ps[i as int], k2) by {
                    if now.contains(x) && x != cand {
                        let j = choose|j: int| 0 <= j < now.len() && now[j] == x;
                        if j < before.len() {
                            assert(before[j] == x);
                            assert(before.contains(x));
                        }
                    }
                    if before.contains(x) {
                        let j = choose|j: int| 0 <= j < before.len() && before[j] == x;
                        assert(now[j] == x);
                    }
                    if exists|k2: int| 1 <= k2 <= k + 1 && x == #[trigger] path_prefix(ps[i as int], k2) {
                        let k2 = choose|k2: int| 1 <= k2 <= k + 1 && x == #[trigger] path_prefix(ps[i as int], k2);
                        if k2 <= k {
                            assert(before.contains(x));
                            let j = choose|j: int| 0 <= j < before.len() && before[j] == x;
                            assert(now[j] == x);
                        }
                    }
                }
            }
            if k + 1 < parts.len() {
                let mut next: Vec<char> = Vec::new();
                next.extend_from_slice(parts[k + 1].as_slice());
                assert(next@ == pv[k + 1]);
                let ghost pre = prefix@.map_values(|p: Vec<char>| p@);
                assert(pre == pv.subrange(0, k + 1));
                prefix.push(next);
                assert(prefix@.map_values(|p: Vec<char>| p@) =~= pv.subrange(0, k + 2));
            }
            k = k + 1;
        }
        proof {
            assert forall|x: Seq<char>| #[trigger] path_views(r@).contains(x) <==> exists|i2: int, k2: int|
                0 <= i2 < i + 1 && 1 <= k2 <= split_on(ps[i2], '/').len() && x == #[trigger] path_prefix(ps[i2], k2) by {
                if exists|i2: int, k2: int| 0 <= i2 < i + 1 && 1 <= k2 <= split_on(ps[i2], '/').len() && x == #[trigger] path_prefix(ps[i2], k2) {
                    let (i2, k2) = choose|i2: int, k2: int| 0 <= i2 < i + 1 && 1 <= k2 <= split_on(ps[i2], '/').len() && x == #[trigger] path_prefix(ps[i2], k2);
                    if i2 == i {
                        assert(1 <= k2 <= k);
                    }
                }
            }
        }
        i = i + 1;
    }
    r
}

} // verus!
