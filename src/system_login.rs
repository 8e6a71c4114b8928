//! Registry credentials given on the kernel command line as
//! `dockerlogin="host,user,pass;host2,user2,pass2"`.

use vstd::prelude::*;
use crate::client::LoginCredentials;
use crate::maps::KeyedMap;
use crate::text::{chars_of, concat_str, split_chars, split_on, string_of};

verus! {

/// The characters that Unicode calls white space.
pub open spec fn is_ws(c: char) -> bool {
    ('\u{9}' <= c && c <= '\u{d}') || c == ' ' || c == '\u{85}' || c == '\u{a0}' || c == '\u{1680}'
        || ('\u{2000}' <= c && c <= '\u{200a}') || c == '\u{2028}' || c == '\u{2029}' || c == '\u{202f}'
        || c == '\u{205f}' || c == '\u{3000}'
}

fn is_ws_exec(c: char) -> (r: bool)
    ensures
        r == is_ws(c),
{
    ('\u{9}' <= c && c <= '\u{d}') || c == ' ' || c == '\u{85}' || c == '\u{a0}' || c == '\u{1680}'
        || ('\u{2000}' <= c && c <= '\u{200a}') || c == '\u{2028}' || c == '\u{2029}' || c == '\u{202f}'
        || c == '\u{205f}' || c == '\u{3000}'
}

/// The white-space separated words of `s`, as `str::split_whitespace`
/// gives them.
pub open spec fn words(s: Seq<char>) -> Seq<Seq<char>>
    decreases s.len(),
{
    if s.len() == 0 {
        Seq::<Seq<char>>::empty()
    } else if is_ws(s.last()) {
        words(s.drop_last())
    } else if s.len() >= 2 && !is_ws(s[s.len() - 2]) {
        let w = words(s.drop_last());
        w.update(w.len() - 1, w.last().push(s.last()))
    } else {
        words(s.drop_last()).push(seq![s.last()])
    }
}

/// Which characters a trim removes.
#[derive(Clone, Copy, PartialEq, Eq, Structural)]
pub enum TrimKind {
    Whitespace,
    Quote,
}

pub open spec fn in_trim_set(k: TrimKind, c: char) -> bool {
    match k {
        TrimKind::Whitespace => is_ws(c),
        TrimKind::Quote => c == '"',
    }
}

pub open spec fn trim_start_by(s: Seq<char>, k: TrimKind) -> Seq<char>
    decreases s.len(),
{
    if s.len() > 0 && in_trim_set(k, s[0]) {
        trim_start_by(s.drop_first(), k)
    } else {
        s
    }
}

pub open spec fn trim_end_by(s: Seq<char>, k: TrimKind) -> Seq<char>
    decreases s.len(),
{
    if s.len() > 0 && in_trim_set(k, s.last()) {
        trim_end_by(s.drop_last(), k)
    } else {
        s
    }
}

/// `s` without the leading and trailing characters of the kind.
pub open spec fn trim_by(s: Seq<char>, k: TrimKind) -> Seq<char> {
    trim_end_by(trim_start_by(s, k), k)
}

fn in_set_exec(k: TrimKind, c: char) -> (r: bool)
    ensures
        r == in_trim_set(k, c),
{
    match k {
        TrimKind::Whitespace => is_ws_exec(c),
        TrimKind::Quote => c == '"',
    }
}

/// `s` without the leading and trailing characters of the kind.
pub fn trim_chars(s: &[char], k: TrimKind) -> (r: Vec<char>)
    ensures
        r@ == trim_by(s@, k),
{
    let n = s.len();
    let mut i: usize = 0;
    assert(s@.subrange(0, n as int) =~= s@);
    while i < n && in_set_exec(k, s[i])
        invariant
            n == s@.len(),
            i <= n,
            trim_start_by(s@, k) == trim_start_by(s@.subrange(i as int, n as int), k),
        decreases n - i,
    {
        assert(s@.subrange(i as int, n as int).drop_first() =~= s@.subrange(i + 1, n as int));
        i = i + 1;
    }
    let ghost start = s@.subrange(i as int, n as int);
    assert(trim_start_by(s@, k) == start);
    let mut j: usize = n;
    while j > i && in_set_exec(k, s[j - 1])
        invariant
            i <= j <= n,
            n == s@.len(),
            start == s@.subrange(i as int, n as int),
            trim_end_by(start, k) == trim_end_by(s@.subrange(i as int, j as int), k),
        decreases j - i,
    {
        assert(s@.subrange(i as int, j as int).drop_last() =~= s@.subrange(i as int, j - 1));
        j = j - 1;
    }
    let mut r: Vec<char> = Vec::new();
    let mut t: usize = i;
    while t < j
        invariant
            i <= t <= j,
            j <= n,
            n == s@.len(),
            r@ == s@.subrange(i as int, t as int),
        decreases j - t,
    {
        r.push(s[t]);
        t = t + 1;
        assert(r@ =~= s@.subrange(i as int, t as int));
    }
    r
}

/// The words of `s`.
pub fn split_words(s: &[char]) -> (r: Vec<Vec<char>>)
    ensures
        r@.len() == words(s@).len(),
        forall|j: int| 0 <= j < r@.len() ==> #[trigger] r@[j]@ == words(s@)[j],
{
    let mut pieces: Vec<Vec<char>> = Vec::new();
    let mut i: usize = 0;
    let mut in_word = false;
    assert(s@.subrange(0, 0) =~= Seq::<char>::empty());
    while i < s.len()
        invariant
            i <= s@.len(),
            pieces@.len() == words(s@.subrange(0, i as int)).len(),
            forall|j: int| 0 <= j < pieces@.len() ==> #[trigger] pieces@[j]@ == words(s@.subrange(0, i as int))[j],
            in_word == (i > 0 && !is_ws(s@[i - 1])),
            in_word ==> pieces@.len() > 0,
        decreases s@.len() - i,
    {
        let ghost prev = s@.subrange(0, i as int);
        let ghost next = s@.subrange(0, i + 1);
        assert(next.drop_last() =~= prev);
        assert(next.last() == s@[i as int]);
        if i > 0 {
            assert(next[next.len() - 2] == s@[i - 1]);
        }
        let c = s[i];
        if is_ws_exec(c) {
            in_word = false;
        } else if in_word {
            let mut last = pieces.pop().unwrap();
            last.push(c);
            pieces.push(last);
        } else {
            let mut w: Vec<char> = Vec::new();
            w.push(c);
            pieces.push(w);
            assert(pieces@.last()@ =~= seq![c]);
            in_word = true;
        }
        i = i + 1;
        assert forall|j: int| 0 <= j < pieces@.len() implies #[trigger] pieces@[j]@ == words(s@.subrange(0, i as int))[j] by {}
    }
    assert(s@.subrange(0, s@.len() as int) =~= s@);
    pieces
}

pub open spec fn starts_with_seq(s: Seq<char>, p: Seq<char>) -> bool {
    s.len() >= p.len() && s.subrange(0, p.len() as int) == p
}

fn starts_with_chars(s: &Vec<char>, p: &str) -> (r: bool)
    ensures
        r == starts_with_seq(s@, p@),
{
    let pc = chars_of(p);
    if pc.len() > s.len() {
        return false;
    }
    let mut i: usize = 0;
    while i < pc.len()
        invariant
            pc@ == p@,
            pc@.len() <= s@.len(),
            i <= pc@.len(),
            forall|j: int| 0 <= j < i ==> s@[j] == pc@[j],
        decreases pc@.len() - i,
    {
        if s[i] != pc[i] {
            assert(s@.subrange(0, pc@.len() as int)[i as int] != pc@[i as int]);
            return false;
        }
        i = i + 1;
    }
    assert(s@.subrange(0, pc@.len() as int) =~= pc@);
    true
}

/// The registry and credentials of one `host,user,pass` (or `user,pass`,
/// for Docker Hub) entry; `None` for an entry of another shape.
pub open spec fn credential_entry(entry: Seq<char>) -> Option<(Seq<char>, (Seq<char>, Seq<char>))> {
    let fields = split_on(entry, ',');
    if fields.len() == 3 {
        let host = trim_by(trim_by(fields[0], TrimKind::Whitespace), TrimKind::Quote);
        let url = if starts_with_seq(host, "https://"@) || starts_with_seq(host, "http://"@) {
            host
        } else {
            "https://"@ + host
        };
        Some((url, (trim_by(fields[1], TrimKind::Whitespace), trim_by(fields[2], TrimKind::Whitespace))))
    } else if fields.len() == 2 {
        Some(("https://registry-1.docker.io"@, (trim_by(fields[0], TrimKind::Whitespace), trim_by(fields[1], TrimKind::Whitespace))))
    } else {
        None
    }
}

/// `m` with the credentials of each non-blank entry stored in order.
pub open spec fn with_entries(m: Map<Seq<char>, (Seq<char>, Seq<char>)>, entries: Seq<Seq<char>>) -> Map<Seq<char>, (Seq<char>, Seq<char>)>
    decreases entries.len(),
{
    if entries.len() == 0 {
        m
    } else {
        let before = with_entries(m, entries.drop_last());
        let e = entries.last();
        if trim_by(e, TrimKind::Whitespace).len() == 0 {
            before
        } else {
            match credential_entry(e) {
                Some((host, creds)) => before.insert(host, creds),
                None => before,
            }
        }
    }
}

/// `m` with the credentials of every `dockerlogin=` word stored in order.
pub open spec fn with_words(m: Map<Seq<char>, (Seq<char>, Seq<char>)>, ws: Seq<Seq<char>>) -> Map<Seq<char>, (Seq<char>, Seq<char>)>
    decreases ws.len(),
{
    if ws.len() == 0 {
        m
    } else {
        let before = with_words(m, ws.drop_last());
        let w = ws.last();
        if starts_with_seq(w, "dockerlogin="@) {
            with_entries(before, split_on(trim_by(w.subrange(12, w.len() as int), TrimKind::Quote), ';'))
        } else {
            before
        }
    }
}

/// The credentials that a kernel command line gives.
pub open spec fn kernel_credentials(cmdline: Seq<char>) -> Map<Seq<char>, (Seq<char>, Seq<char>)> {
    with_words(Map::empty(), words(cmdline))
}

fn add_entry(creds: &mut KeyedMap<LoginCredentials>, entry: &Vec<char>)
    ensures
        final(creds)@ == with_entries(old(creds)@, seq![entry@]),
{
    assert(seq![entry@].drop_last() =~= Seq::<Seq<char>>::empty());
    assert(with_entries(old(creds)@, Seq::<Seq<char>>::empty()) == old(creds)@);
    assert(seq![entry@].last() == entry@);
    let blank = trim_chars(entry.as_slice(), TrimKind::Whitespace);
    if blank.len() == 0 {
        return;
    }
    let fields = split_chars(entry.as_slice(), ',');
    if fields.len() == 3 {
        let host0 = trim_chars(fields[0].as_slice(), TrimKind::Whitespace);
        let host1 = trim_chars(host0.as_slice(), TrimKind::Quote);
        let host = string_of(host1.as_slice());
        let url = if starts_with_chars(&host1, "https://") || starts_with_chars(&host1, "http://") {
            host
        } else {
            concat_str("https://", host.as_str())
        };
        let username = string_of(trim_chars(fields[1].as_slice(), TrimKind::Whitespace).as_slice());
        let password = string_of(trim_chars(fields[2].as_slice(), TrimKind::Whitespace).as_slice());
        creds.insert(url, LoginCredentials { username, password });
    } else if fields.len() == 2 {
        let username = string_of(trim_chars(fields[0].as_slice(), TrimKind::Whitespace).as_slice());
        let password = string_of(trim_chars(fields[1].as_slice(), TrimKind::Whitespace).as_slice());
        creds.insert(String::from_str("https://registry-1.docker.io"), LoginCredentials { username, password });
    }
}

proof fn lemma_with_entries_push(m: Map<Seq<char>, (Seq<char>, Seq<char>)>, es: Seq<Seq<char>>, e: Seq<char>)
    ensures
        with_entries(m, es.push(e)) == with_entries(with_entries(m, es), seq![e]),
{
    assert(es.push(e).drop_last() =~= es);
    assert(seq![e].drop_last() =~= Seq::<Seq<char>>::empty());
    assert(with_entries(with_entries(m, es), Seq::<Seq<char>>::empty()) == with_entries(m, es));
    assert(seq![e].last() == e);
    assert(es.push(e).last() == e);
}

/// Parses the kernel command line and collects the registry credentials
/// that its `dockerlogin=` words give, keyed by registry URL.
pub fn parse_kernel_cmdline(cmdline: &str) -> (r: KeyedMap<LoginCredentials>)
    ensures
        r@ == kernel_credentials(cmdline@),
{
    let cs = chars_of(cmdline);
    let ws = split_words(cs.as_slice());
    let ghost wv = ws@.map_values(|w: Vec<char>| w@);
    assert(wv =~= words(cmdline@));
    let mut creds: KeyedMap<LoginCredentials> = KeyedMap::new();
    let mut i: usize = 0;
    while i < ws.len()
        invariant
            i <= ws@.len(),
            wv == ws@.map_values(|w: Vec<char>| w@),
            creds@ == with_words(Map::empty(), wv.subrange(0, i as int)),
        decreases ws@.len() - i,
    {
        let w = &ws[i];
        let ghost sub = wv.subrange(0, i + 1);
        assert(sub.drop_last() =~= wv.subrange(0, i as int));
        assert(sub.last() == w@);
        if starts_with_chars(w, "dockerlogin=") {
            proof {
                reveal_strlit("dockerlogin=");
            }
            let mut rest: Vec<char> = Vec::new();
            let mut k: usize = 12;
            while k < w.len()
                invariant
                    12 <= k <= w@.len(),
                    rest@ == w@.subrange(12, k as int),
                decreases w@.len() - k,
            {
                rest.push(w[k]);
                k = k + 1;
                assert(rest@ =~= w@.subrange(12, k as int));
            }
            let unquoted = trim_chars(rest.as_slice(), TrimKind::Quote);
            let entries = split_chars(unquoted.as_slice(), ';');
            let ghost ev = entries@.map_values(|e: Vec<char>| e@);
            assert(ev =~= split_on(unquoted@, ';'));
            let ghost base = creds@;
            let mut j: usize = 0;
            assert(ev.subrange(0, 0) =~= Seq::<Seq<char>>::empty());
            while j < entries.len()
                invariant
                    j <= entries@.len(),
                    ev == entries@.map_values(|e: Vec<char>| e@),
                    creds@ == with_entries(base, ev.subrange(0, j as int)),
                decreases entries@.len() - j,
            {
                proof {
                    lemma_with_entries_push(base, ev.subrange(0, j as int), ev[j as int]);
                    assert(ev.subrange(0, j as int).push(ev[j as int]) =~= ev.subrange(0, j + 1));
                }
                add_entry(&mut creds, &entries[j]);
                j = j + 1;
            }
            assert(ev.subrange(0, j as int) =~= ev);
        }
        i = i + 1;
    }
    assert(wv.subrange(0, i as int) =~= wv);
    creds
}

} // verus!
