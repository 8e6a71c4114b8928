//! The arguments of the rootfs-chroot tool that runs an extracted image.

use vstd::prelude::*;
use crate::image_config::{opt_str, Config, ConfigModel};
use crate::system_login::{split_words, words};
use crate::text::{chars_of, split_chars, split_on};

verus! {

/// A run of an extracted image.
#[derive(Debug)]
pub struct OciRunner<'a> {
    dir: &'a str,
    config: &'a Option<Config>,
    volumes: Vec<String>,
    entrypoint: Option<String>,
    cmd: Option<String>,
    workdir: Option<String>,
    mount_system: bool,
    ensure_dns: bool,
}

/// A volume is not written `host:guest`.
#[derive(Debug)]
pub struct OciRunnerError(pub String);

pub open spec fn opt_model(c: Option<Config>) -> Option<ConfigModel> {
    match c {
        Some(c) => Some(c@),
        None => None,
    }
}

/// `-b <volume>` for each volume, if every one is `host:guest`.
pub open spec fn volume_args(vs: Seq<Seq<char>>) -> Option<Seq<Seq<char>>>
    decreases vs.len(),
{
    if vs.len() == 0 {
        Some(Seq::empty())
    } else {
        match volume_args(vs.drop_last()) {
            Some(a) => if split_on(vs.last(), ':').len() == 2 {
                Some(a.push("-b"@).push(vs.last()))
            } else {
                None
            },
            None => None,
        }
    }
}

pub open spec fn bind_args(mount_system: bool) -> Seq<Seq<char>> {
    if mount_system {
        seq!["-b"@, "/dev:/dev"@, "-b"@, "/proc:/proc"@, "-b"@, "/sys:/sys"@]
    } else {
        Seq::empty()
    }
}

pub open spec fn workdir_args(workdir: Option<Seq<char>>, config: Option<ConfigModel>) -> Seq<Seq<char>> {
    match workdir {
        Some(w) => seq!["-w"@, w],
        None => match config {
            Some(c) => match c.working_dir {
                Some(w) => seq!["-w"@, w],
                None => Seq::empty(),
            },
            None => Seq::empty(),
        },
    }
}

pub open spec fn entrypoint_args(entrypoint: Option<Seq<char>>, config: Option<ConfigModel>) -> Seq<Seq<char>> {
    match entrypoint {
        Some(e) => seq![e],
        None => match config {
            Some(c) => match c.entrypoint {
                Some(l) => l,
                None => Seq::empty(),
            },
            None => Seq::empty(),
        },
    }
}

pub open spec fn cmd_args(cmd: Option<Seq<char>>, config: Option<ConfigModel>) -> Seq<Seq<char>> {
    match cmd {
        Some(c) => words(c),
        None => match config {
            Some(c) => match c.cmd {
                Some(l) => l,
                None => Seq::empty(),
            },
            None => Seq::empty(),
        },
    }
}

/// The tool's arguments: the root, the system binds, the volumes, the
/// working directory, then the entry point and command (given ones first,
/// else the image configuration's). `None` when a volume is malformed.
pub open spec fn runner_args(
    dir: Seq<char>,
    mount_system: bool,
    volumes: Seq<Seq<char>>,
    workdir: Option<Seq<char>>,
    entrypoint: Option<Seq<char>>,
    cmd: Option<Seq<char>>,
    config: Option<ConfigModel>,
) -> Option<Seq<Seq<char>>> {
    match volume_args(volumes) {
        None => None,
        Some(vargs) => {
            Some(seq!["-r"@, dir] + bind_args(mount_system) + vargs + workdir_args(workdir, config)
                + entrypoint_args(entrypoint, config) + cmd_args(cmd, config))
        },
    }
}

fn push_str(v: &mut Vec<String>, s: &str)
    ensures
        final(v).deep_view() == old(v).deep_view().push(s@),
{
    let ghost before = v.deep_view();
    v.push(String::from_str(s));
    assert(v.deep_view() =~= before.push(s@));
}

fn append_strings(v: &mut Vec<String>, more: &Vec<String>)
    ensures
        final(v).deep_view() == old(v).deep_view() + more.deep_view(),
{
    let ghost start = v.deep_view();
    let mut i: usize = 0;
    while i < more.len()
        invariant
            i <= more@.len(),
            v.deep_view() == start + more.deep_view().subrange(0, i as int),
        decreases more@.len() - i,
    {
        let ghost before = v.deep_view();
        v.push(more[i].clone());
        assert(v.deep_view() =~= before.push(more@[i as int]@));
        assert(more.deep_view().subrange(0, i + 1) =~= more.deep_view().subrange(0, i as int).push(more@[i as int]@));
        assert(v.deep_view() =~= start + more.deep_view().subrange(0, i + 1));
        i = i + 1;
    }
    assert(more.deep_view().subrange(0, i as int) =~= more.deep_view());
}

impl<'a> OciRunner<'a> {
    /// A run of the image extracted into `dir`, with its configuration.
    pub fn new(
        dir: &'a str,
        config: &'a Option<Config>,
        volumes: Vec<String>,
        entrypoint: Option<String>,
        cmd: Option<String>,
        workdir: Option<String>,
        mount_system: bool,
        ensure_dns: bool,
    ) -> (r: Self)
        ensures
            r.dir_spec() == dir@,
            r.volumes_spec() == volumes.deep_view(),
            r.ensure_dns_spec() == ensure_dns,
            r.args_spec() == runner_args(
                dir@,
                mount_system,
                volumes.deep_view(),
                opt_str(workdir),
                opt_str(entrypoint),
                opt_str(cmd),
                opt_model(*config),
            ),
    {
        OciRunner { dir, config, volumes, entrypoint, cmd, workdir, mount_system, ensure_dns }
    }

    pub closed spec fn dir_spec(&self) -> Seq<char> {
        self.dir@
    }

    pub closed spec fn volumes_spec(&self) -> Seq<Seq<char>> {
        self.volumes.deep_view()
    }

    pub closed spec fn ensure_dns_spec(&self) -> bool {
        self.ensure_dns
    }

    pub closed spec fn args_spec(&self) -> Option<Seq<Seq<char>>> {
        runner_args(
            self.dir@,
            self.mount_system,
            self.volumes.deep_view(),
            opt_str(self.workdir),
            opt_str(self.entrypoint),
            opt_str(self.cmd),
            opt_model(*self.config),
        )
    }

    /// The directory the image was extracted into.
    pub fn dir(&self) -> (r: &str)
        ensures
            r@ == self.dir_spec(),
    {
        self.dir
    }

    /// Whether the run needs a resolver configuration written first.
    pub fn ensure_dns(&self) -> (r: bool)
        ensures
            r == self.ensure_dns_spec(),
    {
        self.ensure_dns
    }

    fn volume_arguments(&self) -> (r: Result<Vec<String>, OciRunnerError>)
        ensures
            match volume_args(self.volumes.deep_view()) {
                Some(a) => r is Ok && r->Ok_0.deep_view() == a,
                None => r is Err,
            },
    {
        let ghost vs = self.volumes.deep_view();
        let mut vargs: Vec<String> = Vec::new();
        let mut i: usize = 0;
        assert(vs.subrange(0, 0) =~= Seq::<Seq<char>>::empty());
        while i < self.volumes.len()
            invariant
                i <= self.volumes@.len(),
                vs == self.volumes.deep_view(),
                volume_args(vs.subrange(0, i as int)) == Some(vargs.deep_view()),
            decreases self.volumes@.len() - i,
        {
            let v = &self.volumes[i];
            let cs = chars_of(v.as_str());
            let parts = split_chars(cs.as_slice(), ':');
            let ghost sub = vs.subrange(0, i + 1);
            assert(sub.drop_last() =~= vs.subrange(0, i as int));
            assert(sub.last() == v@);
            if parts.len() != 2 {
                proof {
                    assert(volume_args(sub) is None);
                    lemma_volume_args_none(vs, i + 1);
                }
                return Err(OciRunnerError(crate::text::concat_str("Invalid volume format: ", v.as_str())));
            }
            push_str(&mut vargs, "-b");
            push_str(&mut vargs, v.as_str());
            i = i + 1;
        }
        assert(vs.subrange(0, i as int) =~= vs);
        Ok(vargs)
    }

    fn workdir_arguments(&self, args: &mut Vec<String>)
        ensures
            final(args).deep_view() == old(args).deep_view() + workdir_args(opt_str(self.workdir), opt_model(*self.config)),
    {
        let ghost start = args.deep_view();
        match &self.workdir {
            Some(w) => {
                push_str(args, "-w");
                push_str(args, w.as_str());
            },
            None => match self.config {
                Some(c) => match &c.working_dir {
                    Some(w) => {
                        push_str(args, "-w");
                        push_str(args, w.as_str());
                    },
                    None => {},
                },
                None => {},
            },
        }
        assert(args.deep_view() =~= start + workdir_args(opt_str(self.workdir), opt_model(*self.config)));
    }

    fn entrypoint_arguments(&self, args: &mut Vec<String>)
        ensures
            final(args).deep_view() == old(args).deep_view() + entrypoint_args(opt_str(self.entrypoint), opt_model(*self.config)),
    {
        let ghost start = args.deep_view();
        match &self.entrypoint {
            Some(e) => push_str(args, e.as_str()),
            None => match self.config {
                Some(c) => match &c.entrypoint {
                    Some(l) => append_strings(args, l),
                    None => {},
                },
                None => {},
            },
        }
        assert(args.deep_view() =~= start + entrypoint_args(opt_str(self.entrypoint), opt_model(*self.config)));
    }

    fn cmd_arguments(&self, args: &mut Vec<String>)
        ensures
            final(args).deep_view() == old(args).deep_view() + cmd_args(opt_str(self.cmd), opt_model(*self.config)),
    {
        let ghost start = args.deep_view();
        match &self.cmd {
            Some(c) => {
                let cs = chars_of(c.as_str());
                let ws = split_words(cs.as_slice());
                let ghost wv = ws@.map_values(|w: Vec<char>| w@);
                assert(wv =~= words(c@));
                let mut list: Vec<String> = Vec::new();
                let mut k: usize = 0;
                while k < ws.len()
                    invariant
                        k <= ws@.len(),
                        wv == ws@.map_values(|w: Vec<char>| w@),
                        list.deep_view() == wv.subrange(0, k as int),
                    decreases ws@.len() - k,
                {
                    let ghost before = list.deep_view();
                    list.push(crate::text::string_of(ws[k].as_slice()));
                    assert(list.deep_view() =~= before.push(wv[k as int]));
                    assert(wv.subrange(0, k + 1) =~= wv.subrange(0, k as int).push(wv[k as int]));
                    k = k + 1;
                }
                assert(wv.subrange(0, k as int) =~= wv);
                append_strings(args, &list);
            },
            None => match self.config {
                Some(c) => match &c.cmd {
                    Some(l) => append_strings(args, l),
                    None => {},
                },
                None => {},
            },
        }
        assert(args.deep_view() =~= start + cmd_args(opt_str(self.cmd), opt_model(*self.config)));
    }

    /// The arguments to run the tool with.
    pub fn tool_args(&self) -> (r: Result<Vec<String>, OciRunnerError>)
        ensures
            match self.args_spec() {
                Some(a) => r is Ok && r->Ok_0.deep_view() == a,
                None => r is Err,
            },
    {
        let vargs = match self.volume_arguments() {
            Ok(v) => v,
            Err(e) => return Err(e),
        };
        let mut args: Vec<String> = Vec::new();
        push_str(&mut args, "-r");
        push_str(&mut args, self.dir);
        let ghost root = args.deep_view();
        assert(root =~= seq!["-r"@, self.dir@]);
        if self.mount_system {
            push_str(&mut args, "-b");
            push_str(&mut args, "/dev:/dev");
            push_str(&mut args, "-b");
            push_str(&mut args, "/proc:/proc");
            push_str(&mut args, "-b");
            push_str(&mut args, "/sys:/sys");
        }
        assert(args.deep_view() =~= root + bind_args(self.mount_system));
        append_strings(&mut args, &vargs);
        self.workdir_arguments(&mut args);
        self.entrypoint_arguments(&mut args);
        self.cmd_arguments(&mut args);
        Ok(args)
    }
}

proof fn lemma_volume_args_none(vs: Seq<Seq<char>>, n: int)
    requires
        0 <= n <= vs.len(),
        volume_args(vs.subrange(0, n)) is None,
    ensures
        volume_args(vs) is None,
    decreases vs.len() - n,
{
    if n < vs.len() {
        let sub = vs.subrange(0, n + 1);
        assert(sub.drop_last() =~= vs.subrange(0, n));
        lemma_volume_args_none(vs, n + 1);
    } else {
        assert(vs.subrange(0, n) =~= vs);
    }
}

} // verus!
