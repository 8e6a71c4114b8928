use ocitool::client::ImagePermissions;
use ocitool::enums::{PlatformArchitecture, PlatformOS};
use ocitool::execution::{build_layer, digest_as_is, image_config_for, required_permissions, Layer};
use ocitool::image_config::Config;
use ocitool::maps::{KeyedMap, StringMap};
use ocitool::plan::{merge_image_plan_configs, ImagePlan, ImagePlanConfig, ImagePlanLayer, ImagePlanLayerType, ImagePlanPlatform};
use ocitool::runner::OciRunner;
use ocitool::walk::file_passes_filters;
use ocitool::whiteout::{layered_tree, with_parent_dirs};

fn empty_config() -> ImagePlanConfig {
    ImagePlanConfig {
        user: None,
        exposed_ports: None,
        env: None,
        entrypoint: None,
        cmd: None,
        volumes: None,
        working_dir: None,
        labels: None,
        stop_signal: None,
        args_escaped: None,
        memory: None,
        memory_swap: None,
        cpu_shares: None,
        healthcheck: None,
    }
}

fn labels(pairs: &[(&str, &str)]) -> StringMap {
    let mut m = KeyedMap::new();
    for (k, v) in pairs {
        m.insert(k.to_string(), v.to_string());
    }
    m
}

fn layer(t: ImagePlanLayerType, source: &str) -> ImagePlanLayer {
    ImagePlanLayer { layer_type: t, source: source.to_string(), comment: "c".to_string(), whitelist: None, blacklist: None }
}

#[test]
fn platform_config_overrides_plan_config() {
    let mut top = empty_config();
    top.user = Some("root".to_string());
    top.cmd = Some(vec!["sh".to_string()]);
    top.memory = Some(10);
    top.labels = Some(labels(&[("a", "1"), ("b", "2")]));
    let mut pl = empty_config();
    pl.user = Some("app".to_string());
    pl.labels = Some(labels(&[("b", "3"), ("c", "4")]));
    let merged = merge_image_plan_configs(&Some(top), &Some(pl)).unwrap();
    assert_eq!(merged.user.as_deref(), Some("app"));
    assert_eq!(merged.cmd.clone().unwrap(), vec!["sh".to_string()]);
    assert_eq!(merged.memory, Some(10));
    let l = merged.labels.as_ref().unwrap();
    assert_eq!(l.len(), 3);
    assert_eq!(l.get("a").unwrap(), "1");
    assert_eq!(l.get("b").unwrap(), "3");
    assert_eq!(l.get("c").unwrap(), "4");
}

#[test]
fn merging_twice_equals_merging_once() {
    let mut top = empty_config();
    top.env = Some(vec!["A=1".to_string()]);
    top.labels = Some(labels(&[("a", "1")]));
    let mut pl = empty_config();
    pl.labels = Some(labels(&[("a", "2")]));
    pl.working_dir = Some("/w".to_string());
    let once: Config = merge_image_plan_configs(&Some(top), &Some(pl)).unwrap();
    let mut top2 = empty_config();
    top2.env = Some(vec!["A=1".to_string()]);
    top2.labels = Some(labels(&[("a", "1")]));
    let again_input = ImagePlanConfig {
        user: once.user.clone(),
        exposed_ports: None,
        env: once.env.clone(),
        entrypoint: None,
        cmd: None,
        volumes: None,
        working_dir: once.working_dir.clone(),
        labels: Some(labels(&[("a", "2")])),
        stop_signal: None,
        args_escaped: None,
        memory: None,
        memory_swap: None,
        cpu_shares: None,
        healthcheck: None,
    };
    let twice = merge_image_plan_configs(&Some(top2), &Some(again_input)).unwrap();
    assert_eq!(twice.env, once.env);
    assert_eq!(twice.working_dir, once.working_dir);
    assert_eq!(twice.labels.unwrap().get("a").unwrap(), "2");
    assert!(merge_image_plan_configs(&None, &None).is_none());
    let only_top = merge_image_plan_configs(&Some(empty_config()), &None).unwrap();
    assert!(only_top.user.is_none());
}

#[test]
fn plan_permissions_and_config() {
    let plan = ImagePlan {
        name: "example.com/x".to_string(),
        tags: vec!["latest".to_string()],
        platforms: vec![ImagePlanPlatform {
            architecture: PlatformArchitecture::Amd64,
            variant: None,
            config: None,
            layers: vec![layer(ImagePlanLayerType::Directory, "./root"), layer(ImagePlanLayerType::Image, "alpine:3.19")],
        }],
        config: None,
    };
    let ps = required_permissions(&plan);
    assert_eq!(ps.len(), 2);
    assert_eq!(ps[0].permissions, ImagePermissions::Push);
    assert_eq!(ps[0].full_image.library_name, "example.com/x");
    assert_eq!(ps[1].permissions, ImagePermissions::Pull);
    assert_eq!(ps[1].full_image.library_name, "library/alpine");
    let data = b"tar".to_vec();
    let (_, l): (_, Layer) = build_layer(data.clone(), digest_as_is(&data), "fs");
    let cfg = image_config_for(&plan, &plan.platforms[0], &vec![l], "2024-01-01T00:00:00Z");
    assert_eq!(cfg.os, PlatformOS::Linux);
    assert_eq!(cfg.rootfs.fs_type, "layers");
    assert_eq!(cfg.rootfs.diff_ids, vec![ocitool::digest::sha256_digest(&data)]);
    assert_eq!(cfg.history.unwrap().len(), 1);
    assert!(cfg.config.is_none());
}

#[test]
fn whiteout_removes_lower_file() {
    let lower = vec!["a".to_string(), "a/b".to_string(), "a/b/c".to_string(), "a/d".to_string()];
    let upper = vec!["a".to_string(), "a/b".to_string(), "a/b/.wh.c".to_string()];
    let tree = layered_tree(&lower, &upper);
    assert!(tree.contains(&"a/b".to_string()));
    assert!(tree.contains(&"a/d".to_string()));
    assert!(!tree.contains(&"a/b/c".to_string()));
    assert!(!tree.contains(&"a/b/.wh.c".to_string()));
}

#[test]
fn whiteout_of_directory_and_opaque_marker() {
    let lower = vec!["foo".to_string(), "foo/x".to_string(), "d".to_string(), "d/old".to_string(), "keep".to_string()];
    let upper = vec![".wh.foo".to_string(), "d".to_string(), "d/.wh..wh..opq".to_string(), "d/new".to_string()];
    let tree = layered_tree(&lower, &upper);
    assert_eq!(tree, vec!["keep".to_string(), "d".to_string(), "d/new".to_string()]);
}

#[test]
fn directory_layer_filters() {
    let white = vec!["\\.conf$".to_string()];
    let black = vec!["^secret".to_string()];
    assert!(file_passes_filters("app.conf", &white, &black).unwrap());
    assert!(!file_passes_filters("app.txt", &white, &black).unwrap());
    assert!(!file_passes_filters("secret.conf", &white, &black).unwrap());
    assert!(file_passes_filters("anything", &vec![], &vec![]).unwrap());
    assert!(file_passes_filters("x", &vec!["(".to_string()], &vec![]).is_err());
}

#[test]
fn runner_arguments() {
    let mut c = empty_config().to_config();
    c.working_dir = Some("/srv".to_string());
    c.entrypoint = Some(vec!["/bin/sh".to_string(), "-c".to_string()]);
    c.cmd = Some(vec!["echo hi".to_string()]);
    let cfg = Some(c);
    let r = OciRunner::new("/tmp/root", &cfg, vec!["/h:/g".to_string()], None, Some("ls  -l".to_string()), None, true, false);
    let args = r.tool_args().unwrap();
    assert_eq!(
        args,
        vec!["-r", "/tmp/root", "-b", "/dev:/dev", "-b", "/proc:/proc", "-b", "/sys:/sys", "-b", "/h:/g", "-w", "/srv", "/bin/sh", "-c", "ls", "-l"]
    );
    let bad = OciRunner::new("/tmp/root", &cfg, vec!["nocolon".to_string()], None, None, None, false, false);
    assert!(bad.tool_args().is_err());
}

#[test]
fn layer_entries_imply_their_directories() {
    let entries = vec!["a/b/c".to_string(), "a/d".to_string(), "e".to_string()];
    let all = with_parent_dirs(&entries);
    assert_eq!(all, vec!["a", "a/b", "a/b/c", "a/d", "e"]);
    let lower = vec!["a".to_string(), "a/b".to_string(), "a/b/c".to_string()];
    let upper = with_parent_dirs(&vec!["a/b/.wh.c".to_string()]);
    let tree = layered_tree(&lower, &upper);
    assert_eq!(tree, vec!["a", "a/b"]);
}
