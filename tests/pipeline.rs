use ocitool::archive::detect_media_type;
use ocitool::digest::sha256_digest;
use ocitool::enums::{MediaType, PlatformArchitecture, PlatformOS};
use ocitool::execution::{
    blob_of, build_layer, compress_tar, digest_as_is, image_config_for, index_entry, index_for, manifest_for,
    required_permissions, Blob, Layer,
};
use ocitool::parser::FullImage;
use ocitool::plan::ImagePlan;
use ocitool::uploader::{manifest_push_url, OciUploader, PushStep};
use ocitool::index::{ImageIndex, Manifest, Platform};
use ocitool::manifest::{Descriptor, ImageManifest};
use ocitool::parser::FullImageWithTag;
use ocitool::platform::PlatformMatcher;
use ocitool::plan::{ImagePlanLayer, ImagePlanLayerType, ImagePlanPlatform};
use ocitool::pull::{
    config_write, image_name, layer_labels, manifest_write, root_kind, Downloadable, DownloadableConfig, DownloadableIndex, DownloadableManifest,
    IndexResponse, PullState, RootKind,
};
use ocitool::sink::{check_commit, check_write, digest_from_file_name};
use ocitool::streaming::{LayerWriter, CHUNK_SIZE};

fn entry(arch: PlatformArchitecture, digest: &str, size: u64) -> Manifest {
    Manifest {
        media_type: MediaType::OciImageManifestV1Json,
        size,
        digest: digest.to_string(),
        platform: Some(Platform { architecture: arch, os: PlatformOS::Linux, os_version: None, os_features: None, variant: None, features: None }),
    }
}

fn index(entries: Vec<Manifest>) -> ImageIndex {
    ImageIndex { schema_version: 2, media_type: MediaType::OciImageIndexV1Json, artifact_type: None, manifests: entries, annotations: None }
}

fn manifest(config: &str, layers: &[&str]) -> ImageManifest {
    ImageManifest {
        schema_version: 2,
        media_type: MediaType::DockerManifestV2Json,
        artifact_type: None,
        config: Descriptor::new(MediaType::DockerConfigV1Json, config.to_string(), 10),
        layers: layers.iter().map(|d| Descriptor::new(MediaType::DockerImageRootfsDiffTarGzip, d.to_string(), 100)).collect(),
        subject: None,
        annotations: None,
    }
}

#[test]
fn platform_matcher_picks_first_fit() {
    let ms = vec![entry(PlatformArchitecture::Arm64, "sha256:arm", 1), entry(PlatformArchitecture::Amd64, "sha256:amd", 2), entry(PlatformArchitecture::Amd64, "sha256:amd2", 3)];
    let m = PlatformMatcher::for_host("x86_64");
    assert_eq!(m.find_manifest(&ms).unwrap().digest, "sha256:amd");
    assert_eq!(m.find_manifest_index(&ms), Some(1));
    assert!(PlatformMatcher::match_architecture(PlatformArchitecture::S390x).find_manifest(&ms).is_none());
    let mut v = entry(PlatformArchitecture::Arm, "sha256:v7", 1);
    v.platform.as_mut().unwrap().variant = Some("v7".to_string());
    let ms2 = vec![entry(PlatformArchitecture::Arm, "sha256:v6", 1), v];
    let mv = PlatformMatcher::match_architecture_variant(PlatformArchitecture::Arm, "v7".to_string());
    assert_eq!(mv.find_manifest(&ms2).unwrap().digest, "sha256:v7");
    assert_eq!(PlatformMatcher::match_architecture(PlatformArchitecture::Arm).find_manifest(&ms2).unwrap().digest, "sha256:v6");
}

#[test]
fn single_manifest_root_is_accepted() {
    assert_eq!(root_kind(MediaType::DockerManifestV2Json).unwrap(), RootKind::SingleManifest);
    assert_eq!(root_kind(MediaType::OciImageIndexV1Json).unwrap(), RootKind::Index);
    assert_eq!(root_kind(MediaType::DockerManifestListV2Json).unwrap(), RootKind::Index);
    assert!(root_kind(MediaType::OciImageLayerV1Tar).is_err());
}

#[test]
fn pull_of_index_into_empty_store() {
    let img = FullImageWithTag::from_image_name("alpine:3.19");
    let mut st = PullState::new(vec![], &[img.clone()]);
    let item = match st.pop() {
        Some(Downloadable::Index(i)) => i,
        _ => panic!("expected the index"),
    };
    assert!(st.pop().is_none());
    let resp = IndexResponse::ImageIndex(index(vec![entry(PlatformArchitecture::Arm64, "sha256:m1", 5), entry(PlatformArchitecture::Amd64, "sha256:m2", 7)]));
    let acts = st.on_index(&PlatformMatcher::for_host("x86_64"), &item, &resp, "sha256:idx", 300);
    let w = acts.write.unwrap();
    assert_eq!(w.digest, "sha256:idx");
    assert_eq!(w.labels.get("containerd.io/gc.ref.content.m.0").unwrap(), "sha256:m1");
    assert_eq!(w.labels.get("containerd.io/gc.ref.content.m.1").unwrap(), "sha256:m2");
    assert_eq!(w.labels.get("containerd.io/distribution.source.docker.io").unwrap(), "library/alpine");
    assert_eq!(acts.binding.name, "docker.io/library/alpine:3.19");
    assert_eq!(acts.binding.target.media_type, MediaType::OciImageIndexV1Json);
    assert_eq!(acts.binding.target.size, 300);
    assert!(acts.queued);
    assert_eq!(st.total_bytes(), 7);
    let mi = match st.pop() {
        Some(Downloadable::Manifest(m)) => m,
        _ => panic!("expected the manifest"),
    };
    assert_eq!(mi.digest, "sha256:m2");
    let man = manifest("sha256:cfg", &["sha256:l0", "sha256:l1"]);
    let mw = manifest_write(&mi, &man);
    assert_eq!(mw.digest, "sha256:m2");
    assert!(st.queue_config(&mi, &man));
    assert!(!st.queue_config(&mi, &man));
    assert_eq!(mw.labels.get("containerd.io/gc.ref.content.config").unwrap(), "sha256:cfg");
    assert_eq!(mw.labels.get("containerd.io/gc.ref.content.l.1").unwrap(), "sha256:l1");
    assert!(!st.complete("sha256:m2", &img));
    let ci = match st.pop() {
        Some(Downloadable::Config(c)) => c,
        _ => panic!("expected the config"),
    };
    let cw = config_write(&ci);
    assert_eq!(cw.digest, "sha256:cfg");
    assert_eq!(cw.labels.get("containerd.io/distribution.source.docker.io").unwrap(), "library/alpine");
    assert!(st.queue_layers(&ci, &vec!["sha256:d0".to_string()]).is_err());
    assert!(st.queue_layers(&ci, &vec!["sha256:d0".to_string(), "sha256:d1".to_string()]).is_ok());
    assert!(!st.complete("sha256:cfg", &img));
    let mut layers = vec![];
    while let Some(d) = st.pop() {
        match d {
            Downloadable::Layer(l) => layers.push(l),
            _ => panic!("expected layers only"),
        }
    }
    assert_eq!(layers.len(), 2);
    assert_eq!(layers[0].digest, "sha256:l1");
    assert_eq!(layers[0].uncompressed_digest, "sha256:d1");
    assert!(!st.complete("sha256:l1", &img));
    assert!(st.complete("sha256:l0", &img));
    for d in ["sha256:m2", "sha256:cfg", "sha256:l0", "sha256:l1"] {
        assert!(st.is_known(d));
    }
    assert_eq!(st.total_bytes(), 7 + 10 + 200);
    assert_eq!(layer_labels("library/alpine", "sha256:d0").get("containerd.io/uncompressed").unwrap(), "sha256:d0");
}

#[test]
fn second_pull_writes_nothing() {
    let img = FullImageWithTag::from_image_name("alpine:3.19");
    let known = vec!["sha256:idx".to_string(), "sha256:m2".to_string()];
    let mut st = PullState::new(known, &[img.clone()]);
    let item = DownloadableIndex { full_image: img.clone() };
    let resp = IndexResponse::ImageIndex(index(vec![entry(PlatformArchitecture::Amd64, "sha256:m2", 7)]));
    let acts = st.on_index(&PlatformMatcher::for_host("x86_64"), &item, &resp, "sha256:idx", 300);
    assert!(acts.write.is_none());
    assert!(!acts.queued);
    assert_eq!(st.total_bytes(), 0);
}

#[test]
fn single_platform_registry_answer() {
    let img = FullImageWithTag::from_image_name("r.io/team/app:1");
    let mut st = PullState::new(vec![], &[]);
    let item = DownloadableIndex { full_image: img.clone() };
    let resp = IndexResponse::ImageManifest(manifest("sha256:cfg", &["sha256:l0"]));
    let acts = st.on_index(&PlatformMatcher::for_host("x86_64"), &item, &resp, "sha256:man", 50);
    assert!(acts.queued);
    assert_eq!(acts.binding.target.media_type, MediaType::DockerManifestV2Json);
    assert_eq!(acts.write.unwrap().labels.get("containerd.io/gc.ref.content.l.0").unwrap(), "sha256:l0");
    match st.pop() {
        Some(Downloadable::Config(DownloadableConfig { digest, layers, .. })) => {
            assert_eq!(digest, "sha256:cfg");
            assert_eq!(layers.len(), 1);
        }
        _ => panic!("expected the config"),
    }
    let _ = DownloadableManifest { full_image: img.clone(), digest: String::new() };
    assert_eq!(image_name(&img), "docker.io/team/app:1");
}

#[test]
fn no_matching_platform_queues_nothing() {
    let img = FullImageWithTag::from_image_name("alpine");
    let mut st = PullState::new(vec![], &[]);
    let item = DownloadableIndex { full_image: img };
    let resp = IndexResponse::ImageIndex(index(vec![entry(PlatformArchitecture::Arm64, "sha256:m1", 5)]));
    let acts = st.on_index(&PlatformMatcher::for_host("x86_64"), &item, &resp, "sha256:idx", 3);
    assert!(!acts.queued);
    assert!(acts.write.is_some());
    assert!(st.pop().is_none());
}

#[test]
fn empty_layer_streams_as_single_commit() {
    let w = LayerWriter::new("sha256:e".to_string(), 0);
    let mut labels = ocitool::maps::StringMap::new();
    labels.insert("k".to_string(), "v".to_string());
    let (last, commit) = w.finish(labels);
    assert!(last.is_none());
    assert_eq!(commit.offset, 0);
    assert_eq!(commit.total, 0);
    assert_eq!(commit.ref_name, "sha256:e");
    assert_eq!(commit.labels.get("k").unwrap(), "v");
}

#[test]
fn layer_is_cut_into_fixed_chunks() {
    let mut w = LayerWriter::new("sha256:x".to_string(), (CHUNK_SIZE + 5) as u64);
    let first = w.feed(&vec![7u8; CHUNK_SIZE - 3]).unwrap();
    assert!(first.is_empty());
    let second = w.feed(&vec![9u8; 8]).unwrap();
    assert_eq!(second.len(), 1);
    assert_eq!(second[0].offset, 0);
    assert_eq!(second[0].data.len(), CHUNK_SIZE);
    assert_eq!(second[0].data[CHUNK_SIZE - 1], 9);
    assert_eq!(second[0].total, (CHUNK_SIZE + 5) as u64);
    let (last, commit) = w.finish(ocitool::maps::StringMap::new());
    let last = last.unwrap();
    assert_eq!(last.offset, CHUNK_SIZE as u64);
    assert_eq!(last.data, vec![9u8; 5]);
    assert_eq!(commit.offset, (CHUNK_SIZE + 5) as u64);
}

#[test]
fn digests_and_compression() {
    assert_eq!(sha256_digest(&vec![]), "sha256:e3b0c44298fc1c149afbf4c8996fb92427ae41e4649b934ca495991b7852b855");
    let tar = vec![0u8; 1024];
    let (wire, d) = compress_tar(&tar, 19);
    assert_ne!(wire, tar);
    assert_eq!(detect_media_type(&wire).unwrap(), MediaType::OciImageLayerV1TarZstd);
    assert_eq!(d.compressed_digest, sha256_digest(&wire));
    assert_eq!(d.uncompressed_digest, sha256_digest(&tar));
    assert_eq!(zstd::bulk::decompress(&wire, 4096).unwrap(), tar);
    let same = digest_as_is(&tar);
    assert_eq!(same.compressed_digest, same.uncompressed_digest);
}

#[test]
fn built_manifest_follows_layers() {
    let tar = b"layer-bytes".to_vec();
    let d = digest_as_is(&tar);
    let (blob, layer): (_, Layer) = build_layer(tar.clone(), d, "fs");
    assert_eq!(blob.digest, sha256_digest(&tar));
    assert_eq!(layer.size, tar.len() as u64);
    assert_eq!(layer.to_history("2024-01-01T00:00:00Z").created_by.unwrap(), "fs");
    let cfg = blob_of(b"{}".to_vec());
    let m = manifest_for(&cfg, &vec![layer]);
    assert_eq!(m.layers.len(), 1);
    assert_eq!(m.layers[0].digest, sha256_digest(&tar));
    assert_eq!(m.layers[0].media_type, MediaType::OciImageLayerV1TarZstd);
    assert_eq!(m.config.digest, sha256_digest(&b"{}".to_vec()));
    assert_eq!(m.config.size, 2);
    let mb = blob_of(b"manifest".to_vec());
    let platform = ImagePlanPlatform {
        architecture: PlatformArchitecture::Amd64,
        variant: None,
        config: None,
        layers: vec![ImagePlanLayer { layer_type: ImagePlanLayerType::Directory, source: "./root".to_string(), comment: "fs".to_string(), whitelist: None, blacklist: None }],
    };
    let e = index_entry(&mb, &platform);
    assert_eq!(e.size, 8);
    assert_eq!(e.platform.unwrap().architecture, PlatformArchitecture::Amd64);
}

#[test]
fn single_platform_plan_pushes_two_blobs_and_two_manifests() {
    let plan = ImagePlan {
        name: "example.com/x".to_string(),
        tags: vec!["latest".to_string()],
        platforms: vec![ImagePlanPlatform {
            architecture: PlatformArchitecture::Amd64,
            variant: None,
            config: None,
            layers: vec![ImagePlanLayer { layer_type: ImagePlanLayerType::Directory, source: "./root".to_string(), comment: "fs".to_string(), whitelist: None, blacklist: None }],
        }],
        config: None,
    };
    assert_eq!(required_permissions(&plan).len(), 1);
    let target = FullImage::from_image_name(&plan.name);
    let mut up = OciUploader::new();
    let mut puts = 0;
    let mut push = |up: &mut OciUploader, blob: &Blob| {
        let mut step = up.begin_push(&target, blob);
        loop {
            step = match step {
                PushStep::Done => break,
                PushStep::Failed(e) => panic!("{}", e.0),
                PushStep::Head(_) => up.after_head(&target, blob, 404),
                PushStep::Post(_) => up.after_post(&target, blob, 202, Some("/v2/x/blobs/uploads/1")),
                PushStep::Put(url) => {
                    assert!(url.ends_with(&format!("digest={}", blob.digest)));
                    puts += 1;
                    up.after_put(blob, 201)
                }
            };
        }
    };
    let (wire, d) = compress_tar(&vec![1u8; 2048], 3);
    let (blob, layer) = build_layer(wire, d, "fs");
    push(&mut up, &blob);
    push(&mut up, &blob);
    let layers = vec![layer];
    let config = image_config_for(&plan, &plan.platforms[0], &layers, "2024-01-01T00:00:00Z");
    assert_eq!(config.rootfs.diff_ids[0], sha256_digest(&vec![1u8; 2048]));
    let config_blob = blob_of(b"{\"config\":1}".to_vec());
    push(&mut up, &config_blob);
    assert_eq!(puts, 2);
    let manifest = manifest_for(&config_blob, &layers);
    assert_eq!(manifest.layers[0].digest, blob.digest);
    let manifest_blob = blob_of(b"{\"manifest\":1}".to_vec());
    let index = index_for(vec![index_entry(&manifest_blob, &plan.platforms[0])]);
    assert_eq!(index.manifests.len(), 1);
    let urls: Vec<String> = plan
        .tags
        .iter()
        .map(|t| manifest_push_url(&FullImageWithTag { image: target.clone(), tag: t.clone() }))
        .collect();
    assert_eq!(urls, vec!["https://registry-1.docker.io/v2/example.com/x/manifests/latest".to_string()]);
}

#[test]
fn store_rules_for_streamed_blobs() {
    let empty = sha256_digest(&vec![]);
    let mut w = LayerWriter::new(empty.clone(), 0);
    let chunks = w.feed(&[]).unwrap();
    assert!(chunks.is_empty());
    let (last, commit) = w.finish(ocitool::maps::StringMap::new());
    assert!(last.is_none());
    assert!(check_commit(0, &empty, &commit).is_ok());
    assert!(check_commit(1, &empty, &commit).is_err());
    assert!(check_commit(0, "sha256:00", &commit).is_err());
    let mut w = LayerWriter::new("sha256:x".to_string(), 3);
    w.feed(&[1, 2, 3]).unwrap();
    let (last, _) = w.finish(ocitool::maps::StringMap::new());
    let last = last.unwrap();
    assert!(check_write(0, &last).is_ok());
    assert!(check_write(2, &last).is_err());
    assert_eq!(digest_from_file_name("sha256-abcd").unwrap(), "sha256:abcd");
    assert!(digest_from_file_name("tmp").is_none());
}

#[test]
fn second_pull_of_multi_platform_image_needs_only_the_matched_manifest() {
    let img = FullImageWithTag::from_image_name("alpine:3.19");
    let known = vec!["sha256:idx".to_string(), "sha256:m2".to_string()];
    let mut st = PullState::new(known, &[]);
    let item = DownloadableIndex { full_image: img };
    let resp = IndexResponse::ImageIndex(index(vec![entry(PlatformArchitecture::Arm64, "sha256:m1", 5), entry(PlatformArchitecture::Amd64, "sha256:m2", 7)]));
    let acts = st.on_index(&PlatformMatcher::for_host("x86_64"), &item, &resp, "sha256:idx", 300);
    assert!(acts.write.is_none());
    assert!(!acts.queued);
    assert!(st.pop().is_none());
}

#[test]
fn every_unknown_layer_is_queued_once() {
    let img = FullImageWithTag::from_image_name("alpine:3.19");
    let mut st = PullState::new(vec!["sha256:l1".to_string()], &[]);
    let man = manifest("sha256:cfg", &["sha256:l0", "sha256:l1", "sha256:l0", "sha256:l2"]);
    let ci = DownloadableConfig { full_image: img.clone(), layers: man.layers, digest: "sha256:cfg".to_string() };
    let diff_ids: Vec<String> = (0..4).map(|i| format!("sha256:d{}", i)).collect();
    assert!(st.queue_layers(&ci, &diff_ids).is_ok());
    assert_eq!(st.total_bytes(), 200);
    let mut queued = vec![];
    while let Some(Downloadable::Layer(l)) = st.pop() {
        queued.push((l.digest, l.uncompressed_digest));
    }
    assert_eq!(queued, vec![("sha256:l2".to_string(), "sha256:d3".to_string()), ("sha256:l0".to_string(), "sha256:d0".to_string())]);
    assert!(!st.complete("sha256:l0", &img));
    assert!(st.complete("sha256:l2", &img));
}

#[test]
fn last_chunk_is_never_empty_or_oversized() {
    let mut w = LayerWriter::new("sha256:y".to_string(), 0);
    let full = w.feed(&vec![5u8; CHUNK_SIZE]).unwrap();
    assert_eq!(full.len(), 1);
    let (last, commit) = w.finish(ocitool::maps::StringMap::new());
    assert!(last.is_none());
    assert_eq!(commit.offset, CHUNK_SIZE as u64);
}
