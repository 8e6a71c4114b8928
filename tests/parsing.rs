use ocitool::archive::detect_media_type;
use ocitool::digest::is_digest;
use ocitool::downloader::{cache_file_name, layer_codec, LayerCodec};
use ocitool::cleanup::{is_commit, strip_sha256_prefix};
use ocitool::enums::{MediaType, PlatformArchitecture};
use ocitool::labels::decimal;
use ocitool::nerdctl::NetworkName;
use ocitool::parser::{FullImage, FullImageWithTag};
use ocitool::system_login::parse_kernel_cmdline;

#[test]
fn test_parse_kernel_cmdline() {
    let cmdline = "quiet splash dockerlogin=registry.tohka.us,pirates,pass;registry2.example.com,user2,pass2;";
    let creds = parse_kernel_cmdline(cmdline);
    assert_eq!(creds.len(), 2);
    assert_eq!(creds.get("https://registry.tohka.us").unwrap().username, "pirates");
    assert_eq!(creds.get("https://registry2.example.com").unwrap().password, "pass2");
}

#[test]
fn kernel_cmdline_two_fields_default_to_docker_hub() {
    let creds = parse_kernel_cmdline("dockerlogin=\"alice,secret\" ro");
    assert_eq!(creds.len(), 1);
    let c = creds.get("https://registry-1.docker.io").unwrap();
    assert_eq!(c.username, "alice");
    assert_eq!(c.password, "secret");
}

#[test]
fn kernel_cmdline_keeps_scheme_and_skips_other_words() {
    let creds = parse_kernel_cmdline("root=/dev/sda dockerlogin=http://r.local,u,p;bad");
    assert_eq!(creds.len(), 1);
    assert_eq!(creds.get("http://r.local").unwrap().username, "u");
    assert!(parse_kernel_cmdline("quiet").len() == 0);
}

#[test]
fn parse_docker_hub_short_reference() {
    let r = FullImageWithTag::from_image_name("alpine:3.19");
    assert_eq!(r.image.registry, "https://registry-1.docker.io");
    assert_eq!(r.image.library_name, "library/alpine");
    assert_eq!(r.image.image_name, "alpine");
    assert_eq!(r.image.service, "registry.docker.io");
    assert_eq!(r.tag, "3.19");
}

#[test]
fn parse_registry_reference_without_tag() {
    let r = FullImageWithTag::from_image_name("ghcr.io/owner/app");
    assert_eq!(r.image.registry, "https://ghcr.io");
    assert_eq!(r.image.library_name, "owner/app");
    assert_eq!(r.image.service, "ghcr.io");
    assert_eq!(r.tag, "latest");
    assert!(r.image.is_github_registry());
    assert_eq!(r.image.get_auth_url(), "https://ghcr.io/auth");
}

#[test]
fn parse_two_segment_reference_stays_on_docker_hub() {
    let r = FullImageWithTag::from_image_name("owner/app:1.0");
    assert_eq!(r.image.registry, "https://registry-1.docker.io");
    assert_eq!(r.image.library_name, "owner/app");
    assert_eq!(r.tag, "1.0");
    assert_eq!(r.image.get_auth_url(), "https://auth.docker.io/token");
    assert!(!r.image.is_github_registry());
}

#[test]
fn manifest_url_of_parsed_reference() {
    let r = FullImageWithTag::from_image_name("example.com/team/tool:v2");
    assert_eq!(r.get_manifest_url(), "https://example.com/v2/team/tool/manifests/v2");
    let a = FullImage::from_image_name("alpine:3.19");
    assert_eq!(a.manifest_url("3.19"), "https://registry-1.docker.io/v2/library/alpine/manifests/3.19");
    assert_eq!(a.blob_url("sha256:ab"), "https://registry-1.docker.io/v2/library/alpine/blobs/sha256:ab");
    assert_eq!(a.upload_start_url(), "https://registry-1.docker.io/v2/library/alpine/blobs/uploads/");
}

#[test]
fn detect_gzip_buffer() {
    let mut buf = vec![0x1Fu8, 0x8B, 0x08, 0x00];
    buf.extend_from_slice(&[0u8; 12]);
    assert_eq!(buf.len(), 16);
    assert_eq!(detect_media_type(&buf).unwrap(), MediaType::OciImageLayerV1TarGzip);
    assert_eq!(MediaType::OciImageLayerV1TarGzip.to_string(), "application/vnd.oci.image.layer.v1.tar+gzip");
}

#[test]
fn detect_zstd_tar_and_unknown() {
    let mut z = vec![0x28u8, 0xB5, 0x2F, 0xFD];
    z.extend_from_slice(b"anything");
    assert_eq!(detect_media_type(&z).unwrap(), MediaType::OciImageLayerV1TarZstd);
    let mut t = vec![0u8; 512];
    t[257..262].copy_from_slice(b"ustar");
    assert_eq!(detect_media_type(&t).unwrap(), MediaType::OciImageLayerV1Tar);
    assert!(detect_media_type(&[1u8, 2, 3]).is_err());
    assert!(detect_media_type(&[]).is_err());
    assert_eq!(detect_media_type(&[0u8; 300]).unwrap_err().message(), "unknown or unsupported archive media type");
}

#[test]
fn media_type_names() {
    assert_eq!(MediaType::DockerManifestV2Json.to_string(), "application/vnd.docker.distribution.manifest.v2+json");
    assert_eq!(MediaType::OciImageIndexV1Json.to_string(), "application/vnd.oci.image.index.v1+json");
    assert!(MediaType::DockerManifestListV2Json.is_index());
    assert!(!MediaType::DockerManifestV2Json.is_index());
}

#[test]
fn host_architectures() {
    assert_eq!(PlatformArchitecture::from_host("x86_64"), PlatformArchitecture::Amd64);
    assert_eq!(PlatformArchitecture::from_host("aarch64"), PlatformArchitecture::Arm64);
    assert_eq!(PlatformArchitecture::from_host("sparc"), PlatformArchitecture::Unknown);
}

#[test]
fn cleanup_names() {
    assert_eq!(strip_sha256_prefix("sha256:abc"), "abc");
    assert_eq!(strip_sha256_prefix("abc"), "abc");
    assert!(is_commit("0123456789abcdef0123456789ABCDEF01234567"));
    assert!(!is_commit("0123456789abcdef"));
    assert!(!is_commit("g123456789abcdef0123456789abcdef01234567"));
}

#[test]
fn network_full_name_and_decimal() {
    assert_eq!(NetworkName::new("proj", "web").full_name(), "proj_web");
    assert_eq!(decimal(0), "0");
    assert_eq!(decimal(1207), "1207");
}

#[test]
fn cache_names_codecs_and_digest_shape() {
    assert_eq!(cache_file_name("sha256:ab12"), "sha256-ab12");
    assert_eq!(layer_codec(MediaType::DockerImageRootfsDiffTarGzip).unwrap(), LayerCodec::Gzip);
    assert_eq!(layer_codec(MediaType::OciImageLayerV1TarZstd).unwrap(), LayerCodec::Zstd);
    assert!(layer_codec(MediaType::OciImageConfigV1ConfigJson).is_err());
    assert!(is_digest("sha256:e3b0c44298fc1c149afbf4c8996fb92427ae41e4649b934ca495991b7852b855"));
    assert!(!is_digest("sha256:E3B0C44298FC1C149AFBF4C8996FB92427AE41E4649B934CA495991B7852B855"));
    assert!(!is_digest("md5:abc"));
}
