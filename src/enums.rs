//! Closed enumerations of the image format: media types, architectures and
//! operating systems.

use vstd::prelude::*;
use crate::text::str_eq;

verus! {

/// Media types of the OCI and Docker distribution formats.
#[derive(Clone, Copy, Debug, PartialEq, Eq, Structural)]
pub enum MediaType {
    OciImageIndexV1Json,
    OciImageManifestV1Json,
    OciImageConfigV1ConfigJson,
    OciImageLayerV1TarZstd,
    OciImageLayerV1TarGzip,
    OciImageLayerV1Tar,
    DockerManifestListV2Json,
    DockerManifestV2Json,
    DockerConfigV1Json,
    DockerImageRootfsDiffTarGzip,
    DockerImageRootfsDiffTarZstd,
    DockerImageRootfsDiffTar,
}

/// The wire name of a media type.
pub open spec fn media_type_name(m: MediaType) -> Seq<char> {
    match m {
        MediaType::OciImageIndexV1Json => "application/vnd.oci.image.index.v1+json"@,
        MediaType::OciImageManifestV1Json => "application/vnd.oci.image.manifest.v1+json"@,
        MediaType::OciImageConfigV1ConfigJson => "application/vnd.oci.image.config.v1+json"@,
        MediaType::OciImageLayerV1TarZstd => "application/vnd.oci.image.layer.v1.tar+zstd"@,
        MediaType::OciImageLayerV1TarGzip => "application/vnd.oci.image.layer.v1.tar+gzip"@,
        MediaType::OciImageLayerV1Tar => "application/vnd.oci.image.layer.v1.tar"@,
        MediaType::DockerManifestListV2Json => "application/vnd.docker.distribution.manifest.list.v2+json"@,
        MediaType::DockerManifestV2Json => "application/vnd.docker.distribution.manifest.v2+json"@,
        MediaType::DockerConfigV1Json => "application/vnd.docker.container.image.v1+json"@,
        MediaType::DockerImageRootfsDiffTarGzip => "application/vnd.docker.image.rootfs.diff.tar.gzip"@,
        MediaType::DockerImageRootfsDiffTarZstd => "application/vnd.docker.image.rootfs.diff.tar.zstd"@,
        MediaType::DockerImageRootfsDiffTar => "application/vnd.docker.image.rootfs.diff.tar"@,
    }
}

/// The media types whose document is a list of per-platform manifests.
pub open spec fn is_index_media_type(m: MediaType) -> bool {
    m == MediaType::OciImageIndexV1Json || m == MediaType::DockerManifestListV2Json
}

impl MediaType {
    /// The wire name of this media type.
    pub fn to_string(&self) -> (r: &'static str)
        ensures
            r@ == media_type_name(*self),
    {
        match self {
            MediaType::OciImageIndexV1Json => "application/vnd.oci.image.index.v1+json",
            MediaType::OciImageManifestV1Json => "application/vnd.oci.image.manifest.v1+json",
            MediaType::OciImageConfigV1ConfigJson => "application/vnd.oci.image.config.v1+json",
            MediaType::OciImageLayerV1TarZstd => "application/vnd.oci.image.layer.v1.tar+zstd",
            MediaType::OciImageLayerV1TarGzip => "application/vnd.oci.image.layer.v1.tar+gzip",
            MediaType::OciImageLayerV1Tar => "application/vnd.oci.image.layer.v1.tar",
            MediaType::DockerManifestListV2Json => {
                "application/vnd.docker.distribution.manifest.list.v2+json"
            },
            MediaType::DockerManifestV2Json => {
                "application/vnd.docker.distribution.manifest.v2+json"
            },
            MediaType::DockerConfigV1Json => "application/vnd.docker.container.image.v1+json",
            MediaType::DockerImageRootfsDiffTarGzip => {
                "application/vnd.docker.image.rootfs.diff.tar.gzip"
            },
            MediaType::DockerImageRootfsDiffTarZstd => {
                "application/vnd.docker.image.rootfs.diff.tar.zstd"
            },
            MediaType::DockerImageRootfsDiffTar => "application/vnd.docker.image.rootfs.diff.tar",
        }
    }

    /// Whether a document of this type lists per-platform manifests.
    pub fn is_index(&self) -> (r: bool)
        ensures
            r == is_index_media_type(*self),
    {
        match self {
            MediaType::OciImageIndexV1Json | MediaType::DockerManifestListV2Json => true,
            _ => false,
        }
    }
}

/// CPU architectures of an image platform.
#[derive(Clone, Copy, Debug, PartialEq, Eq, Structural)]
pub enum PlatformArchitecture {
    Amd64,
    X86,
    Arm64,
    Arm,
    Wasm,
    Ppc64,
    Ppc64Le,
    Loong64,
    Mips,
    Mipsle,
    Mips64,
    Mips64le,
    Riscv64,
    S390x,
    Unknown,
}

/// The architecture that a host's native identifier stands for.
pub open spec fn host_architecture(arch: Seq<char>) -> PlatformArchitecture {
    if arch == "x86"@ {
        PlatformArchitecture::X86
    } else if arch == "x86_64"@ {
        PlatformArchitecture::Amd64
    } else if arch == "arm"@ {
        PlatformArchitecture::Arm
    } else if arch == "aarch64"@ {
        PlatformArchitecture::Arm64
    } else if arch == "mips"@ {
        PlatformArchitecture::Mips
    } else if arch == "mips64"@ {
        PlatformArchitecture::Mips64
    } else if arch == "powerpc64"@ {
        PlatformArchitecture::Ppc64
    } else if arch == "riscv64"@ {
        PlatformArchitecture::Riscv64
    } else if arch == "s390x"@ {
        PlatformArchitecture::S390x
    } else if arch == "loongarch64"@ {
        PlatformArchitecture::Loong64
    } else {
        PlatformArchitecture::Unknown
    }
}

impl PlatformArchitecture {
    /// Maps a host's native architecture identifier (such as `x86_64`) to
    /// the image architecture; `Unknown` when there is none.
    pub fn from_host(arch: &str) -> (r: PlatformArchitecture)
        ensures
            r == host_architecture(arch@),
    {
        if str_eq(arch, "x86") {
            PlatformArchitecture::X86
        } else if str_eq(arch, "x86_64") {
            PlatformArchitecture::Amd64
        } else if str_eq(arch, "arm") {
            PlatformArchitecture::Arm
        } else if str_eq(arch, "aarch64") {
            PlatformArchitecture::Arm64
        } else if str_eq(arch, "mips") {
            PlatformArchitecture::Mips
        } else if str_eq(arch, "mips64") {
            PlatformArchitecture::Mips64
        } else if str_eq(arch, "powerpc64") {
            PlatformArchitecture::Ppc64
        } else if str_eq(arch, "riscv64") {
            PlatformArchitecture::Riscv64
        } else if str_eq(arch, "s390x") {
            PlatformArchitecture::S390x
        } else if str_eq(arch, "loongarch64") {
            PlatformArchitecture::Loong64
        } else {
            PlatformArchitecture::Unknown
        }
    }
}

/// Operating systems of an image platform.
#[derive(Clone, Copy, Debug, PartialEq, Eq, Structural)]
pub enum PlatformOS {
    Aix,
    Android,
    Darwin,
    Dragonfly,
    Freebsd,
    Illumos,
    Ios,
    Js,
    Linux,
    Netbsd,
    Openbsd,
    Plan9,
    Solaris,
    Wasip1,
    Windows,
    Unknown,
}

} // verus!
