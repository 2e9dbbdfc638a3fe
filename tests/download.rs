use distro_rootfs::digest::{sha256_hex, sha512_hex};
use distro_rootfs::download::{finish_download, finish_index_download, official_target, verify_official};
use distro_rootfs::lxc::ResolvedImage;
use distro_rootfs::provider::{get_official_provider, HashAlgorithm};
use distro_rootfs::{actual_hash, verify_hash, Arch, Distro, DownloadResult, Error, Version};
use sha2::{Digest, Sha256, Sha512};

#[test]
fn download_result_sha256_consistent() {
    let data = b"hello world";
    let sha256 = hex::encode(Sha256::digest(data));
    let result = DownloadResult {
        data: data.to_vec(),
        sha256: sha256.clone(),
        filename: "test.tar.gz".to_owned(),
    };
    assert_eq!(result.sha256, sha256);
}

#[test]
fn download_result_sha512() {
    let data = b"hello world";
    let expected = hex::encode(Sha512::digest(data));
    let result = DownloadResult {
        data: data.to_vec(),
        sha256: hex::encode(Sha256::digest(data)),
        filename: "test.tar.xz".to_owned(),
    };
    assert_eq!(result.sha512(), expected);
    assert_ne!(result.sha256, result.sha512());
}

#[test]
fn hash_algorithm_dispatch() {
    let data = b"test payload";
    let result = DownloadResult {
        data: data.to_vec(),
        sha256: hex::encode(Sha256::digest(data)),
        filename: "rootfs.tar.xz".to_owned(),
    };

    let sha256_actual = actual_hash(&result, HashAlgorithm::Sha256);
    assert_eq!(sha256_actual, result.sha256);

    let sha512_actual = actual_hash(&result, HashAlgorithm::Sha512);
    assert_eq!(sha512_actual, hex::encode(Sha512::digest(data)));
    assert_ne!(sha256_actual, sha512_actual);
}

#[test]
fn verify_hash_success_sha256() {
    let data = b"verify ok";
    let result = DownloadResult {
        data: data.to_vec(),
        sha256: hex::encode(Sha256::digest(data)),
        filename: "rootfs.tar.gz".to_owned(),
    };
    assert!(verify_hash(&result.sha256, &result, HashAlgorithm::Sha256).is_ok());
}

#[test]
fn verify_hash_mismatch_returns_error() {
    let data = b"verify mismatch";
    let result = DownloadResult {
        data: data.to_vec(),
        sha256: hex::encode(Sha256::digest(data)),
        filename: "rootfs.tar.xz".to_owned(),
    };

    let err = verify_hash("deadbeef", &result, HashAlgorithm::Sha256).unwrap_err();
    match err {
        Error::ChecksumMismatch { expected, actual } => {
            assert_eq!(expected, "deadbeef");
            assert_eq!(actual, result.sha256);
        }
        _ => panic!("unexpected error variant"),
    }
}

#[test]
fn digests_are_lowercase_hex_of_sha2() {
    let abc = sha256_hex(b"abc");
    assert_eq!(abc, "ba7816bf8f01cfea414140de5dae2223b00361a396177a9cb410ff61f20015ad");
    assert_eq!(sha512_hex(b"").len(), 128);
    assert_eq!(sha512_hex(b"abc"), hex::encode(Sha512::digest(b"abc")));
}

#[test]
fn finish_download_computes_digest() {
    let r = finish_download(b"payload".to_vec(), "f.tar.gz".to_owned());
    assert_eq!(r.sha256, hex::encode(Sha256::digest(b"payload")));
    assert_eq!(r.filename, "f.tar.gz");
    assert_eq!(r.data, b"payload".to_vec());
}

fn resolved(sha256: &str) -> ResolvedImage {
    ResolvedImage {
        url: "https://images.linuxcontainers.org/x/rootfs.tar.xz".to_owned(),
        sha256: sha256.to_owned(),
        size: 5,
        filename: "rootfs.tar.xz".to_owned(),
    }
}

#[test]
fn index_download_accepts_matching_bytes() {
    let digest = hex::encode(Sha256::digest(b"bytes"));
    let r = finish_index_download(resolved(&digest), b"bytes".to_vec()).unwrap();
    assert_eq!(r.sha256, digest);
    assert_eq!(r.filename, "rootfs.tar.xz");
}

#[test]
fn index_download_rejects_other_bytes() {
    match finish_index_download(resolved("aabbccdd"), b"bytes".to_vec()) {
        Err(Error::ChecksumMismatch { expected, actual }) => {
            assert_eq!(expected, "aabbccdd");
            assert_eq!(actual, hex::encode(Sha256::digest(b"bytes")));
        }
        _ => panic!("unexpected result"),
    }
}

#[test]
fn official_target_names_file() {
    let (_, url, filename) = official_target(Distro::Debian, &Version::new("12"), Arch::X86_64).unwrap();
    assert_eq!(url, "https://cloud.debian.org/images/cloud/bookworm/latest/debian-12-nocloud-amd64.tar.xz");
    assert_eq!(filename, "debian-12-nocloud-amd64.tar.xz");
    match official_target(Distro::Kali, &Version::new("current"), Arch::X86_64) {
        Err(Error::UnsupportedDistro(name)) => assert_eq!(name, "kali"),
        _ => panic!("unexpected result"),
    }
}

#[test]
fn official_verification_uses_declared_algorithm() {
    let data = b"debian image";
    let result = DownloadResult {
        data: data.to_vec(),
        sha256: hex::encode(Sha256::digest(data)),
        filename: "debian-12-nocloud-arm64.tar.xz".to_owned(),
    };
    let p = get_official_provider(Distro::Debian).unwrap();
    let sha512 = hex::encode(Sha512::digest(data)).to_uppercase();
    let good = format!("{}  debian-12-nocloud-arm64.tar.xz\n", sha512);
    assert!(verify_official(&p, &result, &good).is_ok());
    let wrong = format!("{}  debian-12-nocloud-arm64.tar.xz\n", result.sha256);
    assert!(matches!(verify_official(&p, &result, &wrong), Err(Error::ChecksumMismatch { .. })));
    assert!(matches!(verify_official(&p, &result, "x  other\n"), Err(Error::ChecksumParse)));
}
