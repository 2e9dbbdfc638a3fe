use distro_rootfs::Mirror;

#[test]
fn base_urls() {
    assert_eq!(
        Mirror::Official.base_url(),
        "https://images.linuxcontainers.org"
    );
    assert_eq!(
        Mirror::Tuna.base_url(),
        "https://mirrors.tuna.tsinghua.edu.cn/lxc-images"
    );
}

#[test]
fn streams_url() {
    assert_eq!(
        Mirror::Official.streams_url(),
        "https://images.linuxcontainers.org/streams/v1/images.json"
    );
}

#[test]
fn image_url() {
    let path = "images/alpine/3.21/amd64/default/20260218/rootfs.tar.xz";
    assert_eq!(
        Mirror::Official.image_url(path),
        "https://images.linuxcontainers.org/images/alpine/3.21/amd64/default/20260218/rootfs.tar.xz"
    );
}

#[test]
fn custom_mirror() {
    let m = Mirror::Custom("https://images.arcbox.dev".to_owned());
    assert_eq!(m.base_url(), "https://images.arcbox.dev");
    assert_eq!(
        m.streams_url(),
        "https://images.arcbox.dev/streams/v1/images.json"
    );
}

#[test]
fn custom_trailing_slash() {
    let m = Mirror::Custom("https://example.com/".to_owned());
    assert_eq!(m.base_url(), "https://example.com");
}

#[test]
fn custom_many_trailing_slashes() {
    let m = Mirror::Custom("https://example.com///".to_owned());
    assert_eq!(m.image_url("a/b"), "https://example.com/a/b");
}

#[test]
fn presets_and_default() {
    assert_eq!(Mirror::presets().len(), 4);
    assert_eq!(Mirror::default().base_url(), "https://images.linuxcontainers.org");
    assert_eq!(Mirror::Bfsu.base_url(), "https://mirrors.bfsu.edu.cn/lxc-images");
}

#[test]
fn labels() {
    assert_eq!(Mirror::Ustc.label(), "ustc");
    assert_eq!(Mirror::Custom("https://x.example/".to_owned()).label(), "custom(https://x.example/)");
}
