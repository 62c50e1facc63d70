use lazy::utils::{lazy_dockerfile, package_manager, BaseImage};

#[test]
fn package_manager_of_alpine_is_apk() {
    assert_eq!(package_manager("alpine"), "apk");
}

#[test]
fn package_manager_of_arch_is_pacman() {
    assert_eq!(package_manager("arch"), "pacman");
}

#[test]
fn package_manager_of_anything_else_is_apt() {
    assert_eq!(package_manager("debian"), "apt");
    assert_eq!(package_manager(""), "apt");
    assert_eq!(package_manager("Alpine"), "apt");
    assert_eq!(package_manager("alpine "), "apt");
    assert_eq!(package_manager("alpine:3.19"), "apt");
}

#[test]
fn base_image_families() {
    assert_eq!(BaseImage::of("alpine"), BaseImage::Alpine);
    assert_eq!(BaseImage::of("arch"), BaseImage::Arch);
    assert_eq!(BaseImage::of("ubuntu"), BaseImage::Other);
    assert_eq!(BaseImage::Alpine.package_manager(), "apk");
    assert_eq!(BaseImage::Arch.package_manager(), "pacman");
    assert_eq!(BaseImage::Other.package_manager(), "apt");
}

#[test]
fn default_dockerfile_is_the_template() {
    let expected = "FROM alpine:3.19 AS build\nRUN apk add --no-cache \\\n  python3 \\\n  py3-pip \n\nWORKDIR /app\n\nCMD [\"echo\", \"Hello World\"]\n";
    assert_eq!(lazy_dockerfile("alpine:3.19"), expected);
}

#[test]
fn default_dockerfile_with_empty_image() {
    let text = lazy_dockerfile("");
    assert!(text.starts_with("FROM  AS build\n"));
    assert_eq!(text.lines().count(), 8);
}
