//! The default Dockerfile and the choice of a package manager.

use crate::text::same_text;
use vstd::prelude::*;
use vstd::string::StringExecFns;

verus! {

/// The family of a base image, as far as the choice of a package manager goes.
#[derive(Debug, Clone, Copy, PartialEq, Eq, Structural)]
pub enum BaseImage {
    Alpine,
    Arch,
    /// Any other image; taken to be based on Debian.
    Other,
}

/// The family that an image name stands for.
pub open spec fn base_image_of(image_name: Seq<char>) -> BaseImage {
    if image_name == "alpine"@ {
        BaseImage::Alpine
    } else if image_name == "arch"@ {
        BaseImage::Arch
    } else {
        BaseImage::Other
    }
}

/// The package manager of a family of images.
pub open spec fn manager_of(base: BaseImage) -> Seq<char> {
    match base {
        BaseImage::Alpine => "apk"@,
        BaseImage::Arch => "pacman"@,
        BaseImage::Other => "apt"@,
    }
}

/// The package manager that belongs to an image name.
pub open spec fn package_manager_of(image_name: Seq<char>) -> Seq<char> {
    manager_of(base_image_of(image_name))
}

/// What follows the `FROM` line in the default Dockerfile.
pub open spec fn template_tail() -> Seq<char> {
    " AS build\nRUN apk add --no-cache \\\n  python3 \\\n  py3-pip \n\nWORKDIR /app\n\nCMD [\"echo\", \"Hello World\"]\n"@
}

/// The default Dockerfile for a base image.
pub open spec fn dockerfile_template(image: Seq<char>) -> Seq<char> {
    "FROM "@ + image + template_tail()
}

impl BaseImage {
    /// The family that `image_name` stands for.
    pub fn of(image_name: &str) -> (base: BaseImage)
        ensures
            base == base_image_of(image_name@),
    {
        if same_text(image_name, "alpine") {
            BaseImage::Alpine
        } else if same_text(image_name, "arch") {
            BaseImage::Arch
        } else {
            BaseImage::Other
        }
    }

    /// The name of the family's package manager.
    pub fn package_manager(&self) -> (manager: String)
        ensures
            manager@ == manager_of(*self),
    {
        match self {
            BaseImage::Alpine => "apk".to_owned(),
            BaseImage::Arch => "pacman".to_owned(),
            BaseImage::Other => "apt".to_owned(),
        }
    }
}

/// The text of the default Dockerfile, built on `image`.
pub fn lazy_dockerfile(image: &str) -> (text: String)
    ensures
        text@ == dockerfile_template(image@),
{
    let mut text = "FROM ".to_owned();
    text.append(image);
    text.append(
        " AS build\nRUN apk add --no-cache \\\n  python3 \\\n  py3-pip \n\nWORKDIR /app\n\nCMD [\"echo\", \"Hello World\"]\n",
    );
    text
}

/// The package manager to install with on the image `image`: `apk` on `alpine`,
/// `pacman` on `arch`, `apt` on anything else.
pub fn package_manager(image: &str) -> (manager: String)
    ensures
        manager@ == package_manager_of(image@),
{
    BaseImage::of(image).package_manager()
}

} // verus!
