//! Storage layout on the host: base images per runtime and the overlay
//! directories of each sandbox.

use vstd::prelude::*;
use crate::error::{prefixed, StorageError};
use crate::sandbox::{runtime_name, spec_runtime_name, Runtime};
use crate::text::{chars_of, push_str};
use crate::time::Timestamp;

verus! {

/// Joins a path to a base path as Unix paths are joined: an absolute `p`
/// replaces the base; otherwise a `/` separates the two unless the base is
/// empty or already ends with one.
pub open spec fn spec_join(base: Seq<char>, p: Seq<char>) -> Seq<char> {
    if p.len() > 0 && p[0] == '/' {
        p
    } else if base.len() > 0 && base.last() != '/' {
        base + "/"@ + p
    } else {
        base + p
    }
}

/// Joins `p` to `base` (see `spec_join`).
pub fn join_path(base: &str, p: &str) -> (r: String)
    ensures
        r@ == spec_join(base@, p@),
{
    let pc = chars_of(p);
    if pc.len() > 0 && pc[0] == '/' {
        return p.to_owned();
    }
    let bc = chars_of(base);
    let mut r = base.to_owned();
    if bc.len() > 0 && bc[bc.len() - 1] != '/' {
        push_str(&mut r, "/");
    }
    push_str(&mut r, p);
    r
}

/// Whether a file system entry exists at `path`, by `std::path::Path::exists`.
/// Trusted only to return; the answer depends on the file system, so nothing
/// is claimed about it.
#[verifier::external_body]
fn path_exists(path: &str) -> (b: bool) {
    std::path::Path::new(path).exists()
}

/// Configuration for the overlay file system mount of one sandbox.
pub struct OverlayConfig {
    pub sandbox_id: String,
    pub base_dir: String,
}

/// The directory `base/kind/id`.
pub open spec fn overlay_dir(base: Seq<char>, kind: Seq<char>, id: Seq<char>) -> Seq<char> {
    spec_join(spec_join(base, kind), id)
}

/// The overlayfs mount options for the lower, upper and work directories.
pub open spec fn spec_mount_options(base: Seq<char>, id: Seq<char>) -> Seq<char> {
    "lowerdir="@ + overlay_dir(base, "lower"@, id) + ",upperdir="@ + overlay_dir(base, "upper"@, id)
        + ",workdir="@ + overlay_dir(base, "work"@, id)
}

impl OverlayConfig {
    /// The directory under which the sandbox's overlay directories lie.
    pub open spec fn base(self) -> Seq<char> {
        self.base_dir@
    }

    /// The sandbox the configuration is for.
    pub open spec fn id(self) -> Seq<char> {
        self.sandbox_id@
    }

    /// The configuration for sandbox `sandbox_id` under `base_dir`.
    pub fn new(sandbox_id: &str, base_dir: &str) -> (c: OverlayConfig)
        ensures
            c.sandbox_id@ == sandbox_id@,
            c.base_dir@ == base_dir@,
            c.id() == sandbox_id@,
            c.base() == base_dir@,
    {
        OverlayConfig { sandbox_id: sandbox_id.to_owned(), base_dir: base_dir.to_owned() }
    }

    fn dir(&self, kind: &str) -> (r: String)
        ensures
            r@ == overlay_dir(self.base(), kind@, self.id()),
    {
        let k = join_path(self.base_dir.as_str(), kind);
        join_path(k.as_str(), self.sandbox_id.as_str())
    }

    /// The lower (read-only) directory, holding the base image.
    pub fn lower_dir(&self) -> (r: String)
        ensures
            r@ == overlay_dir(self.base(), "lower"@, self.id()),
    {
        self.dir("lower")
    }

    /// The upper (read-write) directory, holding the sandbox's changes.
    pub fn upper_dir(&self) -> (r: String)
        ensures
            r@ == overlay_dir(self.base(), "upper"@, self.id()),
    {
        self.dir("upper")
    }

    /// The work directory overlayfs needs.
    pub fn work_dir(&self) -> (r: String)
        ensures
            r@ == overlay_dir(self.base(), "work"@, self.id()),
    {
        self.dir("work")
    }

    /// The merged mount point.
    pub fn merged_dir(&self) -> (r: String)
        ensures
            r@ == overlay_dir(self.base(), "merged"@, self.id()),
    {
        self.dir("merged")
    }

    /// The overlayfs mount options string.
    pub fn mount_options(&self) -> (r: String)
        ensures
            r@ == spec_mount_options(self.base(), self.id()),
    {
        let mut r = prefixed("lowerdir=", self.lower_dir().as_str());
        push_str(&mut r, ",upperdir=");
        push_str(&mut r, self.upper_dir().as_str());
        push_str(&mut r, ",workdir=");
        push_str(&mut r, self.work_dir().as_str());
        r
    }
}

/// Keeps the base VM image of each supported runtime.
pub struct BaseImageStore {
    images_dir: String,
}

/// The image file of a runtime: `<name>.ext4` in the images directory.
pub open spec fn spec_image_path(dir: Seq<char>, r: Runtime) -> Seq<char> {
    spec_join(dir, spec_runtime_name(r) + ".ext4"@)
}

/// The outcome of asking for an image at `path` that is present or not.
pub open spec fn spec_image_result(path: Seq<char>, present: bool) -> Result<Seq<char>, Seq<char>> {
    if present { Ok(path) } else { Err(path) }
}

impl BaseImageStore {
    /// The directory holding the images.
    pub closed spec fn dir(self) -> Seq<char> {
        self.images_dir@
    }

    /// A store over `images_dir`.
    pub fn new(images_dir: &str) -> (s: BaseImageStore)
        ensures
            s.dir() == images_dir@,
    {
        BaseImageStore { images_dir: images_dir.to_owned() }
    }

    /// The path of a runtime's base image (an ext4 file system).
    pub fn path_for_runtime(&self, runtime: &Runtime) -> (p: String)
        ensures
            p@ == spec_image_path(self.dir(), *runtime),
    {
        let mut name = runtime_name(*runtime).to_owned();
        push_str(&mut name, ".ext4");
        join_path(self.images_dir.as_str(), name.as_str())
    }

    /// Whether the base image of a runtime is on disk.
    pub fn has_image(&self, runtime: &Runtime) -> (b: bool) {
        let p = self.path_for_runtime(runtime);
        path_exists(p.as_str())
    }

    /// The image path when the image is present, else `BaseImageNotFound`
    /// with the path.
    pub fn image_result(path: String, present: bool) -> (r: Result<String, StorageError>)
        ensures
            match spec_image_result(path@, present) {
                Ok(p) => r matches Ok(x) && x@ == p,
                Err(p) => r matches Err(StorageError::BaseImageNotFound(m)) && m@ == p,
            },
    {
        if present {
            Ok(path)
        } else {
            Err(StorageError::BaseImageNotFound(path))
        }
    }

    /// The path of a runtime's image, or `BaseImageNotFound` with that path
    /// when no file is there.
    pub fn require(&self, runtime: &Runtime) -> (r: Result<String, StorageError>)
        ensures
            match r {
                Ok(p) => p@ == spec_image_path(self.dir(), *runtime),
                Err(e) => e matches StorageError::BaseImageNotFound(m) && m@ == spec_image_path(self.dir(), *runtime),
            },
    {
        let path = self.path_for_runtime(runtime);
        let present = path_exists(path.as_str());
        Self::image_result(path, present)
    }
}

/// What the daemon records about a snapshot.
#[derive(Debug)]
pub struct SnapshotMetadata {
    pub id: String,
    pub sandbox_id: String,
    pub created_at: Timestamp,
    pub expires_at: Option<Timestamp>,
    pub size_bytes: u64,
    pub description: Option<String>,
}

impl SnapshotMetadata {
    /// The record of a snapshot just taken at `now`: no expiry and no size yet.
    pub fn taken(id: String, sandbox_id: String, now: Timestamp, description: Option<String>) -> (m: SnapshotMetadata)
        ensures
            m.id == id,
            m.sandbox_id == sandbox_id,
            m.created_at == now,
            m.expires_at is None,
            m.size_bytes == 0,
            m.description == description,
    {
        SnapshotMetadata { id, sandbox_id, created_at: now, expires_at: None, size_bytes: 0, description }
    }
}

} // verus!
