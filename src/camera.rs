use vstd::prelude::*;

verus! {

/// How the camera turns a point of the view plane into a ray.
#[derive(Clone, Copy, Debug, PartialEq, Eq, Structural)]
pub enum CameraMode {
    /// Parallel projection: every ray leaves its own point of the view plane
    /// along the camera's forward direction.
    Orthographic,
    /// Every ray leaves the camera's origin towards its point of the view plane.
    Perspective,
}

} // verus!
