//! Identifiers of the core protocol that the extension bindings refer to.
//! Each names a server-side resource by a 32-bit id.

use vstd::prelude::*;

verus! {

/// A named property key.
pub type Atom = u32;

/// A window or pixmap that can be drawn to.
pub type Drawable = u32;

/// An off-screen drawable.
pub type Pixmap = u32;

/// An on-screen window.
pub type Window = u32;

} // verus!
