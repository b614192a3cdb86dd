//! Names under which the target process and its modules are known.

use vstd::prelude::*;

verus! {

/// The name of the target process.
pub const PROCESS_NAME: &'static str = "cs2";

/// The module that holds the client's entities and their reflection scope.
pub const CLIENT_LIB: &'static str = "libclient.so";

/// The engine module.
pub const ENGINE_LIB: &'static str = "libengine2.so";

/// The module that serves console variables.
pub const TIER0_LIB: &'static str = "libtier0.so";

/// The input system module.
pub const INPUT_LIB: &'static str = "libinputsystem.so";

/// The windowing module.
pub const SDL_LIB: &'static str = "libSDL3.so.0";

/// The module that hosts the type registry.
pub const SCHEMA_LIB: &'static str = "libschemasystem.so";

} // verus!
