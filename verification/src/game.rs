//! What is known about one game: its executable, how it renders, and what
//! sits in its folder. Reading the folder is the caller's part; this is the
//! snapshot the decisions are made from.

use vstd::prelude::*;
use crate::text::{join_path, join_path_exec};

verus! {

/// Whether the game brings DLSS of its own (`Native`) or the Feeder supplies
/// it (`Feeder`).
#[derive(Clone, Copy, Debug, PartialEq, Eq, Structural)]
pub enum Mode {
    Native,
    Feeder,
}

/// The graphics API the game renders with.
#[derive(Clone, Copy, Debug, PartialEq, Eq, Structural)]
pub enum Api {
    Dx9,
    Dx10,
    Dx11,
    Dx12,
    OpenGl,
    Vulkan,
}

/// How an API is named to the user.
pub open spec fn api_label(a: Api) -> Seq<char> {
    match a {
        Api::Dx9 => "Direct3D 9"@,
        Api::Dx10 => "Direct3D 10"@,
        Api::Dx11 => "Direct3D 11"@,
        Api::Dx12 => "Direct3D 12"@,
        Api::OpenGl => "OpenGL"@,
        Api::Vulkan => "Vulkan"@,
    }
}

impl Api {
    /// The API in words.
    pub fn label(&self) -> (r: &'static str)
        ensures
            r@ == api_label(*self),
    {
        match self {
            Api::Dx9 => "Direct3D 9",
            Api::Dx10 => "Direct3D 10",
            Api::Dx11 => "Direct3D 11",
            Api::Dx12 => "Direct3D 12",
            Api::OpenGl => "OpenGL",
            Api::Vulkan => "Vulkan",
        }
    }
}

/// The file beside the exe through which ReShade loads.
pub const RESHADE_PROXY: &'static str = "dxgi.dll";

/// The folder of the 64-bit helper that a 32-bit game's neural add-on runs in.
pub const HOST_DIR: &'static str = "host64";

/// The 64-bit helper's executable, inside `HOST_DIR`.
pub const HOST_EXE: &'static str = "dlss5-feed-host64.exe";

/// The neural model DLL.
pub const DLSSNR_DLL: &'static str = "nvngx_dlssnr.dll";

/// The marker this tool writes beside a ShortFuse add-on it placed.
pub const SF_ADDON_MARKER: &'static str = "renodx-dlss-sf.tag";

/// The marker holding the build tag of a DLSS 5 add-on this tool placed.
pub const DLSS5_ADDON_MARKER: &'static str = "renodx-dlss5.tag";

/// One game, as inspected.
#[derive(Clone, Debug)]
pub struct GameStatus {
    /// The game's executable, as a path.
    pub exe: String,
    pub mode: Mode,
    pub api: Api,
    /// 32 or 64.
    pub bitness: u32,
    /// ReShade is in the game folder (ours or the user's).
    pub reshade: bool,
    /// A ShortFuse DLSS add-on is present.
    pub sf: bool,
    /// The RenoDX DLSS 5 add-on is present.
    pub dlss5_addon: bool,
    /// The OptiScaler engine is present.
    pub opti: bool,
    /// The standalone AIO is present.
    pub aio: bool,
    /// Neural Upstream is present.
    pub upstream: bool,
    /// The Feeder add-on is present.
    pub feeder: bool,
    /// The DX11 bridge is present.
    pub bridge: bool,
    /// The GPU's tier, in words, when the GPU is known.
    pub gpu_tier: Option<String>,
    /// `SF_ADDON_MARKER` exists in the consumer folder.
    pub sf_marker: bool,
    /// What `DLSS5_ADDON_MARKER` in the consumer folder holds, if it could
    /// be read.
    pub dlss5_marker: Option<String>,
}

impl GameStatus {
    /// A game with nothing of ours or anyone's installed: 64-bit, no add-on,
    /// no marker.
    pub fn new(exe: String, mode: Mode, api: Api) -> (st: GameStatus)
        ensures
            st.exe@ == exe@,
            st.mode == mode,
            st.api == api,
            st.bitness == 64,
            !st.reshade && !st.sf && !st.dlss5_addon && !st.opti && !st.aio && !st.upstream
                && !st.feeder && !st.bridge && !st.sf_marker,
            st.gpu_tier is None,
            st.dlss5_marker is None,
    {
        GameStatus {
            exe,
            mode,
            api,
            bitness: 64,
            reshade: false,
            sf: false,
            dlss5_addon: false,
            opti: false,
            aio: false,
            upstream: false,
            feeder: false,
            bridge: false,
            gpu_tier: None,
            sf_marker: false,
            dlss5_marker: None,
        }
    }

    /// The folder the neural add-on runs in, for a game whose exe is in
    /// `game_dir`: that folder for a 64-bit game, its `HOST_DIR` for a 32-bit
    /// one, where the 64-bit helper runs.
    pub fn consumer_dir(&self, game_dir: &str) -> (r: String)
        ensures
            r@ == if self.bitness == 32 {
                join_path(game_dir@, HOST_DIR@)
            } else {
                game_dir@
            },
    {
        if self.is32() {
            join_path_exec(game_dir, HOST_DIR)
        } else {
            String::from_str(game_dir)
        }
    }

    /// A 32-bit game.
    pub fn is32(&self) -> (r: bool)
        ensures
            r == (self.bitness == 32),
    {
        self.bitness == 32
    }
}

} // verus!
