//! The words of the findings a session's logs produce. A text that is
//! filled in is split where the value goes: `NAME_0`, the value, `NAME_1`, ...

use vstd::prelude::*;

verus! {

pub const GPU_HYBRID_0: &'static str = "More than one GPU vendor on this machine (";
pub const GPU_HYBRID_1: &'static str = "), and Windows decides which one              a process starts on. Started on the integrated GPU, NGX does not exist and              every Init answers 0xBAD00001 — this is the most likely cause here";
pub const GPU_HYBRID_2: &'static str = ".              Settings ▸ System ▸ Display ▸ Graphics ▸ Add a desktop app ▸ pick the game's exe              (and, for a 32-bit game, host64\\dlss5-feed-host64.exe) ▸ Options ▸ High performance.              Install sets that for you from this version on.";
pub const GPU_PREF_SET: &'static str = ", though the preference is already set to high performance for that exe";
pub const NGX_ADVICE_HEALTHY: &'static str = "Your NGX runtime and driver are fine, so this is NGX refusing the Feeder's private          D3D12 device inside the game process, which has been reported on several machines.          Worth doing: install into a game that ships its own DLSS (that path opens no private          device) to confirm NGX works for you, then report this log at          github.com/jlrouzies-fr/DLSS5-Feeder, where that device is created.";
pub const NGX_ADVICE_FIX: &'static str = "Fix that first, then run Install again: reinstall the NVIDIA driver with a Custom          install that keeps every component (616.56 or newer).";
pub const NGX_REFUSED_0: &'static str = "NGX refused to initialise: ";
pub const NGX_REFUSED_1: &'static str = ". 0xBAD00001 is FeatureNotSupported, which NGX also          answers when its runtime is not on the system — not a ReShade, shader or add-on          problem. ";
pub const NGX_REFUSED_2: &'static str = ". ";
pub const COMPILER_SHIPPED_0: &'static str = "The game ships its own d3dcompiler_47.dll (";
pub const COMPILER_SHIPPED_1: &'static str = "), which Windows loads instead of \
             System32's. If it predates shader model 5.1 the DLSS 5 pass cannot compile \
             (error X3506). Rename it to d3dcompiler_47.dll.bak and start the game again; \
             almost every game runs fine on the system copy. On Wine/Proton, leave it: a \
             copy of Microsoft's compiler beside the game, loaded through a WINEDLLOVERRIDES \
             entry, is what got DLSS 5 compiling there at all (#76).";
pub const DGVOODOO_VRAM_0: &'static str = "dgVoodoo reports ";
pub const DGVOODOO_VRAM_1: &'static str = " MB of video memory and this game reads that number \
                     to size its own memory pools, but commandline.txt does not set \
                     -availablevidmem. Add \"-availablevidmem ";
pub const DGVOODOO_VRAM_2: &'static str = "\" to commandline.txt — slightly \
                     below the dgVoodoo figure on purpose, which is what the dgVoodoo guides for \
                     this engine call for. Without it the game sizes for one number and allocates \
                     against another, which shows up as a black screen after loading or as \
                     TEXP60 / TEXP70 at startup.";
pub const NO_GAME_SIDE_RESHADE_0: &'static str = "No ReShade beside the game exe: ";
pub const NO_GAME_SIDE_RESHADE_1: &'static str = " is missing or is not ReShade, so the Home key \
             opens nothing and the feeder never loads. That is upstream of anything in host64\\. \
             Run Remove and then Install again, and if it comes back missing, check antivirus \
             history for ";
pub const NO_GAME_SIDE_RESHADE_2: &'static str = ".";
pub const NO_HOST_RESHADE_LOG: &'static str = "No host64\\ReShade.log: the 64-bit helper's ReShade never loaded, which is what \
             \"host lost: pipe never appeared\" in dlss5-feed.log means. Look in \
             host64\\dlss5-feed-host.log for the reason, and check antivirus did not remove \
             anything from host64\\.";
pub const NO_RESHADE_LOG: &'static str = "No ReShade.log next to the game exe: ReShade never loaded. Either the game was not \
             started since the install, or it does not load dxgi.dll (wrong exe picked, or a \
             launcher starts a different one). Check the exe with --check.";
pub const RESHADE_LOADED: &'static str = "ReShade loaded into the game.";
pub const UNSIGNED_DLLS: &'static str = " (0x80090006 = the process refuses unsigned DLLs; nothing can be done)";
pub const ENTRY_POINT_FAILED: &'static str = " (the add-on's DLL entry point failed; usually a CPU without AVX2 or a mismatched ReShade version)";
pub const ADDON_REFUSED_0: &'static str = "ReShade refused to load renodx-dlss5.addon64, error code ";
pub const ADDON_REFUSED_2: &'static str = ".";
pub const ADDON_REGISTERED: &'static str = "The DLSS 5 Neural Rendering add-on registered.";
pub const ADDON_NEVER_REGISTERED_0: &'static str = "The DLSS 5 add-on never registered. renodx-dlss5.addon64 is missing from ";
pub const ADDON_NEVER_REGISTERED_1: &'static str = ", \
             disabled in ReShade's Add-ons tab, or quarantined by antivirus.";
pub const ADDON_DIR_32: &'static str = "host64\\ (where a 32-bit game's add-on lives)";
pub const ADDON_DIR_64: &'static str = "the game folder";
pub const NR_TOGGLED_ON: &'static str = "Neural rendering was toggled ON (F6).";
pub const NR_MAYBE_OFF: &'static str = "The log's last F6 state may be OFF — press F6 in game and watch the add-on's panel.";
pub const NR_RAN: &'static str = "Neural rendering ran: the add-on evaluated the DLSS 5 model on real frames. If the \
             picture still looks unchanged, raise NR Intensity / Local Structure in its panel — \
             the default is subtle.";
pub const NR_NOT_EVALUATED: &'static str = "The add-on saw the game's DLSS but has not evaluated the model yet (feature 18 never \
             created). Enable DLSS in the game's own graphics settings and enable neural rendering \
             in the add-on panel.";
pub const FEEDER_LEFT_IN_NATIVE: &'static str = "Mode is Native DLSS (game ships its own DLSS), but dlss5-feed.addon64 is still \
                 present. Feeder Optimize does not apply here — NR is game/renodx. Run Remove \
                 (incl. Feeder leftovers) or Install again so Native cleanup drops the Feeder.";
pub const NO_NGX_CALL_DX11: &'static str = "No NGX call was intercepted, and this is a Direct3D 11 game with its own \
                 DLSS: the add-on hooks the D3D12 NGX entry points, but the game calls the \
                 D3D11 ones, so it can never see them. The DX11 bridge covers exactly this \
                 and is not installed here — run Install on this exe.";
pub const NO_NGX_CALL: &'static str = "No NGX call was intercepted: this game's own DLSS never ran. Turn DLSS on \
                 in the game's graphics settings (the add-on hooks the game's DLSS calls; \
                 without them it has nothing to work with).";
pub const WINE_HLSL_0: &'static str = "The effects failed to compile in Wine/Proton's own HLSL compiler: ";
pub const WINE_HLSL_1: &'static str = " \
             That message comes from vkd3d-shader, which Wine's d3dcompiler_47.dll uses; \
             ReShade emits attributes it has not implemented. What a reporter measured working \
             (#76, Proton 10.0-4, Elden Ring, no launch options at all): put a copy of \
             Microsoft's real d3dcompiler_47.dll in the game folder, beside the executable. \
             The feed then reports it as \"not System32, but it accepts cs_5_1 -- fine\" and \
             the effects compile. If the prefix still loads Wine's copy instead, add \
             WINEDLLOVERRIDES=\"d3dcompiler_47=n\" %command% to the launch options; \
             protontricks <appid> d3dcompiler_47 (or winetricks d3dcompiler_47) puts the real \
             one in the prefix if you do not have a copy to hand.";
pub const COMPILER_TOO_OLD_1: &'static str = " — the HLSL compiler in this process is too old for the DLSS 5 pass. That is \
             a d3dcompiler_47.dll shipped with the game, loaded in preference to System32's. \
             Rename it (d3dcompiler_47.dll.bak) and start the game again.";
pub const OTHER_EXE_LOADED_0: &'static str = "ReShade loaded into ";
pub const OTHER_EXE_LOADED_1: &'static str = ", but this install was set up for ";
pub const OTHER_EXE_LOADED_2: &'static str = ". Those are \
                 different executables, and the install is tuned to the one you picked (the \
                 DX11 bridge in particular). Point the tool at ";
pub const OTHER_EXE_LOADED_3: &'static str = " and run Install again.";
pub const BRIDGE_STOPPED_0: &'static str = "The DX11 bridge stopped: ";
pub const REDIST_IN_FORCE_0: &'static str = "The copy in force here is ";
pub const REDIST_IN_FORCE_1: &'static str = " (";
pub const REDIST_IN_FORCE_2: &'static str = "). Rename it and start the game \
                         again: it falls back to the Windows runtime, which every device in \
                         the process can match. If the game will not start without it, verify \
                         the game files instead -- a D3D12Core.dll replaced or truncated by \
                         another tool gives exactly this error.";
pub const REDIST_MISSING: &'static str = "No D3D12Core.dll is next to the exe or in a D3D12 folder here, so the \
                         declaration points somewhere else or the file is missing outright. \
                         Verify the game files.";
pub const INVALID_REDIST_1: &'static str = " — 0x887E0003 is D3D12_ERROR_INVALID_REDIST: the executable declares its own \
                 DirectX 12 Agility SDK (D3D12SDKVersion/D3D12SDKPath exports), and until that \
                 declaration is satisfied no D3D12 device can be created in this process at \
                 all -- not the bridge's, not the game's. Not something this tool sets. ";
pub const BRIDGE_DELIVERING: &'static str = "The DX11 bridge opened its D3D12 session and is delivering frames.";
pub const NO_FEED_LOG: &'static str = "No dlss5-feed.log: DLSS5-Feeder never started. Its add-on is missing or disabled \
                 in ReShade's Add-ons tab.";
pub const FEED_FEATURE_READY: &'static str = "DLSS5-Feeder built its DLSS feature (feature ready … DLAA).";
pub const FRAMES_DELIVERED: &'static str = "Frames were delivered to the model.";
pub const FEED_FX_NOT_COMPILING: &'static str = "DLSS5_Feed.fx is not compiling. Its shader files are missing from \
                 reshade-shaders\\Shaders — re-run Install.";
pub const MV_PROVIDER_OFF: &'static str = "The motion-vector provider is not enabled. In ReShade's Home tab enable \
                 \"LUMENITE: Kernel 2.0\" ABOVE \"DLSS5_Feed\", then reload effects.";
pub const HOST_FEATURE_READY: &'static str = "The host64 helper built its DLSS feature (feature ready … DLAA).";
pub const NO_HOST_LOG: &'static str = "No host64\\dlss5-feed-host.log yet: the 64-bit helper has not started. It is \
                 spawned by the first fed frame, so enable Lumenite_Kernel + DLSS5_Feed in \
                 ReShade's Home tab and play a moment first.";
pub const FEEDER_OLD_0: &'static str = "DLSS5-Feeder ";
pub const FEEDER_OLD_1: &'static str = " in the log is older than ";
pub const FEEDER_OLD_2: &'static str = "; re-run Install \
                     to refresh it (since 0.9.1 an existing Feeder is updated).";
pub const MV_ALL_ZERO: &'static str = "Motion vectors are all zero: the provider is enabled but writes nothing. Check \
                 that Lumenite_Kernel sits above DLSS5_Feed in the technique list.";
pub const DLSS_UNAVAILABLE: &'static str = "NGX reported DLSS unavailable. nvngx_dlss.dll must sit next to the game exe — \
                 re-run Install, and make sure antivirus did not remove it.";
pub const HALVES_DIFFER_0: &'static str = "The two halves of the 32-bit install are from different releases: ";
pub const HALVES_DIFFER_1: &'static str = " \
                 Run Install again — since 0.13.4 both halves are taken from one download and \
                 each records the release it came from, so this cannot happen silently.";
pub const MEASURED_FAIL_CLASSIC_0: &'static str = "The host warns that this add-on build and your driver are a combination it \
                     measured failing. You are already on the classic build it recommends \
                     (";
pub const MEASURED_FAIL_CLASSIC_1: &'static str = ") — every build of that add-on reports the same FileVersion, so the \
                     host cannot tell them apart and warns either way. Nothing to do here.";
pub const MEASURED_FAIL_PIN_0: &'static str = "The host measured this add-on build failing on your driver. Run Install \
                     again: it reads that verdict out of this log and pins the classic build \
                     (";
pub const MEASURED_FAIL_PIN_1: &'static str = ") by itself.";
pub const CREATE_FAULTED: &'static str = "The DLSS feature create faulted inside the driver (access violation),                  and the feed stopped: it cannot safely call back in, because the neural                  consumer's own code was on the faulting stack and its locks were skipped by the                  unwind.";
pub const FAULT_STACK_0: &'static str = " Fault stack: ";
pub const FAULT_STACK_1: &'static str = ".";
pub const NVNGX_ADVICE_PROTON: &'static str = " On Windows the usual next step is moving the game-local nvngx_dlss.dll \
                         aside, because two copies of the NGX module are loaded and the add-on \
                         hooks both. Do NOT do that here: this is Wine/Proton, where the driver's \
                         own NGX does not provide DLSS, and removing the game-local copy has been \
                         measured to leave DLSS unavailable entirely.";
pub const NVNGX_ADVICE_WINDOWS: &'static str = " The log names the most likely cause: two copies of the DLSS NGX module \
                         are loaded — the game-local nvngx_dlss.dll and the driver's own \
                         _nvngx.dll — and the add-on hooks both. Try moving nvngx_dlss.dll out of \
                         the game folder (to nvngx_dlss.dll.off) and starting the game again \
                         WITHOUT re-running Install, which would put it back.";
pub const WORK_RES_FAILED_0: &'static str = "The feed could not build its textures at ";
pub const WORK_RES_FAILED_1: &'static str = " of the frame: \
                 \"work-resolution staging SRV failed\", three times, and then it stopped. This \
                 game does not accept the reduced work-resolution path. Set it back to full size \
                 — Settings ▸ Feeder knobs ▸ work_resolution = 100 and work_upscale = 0, or pick \
                 the High quality preset — and start the game again. Everything downstream of this \
                 (no DLSS create, the in-game toggle doing nothing) follows from it.";
pub const FEED_STOPPED_0: &'static str = "The feed stopped itself: ";
pub const FEED_CRASH: &'static str = "The feed recorded a crash inside the DLSS 5 add-on (upstream issue #16). Play in \
                 borderless/windowed rather than exclusive fullscreen, and raise create_delay in \
                 dlss5-feed.cfg.";
pub const UPSTREAM_REFUSED_0: &'static str = "ReShade refused to load nvngx.dll.addon64 (Neural Upstream), error code ";
pub const UPSTREAM_REFUSED_1: &'static str = ".";
pub const UPSTREAM_REGISTERED: &'static str = "The Neural Upstream add-on (DLSS5 NR Pre-Upscale) registered.";
pub const UPSTREAM_NEVER_REGISTERED: &'static str = "The Neural Upstream add-on never registered. nvngx.dll.addon64 is missing from              the game folder, disabled in ReShade's Add-ons tab, or quarantined by antivirus.";
pub const UPSTREAM_NOT_HOOKED: &'static str = "Neural Upstream could not hook the game's NGX evaluate: the game's DLSS runtime              was not loaded when the add-on looked for it. Turn DLSS on in the game's graphics              settings and restart the game.";
pub const UPSTREAM_RAN: &'static str = "Neural rendering ran: Neural Upstream evaluated the DLSS 5 model at render              resolution on real frames. If the picture looks unchanged, raise EffectStrength              (F6) in the add-on's ReShade panel.";
pub const UPSTREAM_EVAL_FAILS_0: &'static str = "Neural Upstream created its network but evaluating it fails: ";
pub const UPSTREAM_CREATE_FAILS_0: &'static str = "Neural Upstream could not create the DLSS 5 network: ";
pub const UPSTREAM_WRONG_MODEL: &'static str = "nvngx_dlssnr.dll beside the game is not the build Neural Upstream expects              (its NGX exports are missing). Run Install again to refresh the model.";
pub const UPSTREAM_NO_NETWORK: &'static str = "The game's DLSS is running frames through the add-on, but the DLSS 5 network was              never created. Press F7 in game (DLSS-NR on/off) and check the add-on's panel;              if it stays off, attach this log.";
pub const UPSTREAM_NO_FRAME: &'static str = "The game created its DLSS feature but never rendered a frame through it: the              session ended at a menu or loading screen. Load into gameplay, play for a minute,              then run this again.";
pub const UPSTREAM_NO_NGX_CALL: &'static str = "No NGX call was intercepted: this game's own DLSS never ran. Turn DLSS on in the              game's graphics settings (the add-on hooks the game's DLSS calls; without them it              has nothing to work with).";

} // verus!
