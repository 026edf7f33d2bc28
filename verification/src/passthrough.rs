//! When local switching is bypassed for a maximized or fullscreen remote-desktop session.

use crate::input::HookSettings;
use crate::text::{ascii_case_equal, ascii_case_eq, lemma_ascii_case_equivalence};
use vstd::prelude::*;

verus! {

/// Whether the switcher should intercept desktop switching for the current foreground window.
#[derive(Clone, Copy, Debug, Default, PartialEq, Eq, Structural)]
pub enum PassthroughPolicy {
    /// The switcher replaces Alt+Tab and Win+Tab as usual.
    #[default]
    Local,
    /// A maximized or fullscreen remote-desktop client owns Alt+Tab and Win+Tab.
    RemoteDesktopFullscreen,
}

impl PassthroughPolicy {
    /// Fresh hook threads start with local switching until the UI thread applies this policy.
    pub const INITIAL: Self = Self::Local;

    pub fn from_foreground(is_rdp_client: bool, maximized_or_fullscreen: bool) -> (policy: Self)
        ensures
            policy == (if is_rdp_client && maximized_or_fullscreen {
                PassthroughPolicy::RemoteDesktopFullscreen
            } else {
                PassthroughPolicy::Local
            }),
    {
        if is_rdp_client && maximized_or_fullscreen {
            Self::RemoteDesktopFullscreen
        } else {
            Self::Local
        }
    }

    /// The policy that a bypass flag names.
    pub open spec fn flag_policy(bypass_local_switching: bool) -> Self {
        if bypass_local_switching {
            PassthroughPolicy::RemoteDesktopFullscreen
        } else {
            PassthroughPolicy::Local
        }
    }

    /// The hook settings under this policy: a bypass turns off both Tab replacements and keeps
    /// everything else.
    pub open spec fn applied(self, settings: HookSettings) -> HookSettings {
        if self.spec_bypasses() {
            HookSettings { replace_alt_tab: false, replace_win_tab: false, ..settings }
        } else {
            settings
        }
    }

    pub fn from_bypass_flag(bypass_local_switching: bool) -> (policy: Self)
        ensures
            policy == Self::flag_policy(bypass_local_switching),
    {
        if bypass_local_switching {
            Self::RemoteDesktopFullscreen
        } else {
            Self::Local
        }
    }

    pub open spec fn spec_bypasses(self) -> bool {
        self == PassthroughPolicy::RemoteDesktopFullscreen
    }

    pub fn bypasses_local_switching(self) -> (bypasses: bool)
        ensures
            bypasses == self.spec_bypasses(),
    {
        matches!(self, Self::RemoteDesktopFullscreen)
    }

    /// The hook settings under this policy: a bypass turns off both Tab replacements and keeps
    /// everything else.
    pub fn apply(self, settings: HookSettings) -> (applied: HookSettings)
        ensures
            applied == self.applied(settings),
    {
        if !self.bypasses_local_switching() {
            return settings;
        }
        HookSettings { replace_alt_tab: false, replace_win_tab: false, ..settings }
    }
}

/// The window classes of remote-desktop clients.
pub open spec fn remote_desktop_classes() -> Seq<Seq<char>> {
    seq!["TscShellContainerClass"@, "IHWindowClass"@, "UIMainClass"@, "TSSHELLWND"@]
}

/// The executable names, without extension, of remote-desktop clients.
pub open spec fn remote_desktop_executables() -> Seq<Seq<char>> {
    seq!["mstsc"@, "msrdc"@, "msrdcw"@]
}

/// Whether a window of class `class_name` from `executable_stem` is a remote-desktop client;
/// both compare without regard to ASCII case.
pub open spec fn is_remote_desktop(class_name: Seq<char>, executable_stem: Seq<char>) -> bool {
    (exists|i: int|
        0 <= i < remote_desktop_classes().len() && ascii_case_equal(
            #[trigger] remote_desktop_classes()[i],
            class_name,
        )) || (exists|i: int|
        0 <= i < remote_desktop_executables().len() && ascii_case_equal(
            #[trigger] remote_desktop_executables()[i],
            executable_stem,
        ))
}

pub fn is_remote_desktop_client(class_name: &str, executable_stem: &str) -> (remote: bool)
    ensures
        remote == is_remote_desktop(class_name@, executable_stem@),
{
    let classes = ["TscShellContainerClass", "IHWindowClass", "UIMainClass", "TSSHELLWND"];
    let executables = ["mstsc", "msrdc", "msrdcw"];
    proof {
        reveal_strlit("TscShellContainerClass");
        reveal_strlit("IHWindowClass");
        reveal_strlit("UIMainClass");
        reveal_strlit("TSSHELLWND");
        reveal_strlit("mstsc");
        reveal_strlit("msrdc");
        reveal_strlit("msrdcw");
    }
    let ghost class_names = remote_desktop_classes();
    let ghost executable_names = remote_desktop_executables();
    let mut index: usize = 0;
    while index < 4
        invariant
            index <= 4,
            class_names == remote_desktop_classes(),
            forall|i: int| 0 <= i < 4 ==> (#[trigger] classes@[i])@ == class_names[i],
            forall|i: int| 0 <= i < index ==> !ascii_case_equal(class_names[i], class_name@),
        decreases 4 - index,
    {
        if ascii_case_eq(classes[index], class_name) {
            return true;
        }
        index = index + 1;
    }
    let mut index: usize = 0;
    while index < 3
        invariant
            index <= 3,
            class_names == remote_desktop_classes(),
            executable_names == remote_desktop_executables(),
            forall|i: int| 0 <= i < 4 ==> !ascii_case_equal(class_names[i], class_name@),
            forall|i: int| 0 <= i < 3 ==> (#[trigger] executables@[i])@ == executable_names[i],
            forall|i: int|
                0 <= i < index ==> !ascii_case_equal(executable_names[i], executable_stem@),
        decreases 3 - index,
    {
        if ascii_case_eq(executables[index], executable_stem) {
            return true;
        }
        index = index + 1;
    }
    false
}

/// A window is taken for a remote-desktop client exactly when its class is one of the Remote
/// Desktop Connection, Windows App, VMware Horizon and Terminal Services shell classes
/// (`TscShellContainerClass`, `IHWindowClass`, `UIMainClass`, `TSSHELLWND`), or its executable is
/// `mstsc`, `msrdc` or `msrdcw`, each in any ASCII case.
pub proof fn law_remote_desktop_clients(class_name: Seq<char>, executable_stem: Seq<char>)
    ensures
        is_remote_desktop(class_name, executable_stem) == (ascii_case_equal(
            "TscShellContainerClass"@,
            class_name,
        ) || ascii_case_equal("IHWindowClass"@, class_name) || ascii_case_equal(
            "UIMainClass"@,
            class_name,
        ) || ascii_case_equal("TSSHELLWND"@, class_name) || ascii_case_equal(
            "mstsc"@,
            executable_stem,
        ) || ascii_case_equal("msrdc"@, executable_stem) || ascii_case_equal(
            "msrdcw"@,
            executable_stem,
        )),
        is_remote_desktop("TscShellContainerClass"@, executable_stem),
        is_remote_desktop("IHWindowClass"@, executable_stem),
        is_remote_desktop("UIMainClass"@, executable_stem),
        is_remote_desktop("TSSHELLWND"@, executable_stem),
        is_remote_desktop(class_name, "mstsc"@),
        is_remote_desktop(class_name, "msrdc"@),
        is_remote_desktop(class_name, "msrdcw"@),
{
    let classes = remote_desktop_classes();
    let executables = remote_desktop_executables();
    assert(classes[0] == "TscShellContainerClass"@);
    assert(classes[1] == "IHWindowClass"@);
    assert(classes[2] == "UIMainClass"@);
    assert(classes[3] == "TSSHELLWND"@);
    assert(executables[0] == "mstsc"@);
    assert(executables[1] == "msrdc"@);
    assert(executables[2] == "msrdcw"@);
    lemma_ascii_case_equivalence("TscShellContainerClass"@, "TscShellContainerClass"@, "TscShellContainerClass"@);
    lemma_ascii_case_equivalence("IHWindowClass"@, "IHWindowClass"@, "IHWindowClass"@);
    lemma_ascii_case_equivalence("UIMainClass"@, "UIMainClass"@, "UIMainClass"@);
    lemma_ascii_case_equivalence("TSSHELLWND"@, "TSSHELLWND"@, "TSSHELLWND"@);
    lemma_ascii_case_equivalence("mstsc"@, "mstsc"@, "mstsc"@);
    lemma_ascii_case_equivalence("msrdc"@, "msrdc"@, "msrdc"@);
    lemma_ascii_case_equivalence("msrdcw"@, "msrdcw"@, "msrdcw"@);
}

/// Whether `window` covers `monitor`; both are left, top, right, bottom.
pub fn window_fills_monitor(window: [i32; 4], monitor: [i32; 4]) -> (fills: bool)
    ensures
        fills == (window[0] <= monitor[0] && window[1] <= monitor[1] && window[2] >= monitor[2]
            && window[3] >= monitor[3]),
{
    window[0] <= monitor[0] && window[1] <= monitor[1] && window[2] >= monitor[2] && window[3]
        >= monitor[3]
}


/// A policy sent to a hook thread as its bypass flag arrives as the same policy, and a flag
/// read back from the policy it names is the same flag.
pub proof fn law_bypass_flag_round_trip(policy: PassthroughPolicy, flag: bool)
    ensures
        PassthroughPolicy::flag_policy(policy.spec_bypasses()) == policy,
        PassthroughPolicy::flag_policy(flag).spec_bypasses() == flag,
{
}

/// A policy leaves every hook setting but the two Tab replacements as it was, the local policy
/// leaves them all, and applying a policy twice changes nothing more.
pub proof fn law_policy_only_turns_off_tab_replacement(
    policy: PassthroughPolicy,
    settings: HookSettings,
)
    ensures
        policy.applied(settings) == (HookSettings {
            replace_alt_tab: policy.applied(settings).replace_alt_tab,
            replace_win_tab: policy.applied(settings).replace_win_tab,
            ..settings
        }),
        policy.applied(settings).replace_alt_tab ==> settings.replace_alt_tab,
        policy.applied(settings).replace_win_tab ==> settings.replace_win_tab,
        PassthroughPolicy::Local.applied(settings) == settings,
        !PassthroughPolicy::RemoteDesktopFullscreen.applied(settings).replace_alt_tab,
        !PassthroughPolicy::RemoteDesktopFullscreen.applied(settings).replace_win_tab,
        PassthroughPolicy::flag_policy(true) == PassthroughPolicy::RemoteDesktopFullscreen,
        PassthroughPolicy::flag_policy(false) == PassthroughPolicy::Local,
        policy.applied(policy.applied(settings)) == policy.applied(settings),
{
}

} // verus!
