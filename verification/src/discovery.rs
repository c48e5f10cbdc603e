//! Installed copies of the application, as the discovery query reports
//! them, and what the library derives from them.

use vstd::prelude::*;
use crate::command::{Invocation, InvocationView, ToolOperation, ToolOperationView};
use crate::command::{argument_list_of, shell_invocation_of, start_process_text};
use crate::ledger::{InstalledPreset, InstalledPresetView, Ledger, LedgerView};
use crate::path::{
    classify, file_name, file_name_of, join_path, joined_path, last_segment, name_start,
    protection_of, ProtectionLevel,
};
use crate::text::{chars_of, replace_char, replaced, text_of, texts};

verus! {

/// One installed copy of the application.
#[derive(Debug, PartialEq, Eq)]
pub struct Installation {
    pub friendly_name: String,
    pub install_location: String,
    pub preview: bool,
    /// What the ledger says was last installed there.
    pub installed_preset: Option<InstalledPreset>,
}

/// What an [`Installation`] holds, as text.
pub struct InstallationView {
    pub friendly_name: Seq<char>,
    pub install_location: Seq<char>,
    pub preview: bool,
    pub installed_preset: Option<InstalledPresetView>,
}

impl View for Installation {
    type V = InstallationView;

    open spec fn view(&self) -> InstallationView {
        InstallationView {
            friendly_name: self.friendly_name@,
            install_location: self.install_location@,
            preview: self.preview,
            installed_preset: match self.installed_preset {
                Some(p) => Some(p@),
                None => None,
            },
        }
    }
}

/// The views of a list of installations, in order.
pub open spec fn installation_views(list: Seq<Installation>) -> Seq<InstallationView> {
    Seq::new(list.len(), |i: int| list[i]@)
}

/// The installation that a version directory of a launcher stands for: it
/// is named `launcher - version` after the directory's file name, lies at
/// the directory, and is no preview. A path without a file name stands for
/// none.
pub open spec fn launcher_install_of(launcher: Seq<char>, dir: Seq<char>) -> Option<
    InstallationView,
> {
    match file_name_of(dir) {
        Some(version) => Some(
            InstallationView {
                friendly_name: launcher + " - "@ + version,
                install_location: dir,
                preview: false,
                installed_preset: None,
            },
        ),
        None => None,
    }
}

/// Computes [`launcher_install_of`].
pub fn launcher_installation(launcher_name: &str, dir: &str) -> (r: Option<Installation>)
    ensures
        match r {
            Some(i) => launcher_install_of(launcher_name@, dir@) == Some(i@),
            None => launcher_install_of(launcher_name@, dir@) is None,
        },
{
    match file_name(dir) {
        Some(version) => {
            let mut friendly_name = launcher_name.to_owned();
            friendly_name.append(" - ");
            friendly_name.append(version.as_str());
            Some(
                Installation {
                    friendly_name,
                    install_location: dir.to_owned(),
                    preview: false,
                    installed_preset: None,
                },
            )
        },
        None => None,
    }
}

/// An installation with what the ledger holds for its location.
pub open spec fn annotated(i: InstallationView, ledger: LedgerView) -> InstallationView {
    InstallationView {
        installed_preset: if ledger.contains_key(i.install_location) {
            Some(ledger[i.install_location])
        } else {
            None
        },
        ..i
    }
}

/// Gives each installation the preset that the ledger holds for its
/// location, or none.
pub fn annotate(installations: Vec<Installation>, ledger: &Ledger) -> (out: Vec<Installation>)
    ensures
        out@.len() == installations@.len(),
        forall|i: int|
            0 <= i < out@.len() ==> (#[trigger] out@[i])@ == annotated(installations@[i]@, ledger@),
{
    let mut out: Vec<Installation> = Vec::new();
    let mut i: usize = 0;
    while i < installations.len()
        invariant
            i <= installations.len(),
            out@.len() == i,
            forall|j: int|
                0 <= j < i ==> (#[trigger] out@[j])@ == annotated(installations@[j]@, ledger@),
        decreases installations.len() - i,
    {
        let one = &installations[i];
        out.push(
            Installation {
                friendly_name: one.friendly_name.clone(),
                install_location: one.install_location.clone(),
                preview: one.preview,
                installed_preset: ledger.get(one.install_location.as_str()),
            },
        );
        i = i + 1;
    }
    out
}

/// The locations of a list of installations, in order.
pub open spec fn locations_of(list: Seq<InstallationView>) -> Seq<Seq<char>> {
    Seq::new(list.len(), |i: int| list[i].install_location)
}

/// Computes [`locations_of`].
pub fn install_locations(installations: &Vec<Installation>) -> (out: Vec<String>)
    ensures
        texts(out@) == locations_of(installation_views(installations@)),
{
    let mut out: Vec<String> = Vec::new();
    let mut i: usize = 0;
    while i < installations.len()
        invariant
            i <= installations.len(),
            out@.len() == i,
            forall|j: int| 0 <= j < i ==> out@[j]@ == installations@[j].install_location@,
        decreases installations.len() - i,
    {
        out.push(installations[i].install_location.clone());
        i = i + 1;
    }
    assert(texts(out@) =~= locations_of(installation_views(installations@)));
    out
}

/// The name under which an installation's backup is filed: the last
/// segment of its location, with `_` for every space.
pub open spec fn backup_instance_of(location: Seq<char>) -> Seq<char> {
    replaced(last_segment(location), ' ', "_"@)
}

/// Computes [`backup_instance_of`].
pub fn backup_instance_name(install_location: &str) -> (out: String)
    ensures
        out@ == backup_instance_of(install_location@),
{
    let p = chars_of(install_location);
    let mut at: usize = p.len();
    while at > 0 && !(p[at - 1] == '/' || p[at - 1] == '\\')
        invariant
            at <= p.len(),
            forall|j: int| at <= j < p.len() ==> !crate::path::is_separator(p@[j]),
        decreases at,
    {
        at = at - 1;
    }
    proof {
        crate::path::lemma_name_start_unique(p@, at as int);
    }
    let mut tail: Vec<char> = Vec::new();
    let mut i: usize = at;
    while i < p.len()
        invariant
            at <= i <= p.len(),
            tail@ == p@.subrange(at as int, i as int),
        decreases p.len() - i,
    {
        tail.push(p[i]);
        i = i + 1;
    }
    let segment = text_of(&tail);
    replace_char(segment.as_str(), ' ', "_")
}

/// The file name of a backup archive of the instance `instance` made at
/// the time that `stamp` spells out.
pub open spec fn backup_archive_of(instance: Seq<char>, stamp: Seq<char>) -> Seq<char> {
    "betterrtx_backup_"@ + instance + "_"@ + stamp + ".rtpack"@
}

/// The current local time to the minute, as `YYYY-MM-DD_HH-MM`, read with
/// `chrono::Local::now` and printed with `DateTime::format`. Nothing is
/// claimed of the text: it depends on the clock and on the time zone of
/// the machine.
#[verifier::external_body]
fn local_minute_stamp() -> String {
    chrono::Local::now().format("%Y-%m-%d_%H-%M").to_string()
}

/// Computes [`backup_archive_of`].
pub fn backup_archive_name_at(install_location: &str, stamp: &str) -> (out: String)
    ensures
        out@ == backup_archive_of(backup_instance_of(install_location@), stamp@),
{
    let mut out = "betterrtx_backup_".to_owned();
    out.append(backup_instance_name(install_location).as_str());
    out.append("_");
    out.append(stamp);
    out.append(".rtpack");
    out
}

/// The file name of a backup archive made now: [`backup_archive_of`] for
/// the installation's instance name and whatever the local clock reads.
pub fn backup_archive_name(install_location: &str) -> (out: String)
    ensures
        exists|stamp: Seq<char>|
            out@ == backup_archive_of(backup_instance_of(install_location@), stamp),
{
    let stamp = local_minute_stamp();
    let out = backup_archive_name_at(install_location, stamp.as_str());
    assert(out@ == backup_archive_of(backup_instance_of(install_location@), stamp@));
    out
}

/// Whether a directory looks like an install of the application, from
/// what was found there. A directory that does not exist never does; one
/// that exists does where it holds `data`, `AppxManifest.xml`,
/// `Minecraft.exe` or the materials directory.
pub open spec fn looks_like_install_of(
    exists: bool,
    has_data: bool,
    has_manifest: bool,
    has_executable: bool,
    has_materials_dir: bool,
) -> bool {
    exists && (has_data || has_manifest || has_executable || has_materials_dir)
}

/// Computes [`looks_like_install_of`].
pub fn looks_like_install(
    exists: bool,
    has_data: bool,
    has_manifest: bool,
    has_executable: bool,
    has_materials_dir: bool,
) -> (r: bool)
    ensures
        r == looks_like_install_of(exists, has_data, has_manifest, has_executable, has_materials_dir),
{
    if !exists {
        return false;
    }
    let has_indicators = has_data || has_manifest || has_executable;
    let has_structure = has_materials_dir || has_data;
    has_indicators || has_structure
}

/// How the upscaler library gets into one installation.
#[derive(Debug, PartialEq, Eq)]
pub enum DlssStep {
    /// The target is in ordinary storage: copy the file.
    CopyDirectly { from: String, to: String },
    /// The target is in the package store and the privileged tool is
    /// there: run its delete pass, whose failure does not matter, then its
    /// copy pass.
    UseTool { delete: Invocation, copy: Invocation },
    /// The target is in the package store and there is no tool.
    Unavailable,
}

/// What a [`DlssStep`] holds, as text.
pub enum DlssStepView {
    CopyDirectly { from: Seq<char>, to: Seq<char> },
    UseTool { delete: InvocationView, copy: InvocationView },
    Unavailable,
}

impl View for DlssStep {
    type V = DlssStepView;

    open spec fn view(&self) -> DlssStepView {
        match self {
            DlssStep::CopyDirectly { from, to } => DlssStepView::CopyDirectly {
                from: from@,
                to: to@,
            },
            DlssStep::UseTool { delete, copy } => DlssStepView::UseTool {
                delete: delete@,
                copy: copy@,
            },
            DlssStep::Unavailable => DlssStepView::Unavailable,
        }
    }
}

/// Where the upscaler library lies in an installation.
pub open spec fn dlss_destination_of(location: Seq<char>) -> Seq<char> {
    joined_path(location, "nvngx_dlss.dll"@)
}

/// How the library at `source` gets into the installation at `location`,
/// with the privileged tool at `tool` if there is one.
pub open spec fn dlss_step_of(location: Seq<char>, source: Seq<char>, tool: Option<Seq<char>>)
    -> DlssStepView {
    let dest = dlss_destination_of(location);
    match (protection_of(location), tool) {
        (ProtectionLevel::Open, _) => DlssStepView::CopyDirectly { from: source, to: dest },
        (ProtectionLevel::Protected, Some(t)) => DlssStepView::UseTool {
            delete: shell_invocation_of(
                start_process_text(
                    t,
                    argument_list_of(ToolOperationView::Delete { targets: seq![dest] }),
                ),
            ),
            copy: shell_invocation_of(
                start_process_text(
                    t,
                    argument_list_of(
                        ToolOperationView::Copy { sources: seq![source], destination: dest },
                    ),
                ),
            ),
        },
        (ProtectionLevel::Protected, None) => DlssStepView::Unavailable,
    }
}

/// Computes [`dlss_step_of`].
pub fn dlss_step(install_location: &str, source: &str, tool: Option<&str>) -> (r: DlssStep)
    ensures
        r@ == dlss_step_of(
            install_location@,
            source@,
            match tool {
                Some(t) => Some(t@),
                None => None,
            },
        ),
{
    let dest = join_path(install_location, "nvngx_dlss.dll");
    match classify(install_location) {
        ProtectionLevel::Open => DlssStep::CopyDirectly { from: source.to_owned(), to: dest },
        ProtectionLevel::Protected => match tool {
            Some(t) => {
                let mut targets: Vec<String> = Vec::new();
                targets.push(dest.clone());
                assert(texts(targets@) =~= seq![dest@]);
                let mut sources: Vec<String> = Vec::new();
                sources.push(source.to_owned());
                assert(texts(sources@) =~= seq![source@]);
                let delete = ToolOperation::Delete { targets };
                let copy = ToolOperation::Copy { sources, destination: dest };
                DlssStep::UseTool { delete: delete.invocation(t), copy: copy.invocation(t) }
            },
            None => DlssStep::Unavailable,
        },
    }
}

/// What a shell call that ran to its end yields: what it wrote to its
/// output where it succeeded, and what it wrote to its error stream where
/// it did not.
pub fn shell_result(success: bool, stdout: String, stderr: String) -> (r: Result<String, String>)
    ensures
        r == if success {
            Ok::<String, String>(stdout)
        } else {
            Err::<String, String>(stderr)
        },
{
    if success {
        Ok(stdout)
    } else {
        Err(stderr)
    }
}

/// The script that asks the package registry for the installed copies of
/// the application and prints them as a JSON list of `FriendlyName`,
/// `InstallLocation` and `Preview`.
pub open spec fn discovery_script_text() -> Seq<char> {
    "$ErrorActionPreference='Stop';\n$pkgs = Get-AppxPackage -Name 'Microsoft.Minecraft*' | Where-Object { $_.InstallLocation -notlike '*Java*' };\n$res = @();\nforeach ($mc in $pkgs) {\n  $name = (Get-AppxPackageManifest -Package $mc).Package.Properties.DisplayName;\n  $res += [PSCustomObject]@{ FriendlyName=$name; InstallLocation=$mc.InstallLocation; Preview= ($mc.InstallLocation -like '*Beta*' -or $name -like '*Preview*') };\n}\n$res | ConvertTo-Json -Depth 3\n"@
}

/// The invocation that runs the discovery script.
pub fn discovery_invocation() -> (r: Invocation)
    ensures
        r@ == shell_invocation_of(discovery_script_text()),
{
    crate::command::shell_invocation(
        "$ErrorActionPreference='Stop';\n$pkgs = Get-AppxPackage -Name 'Microsoft.Minecraft*' | Where-Object { $_.InstallLocation -notlike '*Java*' };\n$res = @();\nforeach ($mc in $pkgs) {\n  $name = (Get-AppxPackageManifest -Package $mc).Package.Properties.DisplayName;\n  $res += [PSCustomObject]@{ FriendlyName=$name; InstallLocation=$mc.InstallLocation; Preview= ($mc.InstallLocation -like '*Beta*' -or $name -like '*Preview*') };\n}\n$res | ConvertTo-Json -Depth 3\n".to_owned(),
    )
}

} // verus!
