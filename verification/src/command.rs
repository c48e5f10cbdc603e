//! The commands that the privileged passes run: which files the delete
//! pass names, and how each pass is written down for the shell.
//!
//! All quoting is done here. Callers hand over paths and get back complete
//! argument texts.

use vstd::prelude::*;
use crate::path::{file_name, file_name_of, join_path, joined_path, materials_dir, materials_dir_of};
use crate::text::{join, joined, replace_char, replaced, texts};

verus! {

/// The override file that every install is expected to hold for the stub.
pub open spec fn stub_name() -> Seq<char> {
    "RTXStub.material.bin"@
}

/// The override file that every install is expected to hold for tone
/// mapping.
pub open spec fn tonemapping_name() -> Seq<char> {
    "RTXPostFX.Tonemapping.material.bin"@
}

/// The override file that every install is expected to hold for bloom.
pub open spec fn bloom_name() -> Seq<char> {
    "RTXPostFX.Bloom.material.bin"@
}

/// The three well-known override file names, in the order in which the
/// delete pass names them.
pub open spec fn fixed_names() -> Seq<Seq<char>> {
    seq![stub_name(), tonemapping_name(), bloom_name()]
}

/// Computes [`fixed_names`].
pub fn override_file_names() -> (out: Vec<String>)
    ensures
        texts(out@) == fixed_names(),
{
    let mut out: Vec<String> = Vec::new();
    out.push("RTXStub.material.bin".to_owned());
    out.push("RTXPostFX.Tonemapping.material.bin".to_owned());
    out.push("RTXPostFX.Bloom.material.bin".to_owned());
    assert(texts(out@) =~= fixed_names());
    out
}

/// The file names of the paths that have one, in the order of the paths.
pub open spec fn base_names(paths: Seq<Seq<char>>) -> Seq<Seq<char>>
    decreases paths.len(),
{
    if paths.len() == 0 {
        Seq::empty()
    } else {
        match file_name_of(paths.last()) {
            Some(name) => base_names(paths.drop_last()).push(name),
            None => base_names(paths.drop_last()),
        }
    }
}

/// `names` with every repetition of an earlier name left out.
pub open spec fn without_repeats(names: Seq<Seq<char>>) -> Seq<Seq<char>>
    decreases names.len(),
{
    if names.len() == 0 {
        Seq::empty()
    } else if without_repeats(names.drop_last()).contains(names.last()) {
        without_repeats(names.drop_last())
    } else {
        without_repeats(names.drop_last()).push(names.last())
    }
}

/// The names that the delete pass removes from the materials directory:
/// the three well-known names, then the file names of the incoming
/// materials, each name once.
pub open spec fn delete_names(materials: Seq<Seq<char>>) -> Seq<Seq<char>> {
    without_repeats(fixed_names() + base_names(materials))
}

/// Whether `name` is among `list`.
pub fn holds_name(list: &Vec<String>, name: &String) -> (r: bool)
    ensures
        r == texts(list@).contains(name@),
{
    let mut i: usize = 0;
    while i < list.len()
        invariant
            i <= list.len(),
            forall|j: int| 0 <= j < i ==> texts(list@)[j] != name@,
        decreases list.len() - i,
    {
        if list[i] == *name {
            assert(texts(list@)[i as int] == name@);
            return true;
        }
        i = i + 1;
    }
    false
}

/// Computes [`base_names`].
pub fn material_file_names(materials: &Vec<String>) -> (out: Vec<String>)
    ensures
        texts(out@) == base_names(texts(materials@)),
{
    let mut out: Vec<String> = Vec::new();
    let mut i: usize = 0;
    assert(texts(materials@).take(0) =~= Seq::<Seq<char>>::empty());
    assert(texts(out@) =~= Seq::<Seq<char>>::empty());
    while i < materials.len()
        invariant
            i <= materials.len(),
            texts(out@) == base_names(texts(materials@).take(i as int)),
        decreases materials.len() - i,
    {
        let ghost before = texts(materials@).take(i as int);
        let ghost after = texts(materials@).take(i + 1);
        let ghost old_out = texts(out@);
        proof {
            assert(after.drop_last() =~= before);
            assert(after.last() == materials@[i as int]@);
        }
        match file_name(materials[i].as_str()) {
            Some(name) => {
                out.push(name);
                assert(texts(out@) =~= old_out.push(name@));
            },
            None => {},
        }
        i = i + 1;
    }
    assert(texts(materials@).take(materials@.len() as int) =~= texts(materials@));
    out
}

/// Computes [`without_repeats`].
pub fn dedup_names(names: &Vec<String>) -> (out: Vec<String>)
    ensures
        texts(out@) == without_repeats(texts(names@)),
{
    let mut out: Vec<String> = Vec::new();
    let mut i: usize = 0;
    assert(texts(names@).take(0) =~= Seq::<Seq<char>>::empty());
    assert(texts(out@) =~= Seq::<Seq<char>>::empty());
    while i < names.len()
        invariant
            i <= names.len(),
            texts(out@) == without_repeats(texts(names@).take(i as int)),
        decreases names.len() - i,
    {
        let ghost before = texts(names@).take(i as int);
        let ghost after = texts(names@).take(i + 1);
        let ghost old_out = texts(out@);
        proof {
            assert(after.drop_last() =~= before);
            assert(after.last() == names@[i as int]@);
        }
        if !holds_name(&out, &names[i]) {
            let name = names[i].clone();
            out.push(name);
            assert(texts(out@) =~= old_out.push(name@));
        }
        i = i + 1;
    }
    assert(texts(names@).take(names@.len() as int) =~= texts(names@));
    out
}

/// Computes [`delete_names`].
pub fn delete_file_names(materials: &Vec<String>) -> (out: Vec<String>)
    ensures
        texts(out@) == delete_names(texts(materials@)),
{
    let mut all = override_file_names();
    let mut extra = material_file_names(materials);
    let ghost fixed = texts(all@);
    let ghost more = texts(extra@);
    all.append(&mut extra);
    assert(texts(all@) =~= fixed + more);
    dedup_names(&all)
}

/// [`without_repeats`] keeps exactly the names of its argument.
pub proof fn lemma_without_repeats_keeps(names: Seq<Seq<char>>, n: Seq<char>)
    ensures
        without_repeats(names).contains(n) <==> names.contains(n),
    decreases names.len(),
{
    if names.len() > 0 {
        let front = names.drop_last();
        let last = names.last();
        lemma_without_repeats_keeps(front, n);
        let kept = without_repeats(front);
        let out = without_repeats(names);
        if out.contains(n) {
            let i = choose|i: int| 0 <= i < out.len() && out[i] == n;
            if i < kept.len() {
                assert(kept[i] == n);
                assert(kept.contains(n));
                assert(front.contains(n));
                let j = choose|j: int| 0 <= j < front.len() && front[j] == n;
                assert(names[j] == n);
            } else {
                assert(names[names.len() - 1] == n);
            }
        }
        if names.contains(n) {
            let j = choose|j: int| 0 <= j < names.len() && names[j] == n;
            if j < front.len() {
                assert(front[j] == n);
                assert(front.contains(n));
                assert(kept.contains(n));
                let i = choose|i: int| 0 <= i < kept.len() && kept[i] == n;
                assert(out[i] == n);
            } else {
                assert(n == last);
                if !kept.contains(last) {
                    assert(out[out.len() - 1] == last);
                } else {
                    let i = choose|i: int| 0 <= i < kept.len() && kept[i] == n;
                    assert(out[i] == n);
                }
            }
        }
    }
}

/// [`without_repeats`] holds no name twice.
pub proof fn lemma_without_repeats_is_distinct(names: Seq<Seq<char>>)
    ensures
        without_repeats(names).no_duplicates(),
    decreases names.len(),
{
    if names.len() > 0 {
        let front = names.drop_last();
        lemma_without_repeats_is_distinct(front);
        let kept = without_repeats(front);
        let out = without_repeats(names);
        if !kept.contains(names.last()) {
            assert forall|i: int, j: int|
                0 <= i < out.len() && 0 <= j < out.len() && i != j implies out[i] != out[j] by {
                if i < kept.len() && j < kept.len() {
                    assert(kept[i] != kept[j]);
                } else if i < kept.len() {
                    assert(kept[i] == out[i]);
                    if out[i] == out[j] {
                        assert(kept.contains(names.last()));
                    }
                } else {
                    assert(kept[j] == out[j]);
                    if out[i] == out[j] {
                        assert(kept.contains(names.last()));
                    }
                }
            }
        }
    }
}

/// The delete pass names each file once, and names exactly the three
/// well-known files and the file names of the incoming materials.
pub proof fn law_delete_names_are_the_union(materials: Seq<Seq<char>>, name: Seq<char>)
    ensures
        delete_names(materials).no_duplicates(),
        delete_names(materials).contains(name) <==> fixed_names().contains(name) || base_names(
            materials,
        ).contains(name),
{
    let all = fixed_names() + base_names(materials);
    lemma_without_repeats_is_distinct(all);
    lemma_without_repeats_keeps(all, name);
    if fixed_names().contains(name) {
        let i = choose|i: int| 0 <= i < fixed_names().len() && fixed_names()[i] == name;
        assert(all[i] == name);
    }
    if base_names(materials).contains(name) {
        let i = choose|i: int|
            0 <= i < base_names(materials).len() && base_names(materials)[i] == name;
        assert(all[fixed_names().len() + i] == name);
    }
    if all.contains(name) {
        let i = choose|i: int| 0 <= i < all.len() && all[i] == name;
        if i < fixed_names().len() {
            assert(fixed_names()[i] == name);
        } else {
            assert(base_names(materials)[i - fixed_names().len()] == name);
        }
    }
}

/// Each name of `names` as a path under `dir`.
pub open spec fn under(dir: Seq<char>, names: Seq<Seq<char>>) -> Seq<Seq<char>> {
    Seq::new(names.len(), |i: int| joined_path(dir, names[i]))
}

/// The paths that the delete pass removes for an install location and a
/// set of incoming materials.
pub open spec fn delete_targets_of(location: Seq<char>, materials: Seq<Seq<char>>) -> Seq<
    Seq<char>,
> {
    under(materials_dir_of(location), delete_names(materials))
}

/// Computes [`delete_targets_of`].
pub fn delete_targets(install_location: &str, materials: &Vec<String>) -> (out: Vec<String>)
    ensures
        texts(out@) == delete_targets_of(install_location@, texts(materials@)),
{
    let dir = materials_dir(install_location);
    let names = delete_file_names(materials);
    let mut out: Vec<String> = Vec::new();
    let mut i: usize = 0;
    while i < names.len()
        invariant
            i <= names.len(),
            out@.len() == i,
            forall|j: int| 0 <= j < i ==> out@[j]@ == joined_path(dir@, names@[j]@),
        decreases names.len() - i,
    {
        out.push(join_path(dir.as_str(), names[i].as_str()));
        i = i + 1;
    }
    assert(texts(out@) =~= under(dir@, texts(names@)));
    out
}

/// The destination of one material inside `dest_dir`: the directory
/// joined with the material's file name. A path without a file name has no
/// destination.
pub open spec fn destination_of(dest_dir: Seq<char>, material: Seq<char>) -> Option<Seq<char>> {
    match file_name_of(material) {
        Some(name) => Some(joined_path(dest_dir, name)),
        None => None,
    }
}

/// Computes [`destination_of`].
pub fn destination(dest_dir: &str, material: &str) -> (r: Option<String>)
    ensures
        match r {
            Some(d) => destination_of(dest_dir@, material@) == Some(d@),
            None => destination_of(dest_dir@, material@) is None,
        },
{
    match file_name(material) {
        Some(name) => Some(join_path(dest_dir, name.as_str())),
        None => None,
    }
}

/// One pass of the privileged tool.
#[derive(Debug, PartialEq, Eq)]
pub enum ToolOperation {
    /// Remove every one of `targets`.
    Delete { targets: Vec<String> },
    /// Copy every one of `sources` into the directory `destination`.
    Copy { sources: Vec<String>, destination: String },
}

/// What a [`ToolOperation`] holds, as text.
pub enum ToolOperationView {
    Delete { targets: Seq<Seq<char>> },
    Copy { sources: Seq<Seq<char>>, destination: Seq<char> },
}

impl View for ToolOperation {
    type V = ToolOperationView;

    open spec fn view(&self) -> ToolOperationView {
        match self {
            ToolOperation::Delete { targets } => ToolOperationView::Delete {
                targets: texts(targets@),
            },
            ToolOperation::Copy { sources, destination } => ToolOperationView::Copy {
                sources: texts(sources@),
                destination: destination@,
            },
        }
    }
}

/// The paths in double quotes with commas between them: `"a","b","c"`.
pub open spec fn quoted_list(paths: Seq<Seq<char>>) -> Seq<char> {
    "\""@ + joined(paths, "\",\""@) + "\""@
}

/// The argument text of a pass: `/Delete "t1","t2"` or
/// `/Copy "s1","s2" "dest"`.
pub open spec fn argument_list_of(op: ToolOperationView) -> Seq<char> {
    match op {
        ToolOperationView::Delete { targets } => "/Delete "@ + quoted_list(targets),
        ToolOperationView::Copy { sources, destination } => "/Copy "@ + quoted_list(sources)
            + " \""@ + destination + "\""@,
    }
}

/// `s` as it stands inside a single-quoted shell string: every `'`
/// doubled.
pub open spec fn single_quoted(s: Seq<char>) -> Seq<char> {
    replaced(s, '\'', "''"@)
}

/// The shell command that starts the tool with an argument text and waits
/// for it.
pub open spec fn start_process_text(tool: Seq<char>, arguments: Seq<char>) -> Seq<char> {
    "Start-Process -FilePath '"@ + single_quoted(tool) + "' -ArgumentList '"@ + single_quoted(
        arguments,
    ) + "' -Wait -PassThru"@
}

/// A program to run and its arguments.
#[derive(Debug, PartialEq, Eq)]
pub struct Invocation {
    pub program: String,
    pub args: Vec<String>,
}

/// What an [`Invocation`] holds, as text.
pub struct InvocationView {
    pub program: Seq<char>,
    pub args: Seq<Seq<char>>,
}

impl View for Invocation {
    type V = InvocationView;

    open spec fn view(&self) -> InvocationView {
        InvocationView { program: self.program@, args: texts(self.args@) }
    }
}

/// The invocation that hands `script` to the shell, with no profile and the
/// execution policy bypassed.
pub open spec fn shell_invocation_of(script: Seq<char>) -> InvocationView {
    InvocationView {
        program: "powershell.exe"@,
        args: seq!["-NoProfile"@, "-ExecutionPolicy"@, "Bypass"@, "-Command"@, script],
    }
}

/// Computes [`shell_invocation_of`].
pub fn shell_invocation(script: String) -> (r: Invocation)
    ensures
        r@ == shell_invocation_of(script@),
{
    let mut args: Vec<String> = Vec::new();
    args.push("-NoProfile".to_owned());
    args.push("-ExecutionPolicy".to_owned());
    args.push("Bypass".to_owned());
    args.push("-Command".to_owned());
    args.push(script);
    let r = Invocation { program: "powershell.exe".to_owned(), args };
    assert(r@.args =~= shell_invocation_of(script@).args);
    r
}

impl ToolOperation {
    /// Computes [`argument_list_of`].
    pub fn argument_list(&self) -> (out: String)
        ensures
            out@ == argument_list_of(self@),
    {
        match self {
            ToolOperation::Delete { targets } => {
                let list = join(targets, "\",\"");
                let mut out = "/Delete ".to_owned();
                out.append("\"");
                out.append(list.as_str());
                out.append("\"");
                assert(out@ =~= argument_list_of(self@));
                out
            },
            ToolOperation::Copy { sources, destination } => {
                let list = join(sources, "\",\"");
                let mut out = "/Copy ".to_owned();
                out.append("\"");
                out.append(list.as_str());
                out.append("\"");
                out.append(" \"");
                out.append(destination.as_str());
                out.append("\"");
                assert(out@ =~= argument_list_of(self@));
                out
            },
        }
    }

    /// The shell command that runs this pass with the tool at `tool`.
    pub fn shell_command(&self, tool: &str) -> (out: String)
        ensures
            out@ == start_process_text(tool@, argument_list_of(self@)),
    {
        let arguments = self.argument_list();
        let quoted_tool = replace_char(tool, '\'', "''");
        let quoted_arguments = replace_char(arguments.as_str(), '\'', "''");
        let mut out = "Start-Process -FilePath '".to_owned();
        out.append(quoted_tool.as_str());
        out.append("' -ArgumentList '");
        out.append(quoted_arguments.as_str());
        out.append("' -Wait -PassThru");
        out
    }

    /// The complete invocation that runs this pass with the tool at `tool`.
    pub fn invocation(&self, tool: &str) -> (r: Invocation)
        ensures
            r@ == shell_invocation_of(start_process_text(tool@, argument_list_of(self@))),
    {
        shell_invocation(self.shell_command(tool))
    }
}

/// `s` as it stands inside the elevated copy script: every `\` doubled,
/// then every `'` doubled.
pub open spec fn script_escaped(s: Seq<char>) -> Seq<char> {
    replaced(replaced(s, '\\', "\\\\"@), '\'', "''"@)
}

/// The statement of the elevated script that copies one file.
pub open spec fn copy_item_text(source: Seq<char>, dest: Seq<char>) -> Seq<char> {
    "Copy-Item '"@ + script_escaped(source) + "' '"@ + script_escaped(dest) + "' -Force; "@
}

/// The copy statements for `materials` into `dest_dir`, in order; `None`
/// where a material has no file name.
pub open spec fn copy_items_of(dest_dir: Seq<char>, materials: Seq<Seq<char>>) -> Option<
    Seq<char>,
>
    decreases materials.len(),
{
    if materials.len() == 0 {
        Some(Seq::empty())
    } else {
        match (
            copy_items_of(dest_dir, materials.drop_last()),
            destination_of(dest_dir, materials.last()),
        ) {
            (Some(front), Some(dest)) => Some(front + copy_item_text(materials.last(), dest)),
            _ => None,
        }
    }
}

/// The one script that asks for elevation and then copies every material
/// into `dest_dir`; `None` where a material has no file name.
pub open spec fn elevated_script_of(dest_dir: Seq<char>, materials: Seq<Seq<char>>) -> Option<
    Seq<char>,
> {
    match copy_items_of(dest_dir, materials) {
        Some(items) => Some(
            "Start-Process powershell -Verb RunAs -ArgumentList '-Command', '"@ + items
                + "' -Wait"@,
        ),
        None => None,
    }
}

/// Computes [`script_escaped`].
pub fn escape_for_script(s: &str) -> (out: String)
    ensures
        out@ == script_escaped(s@),
{
    let doubled = replace_char(s, '\\', "\\\\");
    replace_char(doubled.as_str(), '\'', "''")
}

/// Computes [`elevated_script_of`].
pub fn elevated_script(dest_dir: &str, materials: &Vec<String>) -> (r: Option<String>)
    ensures
        match r {
            Some(script) => elevated_script_of(dest_dir@, texts(materials@)) == Some(script@),
            None => elevated_script_of(dest_dir@, texts(materials@)) is None,
        },
{
    let mut out = "Start-Process powershell -Verb RunAs -ArgumentList '-Command', '".to_owned();
    let ghost head = out@;
    let mut i: usize = 0;
    assert(texts(materials@).take(0) =~= Seq::<Seq<char>>::empty());
    assert(out@ =~= head + Seq::<char>::empty());
    while i < materials.len()
        invariant
            i <= materials.len(),
            copy_items_of(dest_dir@, texts(materials@).take(i as int)) is Some,
            out@ == head + copy_items_of(dest_dir@, texts(materials@).take(i as int))->0,
        decreases materials.len() - i,
    {
        let ghost before = texts(materials@).take(i as int);
        let ghost after = texts(materials@).take(i + 1);
        proof {
            assert(after.drop_last() =~= before);
            assert(after.last() == materials@[i as int]@);
        }
        match destination(dest_dir, materials[i].as_str()) {
            Some(dest) => {
                let source = escape_for_script(materials[i].as_str());
                let target = escape_for_script(dest.as_str());
                let ghost so_far = out@;
                out.append("Copy-Item '");
                out.append(source.as_str());
                out.append("' '");
                out.append(target.as_str());
                out.append("' -Force; ");
                assert(out@ =~= so_far + copy_item_text(materials@[i as int]@, dest@));
                assert(out@ =~= head + copy_items_of(dest_dir@, after)->0);
            },
            None => {
                proof {
                    lemma_copy_items_prefix(dest_dir@, texts(materials@), i + 1);
                }
                return None;
            },
        }
        i = i + 1;
    }
    assert(texts(materials@).take(materials@.len() as int) =~= texts(materials@));
    out.append("' -Wait");
    Some(out)
}

/// Where the copy statements exist for a whole list, they exist for each
/// of its beginnings.
pub proof fn lemma_copy_items_prefix(dest_dir: Seq<char>, materials: Seq<Seq<char>>, n: int)
    requires
        0 <= n <= materials.len(),
        copy_items_of(dest_dir, materials.take(n)) is None,
    ensures
        copy_items_of(dest_dir, materials) is None,
    decreases materials.len(),
{
    if n < materials.len() {
        assert(materials.drop_last().take(n) =~= materials.take(n));
        lemma_copy_items_prefix(dest_dir, materials.drop_last(), n);
    } else {
        assert(materials.take(n) =~= materials);
    }
}

/// The complete invocation of the elevated copy; `None` where a material
/// has no file name.
pub fn elevated_invocation(dest_dir: &str, materials: &Vec<String>) -> (r: Option<Invocation>)
    ensures
        match r {
            Some(inv) => elevated_script_of(dest_dir@, texts(materials@)) matches Some(script)
                && inv@ == shell_invocation_of(script),
            None => elevated_script_of(dest_dir@, texts(materials@)) is None,
        },
{
    match elevated_script(dest_dir, materials) {
        Some(script) => Some(shell_invocation(script)),
        None => None,
    }
}

} // verus!
