//! The presets that install requests deploy: catalog entries, and the
//! stand-ins under which loose material files, creator builds, restores and
//! backups are recorded.

use vstd::prelude::*;
use crate::cache::{pack_views, PackInfo, PackInfoView};
use crate::clock::Instant;
use crate::command::{bloom_name, stub_name, tonemapping_name};
use crate::path::{
    extension_of, file_stem_of, join_path, joined_path, stem_and_extension,
};
use crate::text::{
    byte_prefix, contains, contains_text, decimal, decimal_of, ends_with, first_chars,
    has_suffix, lower, take_bytes, take_chars, texts, to_ascii_lower,
};

verus! {

/// The position of the first preset of `list` whose identity is `uuid`.
pub open spec fn first_with_uuid(list: Seq<PackInfoView>, uuid: Seq<char>) -> Option<int>
    decreases list.len(),
{
    if list.len() == 0 {
        None
    } else {
        match first_with_uuid(list.drop_last(), uuid) {
            Some(i) => Some(i),
            None => if list.last().uuid == uuid {
                Some(list.len() - 1)
            } else {
                None
            },
        }
    }
}

/// [`first_with_uuid`] is the least position that holds the identity.
pub proof fn lemma_first_with_uuid(list: Seq<PackInfoView>, uuid: Seq<char>)
    ensures
        match first_with_uuid(list, uuid) {
            Some(i) => 0 <= i < list.len() && list[i].uuid == uuid && forall|j: int|
                0 <= j < i ==> list[j].uuid != uuid,
            None => forall|j: int| 0 <= j < list.len() ==> list[j].uuid != uuid,
        },
    decreases list.len(),
{
    if list.len() > 0 {
        let front = list.drop_last();
        lemma_first_with_uuid(front, uuid);
        assert forall|j: int| 0 <= j < front.len() implies front[j] == list[j] by {}
    }
}

/// Finds the preset with identity `uuid` in the catalog.
pub fn find_preset(packs: &Vec<PackInfo>, uuid: &str) -> (r: Option<usize>)
    ensures
        match r {
            Some(i) => first_with_uuid(pack_views(packs@), uuid@) == Some(i as int) && i
                < packs@.len(),
            None => first_with_uuid(pack_views(packs@), uuid@) is None,
        },
{
    let wanted = uuid.to_owned();
    let ghost views = pack_views(packs@);
    let mut i: usize = 0;
    while i < packs.len()
        invariant
            i <= packs.len(),
            wanted@ == uuid@,
            views == pack_views(packs@),
            forall|j: int| 0 <= j < i ==> views[j].uuid != uuid@,
        decreases packs.len() - i,
    {
        if packs[i].uuid == wanted {
            proof {
                lemma_first_with_uuid(views, uuid@);
                assert(views[i as int].uuid == uuid@);
            }
            return Some(i);
        }
        i = i + 1;
    }
    proof {
        lemma_first_with_uuid(views, uuid@);
        if first_with_uuid(views, uuid@) is Some {
            let k = first_with_uuid(views, uuid@)->0;
            assert(views[k].uuid == uuid@);
        }
    }
    None
}

/// The three material files of a preset as they lie in the directory
/// `dir`: stub, tone mapping, bloom.
pub open spec fn material_paths_in(dir: Seq<char>) -> Seq<Seq<char>> {
    seq![
        joined_path(dir, stub_name()),
        joined_path(dir, tonemapping_name()),
        joined_path(dir, bloom_name()),
    ]
}

/// Computes [`material_paths_in`].
pub fn preset_material_paths(dir: &str) -> (out: Vec<String>)
    ensures
        texts(out@) == material_paths_in(dir@),
{
    let mut out: Vec<String> = Vec::new();
    out.push(join_path(dir, "RTXStub.material.bin"));
    out.push(join_path(dir, "RTXPostFX.Tonemapping.material.bin"));
    out.push(join_path(dir, "RTXPostFX.Bloom.material.bin"));
    assert(texts(out@) =~= material_paths_in(dir@));
    out
}

/// A preset that stands for files which come from no catalog entry: it
/// has a name and an identity and no URLs.
pub open spec fn stand_in(name: Seq<char>, uuid: Seq<char>) -> PackInfoView {
    PackInfoView {
        name,
        uuid,
        stub: Seq::empty(),
        tonemapping: Seq::empty(),
        bloom: Seq::empty(),
    }
}

/// Computes [`stand_in`].
pub fn stand_in_pack(name: String, uuid: String) -> (p: PackInfo)
    ensures
        p@ == stand_in(name@, uuid@),
{
    PackInfo {
        name,
        uuid,
        stub: String::new(),
        tonemapping: String::new(),
        bloom: String::new(),
    }
}

/// The stand-in for loose material files handed over by path.
pub fn material_files_pack() -> (p: PackInfo)
    ensures
        p@ == stand_in("Material Files"@, "material-files"@),
{
    stand_in_pack("Material Files".to_owned(), "material-files".to_owned())
}

/// The stand-in for the unmodified files that an uninstall puts back.
pub fn original_files_pack() -> (p: PackInfo)
    ensures
        p@ == stand_in("Original Files"@, "uninstall-original"@),
{
    stand_in_pack("Original Files".to_owned(), "uninstall-original".to_owned())
}

/// The stand-in for files restored from a backup.
pub fn backup_restore_pack() -> (p: PackInfo)
    ensures
        p@ == stand_in("Backup Restore"@, "backup-restore"@),
{
    stand_in_pack("Backup Restore".to_owned(), "backup-restore".to_owned())
}

/// The stand-in for the materials of a package file: named by the first
/// 20 characters of the package's name, with an identity that carries the
/// second at which it was installed.
pub open spec fn package_stand_in(pack_name: Seq<char>, secs: i64) -> PackInfoView {
    stand_in(first_chars(pack_name, 20), "material-files-"@ + decimal_of(secs as int))
}

/// Computes [`package_stand_in`] for the instant `now`.
pub fn package_pack_at(pack_name: &str, now: Instant) -> (p: PackInfo)
    ensures
        p@ == package_stand_in(pack_name@, now.secs),
{
    let mut uuid = "material-files-".to_owned();
    uuid.append(decimal(now.secs).as_str());
    stand_in_pack(take_chars(pack_name, 20), uuid)
}

/// Computes [`package_stand_in`] for the system clock's time.
pub fn package_pack(pack_name: &str) -> (p: PackInfo)
    ensures
        exists|secs: i64| p@ == package_stand_in(pack_name@, secs),
{
    let now = Instant::now();
    let p = package_pack_at(pack_name, now);
    assert(p@ == package_stand_in(pack_name@, now.secs));
    p
}

/// The stand-in for uploaded materials: named as the user asked, or
/// `Uploaded Materials`, with an identity that carries the second at which
/// it was installed.
pub open spec fn uploaded_stand_in(preset_name: Option<Seq<char>>, secs: i64) -> PackInfoView {
    stand_in(
        match preset_name {
            Some(name) => name,
            None => "Uploaded Materials"@,
        },
        "materials-"@ + decimal_of(secs as int),
    )
}

/// Computes [`uploaded_stand_in`] for the instant `now`.
pub fn uploaded_pack_at(preset_name: Option<String>, now: Instant) -> (p: PackInfo)
    ensures
        p@ == uploaded_stand_in(
            match preset_name {
                Some(name) => Some(name@),
                None => None,
            },
            now.secs,
        ),
{
    let mut uuid = "materials-".to_owned();
    uuid.append(decimal(now.secs).as_str());
    let name = match preset_name {
        Some(name) => name,
        None => "Uploaded Materials".to_owned(),
    };
    stand_in_pack(name, uuid)
}

/// The short form of a settings hash: its first eight bytes where it has
/// them and they end a character, and the whole hash otherwise.
pub open spec fn short_hash(hash: Seq<char>) -> Seq<char> {
    match byte_prefix(hash, 8) {
        Some(short) => short,
        None => hash,
    }
}

/// The stand-in for a creator build: named as the user asked, or
/// `Creator Settings (` short hash `)`, and identified as the user asked,
/// or `creator-` hash.
pub open spec fn creator_stand_in(
    hash: Seq<char>,
    preset_name: Option<Seq<char>>,
    uuid: Option<Seq<char>>,
) -> PackInfoView {
    stand_in(
        match preset_name {
            Some(name) => name,
            None => "Creator Settings ("@ + short_hash(hash) + ")"@,
        },
        match uuid {
            Some(id) => id,
            None => "creator-"@ + hash,
        },
    )
}

/// Computes [`creator_stand_in`].
pub fn creator_pack(settings_hash: &str, preset_name: Option<String>, uuid: Option<String>) -> (p:
    PackInfo)
    ensures
        p@ == creator_stand_in(
            settings_hash@,
            match preset_name {
                Some(name) => Some(name@),
                None => None,
            },
            match uuid {
                Some(id) => Some(id@),
                None => None,
            },
        ),
{
    let name = match preset_name {
        Some(name) => name,
        None => {
            let mut name = "Creator Settings (".to_owned();
            match take_bytes(settings_hash, 8) {
                Some(short) => name.append(short.as_str()),
                None => name.append(settings_hash),
            }
            name.append(")");
            name
        },
    };
    let id = match uuid {
        Some(id) => id,
        None => {
            let mut id = "creator-".to_owned();
            id.append(settings_hash);
            id
        },
    };
    stand_in_pack(name, id)
}

/// The URLs of the three material files of a creator build, in the order
/// stub, tone mapping, bloom.
pub open spec fn creator_urls_of(hash: Seq<char>) -> Seq<Seq<char>> {
    seq![
        "https://bedrock.graphics/build/"@ + hash + "/stubs/RTXStub.material.bin"@,
        "https://bedrock.graphics/build/"@ + hash + "/RTXPostFX.Tonemapping.material.bin"@,
        "https://bedrock.graphics/build/"@ + hash + "/RTXPostFX.Bloom.material.bin"@,
    ]
}

/// Computes [`creator_urls_of`].
pub fn creator_urls(settings_hash: &str) -> (out: Vec<String>)
    ensures
        texts(out@) == creator_urls_of(settings_hash@),
{
    let mut stub = "https://bedrock.graphics/build/".to_owned();
    stub.append(settings_hash);
    stub.append("/stubs/RTXStub.material.bin");
    let mut tone = "https://bedrock.graphics/build/".to_owned();
    tone.append(settings_hash);
    tone.append("/RTXPostFX.Tonemapping.material.bin");
    let mut bloom = "https://bedrock.graphics/build/".to_owned();
    bloom.append(settings_hash);
    bloom.append("/RTXPostFX.Bloom.material.bin");
    let mut out: Vec<String> = Vec::new();
    out.push(stub);
    out.push(tone);
    out.push(bloom);
    assert(texts(out@) =~= creator_urls_of(settings_hash@));
    out
}

/// Whether `path` names a package file: whether it ends in `.rtpack`,
/// ASCII capitals aside.
pub open spec fn is_package_path(path: Seq<char>) -> bool {
    has_suffix(lower(path), ".rtpack"@)
}

/// Decides [`is_package_path`].
pub fn names_package(path: &str) -> (r: bool)
    ensures
        r == is_package_path(path@),
{
    let lowered = to_ascii_lower(path);
    ends_with(lowered.as_str(), ".rtpack")
}

/// Whether `path` names a material file inside an unpacked package: its
/// extension is `bin` and its stem holds `material`.
pub open spec fn is_material_path(path: Seq<char>) -> bool {
    &&& extension_of(path) == Some("bin"@)
    &&& file_stem_of(path) matches Some(stem)
    &&& contains_text(stem, "material"@)
}

/// Decides [`is_material_path`].
pub fn names_material(path: &str) -> (r: bool)
    ensures
        r == is_material_path(path@),
{
    match stem_and_extension(path) {
        Some((stem, Some(ext))) => {
            let bin = "bin".to_owned();
            ext == bin && contains(stem.as_str(), "material")
        },
        _ => false,
    }
}

/// Whether `path` names an uploaded material: its extension is `bin`.
pub open spec fn is_bin_path(path: Seq<char>) -> bool {
    extension_of(path) == Some("bin"@)
}

/// Decides [`is_bin_path`].
pub fn names_bin(path: &str) -> (r: bool)
    ensures
        r == is_bin_path(path@),
{
    match stem_and_extension(path) {
        Some((_, Some(ext))) => {
            let bin = "bin".to_owned();
            ext == bin
        },
        _ => false,
    }
}

/// The paths of `found` that name material files, in order: what a walk
/// of an unpacked package deploys.
pub fn material_files_among(found: &Vec<String>) -> (out: Vec<String>)
    ensures
        texts(out@) == texts(found@).filter(|p: Seq<char>| is_material_path(p)),
{
    let mut out: Vec<String> = Vec::new();
    let ghost keep = |p: Seq<char>| is_material_path(p);
    let mut i: usize = 0;
    assert(texts(found@).take(0) =~= Seq::<Seq<char>>::empty());
    assert(texts(out@) =~= Seq::<Seq<char>>::empty());
    proof {
        reveal(Seq::filter);
    }
    while i < found.len()
        invariant
            i <= found.len(),
            keep == |p: Seq<char>| is_material_path(p),
            texts(out@) == texts(found@).take(i as int).filter(keep),
        decreases found.len() - i,
    {
        let ghost before = texts(found@).take(i as int);
        let ghost after = texts(found@).take(i + 1);
        let ghost old_out = texts(out@);
        proof {
            reveal(Seq::filter);
            assert(after.drop_last() =~= before);
            assert(after.last() == found@[i as int]@);
        }
        if names_material(found[i].as_str()) {
            let kept = found[i].clone();
            out.push(kept);
            assert(texts(out@) =~= old_out.push(kept@));
        }
        i = i + 1;
    }
    assert(texts(found@).take(found@.len() as int) =~= texts(found@));
    out
}

/// The URL of the preset catalog.
pub fn catalog_url() -> (out: String)
    ensures
        out@ == "https://bedrock.graphics/api"@,
{
    "https://bedrock.graphics/api".to_owned()
}

/// The URL that describes the preset with identity `uuid`.
pub fn preset_url(uuid: &str) -> (out: String)
    ensures
        out@ == "https://bedrock.graphics/api/preset/"@ + uuid@,
{
    let mut out = "https://bedrock.graphics/api/preset/".to_owned();
    out.append(uuid);
    out
}

/// The URLs of the unmodified material files that an uninstall puts back, in
/// the order stub, tone mapping, bloom: the order of
/// [`material_paths_in`].
pub fn original_file_urls() -> (out: Vec<String>)
    ensures
        texts(out@) == seq![
            "https://bedrock.graphics/api/uninstall/rtxstub"@,
            "https://bedrock.graphics/api/uninstall/rtxpostfx"@,
            "https://bedrock.graphics/api/uninstall/bloom"@,
        ],
{
    let mut out: Vec<String> = Vec::new();
    out.push("https://bedrock.graphics/api/uninstall/rtxstub".to_owned());
    out.push("https://bedrock.graphics/api/uninstall/rtxpostfx".to_owned());
    out.push("https://bedrock.graphics/api/uninstall/bloom".to_owned());
    assert(texts(out@) =~= seq![
        "https://bedrock.graphics/api/uninstall/rtxstub"@,
        "https://bedrock.graphics/api/uninstall/rtxpostfx"@,
        "https://bedrock.graphics/api/uninstall/bloom"@,
    ]);
    out
}

/// The URLs of the three material files of a catalog preset, in the order
/// stub, tone mapping, bloom.
pub fn preset_urls(pack: &PackInfo) -> (out: Vec<String>)
    ensures
        texts(out@) == seq![pack@.stub, pack@.tonemapping, pack@.bloom],
{
    let mut out: Vec<String> = Vec::new();
    out.push(pack.stub.clone());
    out.push(pack.tonemapping.clone());
    out.push(pack.bloom.clone());
    assert(texts(out@) =~= seq![pack@.stub, pack@.tonemapping, pack@.bloom]);
    out
}

} // verus!
