//! The application's options file as text: key and value with a `:`
//! between them, one pair to a line.

use vstd::prelude::*;
use crate::keyed::TextMap;
use crate::path::{join_path, joined_path};
use crate::text::{
    contains, contains_text, has_prefix, join, joined, lines, lines_of, replace_text,
    replaced_text, split_at_first, split_once, starts_with, texts,
};

verus! {

/// The line that hides the advanced video settings.
pub open spec fn advanced_off() -> Seq<char> {
    "show_advanced_video_settings:0"@
}

/// The line that shows the advanced video settings.
pub open spec fn advanced_on() -> Seq<char> {
    "show_advanced_video_settings:1"@
}

/// The options text with the advanced video settings shown: every switch
/// that is off is turned on; where there is no switch at all, one that is
/// on is added as a last line; a text whose switch is on stays as it is.
pub open spec fn with_advanced_settings(content: Seq<char>) -> Seq<char> {
    if contains_text(content, advanced_off()) {
        replaced_text(content, advanced_off(), advanced_on())
    } else if !contains_text(content, advanced_on()) {
        content + "\nshow_advanced_video_settings:1"@
    } else {
        content
    }
}

/// Computes [`with_advanced_settings`].
pub fn enable_advanced_settings(content: &str) -> (out: String)
    ensures
        out@ == with_advanced_settings(content@),
{
    if contains(content, "show_advanced_video_settings:0") {
        replace_text(content, "show_advanced_video_settings:0", "show_advanced_video_settings:1")
    } else if !contains(content, "show_advanced_video_settings:1") {
        let mut out = content.to_owned();
        out.append("\nshow_advanced_video_settings:1");
        out
    } else {
        content.to_owned()
    }
}

/// Whether an option concerns graphics: its key begins with `gfx_`, or is
/// one of a handful of others.
pub open spec fn is_graphics_key(key: Seq<char>) -> bool {
    ||| has_prefix(key, "gfx_"@)
    ||| key == "show_advanced_video_settings"@
    ||| key == "raytracing_viewdistance"@
    ||| key == "graphics_mode"@
    ||| key == "graphics_mode_switch"@
    ||| key == "frame_pacing_enabled"@
}

/// Decides [`is_graphics_key`].
pub fn names_graphics_option(key: &String) -> (r: bool)
    ensures
        r == is_graphics_key(key@),
{
    let a = "show_advanced_video_settings".to_owned();
    let b = "raytracing_viewdistance".to_owned();
    let c = "graphics_mode".to_owned();
    let d = "graphics_mode_switch".to_owned();
    let e = "frame_pacing_enabled".to_owned();
    starts_with(key.as_str(), "gfx_") || *key == a || *key == b || *key == c || *key == d || *key
        == e
}

/// The graphics options that `lines` set: for each key, the value of the
/// last line that sets it.
pub open spec fn graphics_options_of(lines: Seq<Seq<char>>) -> Map<Seq<char>, Seq<char>>
    decreases lines.len(),
{
    if lines.len() == 0 {
        Map::empty()
    } else {
        match split_at_first(lines.last(), ':') {
            Some((key, value)) => if is_graphics_key(key) {
                graphics_options_of(lines.drop_last()).insert(key, value)
            } else {
                graphics_options_of(lines.drop_last())
            },
            None => graphics_options_of(lines.drop_last()),
        }
    }
}

/// The values of a map of strings, as text.
pub open spec fn text_values(m: Map<Seq<char>, String>) -> Map<Seq<char>, Seq<char>> {
    m.map_values(|v: String| v@)
}

/// Reads the graphics options out of the text of an options file:
/// computes [`graphics_options_of`] on its lines.
pub fn graphics_options(content: &str) -> (out: TextMap<String>)
    ensures
        text_values(out@) == graphics_options_of(lines_of(content@)),
{
    let all = lines(content);
    let mut out: TextMap<String> = TextMap::new();
    let mut i: usize = 0;
    assert(texts(all@).take(0) =~= Seq::<Seq<char>>::empty());
    assert(text_values(out@) =~= Map::<Seq<char>, Seq<char>>::empty());
    while i < all.len()
        invariant
            i <= all.len(),
            text_values(out@) == graphics_options_of(texts(all@).take(i as int)),
        decreases all.len() - i,
    {
        let ghost before = texts(all@).take(i as int);
        let ghost after = texts(all@).take(i + 1);
        let ghost old_map = out@;
        proof {
            assert(after.drop_last() =~= before);
            assert(after.last() == all@[i as int]@);
        }
        match split_once(all[i].as_str(), ':') {
            Some((key, value)) => {
                if names_graphics_option(&key) {
                    out.insert(key, value);
                    assert(text_values(out@) =~= text_values(old_map).insert(key@, value@));
                }
            },
            None => {},
        }
        i = i + 1;
    }
    assert(texts(all@).take(all@.len() as int) =~= texts(all@));
    out
}

/// The views of a list of key and value pairs, in order.
pub open spec fn pairs_of(list: Seq<(String, String)>) -> Seq<(Seq<char>, Seq<char>)> {
    Seq::new(list.len(), |i: int| (list[i].0@, list[i].1@))
}

/// The position of the first of `updates` that sets `key`.
pub open spec fn update_for(updates: Seq<(Seq<char>, Seq<char>)>, key: Seq<char>) -> Option<int>
    decreases updates.len(),
{
    if updates.len() == 0 {
        None
    } else {
        match update_for(updates.drop_last(), key) {
            Some(i) => Some(i),
            None => if updates.last().0 == key {
                Some(updates.len() - 1)
            } else {
                None
            },
        }
    }
}

/// [`update_for`] is the least position that sets the key.
pub proof fn lemma_update_for(updates: Seq<(Seq<char>, Seq<char>)>, key: Seq<char>)
    ensures
        match update_for(updates, key) {
            Some(i) => 0 <= i < updates.len() && updates[i].0 == key && forall|j: int|
                0 <= j < i ==> updates[j].0 != key,
            None => forall|j: int| 0 <= j < updates.len() ==> updates[j].0 != key,
        },
    decreases updates.len(),
{
    if updates.len() > 0 {
        let front = updates.drop_last();
        lemma_update_for(front, key);
        assert forall|j: int| 0 <= j < front.len() implies front[j] == updates[j] by {}
    }
}

/// Computes [`update_for`].
pub fn find_update(updates: &Vec<(String, String)>, key: &String) -> (r: Option<usize>)
    ensures
        match r {
            Some(i) => update_for(pairs_of(updates@), key@) == Some(i as int) && i
                < updates@.len(),
            None => update_for(pairs_of(updates@), key@) is None,
        },
{
    let ghost pairs = pairs_of(updates@);
    let mut i: usize = 0;
    while i < updates.len()
        invariant
            i <= updates.len(),
            pairs == pairs_of(updates@),
            forall|j: int| 0 <= j < i ==> pairs[j].0 != key@,
        decreases updates.len() - i,
    {
        if updates[i].0 == *key {
            proof {
                lemma_update_for(pairs, key@);
                assert(pairs[i as int].0 == key@);
            }
            return Some(i);
        }
        i = i + 1;
    }
    proof {
        lemma_update_for(pairs, key@);
        if update_for(pairs, key@) is Some {
            let k = update_for(pairs, key@)->0;
            assert(pairs[k].0 == key@);
        }
    }
    None
}

/// The key that a line sets anew: the line has a key that begins with
/// `gfx_` and one of the updates sets that key.
pub open spec fn renewed_key(line: Seq<char>, updates: Seq<(Seq<char>, Seq<char>)>) -> Option<
    Seq<char>,
> {
    match split_at_first(line, ':') {
        Some((key, _)) => if has_prefix(key, "gfx_"@) && update_for(updates, key) is Some {
            Some(key)
        } else {
            None
        },
        None => None,
    }
}

/// A line of the options file after the updates: a line that sets a key
/// anew gets the first value that the updates have for the key; every
/// other line stays as it is.
pub open spec fn renewed_line(line: Seq<char>, updates: Seq<(Seq<char>, Seq<char>)>) -> Seq<
    char,
> {
    match renewed_key(line, updates) {
        Some(key) => key + ":"@ + updates[update_for(updates, key)->0].1,
        None => line,
    }
}

/// The lines after the updates, one for each line before.
pub open spec fn renewed_lines(lines: Seq<Seq<char>>, updates: Seq<(Seq<char>, Seq<char>)>)
    -> Seq<Seq<char>> {
    Seq::new(lines.len(), |i: int| renewed_line(lines[i], updates))
}

/// Whether one of `lines` sets `key` anew.
pub open spec fn is_renewed(
    lines: Seq<Seq<char>>,
    updates: Seq<(Seq<char>, Seq<char>)>,
    key: Seq<char>,
) -> bool {
    exists|i: int| 0 <= i < lines.len() && renewed_key(lines[i], updates) == Some(key)
}

/// The lines that are added for the first `n` updates: `key:value` for
/// each whose key no line sets anew, in the order of the updates.
pub open spec fn added_lines(
    lines: Seq<Seq<char>>,
    updates: Seq<(Seq<char>, Seq<char>)>,
    n: int,
) -> Seq<Seq<char>>
    decreases n,
{
    if n <= 0 || n > updates.len() {
        Seq::empty()
    } else if is_renewed(lines, updates, updates[n - 1].0) {
        added_lines(lines, updates, n - 1)
    } else {
        added_lines(lines, updates, n - 1).push(updates[n - 1].0 + ":"@ + updates[n - 1].1)
    }
}

/// The text of the options file after the updates: its lines, those that
/// set an updated `gfx_` key with the new value, then one more line for
/// each update that no line took up; with a line feed between lines.
pub open spec fn with_options(content: Seq<char>, updates: Seq<(Seq<char>, Seq<char>)>) -> Seq<
    char,
> {
    joined(
        renewed_lines(lines_of(content), updates) + added_lines(
            lines_of(content),
            updates,
            updates.len() as int,
        ),
        "\n"@,
    )
}

/// Computes [`renewed_line`], and the key that the line sets anew.
fn renew_line(line: &String, updates: &Vec<(String, String)>) -> (r: (String, Option<String>))
    ensures
        r.0@ == renewed_line(line@, pairs_of(updates@)),
        match r.1 {
            Some(key) => renewed_key(line@, pairs_of(updates@)) == Some(key@),
            None => renewed_key(line@, pairs_of(updates@)) is None,
        },
{
    match split_once(line.as_str(), ':') {
        Some((key, _)) => {
            if starts_with(key.as_str(), "gfx_") {
                match find_update(updates, &key) {
                    Some(at) => {
                        let mut out = key.clone();
                        out.append(":");
                        out.append(updates[at].1.as_str());
                        (out, Some(key))
                    },
                    None => (line.clone(), None),
                }
            } else {
                (line.clone(), None)
            }
        },
        None => (line.clone(), None),
    }
}

/// Writes the updates into the text of an options file: computes
/// [`with_options`].
pub fn merge_options(content: &str, updates: &Vec<(String, String)>) -> (out: String)
    ensures
        out@ == with_options(content@, pairs_of(updates@)),
{
    let before = lines(content);
    let ghost old_lines = texts(before@);
    let ghost pairs = pairs_of(updates@);
    let mut after: Vec<String> = Vec::new();
    let mut renewed: Vec<String> = Vec::new();
    let mut i: usize = 0;
    while i < before.len()
        invariant
            i <= before.len(),
            old_lines == texts(before@),
            pairs == pairs_of(updates@),
            after@.len() == i,
            forall|j: int| 0 <= j < i ==> after@[j]@ == renewed_line(old_lines[j], pairs),
            forall|k: Seq<char>|
                texts(renewed@).contains(k) <==> is_renewed(old_lines.take(i as int), pairs, k),
        decreases before.len() - i,
    {
        let ghost seen = texts(renewed@);
        let (line, key) = renew_line(&before[i], updates);
        after.push(line);
        match key {
            Some(key) => {
                renewed.push(key);
                proof {
                    let now_seen = texts(renewed@);
                    assert(now_seen =~= seen.push(key@));
                    assert forall|k: Seq<char>| now_seen.contains(k) <==> is_renewed(
                        old_lines.take(i + 1),
                        pairs,
                        k,
                    ) by {
                        lemma_is_renewed_grows(old_lines, pairs, i as int, k);
                        if k == key@ {
                            assert(now_seen[seen.len() as int] == k);
                        }
                        if seen.contains(k) {
                            let w = choose|w: int| 0 <= w < seen.len() && seen[w] == k;
                            assert(now_seen[w] == k);
                        }
                        if now_seen.contains(k) && k != key@ {
                            let w = choose|w: int| 0 <= w < now_seen.len() && now_seen[w] == k;
                            assert(seen[w] == k);
                        }
                    }
                }
            },
            None => {
                proof {
                    assert forall|k: Seq<char>| seen.contains(k) <==> is_renewed(
                        old_lines.take(i + 1),
                        pairs,
                        k,
                    ) by {
                        lemma_is_renewed_grows(old_lines, pairs, i as int, k);
                    }
                }
            },
        }
        i = i + 1;
    }
    assert(old_lines.take(before@.len() as int) =~= old_lines);
    assert(texts(after@) =~= renewed_lines(old_lines, pairs));
    let ghost kept = texts(after@);
    let mut n: usize = 0;
    assert(texts(after@) =~= kept + added_lines(old_lines, pairs, 0));
    while n < updates.len()
        invariant
            n <= updates.len(),
            pairs == pairs_of(updates@),
            forall|k: Seq<char>| texts(renewed@).contains(k) <==> is_renewed(old_lines, pairs, k),
            texts(after@) == kept + added_lines(old_lines, pairs, n as int),
        decreases updates.len() - n,
    {
        let ghost so_far = texts(after@);
        assert(pairs[n as int] == (updates@[n as int].0@, updates@[n as int].1@));
        if !crate::command::holds_name(&renewed, &updates[n].0) {
            let mut line = updates[n].0.clone();
            line.append(":");
            line.append(updates[n].1.as_str());
            after.push(line);
            assert(texts(after@) =~= so_far.push(line@));
            assert(texts(after@) =~= kept + added_lines(old_lines, pairs, n + 1));
        } else {
            assert(texts(after@) =~= kept + added_lines(old_lines, pairs, n + 1));
        }
        n = n + 1;
    }
    join(&after, "\n")
}

/// A key is set anew among the first `i + 1` lines exactly when it is
/// among the first `i`, or by line `i`.
pub proof fn lemma_is_renewed_grows(
    lines: Seq<Seq<char>>,
    updates: Seq<(Seq<char>, Seq<char>)>,
    i: int,
    key: Seq<char>,
)
    requires
        0 <= i < lines.len(),
    ensures
        is_renewed(lines.take(i + 1), updates, key) <==> is_renewed(lines.take(i), updates, key)
            || renewed_key(lines[i], updates) == Some(key),
{
    let short = lines.take(i);
    let long = lines.take(i + 1);
    if is_renewed(long, updates, key) {
        let w = choose|w: int| 0 <= w < long.len() && renewed_key(long[w], updates) == Some(key);
        if w < i {
            assert(short[w] == long[w]);
        } else {
            assert(long[w] == lines[i]);
        }
    }
    if is_renewed(short, updates, key) {
        let w = choose|w: int| 0 <= w < short.len() && renewed_key(short[w], updates) == Some(key);
        assert(long[w] == short[w]);
    }
    if renewed_key(lines[i], updates) == Some(key) {
        assert(long[i] == lines[i]);
    }
}

/// Where the options file of a package of the application lies under the
/// user's local application data.
pub open spec fn options_path_of(local_app_data: Seq<char>, package: Seq<char>) -> Seq<char> {
    joined_path(
        joined_path(
            joined_path(
                joined_path(
                    joined_path(
                        joined_path(joined_path(local_app_data, "Packages"@), package),
                        "LocalState"@,
                    ),
                    "games"@,
                ),
                "com.mojang"@,
            ),
            "minecraftpe"@,
        ),
        "options.txt"@,
    )
}

/// Computes [`options_path_of`].
pub fn options_path(local_app_data: &str, package: &str) -> (out: String)
    ensures
        out@ == options_path_of(local_app_data@, package@),
{
    let a = join_path(local_app_data, "Packages");
    let b = join_path(a.as_str(), package);
    let c = join_path(b.as_str(), "LocalState");
    let d = join_path(c.as_str(), "games");
    let e = join_path(d.as_str(), "com.mojang");
    let f = join_path(e.as_str(), "minecraftpe");
    join_path(f.as_str(), "options.txt")
}

/// The package of the released application.
pub open spec fn release_package() -> Seq<char> {
    "Microsoft.MinecraftUWP_8wekyb3d8bbwe"@
}

/// The package of the preview, as the options editor knows it.
pub open spec fn preview_package() -> Seq<char> {
    "Microsoft.MinecraftWindowsBeta_8wekyb3d8bbwe"@
}

/// The package whose advanced settings are switched on for a preview
/// installation.
pub open spec fn preview_settings_package() -> Seq<char> {
    "Microsoft.MinecraftPreview_8wekyb3d8bbwe"@
}

/// The options file whose advanced settings are switched on for an
/// installation: the preview's for a preview, the release's otherwise.
pub fn settings_path_for(local_app_data: &str, preview: bool) -> (out: String)
    ensures
        out@ == options_path_of(
            local_app_data@,
            if preview {
                preview_settings_package()
            } else {
                release_package()
            },
        ),
{
    if preview {
        options_path(local_app_data, "Microsoft.MinecraftPreview_8wekyb3d8bbwe")
    } else {
        options_path(local_app_data, "Microsoft.MinecraftUWP_8wekyb3d8bbwe")
    }
}

/// The packages whose options the editor shows, each with the name it is
/// shown under: package, then name.
pub fn editable_packages() -> (out: Vec<(String, String)>)
    ensures
        pairs_of(out@) == seq![
            (release_package(), "Minecraft"@),
            (preview_package(), "Minecraft Preview"@),
        ],
{
    let mut out: Vec<(String, String)> = Vec::new();
    out.push(("Microsoft.MinecraftUWP_8wekyb3d8bbwe".to_owned(), "Minecraft".to_owned()));
    out.push(
        ("Microsoft.MinecraftWindowsBeta_8wekyb3d8bbwe".to_owned(), "Minecraft Preview".to_owned()),
    );
    assert(pairs_of(out@) =~= seq![
        (release_package(), "Minecraft"@),
        (preview_package(), "Minecraft Preview"@),
    ]);
    out
}

} // verus!
