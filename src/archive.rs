//! Laying out the distributable archive: which entries it holds, under which
//! names, where each entry's bytes come from, and the archive's comment.

use vstd::prelude::*;
use vstd::string::StringExecFns;

verus! {

/// Where the bytes of an archive entry come from.
#[derive(Debug, Clone, Copy, PartialEq, Eq)]
pub enum EntrySource {
    /// The built binary at this index of the build output.
    Binary(usize),
    /// The generated default configuration text.
    Config,
    /// The static asset file at this index of the asset walk.
    AssetFile(usize),
    /// None: the entry is a directory.
    Directory,
}

/// One entry of the archive, in the order it is written.
#[derive(Debug)]
pub struct ArchiveEntry {
    /// The entry's name inside the archive.
    pub name: String,
    pub source: EntrySource,
}

/// The ghost form of an entry: its name and its source.
pub open spec fn entry_view(e: ArchiveEntry) -> (Seq<char>, EntrySource) {
    (e.name@, e.source)
}

pub open spec fn entries_view(v: Seq<ArchiveEntry>) -> Seq<(Seq<char>, EntrySource)> {
    v.map_values(|e: ArchiveEntry| entry_view(e))
}

/// The Unix mode of an entry's file: built binaries are executable.
pub open spec fn permissions_of(source: EntrySource) -> Option<u32> {
    match source {
        EntrySource::Binary(_) => Some(0o755),
        _ => None,
    }
}

impl ArchiveEntry {
    /// The Unix permissions to give the entry, where they differ from the
    /// archive's defaults.
    pub fn unix_permissions(&self) -> (r: Option<u32>)
        ensures
            r == permissions_of(self.source),
    {
        match self.source {
            EntrySource::Binary(_) => Some(0o755),
            _ => None,
        }
    }
}

/// One item met while walking the static asset directory.
#[derive(Debug, Clone)]
pub struct WalkedAsset {
    /// The item's path relative to the asset directory, with `/` between
    /// components; `None` where that path is not valid Unicode.
    pub relative_path: Option<String>,
    /// Whether the item is a regular file.
    pub is_file: bool,
}

/// The ghost form of a walked item.
pub open spec fn asset_view(a: WalkedAsset) -> (Option<Seq<char>>, bool) {
    (
        match a.relative_path {
            Some(p) => Some(p@),
            None => None,
        },
        a.is_file,
    )
}

/// The entry that a binary's file name gives, if it has one.
pub open spec fn binary_entry(name: Option<String>, index: int) -> Option<(Seq<char>, EntrySource)> {
    match name {
        Some(n) => Some((n@, EntrySource::Binary(index as usize))),
        None => None,
    }
}

/// The entry that a walked item gives: a file under its relative path, a
/// directory under its relative path and a trailing `/`, and nothing for
/// the walk's root (an empty path) or for a path that is not valid Unicode.
pub open spec fn asset_entry(a: (Option<Seq<char>>, bool), index: int) -> Option<(Seq<char>, EntrySource)> {
    match a.0 {
        None => None,
        Some(p) => if a.1 {
            Some((p, EntrySource::AssetFile(index as usize)))
        } else if p.len() == 0 {
            None
        } else {
            Some((p.push('/'), EntrySource::Directory))
        },
    }
}

/// `s` followed by `x` where there is one.
pub open spec fn push_some<T>(s: Seq<T>, x: Option<T>) -> Seq<T> {
    match x {
        Some(y) => s.push(y),
        None => s,
    }
}

/// The entries of the built binaries, in build order, skipping those
/// without a file name.
pub open spec fn binary_entries_spec(names: Seq<Option<String>>) -> Seq<(Seq<char>, EntrySource)>
    decreases names.len(),
{
    if names.len() == 0 {
        Seq::empty()
    } else {
        push_some(
            binary_entries_spec(names.drop_last()),
            binary_entry(names.last(), names.len() - 1),
        )
    }
}

/// The entries of the static assets, in walk order.
pub open spec fn asset_entries_spec(items: Seq<(Option<Seq<char>>, bool)>) -> Seq<(Seq<char>, EntrySource)>
    decreases items.len(),
{
    if items.len() == 0 {
        Seq::empty()
    } else {
        push_some(
            asset_entries_spec(items.drop_last()),
            asset_entry(items.last(), items.len() - 1),
        )
    }
}

pub open spec fn assets_view(items: Seq<WalkedAsset>) -> Seq<(Option<Seq<char>>, bool)> {
    items.map_values(|a: WalkedAsset| asset_view(a))
}

/// The name of the default configuration entry.
pub open spec fn config_name() -> Seq<char> {
    "ferron.yaml"@
}

/// The text of the default configuration entry.
pub open spec fn config_text() -> Seq<char> {
    "global:\n  wwwroot: wwwroot"@
}

/// The whole archive: the binaries, then the configuration, then the assets.
pub open spec fn archive_spec(
    names: Seq<Option<String>>,
    items: Seq<(Option<Seq<char>>, bool)>,
) -> Seq<(Seq<char>, EntrySource)> {
    binary_entries_spec(names).push((config_name(), EntrySource::Config)) + asset_entries_spec(items)
}

/// The text of the default configuration entry.
pub fn config_contents() -> (r: &'static str)
    ensures
        r@ == config_text(),
{
    "global:\n  wwwroot: wwwroot"
}

/// Appends the entries of the built binaries, given the file name of each
/// (`None` where its path has none; such a binary is skipped).
pub fn push_binary_entries(out: &mut Vec<ArchiveEntry>, file_names: &[Option<String>])
    ensures
        entries_view(final(out)@) == entries_view(old(out)@) + binary_entries_spec(file_names@),
{
    let n = file_names.len();
    let mut i: usize = 0;
    while i < n
        invariant
            n == file_names@.len(),
            i <= n,
            entries_view(out@) == entries_view(old(out)@) + binary_entries_spec(file_names@.subrange(0, i as int)),
        decreases n - i,
    {
        let ghost before = out@;
        assert(file_names@.subrange(0, i + 1).drop_last() =~= file_names@.subrange(0, i as int));
        match &file_names[i] {
            Some(name) => {
                out.push(ArchiveEntry { name: name.clone(), source: EntrySource::Binary(i) });
                assert(entries_view(out@) =~= entries_view(before).push(entry_view(out@.last())));
            },
            None => {},
        }
        i = i + 1;
    }
    assert(file_names@.subrange(0, n as int) =~= file_names@);
}

/// Appends the entries of the static assets, in the order of the walk.
pub fn push_asset_entries(out: &mut Vec<ArchiveEntry>, assets: &[WalkedAsset])
    ensures
        entries_view(final(out)@) == entries_view(old(out)@) + asset_entries_spec(assets_view(assets@)),
{
    let n = assets.len();
    let mut i: usize = 0;
    while i < n
        invariant
            n == assets@.len(),
            i <= n,
            entries_view(out@) == entries_view(old(out)@) + asset_entries_spec(
                assets_view(assets@.subrange(0, i as int)),
            ),
        decreases n - i,
    {
        let ghost before = out@;
        assert(assets_view(assets@.subrange(0, i + 1)).drop_last() =~= assets_view(assets@.subrange(0, i as int)));
        assert(assets_view(assets@.subrange(0, i + 1)).last() == asset_view(assets@[i as int]));
        assert(asset_entries_spec(assets_view(assets@.subrange(0, i + 1))) == push_some(
            asset_entries_spec(assets_view(assets@.subrange(0, i as int))),
            asset_entry(asset_view(assets@[i as int]), i as int),
        ));
        let item = &assets[i];
        match &item.relative_path {
            None => {},
            Some(path) => {
                if item.is_file {
                    out.push(ArchiveEntry { name: path.clone(), source: EntrySource::AssetFile(i) });
                    assert(entries_view(out@) =~= entries_view(before).push(entry_view(out@.last())));
                } else if path.as_str().is_empty() {
                } else {
                    let mut name = path.clone();
                    name.append("/");
                    proof {
                        reveal_strlit("/");
                    }
                    assert(name@ =~= path@.push('/'));
                    out.push(ArchiveEntry { name, source: EntrySource::Directory });
                    assert(entries_view(out@) =~= entries_view(before).push(entry_view(out@.last())));
                }
            },
        }
        i = i + 1;
    }
    assert(assets@.subrange(0, n as int) =~= assets@);
}

/// Lays out the whole archive: one executable entry per built binary that
/// has a file name, the default configuration, then the static assets.
pub fn archive_entries(file_names: &[Option<String>], assets: &[WalkedAsset]) -> (r: Vec<ArchiveEntry>)
    ensures
        entries_view(r@) == archive_spec(file_names@, assets_view(assets@)),
{
    let mut out: Vec<ArchiveEntry> = Vec::new();
    push_binary_entries(&mut out, file_names);
    let ghost binaries = out@;
    out.push(ArchiveEntry { name: "ferron.yaml".to_owned(), source: EntrySource::Config });
    assert(entries_view(out@) =~= entries_view(binaries).push((config_name(), EntrySource::Config)));
    push_asset_entries(&mut out, assets);
    assert(entries_view(Seq::<ArchiveEntry>::empty()) =~= Seq::empty());
    assert(Seq::<(Seq<char>, EntrySource)>::empty() + binary_entries_spec(file_names@) =~= binary_entries_spec(file_names@));
    out
}

/// The archive's comment for a build for `triple`.
pub open spec fn comment_text(triple: Seq<char>) -> Seq<char> {
    "Ferron built for \""@ + triple + "\" target using Ferron Forge"@
}

/// The archive's comment, naming the target triple that the build reported.
pub fn archive_comment(triple: &str) -> (r: String)
    ensures
        r@ == comment_text(triple@),
{
    let mut comment = "Ferron built for \"".to_owned();
    comment.append(triple);
    comment.append("\" target using Ferron Forge");
    comment
}

/// The name of the entry that a walked item gives, if it gives one.
pub open spec fn asset_name(a: (Option<Seq<char>>, bool)) -> Option<Seq<char>> {
    match a.0 {
        None => None,
        Some(p) => if a.1 {
            Some(p)
        } else if p.len() == 0 {
            None
        } else {
            Some(p.push('/'))
        },
    }
}

/// The names of a sequence of entries, as a set.
pub open spec fn entry_names(entries: Seq<(Seq<char>, EntrySource)>) -> Set<Seq<char>> {
    entries.map_values(|e: (Seq<char>, EntrySource)| e.0).to_set()
}

/// An entry is among the asset entries exactly when some walked item gives it.
proof fn lemma_asset_entries_members(items: Seq<(Option<Seq<char>>, bool)>, e: (Seq<char>, EntrySource))
    ensures
        asset_entries_spec(items).contains(e) <==> exists|i: int|
            0 <= i < items.len() && asset_entry(items[i], i) == Some(e),
    decreases items.len(),
{
    if items.len() > 0 {
        let prev = items.drop_last();
        lemma_asset_entries_members(prev, e);
        let last = asset_entry(items.last(), items.len() - 1);
        let whole = asset_entries_spec(items);
        assert(whole == push_some(asset_entries_spec(prev), last));
        if asset_entries_spec(prev).contains(e) {
            let k = choose|k: int| 0 <= k < asset_entries_spec(prev).len() && asset_entries_spec(prev)[k] == e;
            assert(whole[k] == e);
        }
        if whole.contains(e) {
            let k = choose|k: int| 0 <= k < whole.len() && whole[k] == e;
            if k < asset_entries_spec(prev).len() {
                assert(asset_entries_spec(prev).contains(e));
                let j = choose|j: int| 0 <= j < prev.len() && asset_entry(prev[j], j) == Some(e);
                assert(items[j] == prev[j]);
            } else {
                assert(asset_entry(items[items.len() - 1], items.len() - 1) == Some(e));
            }
        }
        if exists|i: int| 0 <= i < items.len() && asset_entry(items[i], i) == Some(e) {
            let i = choose|i: int| 0 <= i < items.len() && asset_entry(items[i], i) == Some(e);
            if i < prev.len() {
                assert(prev[i] == items[i]);
                let k = choose|k: int| 0 <= k < asset_entries_spec(prev).len() && asset_entries_spec(prev)[k] == e;
                assert(whole[k] == e);
            } else {
                assert(whole[whole.len() - 1] == e);
            }
        }
    }
}

/// A name is in the archive exactly when a binary's entry, the configuration
/// entry or the entry of a walked asset item bears it.
proof fn lemma_archive_names(names: Seq<Option<String>>, items: Seq<(Option<Seq<char>>, bool)>, n: Seq<char>)
    ensures
        entry_names(archive_spec(names, items)).contains(n) <==> (
            entry_names(binary_entries_spec(names).push((config_name(), EntrySource::Config))).contains(n)
            || exists|i: int| 0 <= i < items.len() && #[trigger] asset_name(items[i]) == Some(n)
        ),
{
    let head = binary_entries_spec(names).push((config_name(), EntrySource::Config));
    let tail = asset_entries_spec(items);
    let whole = archive_spec(names, items);
    let f = |e: (Seq<char>, EntrySource)| e.0;
    if entry_names(whole).contains(n) {
        let k = choose|k: int| 0 <= k < whole.len() && whole.map_values(f)[k] == n;
        if k < head.len() {
            assert(head.map_values(f)[k] == n);
        } else {
            assert(tail[k - head.len()] == whole[k]);
            assert(tail.contains(whole[k]));
            lemma_asset_entries_members(items, whole[k]);
            let i = choose|i: int| 0 <= i < items.len() && asset_entry(items[i], i) == Some(whole[k]);
            assert(asset_name(items[i]) == Some(n));
        }
    }
    if entry_names(head).contains(n) {
        let k = choose|k: int| 0 <= k < head.len() && head.map_values(f)[k] == n;
        assert(whole.map_values(f)[k] == n);
    }
    if exists|i: int| 0 <= i < items.len() && #[trigger] asset_name(items[i]) == Some(n) {
        let i = choose|i: int| 0 <= i < items.len() && #[trigger] asset_name(items[i]) == Some(n);
        let e = asset_entry(items[i], i)->0;
        lemma_asset_entries_members(items, e);
        let k = choose|k: int| 0 <= k < tail.len() && tail[k] == e;
        assert(whole[head.len() + k] == e);
        assert(whole.map_values(f)[head.len() + k] == n);
    }
}

/// Every directory met in the asset walk, other than the walk's root, is
/// kept as a directory entry named by its relative path and a trailing `/`,
/// even where it holds no file.
pub proof fn lemma_directories_kept(
    names: Seq<Option<String>>,
    items: Seq<(Option<Seq<char>>, bool)>,
    i: int,
)
    requires
        0 <= i < items.len(),
        items[i].0 is Some,
        items[i].0->0.len() > 0,
        !items[i].1,
    ensures
        archive_spec(names, items).contains((items[i].0->0.push('/'), EntrySource::Directory)),
{
    let e = (items[i].0->0.push('/'), EntrySource::Directory);
    lemma_asset_entries_members(items, e);
    let head = binary_entries_spec(names).push((config_name(), EntrySource::Config));
    let tail = asset_entries_spec(items);
    let k = choose|k: int| 0 <= k < tail.len() && tail[k] == e;
    assert(archive_spec(names, items)[head.len() + k] == e);
}

/// The names in the archive do not depend on the order of the asset walk:
/// two walks that meet the same items give archives with the same names.
pub proof fn lemma_names_independent_of_walk_order(
    names: Seq<Option<String>>,
    a: Seq<(Option<Seq<char>>, bool)>,
    b: Seq<(Option<Seq<char>>, bool)>,
)
    requires
        a.to_set() == b.to_set(),
    ensures
        entry_names(archive_spec(names, a)) == entry_names(archive_spec(names, b)),
{
    assert forall|n: Seq<char>| entry_names(archive_spec(names, a)).contains(n) implies entry_names(
        archive_spec(names, b),
    ).contains(n) by {
        lemma_archive_names(names, a, n);
        lemma_archive_names(names, b, n);
        if exists|i: int| 0 <= i < a.len() && #[trigger] asset_name(a[i]) == Some(n) {
            let i = choose|i: int| 0 <= i < a.len() && #[trigger] asset_name(a[i]) == Some(n);
            assert(a.to_set().contains(a[i]));
            assert(b.to_set().contains(a[i]));
            let j = choose|j: int| 0 <= j < b.len() && b[j] == a[i];
            assert(asset_name(b[j]) == Some(n));
        }
    }
    assert forall|n: Seq<char>| entry_names(archive_spec(names, b)).contains(n) implies entry_names(
        archive_spec(names, a),
    ).contains(n) by {
        lemma_archive_names(names, a, n);
        lemma_archive_names(names, b, n);
        if exists|j: int| 0 <= j < b.len() && #[trigger] asset_name(b[j]) == Some(n) {
            let j = choose|j: int| 0 <= j < b.len() && #[trigger] asset_name(b[j]) == Some(n);
            assert(b.to_set().contains(b[j]));
            assert(a.to_set().contains(b[j]));
            let i = choose|i: int| 0 <= i < a.len() && a[i] == b[j];
            assert(asset_name(a[i]) == Some(n));
        }
    }
    assert(entry_names(archive_spec(names, a)) =~= entry_names(archive_spec(names, b)));
}

/// Every built binary whose path has a file name is in the built-binary
/// entries, under that name and read from that binary.
proof fn lemma_binary_entries_members(names: Seq<Option<String>>, i: int)
    requires
        0 <= i < names.len(),
        names[i] is Some,
    ensures
        binary_entries_spec(names).contains((names[i]->0@, EntrySource::Binary(i as usize))),
    decreases names.len(),
{
    let prev = names.drop_last();
    let whole = binary_entries_spec(names);
    let e = (names[i]->0@, EntrySource::Binary(i as usize));
    if i < names.len() - 1 {
        assert(prev[i] == names[i]);
        lemma_binary_entries_members(prev, i);
        let k = choose|k: int| 0 <= k < binary_entries_spec(prev).len() && binary_entries_spec(prev)[k] == e;
        assert(whole[k] == e);
    } else {
        assert(whole[whole.len() - 1] == e);
    }
}

/// Every built binary whose path has a file name is written to the archive
/// under that file name, from that binary's bytes, with executable permissions.
pub proof fn lemma_binaries_archived_executable(
    names: Seq<Option<String>>,
    items: Seq<(Option<Seq<char>>, bool)>,
    i: int,
)
    requires
        0 <= i < names.len(),
        names[i] is Some,
    ensures
        archive_spec(names, items).contains((names[i]->0@, EntrySource::Binary(i as usize))),
        permissions_of(EntrySource::Binary(i as usize)) == Some(0o755u32),
{
    lemma_binary_entries_members(names, i);
    let e = (names[i]->0@, EntrySource::Binary(i as usize));
    let k = choose|k: int| 0 <= k < binary_entries_spec(names).len() && binary_entries_spec(names)[k] == e;
    assert(archive_spec(names, items)[k] == e);
}

/// The archive holds the default configuration entry, under its fixed name.
pub proof fn lemma_config_archived(names: Seq<Option<String>>, items: Seq<(Option<Seq<char>>, bool)>)
    ensures
        archive_spec(names, items).contains((config_name(), EntrySource::Config)),
{
    let k = binary_entries_spec(names).len() as int;
    assert(archive_spec(names, items)[k] == (config_name(), EntrySource::Config));
}

} // verus!
