//! The property list of one source file.
//!
//! Properties are emitted in a fixed order: the constants of the run,
//! the facts of the path, the filesystem metadata, the content hash,
//! and last the image metadata fields. A later entry with the key of an
//! earlier one wins when the list is put into a table.

use crate::digest::{content_hash, hex_lower, sha1_of};
use crate::fields::{field_value, raw_key, ExifField, THUMBNAIL_IFD};
use crate::formatter::ExifAttrFormatter;
use crate::paths::{extension_of, file_name, has_parent, joined, parent_parts, stem_of, SourcePath};
use crate::text::{decimal_nat, u64_to_decimal};
use crate::timestamp::Timestamp;
use crate::value::{file_time_value, PropertyValue, SinceEpoch, ValueModel};
use vstd::prelude::*;
use vstd::string::StringExecFns;

verus! {

/// One named value.
#[derive(Clone, Debug, PartialEq, Eq)]
pub struct Property {
    pub key: String,
    pub value: PropertyValue,
}

/// The mathematical content of a property: its key and its value.
pub type Entry = (Seq<char>, ValueModel);

/// The contents of a list of properties, in order.
pub open spec fn entries(props: Seq<Property>) -> Seq<Entry> {
    props.map_values(|p: Property| (p.key@, p.value@))
}

/// Whether some entry of the list has the given key.
pub open spec fn has_key(list: Seq<Entry>, key: Seq<char>) -> bool {
    exists|i: int| 0 <= i < list.len() && (#[trigger] list[i]).0 == key
}

/// What the filesystem says of a file.
#[derive(Copy, Clone, PartialEq, Eq, Structural, Debug)]
pub struct FileStat {
    pub created: Option<SinceEpoch>,
    pub modified: Option<SinceEpoch>,
    pub accessed: Option<SinceEpoch>,
    pub size: u64,
}

/// A path value where there is a text, else `Nothing`.
pub open spec fn opt_path(text: Option<Seq<char>>) -> ValueModel {
    match text {
        Some(t) => ValueModel::Path(t),
        None => ValueModel::Nothing,
    }
}

/// A key with a running number behind it.
pub open spec fn indexed_key(prefix: Seq<char>, i: nat) -> Seq<char> {
    prefix + decimal_nat(i)
}

/// The constants of the run: the time it started and the directory it
/// runs in.
pub open spec fn run_entries(now: Timestamp, cwd: Seq<char>) -> Seq<Entry> {
    seq![("SysDateTimeNow"@, ValueModel::Timestamp(now)), ("SysCwd"@, ValueModel::Path(cwd))]
}

/// The extension of the path with its `.` in front.
pub open spec fn dotted_extension(parts: Seq<Seq<char>>) -> Option<Seq<char>> {
    match path_extension(parts) {
        Some(e) => Some(seq!['.'] + e),
        None => None,
    }
}

/// The extension of the path's file name.
pub open spec fn path_extension(parts: Seq<Seq<char>>) -> Option<Seq<char>> {
    match file_name(parts) {
        Some(name) => extension_of(name),
        None => None,
    }
}

/// The stem of the path's file name.
pub open spec fn path_stem(parts: Seq<Seq<char>>) -> Option<Seq<char>> {
    match file_name(parts) {
        Some(name) => Some(stem_of(name)),
        None => None,
    }
}

/// The text of the path's parent directory.
pub open spec fn path_parent(parts: Seq<Seq<char>>) -> Option<Seq<char>> {
    if has_parent(parts) {
        Some(joined(parent_parts(parts)))
    } else {
        None
    }
}

/// Extension, dotted extension, stem, full name and parent directory.
pub open spec fn name_entries(parts: Seq<Seq<char>>) -> Seq<Entry> {
    seq![
        ("SysExt"@, opt_path(path_extension(parts))),
        ("SysDotExt"@, opt_path(dotted_extension(parts))),
        ("SysName"@, opt_path(path_stem(parts))),
        ("SysFullName"@, opt_path(file_name(parts))),
        ("SysPath"@, opt_path(path_parent(parts))),
    ]
}

/// The three entries of component `i`: the component itself, and the
/// path from the root down to it, once under its distance from the end
/// and once under its distance from the root.
pub open spec fn component_entries(parts: Seq<Seq<char>>, i: int) -> Seq<Entry> {
    let head = ValueModel::Path(joined(parts.take(i + 1)));
    seq![
        (indexed_key("SysPathElem"@, i as nat), ValueModel::Path(parts[i])),
        (indexed_key("SysPathAncestor"@, (parts.len() - i - 1) as nat), head),
        (indexed_key("SysPathHead"@, i as nat), head),
    ]
}

/// The entries of the first `upto` components, front to back.
pub open spec fn walk_entries(parts: Seq<Seq<char>>, upto: nat) -> Seq<Entry>
    decreases upto,
{
    if upto == 0 {
        Seq::<Entry>::empty()
    } else {
        walk_entries(parts, (upto - 1) as nat) + component_entries(parts, upto - 1)
    }
}

/// The entry of the parent path without its first `i` components.
pub open spec fn tail_entry(parts: Seq<Seq<char>>, i: int) -> Entry {
    (
        indexed_key("SysPathTail"@, i as nat),
        ValueModel::Path(joined(parts.subrange(i, parts.len() - 1))),
    )
}

/// The first `upto` suffixes of the parent path, longest first.
pub open spec fn tail_entries(parts: Seq<Seq<char>>, upto: nat) -> Seq<Entry>
    decreases upto,
{
    if upto == 0 {
        Seq::<Entry>::empty()
    } else {
        tail_entries(parts, (upto - 1) as nat).push(tail_entry(parts, upto - 1))
    }
}

/// Everything that the path alone says.
pub open spec fn path_entries(parts: Seq<Seq<char>>) -> Seq<Entry> {
    name_entries(parts) + walk_entries(parts, parts.len()) + if has_parent(parts) {
        tail_entries(parts, (parts.len() - 1) as nat)
    } else {
        Seq::<Entry>::empty()
    }
}

/// The size of a file as a property value; a size beyond the largest
/// signed number stays at that number.
pub open spec fn size_value(size: u64) -> ValueModel {
    ValueModel::Integer(
        if size <= i64::MAX {
            size as int
        } else {
            i64::MAX as int
        },
    )
}

/// The three file times and the size, where the metadata could be read.
pub open spec fn stat_entries(stat: Option<FileStat>) -> Seq<Entry> {
    match stat {
        Some(s) => seq![
            ("SysDateTimeCreated"@, file_time_value(s.created)),
            ("SysDateTimeModified"@, file_time_value(s.modified)),
            ("SysDateTimeAccessed"@, file_time_value(s.accessed)),
            ("SysSize"@, size_value(s.size)),
        ],
        None => Seq::<Entry>::empty(),
    }
}

/// The content hash, where the content could be read.
pub open spec fn hash_entries(content: Option<Seq<u8>>) -> Seq<Entry> {
    match content {
        Some(data) => seq![("SysSha1"@, ValueModel::Text(hex_lower(sha1_of(data))))],
        None => Seq::<Entry>::empty(),
    }
}

/// The entry of one image metadata field: its sanitised key and its
/// value.
pub open spec fn field_entry(field: ExifField) -> Entry {
    (ExifAttrFormatter::sanitized_key(raw_key(&field)), field_value(&field))
}

/// The entries of the image metadata, where the file holds any.
pub open spec fn exif_entries(fields: Option<Seq<ExifField>>) -> Seq<Entry> {
    match fields {
        Some(list) => list.map_values(|f: ExifField| field_entry(f)),
        None => Seq::<Entry>::empty(),
    }
}

/// The whole property list of a file, in the order of emission.
pub open spec fn extracted(
    now: Timestamp,
    cwd: Seq<char>,
    parts: Seq<Seq<char>>,
    stat: Option<FileStat>,
    content: Option<Seq<u8>>,
    fields: Option<Seq<ExifField>>,
) -> Seq<Entry> {
    run_entries(now, cwd) + path_entries(parts) + stat_entries(stat) + hash_entries(content)
        + exif_entries(fields)
}

/// Whether the list holds the given entry.
pub open spec fn has_entry(list: Seq<Entry>, entry: Entry) -> bool {
    exists|i: int| 0 <= i < list.len() && #[trigger] list[i] == entry
}

/// An entry of either part is an entry of the whole, and its key is a
/// key of the whole.
pub proof fn lemma_has_entry_concat(front: Seq<Entry>, back: Seq<Entry>, entry: Entry)
    ensures
        has_entry(front, entry) ==> has_entry(front + back, entry),
        has_entry(back, entry) ==> has_entry(front + back, entry),
        has_entry(front, entry) ==> has_key(front, entry.0),
{
    if has_entry(front, entry) {
        let i = choose|i: int| 0 <= i < front.len() && #[trigger] front[i] == entry;
        assert((front + back)[i] == entry);
        assert(front[i].0 == entry.0);
    }
    if has_entry(back, entry) {
        let i = choose|i: int| 0 <= i < back.len() && #[trigger] back[i] == entry;
        assert((front + back)[front.len() + i] == entry);
    }
}

/// A key of either part is a key of the whole.
pub proof fn lemma_has_key_concat(front: Seq<Entry>, back: Seq<Entry>, key: Seq<char>)
    ensures
        has_key(front, key) ==> has_key(front + back, key),
        has_key(back, key) ==> has_key(front + back, key),
{
    if has_key(front, key) {
        let i = choose|i: int| 0 <= i < front.len() && (#[trigger] front[i]).0 == key;
        assert((front + back)[i].0 == key);
    }
    if has_key(back, key) {
        let i = choose|i: int| 0 <= i < back.len() && (#[trigger] back[i]).0 == key;
        assert((front + back)[front.len() + i].0 == key);
    }
}

/// Every component below `upto` has its three keys among the entries
/// of the walk.
pub proof fn lemma_walk_keys(parts: Seq<Seq<char>>, upto: nat, i: int)
    requires
        0 <= i < upto,
    ensures
        has_key(walk_entries(parts, upto), indexed_key("SysPathElem"@, i as nat)),
        has_key(
            walk_entries(parts, upto),
            indexed_key("SysPathAncestor"@, (parts.len() - i - 1) as nat),
        ),
        has_key(walk_entries(parts, upto), indexed_key("SysPathHead"@, i as nat)),
    decreases upto,
{
    let front = walk_entries(parts, (upto - 1) as nat);
    let back = component_entries(parts, upto - 1);
    if i == upto - 1 {
        assert(back[0].0 == indexed_key("SysPathElem"@, i as nat));
        assert(back[1].0 == indexed_key("SysPathAncestor"@, (parts.len() - i - 1) as nat));
        assert(back[2].0 == indexed_key("SysPathHead"@, i as nat));
    } else {
        lemma_walk_keys(parts, (upto - 1) as nat, i);
    }
    lemma_has_key_concat(front, back, indexed_key("SysPathElem"@, i as nat));
    lemma_has_key_concat(
        front,
        back,
        indexed_key("SysPathAncestor"@, (parts.len() - i - 1) as nat),
    );
    lemma_has_key_concat(front, back, indexed_key("SysPathHead"@, i as nat));
}

/// Every suffix below `upto` has its key among the tail entries.
pub proof fn lemma_tail_keys(parts: Seq<Seq<char>>, upto: nat, i: int)
    requires
        0 <= i < upto,
    ensures
        has_key(tail_entries(parts, upto), indexed_key("SysPathTail"@, i as nat)),
    decreases upto,
{
    let front = tail_entries(parts, (upto - 1) as nat);
    let whole = tail_entries(parts, upto);
    if i == upto - 1 {
        assert(whole[front.len() as int].0 == indexed_key("SysPathTail"@, i as nat));
    } else {
        lemma_tail_keys(parts, (upto - 1) as nat, i);
        let k = choose|k: int|
            0 <= k < front.len() && (#[trigger] front[k]).0 == indexed_key(
                "SysPathTail"@,
                i as nat,
            );
        assert(whole[k].0 == indexed_key("SysPathTail"@, i as nat));
    }
}

/// The keys that every file has, whatever the image metadata says or
/// whether there is any: the constants of the run and the five facts
/// of the file name.
pub proof fn lemma_fixed_keys_present(
    now: Timestamp,
    cwd: Seq<char>,
    parts: Seq<Seq<char>>,
    stat: Option<FileStat>,
    content: Option<Seq<u8>>,
    fields: Option<Seq<ExifField>>,
)
    ensures
        ({
            let list = extracted(now, cwd, parts, stat, content, fields);
            &&& has_key(list, "SysDateTimeNow"@)
            &&& has_key(list, "SysCwd"@)
            &&& has_key(list, "SysExt"@)
            &&& has_key(list, "SysDotExt"@)
            &&& has_key(list, "SysName"@)
            &&& has_key(list, "SysFullName"@)
            &&& has_key(list, "SysPath"@)
        }),
{
    let list = extracted(now, cwd, parts, stat, content, fields);
    let run = run_entries(now, cwd);
    assert(list[0] == run[0]);
    assert(list[1] == run[1]);
    let names = name_entries(parts);
    assert(list[2] == names[0]);
    assert(list[3] == names[1]);
    assert(list[4] == names[2]);
    assert(list[5] == names[3]);
    assert(list[6] == names[4]);
}

/// The keys of the path families: every component has its three keys,
/// and where the path has a parent, every suffix of the parent has its
/// key, whatever the image metadata says or whether there is any.
pub proof fn lemma_path_keys_present(
    now: Timestamp,
    cwd: Seq<char>,
    parts: Seq<Seq<char>>,
    stat: Option<FileStat>,
    content: Option<Seq<u8>>,
    fields: Option<Seq<ExifField>>,
    i: int,
)
    requires
        0 <= i < parts.len(),
    ensures
        ({
            let list = extracted(now, cwd, parts, stat, content, fields);
            &&& has_key(list, indexed_key("SysPathElem"@, i as nat))
            &&& has_key(list, indexed_key("SysPathAncestor"@, (parts.len() - i - 1) as nat))
            &&& has_key(list, indexed_key("SysPathHead"@, i as nat))
            &&& has_parent(parts) && i < parts.len() - 1 ==> has_key(
                list,
                indexed_key("SysPathTail"@, i as nat),
            )
        }),
{
    let list = extracted(now, cwd, parts, stat, content, fields);
    let walk = walk_entries(parts, parts.len());
    let tail = if has_parent(parts) {
        tail_entries(parts, (parts.len() - 1) as nat)
    } else {
        Seq::<Entry>::empty()
    };
    let rest = stat_entries(stat) + hash_entries(content) + exif_entries(fields);
    let front = run_entries(now, cwd) + name_entries(parts);
    assert(list =~= front + walk + tail + rest);
    assert(list =~= front + (walk + (tail + rest)));
    assert(list =~= (front + walk) + (tail + rest));
    lemma_walk_keys(parts, parts.len(), i);
    let elem = indexed_key("SysPathElem"@, i as nat);
    let ancestor = indexed_key("SysPathAncestor"@, (parts.len() - i - 1) as nat);
    let head = indexed_key("SysPathHead"@, i as nat);
    lemma_has_key_concat(walk, tail + rest, elem);
    lemma_has_key_concat(front, walk + (tail + rest), elem);
    lemma_has_key_concat(walk, tail + rest, ancestor);
    lemma_has_key_concat(front, walk + (tail + rest), ancestor);
    lemma_has_key_concat(walk, tail + rest, head);
    lemma_has_key_concat(front, walk + (tail + rest), head);
    if has_parent(parts) && i < parts.len() - 1 {
        let key = indexed_key("SysPathTail"@, i as nat);
        lemma_tail_keys(parts, (parts.len() - 1) as nat, i);
        lemma_has_key_concat(tail, rest, key);
        lemma_has_key_concat(front + walk, tail + rest, key);
    }
}

/// A file whose metadata and content could be read has its three file
/// times, its size and its content hash among its properties, each
/// under its key, whatever the image metadata says or whether there is
/// any.
pub proof fn lemma_file_entries_present(
    now: Timestamp,
    cwd: Seq<char>,
    parts: Seq<Seq<char>>,
    stat: FileStat,
    content: Seq<u8>,
    fields: Option<Seq<ExifField>>,
)
    ensures
        ({
            let list = extracted(now, cwd, parts, Some(stat), Some(content), fields);
            &&& has_entry(list, ("SysDateTimeCreated"@, file_time_value(stat.created)))
            &&& has_entry(list, ("SysDateTimeModified"@, file_time_value(stat.modified)))
            &&& has_entry(list, ("SysDateTimeAccessed"@, file_time_value(stat.accessed)))
            &&& has_entry(list, ("SysSize"@, size_value(stat.size)))
            &&& has_entry(list, ("SysSha1"@, ValueModel::Text(hex_lower(sha1_of(content)))))
            &&& stat.size <= i64::MAX ==> size_value(stat.size) == ValueModel::Integer(
                stat.size as int,
            )
        }),
{
    let list = extracted(now, cwd, parts, Some(stat), Some(content), fields);
    let front = run_entries(now, cwd) + path_entries(parts);
    let stats = stat_entries(Some(stat));
    let hash = hash_entries(Some(content));
    let back = exif_entries(fields);
    let created = ("SysDateTimeCreated"@, file_time_value(stat.created));
    let modified = ("SysDateTimeModified"@, file_time_value(stat.modified));
    let accessed = ("SysDateTimeAccessed"@, file_time_value(stat.accessed));
    let size = ("SysSize"@, size_value(stat.size));
    let sha = ("SysSha1"@, ValueModel::Text(hex_lower(sha1_of(content))));
    assert(list =~= front + (stats + (hash + back)));
    assert(stats[0] == created);
    assert(stats[1] == modified);
    assert(stats[2] == accessed);
    assert(stats[3] == size);
    assert(hash[0] == sha);
    lemma_has_entry_concat(stats, hash + back, created);
    lemma_has_entry_concat(stats, hash + back, modified);
    lemma_has_entry_concat(stats, hash + back, accessed);
    lemma_has_entry_concat(stats, hash + back, size);
    lemma_has_entry_concat(hash, back, sha);
    lemma_has_entry_concat(stats, hash + back, sha);
    lemma_has_entry_concat(front, stats + (hash + back), created);
    lemma_has_entry_concat(front, stats + (hash + back), modified);
    lemma_has_entry_concat(front, stats + (hash + back), accessed);
    lemma_has_entry_concat(front, stats + (hash + back), size);
    lemma_has_entry_concat(front, stats + (hash + back), sha);
}

/// A file whose metadata and content could be read has the four
/// filesystem keys and the hash key, whatever the image metadata says
/// or whether there is any.
pub proof fn lemma_file_keys_present(
    now: Timestamp,
    cwd: Seq<char>,
    parts: Seq<Seq<char>>,
    stat: FileStat,
    content: Seq<u8>,
    fields: Option<Seq<ExifField>>,
)
    ensures
        ({
            let list = extracted(now, cwd, parts, Some(stat), Some(content), fields);
            &&& has_key(list, "SysDateTimeCreated"@)
            &&& has_key(list, "SysDateTimeModified"@)
            &&& has_key(list, "SysDateTimeAccessed"@)
            &&& has_key(list, "SysSize"@)
            &&& has_key(list, "SysSha1"@)
        }),
{
    let list = extracted(now, cwd, parts, Some(stat), Some(content), fields);
    let front = run_entries(now, cwd) + path_entries(parts);
    let stats = stat_entries(Some(stat));
    let hash = hash_entries(Some(content));
    let back = exif_entries(fields);
    assert(list =~= front + (stats + (hash + back)));
    assert(stats[0].0 == "SysDateTimeCreated"@);
    assert(stats[1].0 == "SysDateTimeModified"@);
    assert(stats[2].0 == "SysDateTimeAccessed"@);
    assert(stats[3].0 == "SysSize"@);
    assert(hash[0].0 == "SysSha1"@);
    lemma_has_key_concat(stats, hash + back, "SysDateTimeCreated"@);
    lemma_has_key_concat(stats, hash + back, "SysDateTimeModified"@);
    lemma_has_key_concat(stats, hash + back, "SysDateTimeAccessed"@);
    lemma_has_key_concat(stats, hash + back, "SysSize"@);
    lemma_has_key_concat(hash, back, "SysSha1"@);
    lemma_has_key_concat(stats, hash + back, "SysSha1"@);
    lemma_has_key_concat(front, stats + (hash + back), "SysDateTimeCreated"@);
    lemma_has_key_concat(front, stats + (hash + back), "SysDateTimeModified"@);
    lemma_has_key_concat(front, stats + (hash + back), "SysDateTimeAccessed"@);
    lemma_has_key_concat(front, stats + (hash + back), "SysSize"@);
    lemma_has_key_concat(front, stats + (hash + back), "SysSha1"@);
}

/// Appends one property to the list.
pub fn add_property(out: &mut Vec<Property>, key: String, value: PropertyValue)
    ensures
        entries(final(out)@) == entries(old(out)@).push((key@, value@)),
{
    out.push(Property { key, value });
    proof {
        assert(entries(out@) =~= entries(old(out)@).push((key@, value@)));
    }
}

/// A path value where there is a text, else `Nothing`.
fn path_value(text: Option<String>) -> (value: PropertyValue)
    ensures
        value@ == opt_path(
            match text {
                Some(t) => Some(t@),
                None => None,
            },
        ),
{
    match text {
        Some(t) => PropertyValue::from_opt_path(Some(t.as_str())),
        None => PropertyValue::from_opt_path(None),
    }
}

/// A key with a running number behind it.
fn numbered(prefix: &str, i: usize) -> (key: String)
    ensures
        key@ == indexed_key(prefix@, i as nat),
{
    let digits = u64_to_decimal(i as u64);
    String::from_str(prefix).concat(digits.as_str())
}

/// Appends the constants of the run.
pub fn add_run_properties(out: &mut Vec<Property>, now: Timestamp, cwd: &str)
    ensures
        entries(final(out)@) == entries(old(out)@) + run_entries(now, cwd@),
{
    add_property(out, "SysDateTimeNow".to_owned(), PropertyValue::Timestamp(now));
    add_property(out, "SysCwd".to_owned(), PropertyValue::from_opt_path(Some(cwd)));
    proof {
        assert(entries(out@) =~= entries(old(out)@) + run_entries(now, cwd@));
    }
}

/// Appends extension, dotted extension, stem, full name and parent.
fn add_name_properties(out: &mut Vec<Property>, src: &SourcePath)
    ensures
        entries(final(out)@) == entries(old(out)@) + name_entries(src@),
{
    let ext = src.extension();
    let dotted = match &ext {
        Some(e) => {
            proof {
                reveal_strlit(".");
                assert("."@ =~= seq!['.']);
            }
            Some(String::from_str(".").concat(e.as_str()))
        },
        None => None,
    };
    add_property(out, "SysExt".to_owned(), path_value(ext));
    add_property(out, "SysDotExt".to_owned(), path_value(dotted));
    add_property(out, "SysName".to_owned(), path_value(src.stem()));
    add_property(out, "SysFullName".to_owned(), path_value(src.name()));
    add_property(out, "SysPath".to_owned(), path_value(src.parent()));
    proof {
        assert(entries(out@) =~= entries(old(out)@) + name_entries(src@));
    }
}

/// Appends the three entries of every component, front to back.
fn add_walk_properties(out: &mut Vec<Property>, src: &SourcePath)
    ensures
        entries(final(out)@) == entries(old(out)@) + walk_entries(src@, src@.len()),
{
    let n: usize = src.depth();
    let mut i: usize = 0;
    proof {
        assert(entries(out@) =~= entries(old(out)@) + walk_entries(src@, 0));
    }
    while i < n
        invariant
            i <= n,
            n == src@.len(),
            entries(out@) == entries(old(out)@) + walk_entries(src@, i as nat),
        decreases n - i,
    {
        let ghost before = entries(out@);
        let head = src.join(0, i + 1);
        proof {
            assert(src@.subrange(0, i as int + 1) =~= src@.take(i as int + 1));
            assert(src@[i as int] == src.parts@[i as int]@);
        }
        add_property(
            out,
            numbered("SysPathElem", i),
            PropertyValue::from_opt_path(Some(src.parts[i].as_str())),
        );
        add_property(
            out,
            numbered("SysPathAncestor", n - i - 1),
            PropertyValue::from_opt_path(Some(head.as_str())),
        );
        add_property(
            out,
            numbered("SysPathHead", i),
            PropertyValue::from_opt_path(Some(head.as_str())),
        );
        proof {
            assert(entries(out@) =~= before + component_entries(src@, i as int));
            assert(entries(out@) =~= entries(old(out)@) + walk_entries(src@, (i + 1) as nat));
        }
        i = i + 1;
    }
}

/// Appends the suffixes of the parent path, longest first.
fn add_tail_properties(out: &mut Vec<Property>, src: &SourcePath)
    requires
        src@.len() > 0,
    ensures
        entries(final(out)@) == entries(old(out)@) + tail_entries(
            src@,
            (src@.len() - 1) as nat,
        ),
{
    let n: usize = src.depth();
    let mut i: usize = 0;
    proof {
        assert(entries(out@) =~= entries(old(out)@) + tail_entries(src@, 0));
    }
    while i < n - 1
        invariant
            i <= n - 1,
            n == src@.len(),
            n > 0,
            entries(out@) == entries(old(out)@) + tail_entries(src@, i as nat),
        decreases n - i,
    {
        let ghost before = entries(out@);
        let tail = src.join(i, n - 1);
        add_property(
            out,
            numbered("SysPathTail", i),
            PropertyValue::from_opt_path(Some(tail.as_str())),
        );
        proof {
            assert(entries(out@) =~= before.push(tail_entry(src@, i as int)));
            assert(entries(out@) =~= entries(old(out)@) + tail_entries(src@, (i + 1) as nat));
        }
        i = i + 1;
    }
}

/// Appends everything that the path alone says.
pub fn add_path_properties(out: &mut Vec<Property>, src: &SourcePath)
    ensures
        entries(final(out)@) == entries(old(out)@) + path_entries(src@),
{
    add_name_properties(out, src);
    add_walk_properties(out, src);
    if src.parent().is_some() {
        add_tail_properties(out, src);
    }
    proof {
        assert(entries(out@) =~= entries(old(out)@) + path_entries(src@));
    }
}

/// Appends the file times and the size, where the metadata could be
/// read; nothing where it could not.
pub fn add_stat_properties(out: &mut Vec<Property>, stat: Option<FileStat>)
    ensures
        entries(final(out)@) == entries(old(out)@) + stat_entries(stat),
{
    match stat {
        Some(s) => {
            add_property(
                out,
                "SysDateTimeCreated".to_owned(),
                PropertyValue::from_opt_filetime(s.created),
            );
            add_property(
                out,
                "SysDateTimeModified".to_owned(),
                PropertyValue::from_opt_filetime(s.modified),
            );
            add_property(
                out,
                "SysDateTimeAccessed".to_owned(),
                PropertyValue::from_opt_filetime(s.accessed),
            );
            let size: i64 = if s.size <= 9223372036854775807u64 {
                s.size as i64
            } else {
                9223372036854775807i64
            };
            add_property(out, "SysSize".to_owned(), PropertyValue::Integer(size));
        },
        None => {},
    }
    proof {
        assert(entries(out@) =~= entries(old(out)@) + stat_entries(stat));
    }
}

/// Appends the content hash, where the content could be read.
pub fn add_hash_properties(out: &mut Vec<Property>, content: Option<&Vec<u8>>)
    ensures
        entries(final(out)@) == entries(old(out)@) + hash_entries(
            match content {
                Some(data) => Some(data@),
                None => None,
            },
        ),
{
    match content {
        Some(data) => {
            add_property(
                out,
                "SysSha1".to_owned(),
                PropertyValue::Text(content_hash(data.as_slice())),
            );
        },
        None => {},
    }
    proof {
        assert(entries(out@) =~= entries(old(out)@) + hash_entries(
            match content {
                Some(data) => Some(data@),
                None => None,
            },
        ));
    }
}

/// Appends one entry for each image metadata field, in order.
pub fn add_exif_properties(
    out: &mut Vec<Property>,
    formatter: &ExifAttrFormatter,
    fields: Option<&Vec<ExifField>>,
)
    ensures
        entries(final(out)@) == entries(old(out)@) + exif_entries(
            match fields {
                Some(list) => Some(list@),
                None => None,
            },
        ),
{
    match fields {
        Some(list) => {
            let n: usize = list.len();
            let mut i: usize = 0;
            proof {
                assert(entries(out@) =~= entries(old(out)@) + exif_entries(Some(list@.take(0))));
            }
            while i < n
                invariant
                    i <= n,
                    n == list@.len(),
                    entries(out@) == entries(old(out)@) + exif_entries(
                        Some(list@.take(i as int)),
                    ),
                decreases n - i,
            {
                let ghost before = entries(out@);
                let field = &list[i];
                let key = if field.ifd == THUMBNAIL_IFD {
                    String::from_str("Tn").concat(field.name.as_str())
                } else {
                    field.name.clone()
                };
                add_property(out, formatter.sanitize_key(&key), field.property_value());
                proof {
                    assert(entries(out@) =~= before.push(field_entry(*field)));
                    assert(list@.take(i as int + 1) =~= list@.take(i as int).push(*field));
                    assert(entries(out@) =~= entries(old(out)@) + exif_entries(
                        Some(list@.take(i as int + 1)),
                    ));
                }
                i = i + 1;
            }
            proof {
                assert(list@.take(n as int) =~= list@);
            }
        },
        None => {
            proof {
                assert(entries(out@) =~= entries(old(out)@) + exif_entries(None));
            }
        },
    }
}

} // verus!
