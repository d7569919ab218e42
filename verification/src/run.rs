//! One run over all sources: its settings, its index counter, and the
//! steps that turn one source file into the table its destination is
//! rendered from.

use crate::extract::{
    add_exif_properties, add_hash_properties, add_path_properties, add_run_properties,
    add_stat_properties, entries, extracted, has_key, Entry, FileStat, Property,
};
use crate::fields::ExifField;
use crate::formatter::{key_pattern, ExifAttrFormatter};
use crate::mode::Mode;
use crate::paths::SourcePath;
use crate::pattern::{regex_is_valid, PatternError};
use crate::table::PropertyTable;
use crate::text::{zero_pad, zero_padded};
use crate::timestamp::Timestamp;
use vstd::prelude::*;

verus! {

/// What the user asked for.
#[derive(Clone, Debug, PartialEq, Eq)]
pub struct Settings {
    /// The destination template.
    pub destination: String,
    /// What to do with each file.
    pub mode: Mode,
    /// The strftime pattern for timestamps.
    pub timestamp_format: String,
    /// Report each file and each directory handled.
    pub verbose: bool,
    /// Change nothing on disk.
    pub dry_run: bool,
    /// Replace a destination that exists.
    pub force: bool,
    /// After moving, remove the directories that were emptied.
    pub delete_empty_dirs: bool,
    /// Link to the absolute source even where a relative path exists.
    pub force_absolute_symlinks: bool,
    /// Longest value shown whole in the property listing; 0 for no limit.
    pub max_display_len: usize,
    /// First value of the index counter.
    pub idx_start: usize,
    /// Width to which the index is padded with zeros.
    pub idx_width: usize,
    /// The pattern of what is replaced in property values.
    pub invalid_characters: String,
    /// What it is replaced by.
    pub replacement: String,
}

/// The running number of the files of a run. Every file takes the
/// current value and moves the counter on by one, whatever happens to
/// the file afterwards.
#[derive(Copy, Clone, PartialEq, Eq, Structural, Debug)]
pub struct IndexCounter {
    pub value: usize,
}

/// The value of a counter started at `start` after `files` files.
pub open spec fn counter_after(start: nat, files: nat) -> nat
    decreases files,
{
    if files == 0 {
        start
    } else {
        counter_after(start, (files - 1) as nat) + 1
    }
}

/// The indices handed to the first `files` files of a run, in order.
pub open spec fn issued(start: nat, files: nat) -> Seq<nat>
    decreases files,
{
    if files == 0 {
        Seq::<nat>::empty()
    } else {
        issued(start, (files - 1) as nat).push(counter_after(start, (files - 1) as nat))
    }
}

/// The files of a run, over all patterns, are numbered `start`,
/// `start + 1`, and so on without gaps, in the order in which they are
/// taken: file `k` gets `start + k`.
pub proof fn lemma_indices_are_consecutive(start: nat, files: nat)
    ensures
        counter_after(start, files) == start + files,
        issued(start, files).len() == files,
        forall|k: int| 0 <= k < files ==> #[trigger] issued(start, files)[k] == start + k,
    decreases files,
{
    if files > 0 {
        lemma_indices_are_consecutive(start, (files - 1) as nat);
    }
}

/// Numbering the files of two patterns one after the other is the same
/// as numbering all of them in one go.
pub proof fn lemma_indices_continue(start: nat, first: nat, second: nat)
    ensures
        issued(start, first) + issued(counter_after(start, first), second) == issued(
            start,
            first + second,
        ),
{
    lemma_indices_are_consecutive(start, first);
    lemma_indices_are_consecutive(start + first, second);
    lemma_indices_are_consecutive(start, first + second);
    assert(issued(start, first) + issued(counter_after(start, first), second) =~= issued(
        start,
        first + second,
    ));
}

impl IndexCounter {
    /// A counter that starts at `start`.
    pub fn new(start: usize) -> (counter: IndexCounter)
        ensures
            counter.value == start,
    {
        IndexCounter { value: start }
    }

    /// Hands out the current value and moves on by one.
    pub fn take(&mut self) -> (index: usize)
        requires
            old(self).value < usize::MAX,
        ensures
            index == old(self).value,
            final(self).value == counter_after(old(self).value as nat, 1),
            final(self).value == old(self).value + 1,
    {
        let index = self.value;
        self.value = index + 1;
        proof {
            assert(counter_after(index as nat, 1) == counter_after(index as nat, 0) + 1);
        }
        index
    }
}

/// The table made of the first `upto` entries of a property list: each
/// value formatted, each key written in turn.
pub open spec fn formatted_table(f: &ExifAttrFormatter, list: Seq<Entry>, upto: nat) -> Map<
    Seq<char>,
    Seq<char>,
>
    decreases upto,
{
    if upto == 0 {
        Map::empty()
    } else {
        formatted_table(f, list, (upto - 1) as nat).insert(
            list[upto - 1].0,
            f.as_string_spec(list[upto - 1].1),
        )
    }
}

/// The table of a file: its formatted properties, and then the index of
/// the file, padded with zeros, under the key `SysIdx`.
pub open spec fn table_of(f: &ExifAttrFormatter, list: Seq<Entry>, index: nat, width: nat) -> Map<
    Seq<char>,
    Seq<char>,
> {
    formatted_table(f, list, list.len()).insert("SysIdx"@, zero_padded(index, width))
}

/// Every key among the first `upto` entries of a property list is a key
/// of their table.
pub proof fn lemma_table_holds_every_key(
    f: &ExifAttrFormatter,
    list: Seq<Entry>,
    upto: nat,
    key: Seq<char>,
)
    requires
        upto <= list.len(),
        has_key(list.take(upto as int), key),
    ensures
        formatted_table(f, list, upto).dom().contains(key),
    decreases upto,
{
    let i = choose|i: int| 0 <= i < upto && (#[trigger] list.take(upto as int)[i]).0 == key;
    if upto > 0 {
        if i < upto - 1 {
            assert(list.take(upto - 1)[i].0 == key);
            lemma_table_holds_every_key(f, list, (upto - 1) as nat, key);
        } else {
            assert(list[upto - 1].0 == key);
        }
    }
}

/// The last write wins: the value of a key in the table is the
/// formatted value of the last entry of the list that has the key.
pub proof fn lemma_last_entry_wins(f: &ExifAttrFormatter, list: Seq<Entry>, upto: nat, last: int)
    requires
        upto <= list.len(),
        0 <= last < upto,
        forall|j: int| last < j < upto ==> (#[trigger] list[j]).0 != list[last].0,
    ensures
        formatted_table(f, list, upto).dom().contains(list[last].0),
        formatted_table(f, list, upto)[list[last].0] == f.as_string_spec(list[last].1),
    decreases upto,
{
    if last < upto - 1 {
        assert(list[upto - 1].0 != list[last].0);
        lemma_last_entry_wins(f, list, (upto - 1) as nat, last);
    }
}

/// The table of a file holds every key of its property list, and the
/// index of the file under `SysIdx`, whatever the list says of that key.
pub proof fn lemma_table_holds(
    f: &ExifAttrFormatter,
    list: Seq<Entry>,
    index: nat,
    width: nat,
    key: Seq<char>,
)
    ensures
        table_of(f, list, index, width).dom().contains("SysIdx"@),
        table_of(f, list, index, width)["SysIdx"@] == zero_padded(index, width),
        has_key(list, key) ==> table_of(f, list, index, width).dom().contains(key),
{
    if has_key(list, key) {
        assert(list.take(list.len() as int) =~= list);
        lemma_table_holds_every_key(f, list, list.len(), key);
    }
}

/// File `k` of a run that starts at `start` is rendered with `start + k`
/// under `SysIdx`, padded with zeros to `width`, whatever its
/// properties are and whatever became of the files before it.
pub proof fn lemma_file_index(
    f: &ExifAttrFormatter,
    list: Seq<Entry>,
    start: nat,
    k: nat,
    width: nat,
)
    ensures
        table_of(f, list, counter_after(start, k), width).dom().contains("SysIdx"@),
        table_of(f, list, counter_after(start, k), width)["SysIdx"@] == zero_padded(
            start + k,
            width,
        ),
{
    lemma_indices_are_consecutive(start, k);
}

/// The state of a run that every file shares.
pub struct App {
    pub settings: Settings,
    /// When the run started, in local time.
    pub now: Timestamp,
    /// The directory the run works in.
    pub cwd: String,
    /// Formats and sanitises the values of the run.
    pub attr_formatter: ExifAttrFormatter,
}

impl App {
    /// Sets a run up. Fails exactly where the pattern of invalid
    /// characters, or the fixed key pattern, does not compile.
    pub fn new(settings: Settings, now: Timestamp, cwd: String) -> (made: Result<App, PatternError>)
        ensures
            made.is_ok() == (regex_is_valid(key_pattern()) && regex_is_valid(
                settings.invalid_characters@,
            )),
            made matches Ok(app) ==> {
                &&& app.settings == settings
                &&& app.now == now
                &&& app.cwd == cwd
                &&& app.attr_formatter.date_time_format() == settings.timestamp_format@
                &&& app.attr_formatter.value_pattern() == settings.invalid_characters@
                &&& app.attr_formatter.replacement() == settings.replacement@
            },
            made matches Err(e) ==> e.pattern@ == if regex_is_valid(key_pattern()) {
                settings.invalid_characters@
            } else {
                key_pattern()
            },
    {
        let made = ExifAttrFormatter::new(
            settings.timestamp_format.clone(),
            settings.invalid_characters.as_str(),
            settings.replacement.clone(),
        );
        match made {
            Ok(attr_formatter) => Ok(App { settings, now, cwd, attr_formatter }),
            Err(e) => Err(e),
        }
    }

    /// The counter of the run, at its start value.
    pub fn counter(&self) -> (counter: IndexCounter)
        ensures
            counter.value == self.settings.idx_start,
    {
        IndexCounter::new(self.settings.idx_start)
    }

    /// Whether emptied directories are to be removed once every file
    /// has been handled: only after moving, and only on request.
    pub fn cleanup_wanted(&self) -> (yes: bool)
        ensures
            yes == (self.settings.mode == Mode::Move && self.settings.delete_empty_dirs),
    {
        self.settings.mode == Mode::Move && self.settings.delete_empty_dirs
    }

    /// The property list of one source file, from what could be found
    /// out about it. Each of `stat`, `content` and `fields` may be
    /// missing on its own; the groups that are there are not affected.
    pub fn extract_properties(
        &self,
        src: &SourcePath,
        stat: Option<FileStat>,
        content: Option<&Vec<u8>>,
        fields: Option<&Vec<ExifField>>,
    ) -> (props: Vec<Property>)
        ensures
            entries(props@) == extracted(
                self.now,
                self.cwd@,
                src@,
                stat,
                match content {
                    Some(data) => Some(data@),
                    None => None,
                },
                match fields {
                    Some(list) => Some(list@),
                    None => None,
                },
            ),
    {
        let mut props: Vec<Property> = Vec::new();
        proof {
            assert(entries(props@) =~= Seq::<Entry>::empty());
        }
        add_run_properties(&mut props, self.now, self.cwd.as_str());
        add_path_properties(&mut props, src);
        add_stat_properties(&mut props, stat);
        add_hash_properties(&mut props, content);
        add_exif_properties(&mut props, &self.attr_formatter, fields);
        proof {
            assert(entries(props@) =~= extracted(
                self.now,
                self.cwd@,
                src@,
                stat,
                match content {
                    Some(data) => Some(data@),
                    None => None,
                },
                match fields {
                    Some(list) => Some(list@),
                    None => None,
                },
            ));
        }
        props
    }

    /// The table that the destination of one file is rendered from:
    /// every property formatted, then the file's index under `SysIdx`.
    /// The counter moves on by one.
    pub fn apply_matches(&self, props: &Vec<Property>, idx_counter: &mut IndexCounter) -> (data:
        PropertyTable)
        requires
            old(idx_counter).value < usize::MAX,
        ensures
            data@ == table_of(
                &self.attr_formatter,
                entries(props@),
                old(idx_counter).value as nat,
                self.settings.idx_width as nat,
            ),
            final(idx_counter).value == old(idx_counter).value + 1,
    {
        let mut data = PropertyTable::new();
        let n: usize = props.len();
        let mut i: usize = 0;
        while i < n
            invariant
                i <= n,
                n == props@.len(),
                data@ == formatted_table(&self.attr_formatter, entries(props@), i as nat),
            decreases n - i,
        {
            let value_as_string = self.attr_formatter.as_string(&props[i].value);
            data.insert(props[i].key.clone(), value_as_string);
            i = i + 1;
        }
        let index = idx_counter.take();
        data.insert("SysIdx".to_owned(), zero_pad(index as u64, self.settings.idx_width));
        data
    }
}

} // verus!
