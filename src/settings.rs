use vstd::prelude::*;
use xml::reader::XmlEvent;

use crate::flags::FlagMap;

verus! {

/// The speedrun category that a run is timed under.
#[derive(Debug, Clone, Copy, PartialEq, Eq, Structural)]
pub enum Category {
    /// Any%
    AnyPercent,
    /// 100%
    HundredPercent,
}

impl Default for Category {
    fn default() -> (r: Self)
        ensures
            r == Category::AnyPercent,
    {
        Category::AnyPercent
    }
}

/// Whether `k` is stored in `m` with the flag `true`.
pub open spec fn flag_set(m: Map<Seq<char>, bool>, k: Seq<char>) -> bool {
    m.contains_key(k) && m[k]
}

/// The split configuration: which split events are enabled, keyed by event
/// name. A key that is not stored is not enabled.
#[derive(Debug)]
pub struct Settings {
    category: Category,
    splits_file: String,
    enabled: FlagMap,
}

impl Settings {
    /// The enabled flags, by key.
    pub closed spec fn flags(&self) -> Map<Seq<char>, bool> {
        self.enabled.view()
    }

    pub closed spec fn spec_category(&self) -> Category {
        self.category
    }

    /// Path of the splits file, as characters.
    pub closed spec fn spec_splits_file(&self) -> Seq<char> {
        self.splits_file@
    }

    pub closed spec fn wf(&self) -> bool {
        self.enabled.wf()
    }

    pub fn category(&self) -> (r: Category)
        ensures
            r == self.spec_category(),
    {
        self.category
    }

    /// Path of the splits file that the enabled flags are read from.
    pub fn splits_file(&self) -> (r: &String)
        ensures
            r@ == self.spec_splits_file(),
    {
        &self.splits_file
    }

    pub fn set_category(&mut self, category: Category)
        ensures
            final(self).spec_category() == category,
            final(self).spec_splits_file() == old(self).spec_splits_file(),
            final(self).flags() == old(self).flags(),
            final(self).wf() == old(self).wf(),
    {
        self.category = category;
    }

    pub fn set_splits_file(&mut self, path: String)
        ensures
            final(self).spec_category() == old(self).spec_category(),
            final(self).spec_splits_file() == path@,
            final(self).flags() == old(self).flags(),
            final(self).wf() == old(self).wf(),
    {
        self.splits_file = path;
    }

    /// A configuration with no split enabled.
    pub fn new(category: Category) -> (r: Self)
        ensures
            r.wf(),
            r.spec_category() == category,
            r.spec_splits_file() == Seq::<char>::empty(),
            r.flags() == Map::<Seq<char>, bool>::empty(),
    {
        Settings { category, splits_file: String::new(), enabled: FlagMap::new() }
    }

    /// Enables or disables the split event `key`.
    pub fn set_enabled(&mut self, key: String, value: bool)
        requires
            old(self).wf(),
        ensures
            final(self).wf(),
            final(self).spec_category() == old(self).spec_category(),
            final(self).spec_splits_file() == old(self).spec_splits_file(),
            final(self).flags() == old(self).flags().insert(key@, value),
    {
        self.enabled.insert(key, value);
    }

    /// Whether the split event `key` is enabled.
    pub fn is_enabled(&self, key: &String) -> (r: bool)
        requires
            self.wf(),
        ensures
            r == flag_set(self.flags(), key@),
    {
        match self.enabled.get(key) {
            Some(v) => v,
            None => false,
        }
    }
}

/// Whether the splits file must be read again: a path is set and none was
/// read yet, or the path differs from the one last read.
pub open spec fn splits_file_changed_spec(path: Seq<char>, previous: Option<Seq<char>>) -> bool {
    match previous {
        None => path.len() != 0,
        Some(p) => p != path,
    }
}

/// Whether the splits file at `path` must be read again, given the path that
/// was last read successfully.
pub fn splits_file_changed(path: &String, previous: &Option<String>) -> (r: bool)
    ensures
        r == splits_file_changed_spec(
            path@,
            match previous {
                Some(p) => Some(p@),
                None => None,
            },
        ),
{
    match previous {
        None => !path.as_str().is_empty(),
        Some(p) => !(*p == *path),
    }
}

/// One event of an XML document, with local names only.
#[derive(Debug, PartialEq, Eq)]
pub enum XmlItem {
    /// An opening tag and its attributes as (name, value) pairs, in order.
    Start { name: String, attributes: Vec<(String, String)> },
    /// A closing tag.
    End { name: String },
    /// Character data.
    Text { text: String },
    /// Any other event: declarations, comments, whitespace, CDATA.
    Other,
}

/// The events of the XML document `b`, up to its end or its first error.
pub uninterp spec fn xml_items_of(b: Seq<u8>) -> Seq<XmlItem>;

/// Relies on xml-rs's `EventReader` to parse the document in `bytes` into
/// events, up to the end of the document or the first error.
#[verifier::external_body]
fn parse_xml(bytes: &[u8]) -> (r: Vec<XmlItem>)
    ensures
        r@ == xml_items_of(bytes@),
{
    let mut items = Vec::new();
    for event in xml::EventReader::new(bytes) {
        items.push(match event {
            Ok(XmlEvent::StartElement { name, attributes, .. }) => XmlItem::Start {
                name: name.local_name,
                attributes: attributes.into_iter().map(|a| (a.name.local_name, a.value)).collect(),
            },
            Ok(XmlEvent::EndElement { name }) => XmlItem::End { name: name.local_name },
            Ok(XmlEvent::Characters(text)) => XmlItem::Text { text },
            Ok(_) => XmlItem::Other,
            Err(_) => break,
        });
    }
    items
}

/// A change that the splits file makes to the stored settings.
#[derive(Debug, PartialEq, Eq)]
pub enum SettingUpdate {
    /// The split event `key` is enabled or not.
    Flag { key: String, value: bool },
    /// The splits file's own path.
    SplitsFile { path: String },
}

/// A `SettingUpdate` with its strings as character sequences.
pub enum SettingChange {
    Flag(Seq<char>, bool),
    SplitsFile(Seq<char>),
}

impl View for SettingUpdate {
    type V = SettingChange;

    open spec fn view(&self) -> SettingChange {
        match self {
            SettingUpdate::Flag { key, value } => SettingChange::Flag(key@, *value),
            SettingUpdate::SplitsFile { path } => SettingChange::SplitsFile(path@),
        }
    }
}

/// Where the reader of a splits file stands: inside the auto splitter's
/// settings block, inside a setting, and the setting whose value comes next.
pub struct ReaderModel {
    pub in_autosplitter: bool,
    pub in_splits: bool,
    pub current_name: Option<Seq<char>>,
}

/// The reader at the start of a document.
pub open spec fn reader_start() -> ReaderModel {
    ReaderModel { in_autosplitter: false, in_splits: false, current_name: None }
}

/// The reader after the event `item`, and the change it makes, if any. A
/// `CustomSettings` element holds the settings. A `Setting` whose first
/// attribute is a non-empty `id` names the flag that its text sets to whether
/// the text is `True`; the `id` `lss_file` instead gives the splits file's
/// path in a last attribute `value`.
pub open spec fn xml_step(s: ReaderModel, item: XmlItem) -> (ReaderModel, Option<SettingChange>) {
    match item {
        XmlItem::Start { name, attributes } => {
            let attrs = attributes@;
            if name@ == "CustomSettings"@ {
                (ReaderModel { in_autosplitter: true, ..s }, None)
            } else if name@ == "Setting"@ && attrs.len() > 0 && attrs[0].0@ == "id"@ {
                let id = attrs[0].1@;
                let last = attrs.last();
                if id.len() != 0 && id != "lss_file"@ {
                    (ReaderModel { current_name: Some(id), in_splits: true, ..s }, None)
                } else if id == "lss_file"@ && last.0@ == "value"@ && last.1@.len() != 0 {
                    (
                        ReaderModel { current_name: None, in_splits: false, ..s },
                        Some(SettingChange::SplitsFile(last.1@)),
                    )
                } else {
                    (s, None)
                }
            } else {
                (s, None)
            }
        },
        XmlItem::Text { text } => if s.in_autosplitter && s.in_splits && s.current_name.is_some() {
            (
                ReaderModel { current_name: None, ..s },
                Some(SettingChange::Flag(s.current_name.unwrap(), text@ == "True"@)),
            )
        } else {
            (s, None)
        },
        XmlItem::End { name } => if name@ == "CustomSettings"@ {
            (ReaderModel { in_autosplitter: false, ..s }, None)
        } else if name@ == "Setting"@ {
            (ReaderModel { in_splits: false, ..s }, None)
        } else {
            (s, None)
        },
        XmlItem::Other => (s, None),
    }
}

/// The reader after the events `items`, in order, and the changes they make.
pub open spec fn xml_updates(s: ReaderModel, items: Seq<XmlItem>) -> (ReaderModel, Seq<SettingChange>)
    decreases items.len(),
{
    if items.len() == 0 {
        (s, Seq::empty())
    } else {
        let (s1, changes) = xml_updates(s, items.drop_last());
        let (s2, c) = xml_step(s1, items.last());
        match c {
            Some(c) => (s2, changes.push(c)),
            None => (s2, changes),
        }
    }
}

/// The changes of a list of updates, in order.
pub open spec fn update_views(s: Seq<SettingUpdate>) -> Seq<SettingChange> {
    s.map_values(|u: SettingUpdate| u@)
}

/// Whether `s` holds the characters of `lit`.
fn is_literal(s: &String, lit: &str) -> (r: bool)
    ensures
        r == (s@ == lit@),
{
    *s == lit.to_owned()
}

/// The state of a reader of a splits file.
#[derive(Debug)]
pub struct XmlSettingsReader {
    in_autosplitter: bool,
    in_splits: bool,
    current_name: Option<String>,
}

impl XmlSettingsReader {
    pub closed spec fn view(&self) -> ReaderModel {
        ReaderModel {
            in_autosplitter: self.in_autosplitter,
            in_splits: self.in_splits,
            current_name: match self.current_name {
                Some(n) => Some(n@),
                None => None,
            },
        }
    }

    pub fn new() -> (r: Self)
        ensures
            r.view() == reader_start(),
    {
        XmlSettingsReader { in_autosplitter: false, in_splits: false, current_name: None }
    }
}

/// Takes in one event of a splits file; returns the change it makes, if any.
pub fn match_xml(e: &XmlItem, reader: &mut XmlSettingsReader) -> (r: Option<SettingUpdate>)
    ensures
        (final(reader).view(), match r {
            Some(u) => Some(u@),
            None => None,
        }) == xml_step(old(reader).view(), *e),
{
    match e {
        XmlItem::Start { name, attributes } => {
            if is_literal(name, "CustomSettings") {
                reader.in_autosplitter = true;
                None
            } else if is_literal(name, "Setting") && attributes.len() > 0 && is_literal(&attributes[0].0, "id") {
                let id = &attributes[0].1;
                let last = &attributes[attributes.len() - 1];
                if !id.as_str().is_empty() && !is_literal(id, "lss_file") {
                    reader.current_name = Some(id.clone());
                    reader.in_splits = true;
                    None
                } else if is_literal(id, "lss_file") && is_literal(&last.0, "value") && !last.1.as_str().is_empty() {
                    reader.current_name = None;
                    reader.in_splits = false;
                    Some(SettingUpdate::SplitsFile { path: last.1.clone() })
                } else {
                    None
                }
            } else {
                None
            }
        },
        XmlItem::Text { text } => {
            if reader.in_autosplitter && reader.in_splits && reader.current_name.is_some() {
                let key = reader.current_name.take().unwrap();
                Some(SettingUpdate::Flag { key, value: is_literal(text, "True") })
            } else {
                None
            }
        },
        XmlItem::End { name } => {
            if is_literal(name, "CustomSettings") {
                reader.in_autosplitter = false;
            } else if is_literal(name, "Setting") {
                reader.in_splits = false;
            }
            None
        },
        XmlItem::Other => None,
    }
}

/// The changes that the events `items` of a splits file make, in order.
pub fn read_settings_events(items: &Vec<XmlItem>) -> (r: Vec<SettingUpdate>)
    ensures
        update_views(r@) == xml_updates(reader_start(), items@).1,
{
    let mut reader = XmlSettingsReader::new();
    let mut out: Vec<SettingUpdate> = Vec::new();
    let mut i: usize = 0;
    while i < items.len()
        invariant
            i <= items@.len(),
            (reader.view(), update_views(out@)) == xml_updates(reader_start(), items@.subrange(0, i as int)),
        decreases items@.len() - i,
    {
        proof {
            assert(items@.subrange(0, i + 1).drop_last() =~= items@.subrange(0, i as int));
        }
        match match_xml(&items[i], &mut reader) {
            Some(u) => {
                out.push(u);
                proof {
                    assert(update_views(out@) =~= update_views(out@.drop_last()).push(u@));
                }
            },
            None => {},
        }
        i = i + 1;
    }
    proof {
        assert(items@.subrange(0, i as int) =~= items@);
    }
    out
}

/// The changes that the splits file whose contents are `bytes` makes, in order.
pub fn read_settings_xml(bytes: &[u8]) -> (r: Vec<SettingUpdate>)
    ensures
        update_views(r@) == xml_updates(reader_start(), xml_items_of(bytes@)).1,
{
    let items = parse_xml(bytes);
    read_settings_events(&items)
}

} // verus!
