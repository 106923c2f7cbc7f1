//! Application enumeration service: desktop-entry records, the usage
//! frequency cache merged into them, and the query path.
//!
//! Enumerating desktop files and reading them is the transport's job; this
//! module takes each file's path and bytes, parses the entry through the
//! desktop-entry parser, and keeps the verified record logic: which files
//! yield an application, how cached usage counts are merged across
//! re-enumerations, and how queries filter and order the results.

use vstd::prelude::*;

use crate::text::contains_seq;
use crate::text::ends_with;
use crate::text::seq_char_le;
use crate::text::str_contains;
use crate::text::str_ends_with;
use crate::text::str_eq;
use crate::text::str_le;

verus! {

/// The kind of a desktop entry that yields an application record.
#[derive(Debug, Clone, Copy, PartialEq, Eq, Structural)]
pub enum ApplicationType {
    Application,
    Link,
    Service,
}

impl Default for ApplicationType {
    fn default() -> (r: Self)
        ensures
            r == ApplicationType::Application,
    {
        ApplicationType::Application
    }
}

/// One installed application, as read from its desktop file, together with
/// its usage frequency.
#[derive(Debug)]
pub struct Application {
    pub name: String,
    pub description: Option<String>,
    pub executable: String,
    pub desktop: String,
    pub icon_name: Option<String>,
    pub startup_wm_class: Option<String>,
    pub frequency: usize,
    pub type_: ApplicationType,
    pub terminal: bool,
    pub categories: Option<String>,
}

/// The mathematical shape of an application record.
pub ghost struct ApplicationView {
    pub name: Seq<char>,
    pub description: Option<Seq<char>>,
    pub executable: Seq<char>,
    pub desktop: Seq<char>,
    pub icon_name: Option<Seq<char>>,
    pub startup_wm_class: Option<Seq<char>>,
    pub frequency: int,
    pub type_: ApplicationType,
    pub terminal: bool,
    pub categories: Option<Seq<char>>,
}

pub open spec fn view_opt_string(o: Option<String>) -> Option<Seq<char>> {
    match o {
        Some(s) => Some(s@),
        None => None,
    }
}

impl View for Application {
    type V = ApplicationView;

    open spec fn view(&self) -> ApplicationView {
        ApplicationView {
            name: self.name@,
            description: view_opt_string(self.description),
            executable: self.executable@,
            desktop: self.desktop@,
            icon_name: view_opt_string(self.icon_name),
            startup_wm_class: view_opt_string(self.startup_wm_class),
            frequency: self.frequency as int,
            type_: self.type_,
            terminal: self.terminal,
            categories: view_opt_string(self.categories),
        }
    }
}

fn clone_opt_string(o: &Option<String>) -> (r: Option<String>)
    ensures
        r == *o,
{
    match o {
        Some(s) => Some(s.clone()),
        None => None,
    }
}

impl Clone for Application {
    fn clone(&self) -> (r: Self)
        ensures
            r == *self,
    {
        Application {
            name: self.name.clone(),
            description: clone_opt_string(&self.description),
            executable: self.executable.clone(),
            desktop: self.desktop.clone(),
            icon_name: clone_opt_string(&self.icon_name),
            startup_wm_class: clone_opt_string(&self.startup_wm_class),
            frequency: self.frequency,
            type_: self.type_,
            terminal: self.terminal,
            categories: clone_opt_string(&self.categories),
        }
    }
}

impl PartialEq for Application {
    /// Records compare as the query order does: by frequency and name.
    fn eq(&self, other: &Self) -> (r: bool)
        ensures
            r == (self.frequency == other.frequency && self.name@ == other.name@),
    {
        self.frequency == other.frequency && str_eq(self.name.as_str(), other.name.as_str())
    }
}

impl vstd::std_specs::cmp::PartialEqSpecImpl for Application {
    open spec fn obeys_eq_spec() -> bool {
        true
    }

    open spec fn eq_spec(&self, other: &Application) -> bool {
        self.frequency == other.frequency && self.name@ == other.name@
    }
}

/// Why a desktop file yields no application record.
#[derive(Debug)]
pub enum ApplicationError {
    DesktopfileNotFound,
    NoName,
    NoExec,
    IniParse,
    IniMissing(String),
    WrongType,
    CacheFileError(String),
    HomeFolderNotFound,
    Hidden,
    FileWatchError(String),
}

/// One attribute of a desktop entry's section: a key, an optional locale
/// parameter, and the values given for it.
#[derive(Debug)]
pub struct DesktopAttr {
    pub key: String,
    pub param: Option<String>,
    pub values: Vec<String>,
}

pub ghost struct DesktopAttrView {
    pub key: Seq<char>,
    pub param: Option<Seq<char>>,
    pub values: Seq<Seq<char>>,
}

impl View for DesktopAttr {
    type V = DesktopAttrView;

    open spec fn view(&self) -> DesktopAttrView {
        DesktopAttrView {
            key: self.key@,
            param: view_opt_string(self.param),
            values: self.values@.map_values(|v: String| v@),
        }
    }
}

/// Outcome of parsing a desktop file's bytes: unparseable, parseable but
/// without the main section, or the main section's attributes.
#[derive(Debug)]
pub enum ParsedEntry {
    Failed,
    NoSection,
    Section(Vec<DesktopAttr>),
}

pub ghost enum ParsedEntryView {
    Failed,
    NoSection,
    Section(Seq<DesktopAttrView>),
}

impl View for ParsedEntry {
    type V = ParsedEntryView;

    open spec fn view(&self) -> ParsedEntryView {
        match self {
            ParsedEntry::Failed => ParsedEntryView::Failed,
            ParsedEntry::NoSection => ParsedEntryView::NoSection,
            ParsedEntry::Section(attrs) => ParsedEntryView::Section(
                attrs@.map_values(|a: DesktopAttr| a@),
            ),
        }
    }
}

/// What the desktop-entry parser makes of the bytes: a function of the
/// bytes alone.
pub uninterp spec fn desktop_entry_of(bytes: Seq<u8>) -> ParsedEntryView;

/// Relies on freedesktop_entry_parser::Entry::parse: the parsed entry
/// depends on the bytes alone.  Hands over the "Desktop Entry" section's
/// attributes as plain key/param/values records, or says that parsing
/// failed or that the section is missing.
#[verifier::external_body]
fn parse_desktop_entry(bytes: &Vec<u8>) -> (r: ParsedEntry)
    ensures
        r@ == desktop_entry_of(bytes@),
{
    match freedesktop_entry_parser::Entry::parse(bytes) {
        Err(_) => ParsedEntry::Failed,
        Ok(entry) => match entry.section("Desktop Entry") {
            None => ParsedEntry::NoSection,
            Some(sec) => ParsedEntry::Section(
                sec.attrs().map(
                    |(k, v)| DesktopAttr { key: k.key.clone(), param: k.param.clone(), values: v.clone() },
                ).collect(),
            ),
        },
    }
}

/// The first value for a plain (unparameterized) attribute `key`, if any.
pub open spec fn attr_lookup(attrs: Seq<DesktopAttrView>, key: Seq<char>) -> Option<Seq<char>>
    decreases attrs.len(),
{
    if attrs.len() == 0 {
        None
    } else if attrs[0].key == key && attrs[0].param is None && attrs[0].values.len() > 0 {
        Some(attrs[0].values[0])
    } else {
        attr_lookup(attrs.drop_first(), key)
    }
}

proof fn lemma_attr_lookup_skip(attrs: Seq<DesktopAttrView>, key: Seq<char>, i: int)
    requires
        0 <= i <= attrs.len(),
        forall|j: int|
            0 <= j < i ==> !(attrs[j].key == key && attrs[j].param is None && attrs[j].values.len()
                > 0),
    ensures
        attr_lookup(attrs, key) == attr_lookup(attrs.skip(i), key),
    decreases i,
{
    if i == 0 {
        assert(attrs.skip(0) =~= attrs);
    } else {
        assert(attrs.drop_first() =~= attrs.skip(1));
        lemma_attr_lookup_skip(attrs.skip(1), key, i - 1);
        assert(attrs.skip(1).skip(i - 1) =~= attrs.skip(i));
    }
}

/// Find a plain attribute's first value.
fn find_attr(attrs: &Vec<DesktopAttr>, key: &str) -> (r: Option<String>)
    ensures
        view_opt_string(r) == attr_lookup(attrs@.map_values(|a: DesktopAttr| a@), key@),
{
    let ghost av = attrs@.map_values(|a: DesktopAttr| a@);
    let n = attrs.len();
    let mut i: usize = 0;
    while i < n
        invariant
            0 <= i <= n,
            n == attrs@.len(),
            av == attrs@.map_values(|a: DesktopAttr| a@),
            forall|j: int|
                0 <= j < i ==> !(av[j].key == key@ && av[j].param is None && av[j].values.len()
                    > 0),
        decreases n - i,
    {
        let a = &attrs[i];
        if str_eq(a.key.as_str(), key) && a.param.is_none() && a.values.len() > 0 {
            proof {
                lemma_attr_lookup_skip(av, key@, i as int);
                assert(av.skip(i as int)[0] == av[i as int]);
                assert(av.skip(i as int).len() > 0);
                assert(attr_lookup(av, key@) == Some(av[i as int].values[0]));
                assert(av[i as int].values[0] == a.values@.map_values(|v: String| v@)[0]);
            }
            return Some(a.values[0].clone());
        }
        proof {
            assert(av[i as int].key == attrs@[i as int].key@);
        }
        i = i + 1;
    }
    proof {
        lemma_attr_lookup_skip(av, key@, n as int);
        assert(av.skip(n as int) =~= Seq::<DesktopAttrView>::empty());
    }
    None
}

/// Why a desktop file is rejected, in the order the checks run.
pub ghost enum AppReject {
    NotDesktopFile,
    ParseFailed,
    SectionMissing,
    WrongType,
    NoExec,
    Hidden,
    NoName,
}

/// The application record a desktop file denotes, or the reason it is
/// rejected: the file must have the desktop extension and a parseable
/// "Desktop Entry" section of a known type with an executable, it must not
/// be hidden, and it must be named.  A fresh record starts at frequency
/// zero.
pub open spec fn spec_application_from(path: Seq<char>, bytes: Seq<u8>) -> Result<
    ApplicationView,
    AppReject,
> {
    if !ends_with(path, ".desktop"@) {
        Err(AppReject::NotDesktopFile)
    } else {
        match desktop_entry_of(bytes) {
            ParsedEntryView::Failed => Err(AppReject::ParseFailed),
            ParsedEntryView::NoSection => Err(AppReject::SectionMissing),
            ParsedEntryView::Section(attrs) => {
                let ty = attr_lookup(attrs, "Type"@);
                let picked: Option<(ApplicationType, Option<Seq<char>>)> = if ty == Some(
                    "Application"@,
                ) {
                    Some((ApplicationType::Application, attr_lookup(attrs, "Exec"@)))
                } else if ty == Some("Link"@) {
                    Some((ApplicationType::Link, attr_lookup(attrs, "URL"@)))
                } else if ty == Some("Service"@) {
                    Some((ApplicationType::Service, attr_lookup(attrs, "Exec"@)))
                } else {
                    None
                };
                match picked {
                    None => Err(AppReject::WrongType),
                    Some((t, exec)) => match exec {
                        None => Err(AppReject::NoExec),
                        Some(executable) => {
                            if attr_lookup(attrs, "Hidden"@) == Some("true"@) || attr_lookup(
                                attrs,
                                "NoDisplay"@,
                            ) == Some("true"@) {
                                Err(AppReject::Hidden)
                            } else {
                                match attr_lookup(attrs, "Name"@) {
                                    None => Err(AppReject::NoName),
                                    Some(name) => Ok(
                                        ApplicationView {
                                            name,
                                            description: attr_lookup(attrs, "GenericName"@),
                                            executable,
                                            desktop: path,
                                            icon_name: attr_lookup(attrs, "Icon"@),
                                            startup_wm_class: attr_lookup(
                                                attrs,
                                                "StartupWMClass"@,
                                            ),
                                            frequency: 0,
                                            type_: t,
                                            terminal: attr_lookup(attrs, "Terminal"@) == Some(
                                                "true"@,
                                            ),
                                            categories: attr_lookup(attrs, "Categories"@),
                                        },
                                    ),
                                }
                            }
                        },
                    },
                }
            },
        }
    }
}

/// Which error each rejection surfaces as.
pub open spec fn rejects_as(e: ApplicationError, k: AppReject) -> bool {
    match k {
        AppReject::NotDesktopFile => e is DesktopfileNotFound,
        AppReject::ParseFailed => e is IniParse,
        AppReject::SectionMissing => e matches ApplicationError::IniMissing(s) && s@
            == "Desktop Entry"@,
        AppReject::WrongType => e is WrongType,
        AppReject::NoExec => e is NoExec,
        AppReject::Hidden => e is Hidden,
        AppReject::NoName => e is NoName,
    }
}

impl Application {
    /// Build the application record a desktop file denotes, from the file's
    /// path and bytes.
    pub fn from_desktop_bytes(path: String, bytes: &Vec<u8>) -> (r: Result<
        Application,
        ApplicationError,
    >)
        ensures
            match spec_application_from(path@, bytes@) {
                Ok(av) => r matches Ok(a) && a@ == av,
                Err(k) => r matches Err(e) && rejects_as(e, k),
            },
    {
        if !str_ends_with(path.as_str(), ".desktop") {
            return Err(ApplicationError::DesktopfileNotFound);
        }
        let parsed = parse_desktop_entry(bytes);
        match parsed {
            ParsedEntry::Failed => Err(ApplicationError::IniParse),
            ParsedEntry::NoSection => Err(ApplicationError::IniMissing("Desktop Entry".to_owned())),
            ParsedEntry::Section(attrs) => {
                let type_attr = find_attr(&attrs, "Type");
                let picked: Option<(ApplicationType, Option<String>)> = match &type_attr {
                    Some(t) => {
                        if str_eq(t.as_str(), "Application") {
                            Some((ApplicationType::Application, find_attr(&attrs, "Exec")))
                        } else if str_eq(t.as_str(), "Link") {
                            Some((ApplicationType::Link, find_attr(&attrs, "URL")))
                        } else if str_eq(t.as_str(), "Service") {
                            Some((ApplicationType::Service, find_attr(&attrs, "Exec")))
                        } else {
                            None
                        }
                    },
                    None => None,
                };
                match picked {
                    None => Err(ApplicationError::WrongType),
                    Some((t, exec)) => match exec {
                        None => Err(ApplicationError::NoExec),
                        Some(executable) => {
                            let hidden = match find_attr(&attrs, "Hidden") {
                                Some(v) => str_eq(v.as_str(), "true"),
                                None => false,
                            };
                            let nodisplay = match find_attr(&attrs, "NoDisplay") {
                                Some(v) => str_eq(v.as_str(), "true"),
                                None => false,
                            };
                            if hidden || nodisplay {
                                return Err(ApplicationError::Hidden);
                            }
                            match find_attr(&attrs, "Name") {
                                None => Err(ApplicationError::NoName),
                                Some(name) => {
                                    let terminal = match find_attr(&attrs, "Terminal") {
                                        Some(v) => str_eq(v.as_str(), "true"),
                                        None => false,
                                    };
                                    Ok(
                                        Application {
                                            name,
                                            description: find_attr(&attrs, "GenericName"),
                                            executable,
                                            desktop: path,
                                            icon_name: find_attr(&attrs, "Icon"),
                                            startup_wm_class: find_attr(&attrs, "StartupWMClass"),
                                            frequency: 0,
                                            type_: t,
                                            terminal,
                                            categories: find_attr(&attrs, "Categories"),
                                        },
                                    )
                                },
                            }
                        },
                    },
                }
            },
        }
    }

    /// Does the query term occur in any of the searchable fields?  The
    /// match is a case-sensitive substring match over the name, the
    /// description, the executable and the desktop file path.
    pub fn match_(&self, pat: &str) -> (r: bool)
        ensures
            r == spec_matches(self@, pat@),
    {
        if str_contains(self.name.as_str(), pat) {
            return true;
        }
        let in_desc = match &self.description {
            Some(d) => str_contains(d.as_str(), pat),
            None => false,
        };
        if in_desc {
            return true;
        }
        if str_contains(self.executable.as_str(), pat) {
            return true;
        }
        str_contains(self.desktop.as_str(), pat)
    }

    /// Record one successful launch: the usage frequency grows by one.
    /// Persisting the new count is the caller's concern.
    pub fn record_launch(&mut self)
        requires
            old(self).frequency < usize::MAX,
        ensures
            final(self).frequency == old(self).frequency + 1,
            final(self)@ == (ApplicationView { frequency: old(self)@.frequency + 1, ..old(self)@ }),
    {
        self.frequency = self.frequency + 1;
    }

    /// Query order: ascending by frequency, then by name.
    pub fn le(&self, other: &Application) -> (r: bool)
        ensures
            r == app_le(self@, other@),
    {
        if self.frequency < other.frequency {
            true
        } else if self.frequency > other.frequency {
            false
        } else {
            str_le(self.name.as_str(), other.name.as_str())
        }
    }
}

/// The query term occurs in the name, the description, the executable or
/// the desktop file path.
pub open spec fn spec_matches(a: ApplicationView, pat: Seq<char>) -> bool {
    ||| contains_seq(a.name, pat)
    ||| (a.description matches Some(d) && contains_seq(d, pat))
    ||| contains_seq(a.executable, pat)
    ||| contains_seq(a.desktop, pat)
}

/// The query order: ascending by frequency, then by name.
pub open spec fn app_le(a: ApplicationView, b: ApplicationView) -> bool {
    a.frequency < b.frequency || (a.frequency == b.frequency && seq_char_le(a.name, b.name))
}

pub proof fn lemma_app_le_total(a: ApplicationView, b: ApplicationView)
    ensures
        app_le(a, b) || app_le(b, a),
{
    crate::text::lemma_seq_char_le_total(a.name, b.name);
}

pub proof fn lemma_app_le_trans(a: ApplicationView, b: ApplicationView, c: ApplicationView)
    requires
        app_le(a, b),
        app_le(b, c),
    ensures
        app_le(a, c),
{
    if a.frequency == b.frequency && b.frequency == c.frequency {
        crate::text::lemma_seq_char_le_trans(a.name, b.name, c.name);
    }
}

/// Ascending by frequency, then by name.
pub open spec fn sorted_apps(s: Seq<ApplicationView>) -> bool {
    forall|i: int, j: int| 0 <= i < j < s.len() ==> app_le(s[i], s[j])
}

/// The usage counts a list of applications carries, keyed by display name;
/// a later entry with the same name wins, as a keyed insert would.
pub open spec fn freq_map(apps: Seq<ApplicationView>) -> Map<Seq<char>, int>
    decreases apps.len(),
{
    if apps.len() == 0 {
        Map::empty()
    } else {
        freq_map(apps.drop_last()).insert(apps.last().name, apps.last().frequency)
    }
}

/// The view of a frequency table: name/count pairs.
pub open spec fn pairs_view(t: Seq<(String, usize)>) -> Seq<(Seq<char>, int)> {
    t.map_values(|p: (String, usize)| (p.0@, p.1 as int))
}

/// The map a frequency table denotes; a later pair with the same name wins.
pub open spec fn pairs_map(t: Seq<(Seq<char>, int)>) -> Map<Seq<char>, int>
    decreases t.len(),
{
    if t.len() == 0 {
        Map::empty()
    } else {
        pairs_map(t.drop_last()).insert(t.last().0, t.last().1)
    }
}

/// The application with its frequency replaced from the map, when its name
/// is known there.
pub open spec fn map_freq_of(m: Map<Seq<char>, int>, a: ApplicationView) -> ApplicationView {
    if m.dom().contains(a.name) {
        ApplicationView { frequency: m[a.name], ..a }
    } else {
        a
    }
}

/// A freshly enumerated list merged against the counts of a previous list:
/// each new record keeps its own frequency unless the old list knew its
/// name.
pub open spec fn spec_update_all(
    apps: Seq<ApplicationView>,
    fresh: Seq<ApplicationView>,
) -> Seq<ApplicationView> {
    fresh.map_values(|a: ApplicationView| map_freq_of(freq_map(apps), a))
}

proof fn lemma_pairs_freq_agree(apps: Seq<ApplicationView>, t: Seq<(Seq<char>, int)>)
    requires
        t.len() == apps.len(),
        forall|i: int| 0 <= i < t.len() ==> (#[trigger] t[i]).0 == apps[i].name && t[i].1
            == apps[i].frequency,
    ensures
        pairs_map(t) == freq_map(apps),
    decreases t.len(),
{
    if t.len() > 0 {
        lemma_pairs_freq_agree(apps.drop_last(), t.drop_last());
    }
}

/// A record in a list whose equal names carry equal counts finds its own
/// count in the list's map.
pub open spec fn name_coherent(s: Seq<ApplicationView>) -> bool {
    forall|i: int, j: int|
        0 <= i < s.len() && 0 <= j < s.len() && (#[trigger] s[i]).name == (#[trigger] s[j]).name
            ==> s[i].frequency == s[j].frequency
}

proof fn lemma_freq_map_coherent(s: Seq<ApplicationView>, i: int)
    requires
        name_coherent(s),
        0 <= i < s.len(),
    ensures
        freq_map(s).dom().contains(s[i].name),
        freq_map(s)[s[i].name] == s[i].frequency,
    decreases s.len(),
{
    if i == s.len() - 1 {
    } else {
        assert(name_coherent(s.drop_last())) by {
            assert(forall|p: int| 0 <= p < s.len() - 1 ==> s.drop_last()[p] == s[p]);
        }
        lemma_freq_map_coherent(s.drop_last(), i);
        if s.last().name == s[i].name {
            assert(s.last().frequency == s[i].frequency);
        }
    }
}

/// Frequency-merge idempotence law: re-enumerating twice with no launches
/// in between yields the same records, and so the same counts, both times.
/// A re-enumeration hands every occurrence of a name the same (zero) count,
/// which is the `name_coherent` hypothesis.
pub proof fn lemma_merge_idempotent(apps: Seq<ApplicationView>, fresh: Seq<ApplicationView>)
    requires
        name_coherent(fresh),
    ensures
        spec_update_all(spec_update_all(apps, fresh), fresh) == spec_update_all(apps, fresh),
{
    let m0 = freq_map(apps);
    let first = spec_update_all(apps, fresh);
    let m1 = freq_map(first);
    assert(name_coherent(first)) by {
        assert forall|i: int, j: int|
            0 <= i < first.len() && 0 <= j < first.len() && (#[trigger] first[i]).name == (
            #[trigger] first[j]).name implies first[i].frequency == first[j].frequency by {
            assert(first[i] == map_freq_of(m0, fresh[i]));
            assert(first[j] == map_freq_of(m0, fresh[j]));
            assert(fresh[i].name == fresh[j].name);
        }
    }
    let second = spec_update_all(first, fresh);
    assert forall|i: int| 0 <= i < second.len() implies second[i] == first[i] by {
        assert(first[i] == map_freq_of(m0, fresh[i]));
        assert(first[i].name == fresh[i].name);
        lemma_freq_map_coherent(first, i);
        assert(m1.dom().contains(fresh[i].name));
        assert(m1[fresh[i].name] == first[i].frequency);
        assert(second[i] == map_freq_of(m1, fresh[i]));
    }
    assert(second =~= first);
}

/// The applications snapshot: the current list of installed applications.
#[derive(Debug)]
pub struct ApplicationsData {
    pub apps: Vec<Application>,
}

impl Clone for ApplicationsData {
    fn clone(&self) -> (r: Self)
        ensures
            r.apps@ == self.apps@,
    {
        let r = ApplicationsData { apps: self.apps.clone() };
        proof {
            assert forall|i: int| 0 <= i < r.apps@.len() implies r.apps@[i] == self.apps@[i] by {
                assert(cloned::<Application>(self.apps@[i], r.apps@[i]));
            }
            assert(r.apps@ =~= self.apps@);
        }
        r
    }
}

/// The views of a list of applications.
pub open spec fn apps_view(s: Seq<Application>) -> Seq<ApplicationView> {
    s.map_values(|a: Application| a@)
}

impl ApplicationsData {
    /// A snapshot from a fresh enumeration, with the cached usage counts
    /// merged in when a cache was found.  Writing an all-zero cache when
    /// none exists is the caller's concern.
    pub fn new(apps: Vec<Application>, cached: Option<Vec<(String, usize)>>) -> (r:
        ApplicationsData)
        ensures
            match cached {
                None => r.apps@ == apps@,
                Some(t) => {
                    &&& r.apps@.len() == apps@.len()
                    &&& forall|i: int|
                        0 <= i < apps@.len() ==> #[trigger] r.apps@[i]@ == map_freq_of(
                            pairs_map(pairs_view(t@)),
                            apps@[i]@,
                        )
                },
            },
    {
        let mut d = ApplicationsData { apps };
        match cached {
            None => d,
            Some(t) => {
                d.apply_frequencies(&t);
                d
            },
        }
    }

    /// The usage counts this snapshot carries, one pair per record in
    /// order; reading the table as a map, a later duplicate name wins, as
    /// it does for a keyed insert.
    pub fn get_frequencies(&self) -> (r: Vec<(String, usize)>)
        ensures
            r@.len() == self.apps@.len(),
            forall|i: int|
                0 <= i < r@.len() ==> (#[trigger] r@[i]).0@ == self.apps@[i].name@ && r@[i].1
                    == self.apps@[i].frequency,
            pairs_map(pairs_view(r@)) == freq_map(apps_view(self.apps@)),
    {
        let n = self.apps.len();
        let mut r: Vec<(String, usize)> = Vec::new();
        let mut i: usize = 0;
        while i < n
            invariant
                0 <= i <= n,
                n == self.apps@.len(),
                r@.len() == i,
                forall|j: int|
                    0 <= j < i ==> (#[trigger] r@[j]).0@ == self.apps@[j].name@ && r@[j].1
                        == self.apps@[j].frequency,
            decreases n - i,
        {
            r.push((self.apps[i].name.clone(), self.apps[i].frequency));
            i = i + 1;
        }
        proof {
            assert(pairs_view(r@).len() == apps_view(self.apps@).len());
            lemma_pairs_freq_agree(apps_view(self.apps@), pairs_view(r@));
        }
        r
    }

    /// Merge a frequency table into the current records by name: a record
    /// whose name the table knows takes the table's count, any other record
    /// is untouched, and table names that match no record are dropped.
    pub fn apply_frequencies(&mut self, table: &Vec<(String, usize)>)
        ensures
            final(self).apps@.len() == old(self).apps@.len(),
            forall|i: int|
                0 <= i < old(self).apps@.len() ==> #[trigger] final(self).apps@[i]@ == map_freq_of(
                    pairs_map(pairs_view(table@)),
                    old(self).apps@[i]@,
                ),
    {
        let ghost m = pairs_map(pairs_view(table@));
        let n = self.apps.len();
        let mut i: usize = 0;
        while i < n
            invariant
                0 <= i <= n,
                n == self.apps@.len(),
                self.apps@.len() == old(self).apps@.len(),
                m == pairs_map(pairs_view(table@)),
                forall|j: int|
                    0 <= j < i ==> #[trigger] self.apps@[j]@ == map_freq_of(m, old(self).apps@[j]@),
                forall|j: int| i <= j < n ==> #[trigger] self.apps@[j] == old(self).apps@[j],
            decreases n - i,
        {
            let f_opt = lookup_freq(table, self.apps[i].name.as_str());
            match f_opt {
                Some(f) => {
                    let mut a = self.apps[i].clone();
                    a.frequency = f;
                    self.apps.set(i, a);
                },
                None => {},
            }
            i = i + 1;
        }
    }

    /// Re-enumerate: replace the records with the fresh list, carrying the
    /// usage counts of the snapshot's own records over by name, so launches
    /// since the last save are not lost.
    pub fn update_all(&mut self, fresh: Vec<Application>)
        ensures
            final(self).apps@.len() == fresh@.len(),
            apps_view(final(self).apps@) == spec_update_all(
                apps_view(old(self).apps@),
                apps_view(fresh@),
            ),
    {
        let table = self.get_frequencies();
        self.apps = fresh;
        self.apply_frequencies(&table);
        proof {
            assert(apps_view(self.apps@) =~= spec_update_all(
                apps_view(old(self).apps@),
                apps_view(fresh@),
            ));
        }
    }

    /// The desktop files that yield application records, in enumeration
    /// order; files that are no application (wrong extension, unparseable,
    /// hidden, unnamed) are left out.
    pub fn apps_from_pathbufs(files: Vec<DesktopFile>) -> (r: Vec<Application>)
        ensures
            apps_view(r@) == spec_apps_from(files@.map_values(|f: DesktopFile| f@)),
    {
        let ghost fv = files@.map_values(|f: DesktopFile| f@);
        let n = files.len();
        let mut r: Vec<Application> = Vec::new();
        let mut i: usize = 0;
        while i < n
            invariant
                0 <= i <= n,
                n == files@.len(),
                fv == files@.map_values(|f: DesktopFile| f@),
                apps_view(r@) == spec_apps_from(fv.take(i as int)),
            decreases n - i,
        {
            let file = &files[i];
            let parsed = Application::from_desktop_bytes(file.path.clone(), &file.bytes);
            proof {
                assert(fv.take(i + 1).drop_last() =~= fv.take(i as int));
                assert(fv.take(i + 1).last() == fv[i as int]);
                assert(fv[i as int].path == files@[i as int].path@);
                assert(fv[i as int].bytes == files@[i as int].bytes@);
            }
            match parsed {
                Ok(a) => {
                    r.push(a);
                    proof {
                        assert(apps_view(r@) =~= spec_apps_from(fv.take(i + 1)));
                    }
                },
                Err(_) => {
                    proof {
                        assert(apps_view(r@) =~= spec_apps_from(fv.take(i + 1)));
                    }
                },
            }
            i = i + 1;
        }
        proof {
            assert(fv.take(n as int) =~= fv);
        }
        r
    }

    /// All records the query term matches, sorted ascending by frequency
    /// and then by name: the least-used, alphabetically-first record comes
    /// first.
    pub fn query(&self, term: &str) -> (r: Vec<Application>)
        ensures
            sorted_apps(apps_view(r@)),
            apps_view(r@).to_multiset() == apps_view(self.apps@).filter(
                |a: ApplicationView| spec_matches(a, term@),
            ).to_multiset(),
    {
        let ghost pred = |a: ApplicationView| spec_matches(a, term@);
        let n = self.apps.len();
        let mut r: Vec<Application> = Vec::new();
        let mut i: usize = 0;
        proof {
            assert(apps_view(r@) =~= Seq::<ApplicationView>::empty());
            assert(apps_view(self.apps@).take(0) =~= Seq::<ApplicationView>::empty());
            assert(Seq::<ApplicationView>::empty().filter(pred) =~= Seq::<
                ApplicationView,
            >::empty());
        }
        while i < n
            invariant
                0 <= i <= n,
                n == self.apps@.len(),
                pred == (|a: ApplicationView| spec_matches(a, term@)),
                sorted_apps(apps_view(r@)),
                apps_view(r@).to_multiset() == apps_view(self.apps@).take(i as int).filter(
                    pred,
                ).to_multiset(),
            decreases n - i,
        {
            let ghost av = apps_view(self.apps@);
            proof {
                assert(av.take(i + 1).drop_last() =~= av.take(i as int));
                assert(av.take(i + 1).last() == av[i as int]);
                assert(av[i as int] == self.apps@[i as int]@);
            }
            if self.apps[i].match_(term) {
                let a = self.apps[i].clone();
                sorted_insert(&mut r, a);
                proof {
                    reveal_with_fuel(Seq::filter, 2);
                    assert(pred(av[i as int]));
                    assert(av.take(i + 1).filter(pred) == av.take(i as int).filter(pred).push(
                        av[i as int],
                    ));
                    broadcast use vstd::seq_lib::to_multiset_build;

                }
            } else {
                proof {
                    reveal_with_fuel(Seq::filter, 2);
                    assert(!pred(av[i as int]));
                    assert(av.take(i + 1).filter(pred) == av.take(i as int).filter(pred));
                }
            }
            i = i + 1;
        }
        proof {
            assert(apps_view(self.apps@).take(n as int) =~= apps_view(self.apps@));
        }
        r
    }
}

/// The last count a table gives for `name`, if any.
fn lookup_freq(table: &Vec<(String, usize)>, name: &str) -> (r: Option<usize>)
    ensures
        match r {
            Some(f) => pairs_map(pairs_view(table@)).dom().contains(name@) && pairs_map(
                pairs_view(table@),
            )[name@] == f,
            None => !pairs_map(pairs_view(table@)).dom().contains(name@),
        },
{
    let n = table.len();
    let mut best: Option<usize> = None;
    let mut i: usize = 0;
    while i < n
        invariant
            0 <= i <= n,
            n == table@.len(),
            match best {
                Some(f) => pairs_map(pairs_view(table@.take(i as int))).dom().contains(name@)
                    && pairs_map(pairs_view(table@.take(i as int)))[name@] == f,
                None => !pairs_map(pairs_view(table@.take(i as int))).dom().contains(name@),
            },
        decreases n - i,
    {
        proof {
            assert(pairs_view(table@.take(i + 1)).drop_last() =~= pairs_view(
                table@.take(i as int),
            ));
            assert(pairs_view(table@.take(i + 1)).last() == (table@[i as int].0@, table@[i
                as int].1 as int));
        }
        if str_eq(table[i].0.as_str(), name) {
            best = Some(table[i].1);
        }
        i = i + 1;
    }
    proof {
        assert(table@.take(n as int) =~= table@);
        assert(pairs_view(table@.take(n as int)) =~= pairs_view(table@));
    }
    best
}

/// Insert a record into a sorted list, keeping it sorted.
fn sorted_insert(v: &mut Vec<Application>, x: Application)
    requires
        sorted_apps(apps_view(old(v)@)),
    ensures
        sorted_apps(apps_view(final(v)@)),
        apps_view(final(v)@).to_multiset() == apps_view(old(v)@).to_multiset().insert(x@),
{
    let n = v.len();
    let mut i: usize = 0;
    while i < n && v[i].le(&x)
        invariant
            0 <= i <= n,
            n == v@.len(),
            v == old(v),
            forall|j: int| 0 <= j < i ==> app_le(apps_view(v@)[j], x@),
        decreases n - i,
    {
        i = i + 1;
    }
    let ghost vs = apps_view(v@);
    proof {
        if i < n {
            lemma_app_le_total(vs[i as int], x@);
        }
        assert forall|q: int| i <= q < vs.len() implies app_le(x@, vs[q]) by {
            if q > i {
                lemma_app_le_trans(x@, vs[i as int], vs[q]);
            }
        }
    }
    v.insert(i, x);
    proof {
        assert(apps_view(v@) =~= vs.insert(i as int, x@));
        vs.insert_ensures(i as int, x@);
        let ws = vs.insert(i as int, x@);
        assert forall|p: int, q: int| 0 <= p < q < ws.len() implies app_le(ws[p], ws[q]) by {
            if q < i {
                assert(ws[p] == vs[p] && ws[q] == vs[q]);
            } else if p > i {
                assert(ws[p] == vs[p - 1] && ws[q] == vs[q - 1]);
            } else if p < i && q == i {
                assert(ws[p] == vs[p] && ws[q] == x@);
            } else if p == i && q > i {
                assert(ws[p] == x@ && ws[q] == vs[q - 1]);
            } else if p < i && q > i {
                assert(ws[p] == vs[p] && ws[q] == vs[q - 1]);
                lemma_app_le_trans(vs[p], x@, vs[q - 1]);
            }
        }
        broadcast use vstd::seq_lib::to_multiset_insert;

    }
}


fn opt_str_eq(a: &Option<String>, b: &Option<String>) -> (r: bool)
    ensures
        r == (view_opt_string(*a) == view_opt_string(*b)),
{
    match (a, b) {
        (Some(x), Some(y)) => str_eq(x.as_str(), y.as_str()),
        (None, None) => true,
        _ => false,
    }
}

/// View equality of two records, over every observable field.
fn app_view_eq(a: &Application, b: &Application) -> (r: bool)
    ensures
        r == (a@ == b@),
{
    let r = str_eq(a.name.as_str(), b.name.as_str()) && opt_str_eq(&a.description, &b.description)
        && str_eq(a.executable.as_str(), b.executable.as_str()) && str_eq(
        a.desktop.as_str(),
        b.desktop.as_str(),
    ) && opt_str_eq(&a.icon_name, &b.icon_name) && opt_str_eq(
        &a.startup_wm_class,
        &b.startup_wm_class,
    ) && a.frequency == b.frequency && a.type_ == b.type_ && a.terminal == b.terminal
        && opt_str_eq(&a.categories, &b.categories);
    r
}

/// View equality of two record lists.
fn apps_list_eq(a: &Vec<Application>, b: &Vec<Application>) -> (r: bool)
    ensures
        r == (apps_view(a@) == apps_view(b@)),
{
    let n = a.len();
    if n != b.len() {
        proof {
            assert(apps_view(a@).len() != apps_view(b@).len());
        }
        return false;
    }
    let mut i: usize = 0;
    while i < n
        invariant
            0 <= i <= n,
            n == a@.len(),
            n == b@.len(),
            forall|j: int| 0 <= j < i ==> #[trigger] a@[j]@ == b@[j]@,
        decreases n - i,
    {
        if !app_view_eq(&a[i], &b[i]) {
            proof {
                assert(apps_view(a@)[i as int] != apps_view(b@)[i as int]);
            }
            return false;
        }
        i = i + 1;
    }
    proof {
        assert(apps_view(a@) =~= apps_view(b@));
    }
    true
}

/// The applications service's broadcast channel: the aggregate channel a
/// subscriber watches for any change to the enumerated list.
pub struct ApplicationSender {
    pub changed: crate::bus::Channel<ApplicationsData>,
}

impl ApplicationSender {
    pub fn new() -> (r: ApplicationSender)
        ensures
            r.changed@.wf(),
            r.changed@.published() == 0,
            r.changed@.capacity == 30,
    {
        ApplicationSender { changed: crate::bus::Channel::new(30) }
    }
}

/// The applications service: its snapshot store and its channel.  The
/// filesystem watch on the desktop-file directories lives with the
/// transport; on each of its wakeups the transport re-enumerates the
/// desktop files and hands the fresh records to [`Self::handle_event`].
pub struct ApplicationService {
    pub data: crate::store::Store<ApplicationsData>,
    pub sender: ApplicationSender,
}

impl ApplicationService {
    pub open spec fn wf(self) -> bool {
        self.data.wf() && self.sender.changed@.wf()
    }

    pub fn new(data: ApplicationsData) -> (r: ApplicationService)
        ensures
            r.wf(),
            r.data.value().apps@ == data.apps@,
            r.sender.changed@.published() == 0,
    {
        let d = ApplicationsData { apps: data.apps };
        ApplicationService { data: crate::store::Store::new(d), sender: ApplicationSender::new() }
    }

    /// One re-synchronization pass: replace the snapshot with the fresh
    /// enumeration, carrying the in-memory usage counts over by name, and
    /// publish once on the aggregate channel exactly when the merged list
    /// observably differs from the stored one.  Persisting the merged
    /// counts afterwards is the caller's concern.
    pub fn handle_event(&mut self, fresh: Vec<Application>) -> (published: bool)
        requires
            old(self).wf(),
            old(self).sender.changed@.published() < u64::MAX,
        ensures
            final(self).wf(),
            apps_view(final(self).data.value().apps@) == spec_update_all(
                apps_view(old(self).data.value().apps@),
                apps_view(fresh@),
            ),
            published == (spec_update_all(
                apps_view(old(self).data.value().apps@),
                apps_view(fresh@),
            ) != apps_view(old(self).data.value().apps@)),
            final(self).sender.changed@.published() == old(self).sender.changed@.published() + (
            if published {
                1int
            } else {
                0int
            }),
            published ==> final(self).sender.changed@.entry(
                old(self).sender.changed@.published(),
            ).apps@ == final(self).data.value().apps@,
            !published ==> final(self).sender.changed@ == old(self).sender.changed@,
    {
        let mut d = self.data.read().clone();
        d.update_all(fresh);
        if apps_list_eq(&d.apps, &self.data.read().apps) {
            return false;
        }
        self.data.write(d);
        self.sender.changed.publish(self.data.read().clone());
        true
    }
}

/// One enumerated desktop file: its path and its raw bytes.
#[derive(Debug)]
pub struct DesktopFile {
    pub path: String,
    pub bytes: Vec<u8>,
}

pub ghost struct DesktopFileView {
    pub path: Seq<char>,
    pub bytes: Seq<u8>,
}

impl View for DesktopFile {
    type V = DesktopFileView;

    open spec fn view(&self) -> DesktopFileView {
        DesktopFileView { path: self.path@, bytes: self.bytes@ }
    }
}

/// The application records a list of desktop files yields, in order.
pub open spec fn spec_apps_from(files: Seq<DesktopFileView>) -> Seq<ApplicationView>
    decreases files.len(),
{
    if files.len() == 0 {
        Seq::empty()
    } else {
        spec_apps_from(files.drop_last()) + match spec_application_from(
            files.last().path,
            files.last().bytes,
        ) {
            Ok(av) => seq![av],
            Err(_) => Seq::empty(),
        }
    }
}

} // verus!

