//! Configuration: language entries by file extension, and how layered
//! configuration files combine into one.

use crate::error::{Error, ErrorView};
use crate::text::texts;
use vstd::prelude::*;

verus! {

/// How to build and execute the files of one extension.
#[derive(Clone, Debug, PartialEq, Eq)]
pub struct LanguageConfig {
    compile_commands: Vec<String>,
    run_command: String,
}

/// The mathematical content of a [`LanguageConfig`].
pub ghost struct LanguageEntry {
    /// The compile command templates, in the order in which they are applied.
    pub compile_commands: Seq<Seq<char>>,
    /// The run command template.
    pub run_command: Seq<char>,
}

/// Copies a list of strings.
fn copy_texts(list: &Vec<String>) -> (copy: Vec<String>)
    ensures
        texts(copy@) == texts(list@),
{
    let mut copy: Vec<String> = Vec::new();
    let mut i: usize = 0;
    while i < list.len()
        invariant
            i <= list.len(),
            copy.len() == i,
            forall|j: int| 0 <= j < i ==> copy[j]@ == list[j]@,
        decreases list.len() - i,
    {
        copy.push(list[i].clone());
        i += 1;
    }
    assert(texts(copy@) =~= texts(list@));
    copy
}

impl View for LanguageConfig {
    type V = LanguageEntry;

    closed spec fn view(&self) -> LanguageEntry {
        LanguageEntry {
            compile_commands: texts(self.compile_commands@),
            run_command: self.run_command@,
        }
    }
}

impl LanguageConfig {
    /// An entry with the given templates.
    pub fn new(compile_commands: Vec<String>, run_command: String) -> (entry: LanguageConfig)
        ensures
            entry@ == (LanguageEntry {
                compile_commands: texts(compile_commands@),
                run_command: run_command@,
            }),
    {
        LanguageConfig { compile_commands, run_command }
    }

    /// The compile command templates, in order.
    pub fn compile_commands(&self) -> (list: &Vec<String>)
        ensures
            texts(list@) == self@.compile_commands,
    {
        &self.compile_commands
    }

    /// The run command template.
    pub fn run_command(&self) -> (template: &String)
        ensures
            template@ == self@.run_command,
    {
        &self.run_command
    }

    /// A copy with the same templates.
    pub fn duplicate(&self) -> (copy: LanguageConfig)
        ensures
            copy@ == self@,
    {
        LanguageConfig {
            compile_commands: copy_texts(&self.compile_commands),
            run_command: self.run_command.clone(),
        }
    }
}

/// The language table of one invocation, with the optional template for a
/// default input source.
#[derive(Clone, Debug, PartialEq, Eq)]
pub struct Config {
    langs: Vec<(String, LanguageConfig)>,
    default_stdin: Option<String>,
}

/// The mathematical content of a [`Config`].
pub ghost struct ConfigView {
    /// The entry of each configured extension (written without a leading dot).
    pub langs: Map<Seq<char>, LanguageEntry>,
    /// The template of the default input source, where one is set.
    pub default_stdin: Option<Seq<char>>,
}

impl ConfigView {
    /// The configuration that defines nothing.
    pub open spec fn empty() -> ConfigView {
        ConfigView { langs: Map::empty(), default_stdin: None }
    }

    /// This configuration with `extension` bound to `entry`, unless it is
    /// bound already: the first assignment wins.
    pub open spec fn define(self, extension: Seq<char>, entry: LanguageEntry) -> ConfigView {
        if self.langs.contains_key(extension) {
            self
        } else {
            ConfigView { langs: self.langs.insert(extension, entry), ..self }
        }
    }

    /// This configuration with `template` as its default input source, unless
    /// it has one already.
    pub open spec fn offer_default_stdin(self, template: Seq<char>) -> ConfigView {
        if self.default_stdin is Some {
            self
        } else {
            ConfigView { default_stdin: Some(template), ..self }
        }
    }

    /// This configuration completed by a farther one: what is defined here
    /// stays, what is defined only in `farther` is added.
    pub open spec fn absorb(self, farther: ConfigView) -> ConfigView {
        ConfigView {
            langs: farther.langs.union_prefer_right(self.langs),
            default_stdin: if self.default_stdin is Some {
                self.default_stdin
            } else {
                farther.default_stdin
            },
        }
    }
}

/// The table that a list of bindings stands for. Where an extension occurs
/// twice, the earlier binding counts.
pub open spec fn table(bindings: Seq<(Seq<char>, LanguageEntry)>) -> Map<Seq<char>, LanguageEntry>
    decreases bindings.len(),
{
    if bindings.len() == 0 {
        Map::empty()
    } else {
        let earlier = table(bindings.drop_last());
        let (extension, entry) = bindings.last();
        if earlier.contains_key(extension) {
            earlier
        } else {
            earlier.insert(extension, entry)
        }
    }
}

/// An extension that no binding names is not in the table.
pub proof fn lemma_table_absent(bindings: Seq<(Seq<char>, LanguageEntry)>, extension: Seq<char>)
    requires
        forall|i: int| 0 <= i < bindings.len() ==> (#[trigger] bindings[i]).0 != extension,
    ensures
        !table(bindings).contains_key(extension),
    decreases bindings.len(),
{
    if bindings.len() > 0 {
        let shorter = bindings.drop_last();
        assert forall|i: int| 0 <= i < shorter.len() implies (#[trigger] shorter[i]).0
            != extension by {
            assert(shorter[i] == bindings[i]);
        }
        lemma_table_absent(shorter, extension);
    }
}

/// The table holds, for an extension, the entry of the first binding that
/// names it.
pub proof fn lemma_table_first(
    bindings: Seq<(Seq<char>, LanguageEntry)>,
    at: int,
    extension: Seq<char>,
)
    requires
        0 <= at < bindings.len(),
        bindings[at].0 == extension,
        forall|i: int| 0 <= i < at ==> (#[trigger] bindings[i]).0 != extension,
    ensures
        table(bindings).contains_key(extension),
        table(bindings)[extension] == bindings[at].1,
    decreases bindings.len(),
{
    let shorter = bindings.drop_last();
    if at == bindings.len() - 1 {
        assert forall|i: int| 0 <= i < shorter.len() implies (#[trigger] shorter[i]).0
            != extension by {
            assert(shorter[i] == bindings[i]);
        }
        lemma_table_absent(shorter, extension);
    } else {
        assert(shorter[at] == bindings[at]);
        assert forall|i: int| 0 <= i < at implies (#[trigger] shorter[i]).0 != extension by {
            assert(shorter[i] == bindings[i]);
        }
        lemma_table_first(shorter, at, extension);
    }
}

impl Config {
    /// The bindings as they are stored, oldest first.
    pub closed spec fn bindings(&self) -> Seq<(Seq<char>, LanguageEntry)> {
        Seq::new(self.langs@.len(), |i: int| (self.langs@[i].0@, self.langs@[i].1@))
    }

    /// No extension is bound twice. Every configuration that this module
    /// hands out is well formed.
    pub closed spec fn well_formed(&self) -> bool {
        forall|i: int, j: int|
            0 <= i < j < self.langs@.len() ==> self.langs@[i].0@ != self.langs@[j].0@
    }
}

impl View for Config {
    type V = ConfigView;

    closed spec fn view(&self) -> ConfigView {
        ConfigView {
            langs: table(self.bindings()),
            default_stdin: match self.default_stdin {
                Some(template) => Some(template@),
                None => None,
            },
        }
    }
}

impl Config {
    /// A configuration that defines nothing.
    pub fn new() -> (config: Config)
        ensures
            config@ == ConfigView::empty(),
            config.well_formed(),
    {
        let config = Config { langs: Vec::new(), default_stdin: None };
        assert(config.bindings() =~= Seq::empty());
        config
    }

    /// Where `extension` is bound among the stored bindings.
    fn position(&self, extension: &String) -> (found: Option<usize>)
        ensures
            match found {
                Some(at) => at < self.langs@.len() && self.langs@[at as int].0@ == extension@
                    && self@.langs.contains_key(extension@) && self@.langs[extension@]
                    == self.langs@[at as int].1@,
                None => !self@.langs.contains_key(extension@),
            },
    {
        let mut i: usize = 0;
        while i < self.langs.len()
            invariant
                i <= self.langs@.len(),
                forall|j: int| 0 <= j < i ==> self.langs@[j].0@ != extension@,
            decreases self.langs@.len() - i,
        {
            if self.langs[i].0 == *extension {
                proof {
                    let bindings = self.bindings();
                    assert forall|j: int| 0 <= j < i implies (#[trigger] bindings[j]).0
                        != extension@ by {}
                    lemma_table_first(bindings, i as int, extension@);
                }
                return Some(i);
            }
            i += 1;
        }
        proof {
            let bindings = self.bindings();
            assert forall|j: int| 0 <= j < bindings.len() implies (#[trigger] bindings[j]).0
                != extension@ by {}
            lemma_table_absent(bindings, extension@);
        }
        None
    }

    /// The entry configured for `extension`, if there is one.
    pub fn get(&self, extension: &String) -> (entry: Option<&LanguageConfig>)
        ensures
            match entry {
                Some(language) => self@.langs.contains_key(extension@) && language@
                    == self@.langs[extension@],
                None => !self@.langs.contains_key(extension@),
            },
    {
        match self.position(extension) {
            Some(at) => Some(&self.langs[at].1),
            None => None,
        }
    }

    /// Whether an entry is configured for `extension`.
    pub fn contains(&self, extension: &String) -> (known: bool)
        ensures
            known == self@.langs.contains_key(extension@),
    {
        self.position(extension).is_some()
    }

    /// The template of the default input source, where one is set.
    pub fn default_stdin(&self) -> (template: Option<&String>)
        ensures
            match template {
                Some(text) => self@.default_stdin == Some(text@),
                None => self@.default_stdin is None,
            },
    {
        self.default_stdin.as_ref()
    }

    /// Binds `extension` to `language` unless it is bound already, and says
    /// whether the binding was added.
    pub fn define(&mut self, extension: String, language: LanguageConfig) -> (added: bool)
        ensures
            final(self)@ == old(self)@.define(extension@, language@),
            added == !old(self)@.langs.contains_key(extension@),
            old(self).well_formed() ==> final(self).well_formed(),
    {
        if self.position(&extension).is_some() {
            return false;
        }
        let ghost before = self.bindings();
        proof {
            assert forall|i: int| 0 <= i < self.langs@.len() implies self.langs@[i].0@
                != extension@ by {
                lemma_table_present(before, i);
            }
        }
        self.langs.push((extension, language));
        proof {
            assert(self.bindings().drop_last() =~= before);
            assert(self.bindings().last() == (extension@, language@));
        }
        true
    }

    /// Sets the default input source unless one is set already.
    pub fn offer_default_stdin(&mut self, template: String)
        ensures
            final(self)@ == old(self)@.offer_default_stdin(template@),
            old(self).well_formed() ==> final(self).well_formed(),
    {
        let ghost before = self.bindings();
        if self.default_stdin.is_none() {
            self.default_stdin = Some(template);
        }
        assert(self.bindings() =~= before);
    }
}

impl Config {
    /// Completes this configuration by a farther one: what is defined here
    /// stays, what only `farther` defines is added.
    pub fn merge(&mut self, farther: &Config)
        ensures
            final(self)@ == old(self)@.absorb(farther@),
            old(self).well_formed() ==> final(self).well_formed(),
    {
        let ghost near = self@;
        let ghost started_well = self.well_formed();
        let ghost added = farther.bindings();
        let mut i: usize = 0;
        while i < farther.langs.len()
            invariant
                i <= farther.langs@.len(),
                added == farther.bindings(),
                self@.langs == table(added.take(i as int)).union_prefer_right(near.langs),
                self@.default_stdin == near.default_stdin,
                started_well ==> self.well_formed(),
            decreases farther.langs@.len() - i,
        {
            let extension = farther.langs[i].0.clone();
            let language = farther.langs[i].1.duplicate();
            proof {
                assert(added.take(i + 1).drop_last() =~= added.take(i as int));
                assert(added.take(i + 1).last() == (extension@, language@));
            }
            self.define(extension, language);
            i += 1;
            assert(self@.langs =~= table(added.take(i as int)).union_prefer_right(near.langs));
        }
        assert(added.take(i as int) =~= added);
        let ghost bindings = self.bindings();
        if self.default_stdin.is_none() {
            if let Some(template) = &farther.default_stdin {
                self.default_stdin = Some(template.clone());
            }
        }
        assert(self.bindings() =~= bindings);
    }
}

/// What was found where one ancestor directory would keep its configuration
/// file.
#[derive(Clone, Debug, PartialEq, Eq)]
pub enum ConfigSource {
    /// The directory has no configuration file.
    Absent,
    /// The file at `path` exists and could not be read.
    Unreadable { path: String },
    /// The file at `path` was read and is malformed.
    Malformed { path: String },
    /// The file was read and holds `config`.
    Parsed { config: Config },
}

/// The mathematical content of a [`ConfigSource`].
pub ghost enum ConfigSourceView {
    Absent,
    Unreadable { path: Seq<char> },
    Malformed { path: Seq<char> },
    Parsed { config: ConfigView },
}

impl View for ConfigSource {
    type V = ConfigSourceView;

    open spec fn view(&self) -> ConfigSourceView {
        match self {
            ConfigSource::Absent => ConfigSourceView::Absent,
            ConfigSource::Unreadable { path } => ConfigSourceView::Unreadable { path: path@ },
            ConfigSource::Malformed { path } => ConfigSourceView::Malformed { path: path@ },
            ConfigSource::Parsed { config } => ConfigSourceView::Parsed { config: config@ },
        }
    }
}

impl ConfigSourceView {
    /// The failure that this source causes, if it causes one.
    pub open spec fn failure(self) -> Option<ErrorView> {
        match self {
            ConfigSourceView::Unreadable { path } => Some(ErrorView::ConfigIo { path }),
            ConfigSourceView::Malformed { path } => Some(ErrorView::ConfigParse { path }),
            _ => None,
        }
    }

    /// Whether this source holds a configuration that binds `extension`.
    pub open spec fn defines(self, extension: Seq<char>) -> bool {
        self matches ConfigSourceView::Parsed { config } && config.langs.contains_key(extension)
    }
}

/// The contents of a list of sources, in order.
pub open spec fn source_views(sources: Seq<ConfigSource>) -> Seq<ConfigSourceView> {
    Seq::new(sources.len(), |i: int| sources[i]@)
}

/// The configuration that the first sources of a walk have given, with one
/// more source taken in.
pub open spec fn take_in(so_far: ConfigView, source: ConfigSourceView) -> Result<
    ConfigView,
    ErrorView,
> {
    match source {
        ConfigSourceView::Absent => Ok(so_far),
        ConfigSourceView::Unreadable { path } => Err(ErrorView::ConfigIo { path }),
        ConfigSourceView::Malformed { path } => Err(ErrorView::ConfigParse { path }),
        ConfigSourceView::Parsed { config } => Ok(so_far.absorb(config)),
    }
}

/// The configuration resolved from `sources`, which are listed from the
/// working directory outwards: an ordered fold in which a nearer definition
/// is never overridden, and which stops at the first source that fails.
pub open spec fn resolved(sources: Seq<ConfigSourceView>) -> Result<ConfigView, ErrorView>
    decreases sources.len(),
{
    if sources.len() == 0 {
        Ok(ConfigView::empty())
    } else {
        match resolved(sources.drop_last()) {
            Ok(so_far) => take_in(so_far, sources.last()),
            Err(e) => Err(e),
        }
    }
}

/// A failure among the first sources is the failure of the whole walk.
pub proof fn lemma_failure_is_final(sources: Seq<ConfigSourceView>, n: int)
    requires
        0 <= n <= sources.len(),
        resolved(sources.take(n)) is Err,
    ensures
        resolved(sources) == resolved(sources.take(n)),
    decreases sources.len() - n,
{
    if n < sources.len() {
        assert(sources.take(n + 1).drop_last() =~= sources.take(n));
        lemma_failure_is_final(sources, n + 1);
    } else {
        assert(sources.take(n) =~= sources);
    }
}

/// Resolves the configuration of one invocation from what was found in the
/// working directory and in each of its ancestors, nearest first.
///
/// Directories without a configuration file are passed over. The first
/// source that could not be read or is malformed fails the resolution, with
/// its path. Otherwise each extension gets the entry of the nearest source
/// that defines it, and the default input source is the nearest one set.
pub fn load_config(sources: &Vec<ConfigSource>) -> (result: Result<Config, Error>)
    ensures
        match result {
            Ok(config) => resolved(source_views(sources@)) == Ok::<ConfigView, ErrorView>(config@)
                && config.well_formed(),
            Err(e) => resolved(source_views(sources@)) == Err::<ConfigView, ErrorView>(e@),
        },
{
    let ghost all = source_views(sources@);
    let mut config = Config::new();
    let mut i: usize = 0;
    assert(all.take(0) =~= Seq::empty());
    while i < sources.len()
        invariant
            i <= sources@.len(),
            all == source_views(sources@),
            resolved(all.take(i as int)) == Ok::<ConfigView, ErrorView>(config@),
            config.well_formed(),
        decreases sources@.len() - i,
    {
        proof {
            assert(all.take(i + 1).drop_last() =~= all.take(i as int));
            assert(all.take(i + 1).last() == sources@[i as int]@);
        }
        match &sources[i] {
            ConfigSource::Absent => {},
            ConfigSource::Unreadable { path } => {
                proof {
                    lemma_failure_is_final(all, i + 1);
                }
                return Err(Error::ConfigIo { path: path.clone() });
            },
            ConfigSource::Malformed { path } => {
                proof {
                    lemma_failure_is_final(all, i + 1);
                }
                return Err(Error::ConfigParse { path: path.clone() });
            },
            ConfigSource::Parsed { config: found } => {
                config.merge(found);
            },
        }
        i += 1;
    }
    assert(all.take(i as int) =~= all);
    Ok(config)
}

/// Where two configurations both define an extension, completing the nearer
/// one by the farther one leaves the nearer entry in place.
pub proof fn lemma_nearer_definition_wins(
    nearer: ConfigView,
    farther: ConfigView,
    extension: Seq<char>,
)
    requires
        nearer.langs.contains_key(extension),
        farther.langs.contains_key(extension),
    ensures
        nearer.absorb(farther).langs.contains_key(extension),
        nearer.absorb(farther).langs[extension] == nearer.langs[extension],
{
}

/// An extension that no source defines is not in the resolved configuration.
pub proof fn lemma_undefined_stays_undefined(
    sources: Seq<ConfigSourceView>,
    extension: Seq<char>,
)
    requires
        resolved(sources) is Ok,
        forall|k: int| 0 <= k < sources.len() ==> !(#[trigger] sources[k]).defines(extension),
    ensures
        !resolved(sources)->Ok_0.langs.contains_key(extension),
    decreases sources.len(),
{
    if sources.len() > 0 {
        let shorter = sources.drop_last();
        assert forall|k: int| 0 <= k < shorter.len() implies !(#[trigger] shorter[k]).defines(
            extension,
        ) by {
            assert(shorter[k] == sources[k]);
        }
        lemma_undefined_stays_undefined(shorter, extension);
        assert(!sources[sources.len() - 1].defines(extension));
    }
}

/// In a walk that succeeds, an extension has the entry of the nearest source
/// that defines it, whatever the farther sources say of it.
pub proof fn lemma_nearest_definition_wins(
    sources: Seq<ConfigSourceView>,
    at: int,
    extension: Seq<char>,
)
    requires
        resolved(sources) is Ok,
        0 <= at < sources.len(),
        sources[at].defines(extension),
        forall|k: int| 0 <= k < at ==> !(#[trigger] sources[k]).defines(extension),
    ensures
        resolved(sources)->Ok_0.langs.contains_key(extension),
        resolved(sources)->Ok_0.langs[extension] == sources[at]->config.langs[extension],
    decreases sources.len(),
{
    let shorter = sources.drop_last();
    if at == sources.len() - 1 {
        assert forall|k: int| 0 <= k < shorter.len() implies !(#[trigger] shorter[k]).defines(
            extension,
        ) by {
            assert(shorter[k] == sources[k]);
        }
        lemma_undefined_stays_undefined(shorter, extension);
    } else {
        assert(shorter[at] == sources[at]);
        assert forall|k: int| 0 <= k < at implies !(#[trigger] shorter[k]).defines(extension) by {
            assert(shorter[k] == sources[k]);
        }
        lemma_nearest_definition_wins(shorter, at, extension);
    }
}

/// A walk fails exactly when one of its sources does, and then with the
/// failure of the nearest such source.
pub proof fn lemma_first_failure_decides(sources: Seq<ConfigSourceView>)
    ensures
        resolved(sources) is Ok <==> forall|k: int|
            0 <= k < sources.len() ==> (#[trigger] sources[k]).failure() is None,
        resolved(sources) is Err ==> exists|at: int|
            0 <= at < sources.len() && (#[trigger] sources[at]).failure() == Some(
                resolved(sources)->Err_0,
            ) && forall|k: int| 0 <= k < at ==> (#[trigger] sources[k]).failure() is None,
    decreases sources.len(),
{
    if sources.len() > 0 {
        let shorter = sources.drop_last();
        lemma_first_failure_decides(shorter);
        assert forall|k: int| 0 <= k < shorter.len() implies shorter[k] == sources[k] by {}
        if resolved(shorter) is Err {
            let at = choose|at: int|
                0 <= at < shorter.len() && (#[trigger] shorter[at]).failure() == Some(
                    resolved(shorter)->Err_0,
                ) && forall|k: int| 0 <= k < at ==> (#[trigger] shorter[k]).failure() is None;
            assert(sources[at] == shorter[at]);
            assert forall|k: int| 0 <= k < at implies (#[trigger] sources[k]).failure()
                is None by {
                assert(shorter[k] == sources[k]);
            }
        } else {
            let last = sources.len() - 1;
            assert forall|k: int| 0 <= k < last implies (#[trigger] sources[k]).failure()
                is None by {
                assert(shorter[k] == sources[k]);
            }
            if resolved(sources) is Err {
                assert(sources[last].failure() == Some(resolved(sources)->Err_0));
            }
        }
    }
}

/// Every extension that a binding names is in the table.
pub proof fn lemma_table_present(bindings: Seq<(Seq<char>, LanguageEntry)>, at: int)
    requires
        0 <= at < bindings.len(),
    ensures
        table(bindings).contains_key(bindings[at].0),
    decreases bindings.len(),
{
    if at < bindings.len() - 1 {
        assert(bindings.drop_last()[at] == bindings[at]);
        lemma_table_present(bindings.drop_last(), at);
    }
}

} // verus!
